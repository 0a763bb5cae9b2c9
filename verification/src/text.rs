//! Text primitives: decimal numbers and separator-delimited fields.
//!
//! Every function here works on a sequence of characters and is specified
//! against a mathematical model of that sequence.

use vstd::prelude::*;
use vstd::std_specs::iter::IteratorSpec;

verus! {

/// Whether `c` is one of the ten ASCII decimal digits.
pub open spec fn is_digit(c: char) -> bool {
    '0' <= c && c <= '9'
}

/// The number that the decimal digit `c` stands for.
pub open spec fn digit_value(c: char) -> nat {
    (c as int - 48) as nat
}

/// The decimal digit that stands for `d`, for `d < 10`.
pub open spec fn digit_char(d: nat) -> char {
    (d + 48) as char
}

/// Whether every character of `s` is a decimal digit.
pub open spec fn all_digits(s: Seq<char>) -> bool {
    forall|i: int| 0 <= i < s.len() ==> is_digit(#[trigger] s[i])
}

/// The number written by the digit string `s`, most significant digit first.
pub open spec fn digits_value(s: Seq<char>) -> nat
    decreases s.len(),
{
    if s.len() == 0 {
        0
    } else {
        digits_value(s.drop_last()) * 10 + digit_value(s.last())
    }
}

/// The digits of an unsigned number text: the text without one optional
/// leading plus sign.
pub open spec fn unsigned_digits(s: Seq<char>) -> Seq<char> {
    if s.len() > 0 && s[0] == '+' {
        s.subrange(1, s.len() as int)
    } else {
        s
    }
}

/// The value of `s` read as an unsigned 8-bit decimal number: an optional
/// plus sign followed by at least one digit, nothing else, and a value of at
/// most 255. Leading zeros are accepted.
pub open spec fn parse_u8(s: Seq<char>) -> Option<u8> {
    let digits = unsigned_digits(s);
    if digits.len() > 0 && all_digits(digits) && digits_value(digits) <= 255 {
        Some(digits_value(digits) as u8)
    } else {
        None
    }
}

/// The shortest decimal text of `n`.
pub open spec fn decimal_text(n: nat) -> Seq<char>
    decreases n,
{
    if n < 10 {
        seq![digit_char(n)]
    } else {
        decimal_text(n / 10).push(digit_char(n % 10))
    }
}

/// The position of the first `c` in `s`, or the length of `s` if there is none.
pub open spec fn first_index(s: Seq<char>, c: char) -> int
    decreases s.len(),
{
    if s.len() == 0 {
        0
    } else if s[0] == c {
        0
    } else {
        1 + first_index(s.subrange(1, s.len() as int), c)
    }
}

/// The fields of `s` between occurrences of `sep`. A text without `sep` is
/// one field; two adjacent separators enclose an empty field.
pub open spec fn split(s: Seq<char>, sep: char) -> Seq<Seq<char>>
    decreases s.len(),
{
    let i = first_index(s, sep);
    if 0 <= i < s.len() {
        seq![s.subrange(0, i)] + split(s.subrange(i + 1, s.len() as int), sep)
    } else {
        seq![s]
    }
}

/// The two parts of `s` around its first `sep`, if it has one.
pub open spec fn split_once(s: Seq<char>, sep: char) -> Option<(Seq<char>, Seq<char>)> {
    let i = first_index(s, sep);
    if 0 <= i < s.len() {
        Some((s.subrange(0, i), s.subrange(i + 1, s.len() as int)))
    } else {
        None
    }
}

/// `first_index` is within bounds and names the first occurrence.
pub proof fn lemma_first_index(s: Seq<char>, c: char)
    ensures
        0 <= first_index(s, c) <= s.len(),
        first_index(s, c) < s.len() ==> s[first_index(s, c)] == c,
        forall|k: int| 0 <= k < first_index(s, c) ==> s[k] != c,
    decreases s.len(),
{
    if s.len() > 0 && s[0] != c {
        let rest = s.subrange(1, s.len() as int);
        lemma_first_index(rest, c);
        assert forall|k: int| 0 <= k < first_index(s, c) implies s[k] != c by {
            if k > 0 {
                assert(rest[k - 1] == s[k]);
            }
        }
    }
}

/// A position that holds `c`, or the end, with no `c` before it, is the
/// first index of `c`.
pub proof fn lemma_first_index_is(s: Seq<char>, c: char, j: int)
    requires
        0 <= j <= s.len(),
        j < s.len() ==> s[j] == c,
        forall|k: int| 0 <= k < j ==> s[k] != c,
    ensures
        first_index(s, c) == j,
{
    lemma_first_index(s, c);
    let i = first_index(s, c);
    if i < j {
        assert(s[i] == c);
    }
}

/// Copies the characters of `s` into a vector.
pub fn to_chars(s: &str) -> (chars: Vec<char>)
    ensures
        chars@ == s@,
{
    broadcast use {vstd::string::axiom_spec_iter, vstd::string::next_postcondition};

    let mut chars: Vec<char> = Vec::new();
    let mut rest = s.chars();
    loop
        invariant
            chars@ + rest.remaining() == s@,
        decreases s@.len() - chars@.len(),
    {
        let ghost before = rest.remaining();
        match rest.next() {
            Some(c) => {
                chars.push(c);
                assert(chars@ + rest.remaining() =~= s@) by {
                    assert(before =~= seq![c] + before.drop_first());
                }
            },
            None => {
                assert(chars@ =~= s@);
                return chars;
            },
        }
    }
}

/// Finds the first `c` in `chars[from..to]`. Returns its position, or `to`
/// if there is none.
pub fn find_char(chars: &Vec<char>, from: usize, to: usize, c: char) -> (at: usize)
    requires
        from <= to <= chars.len(),
    ensures
        at == from + first_index(chars@.subrange(from as int, to as int), c),
        from <= at <= to,
        at < to ==> chars@[at as int] == c,
        forall|k: int| from <= k < at ==> chars@[k] != c,
{
    let mut i: usize = from;
    while i < to && chars[i] != c
        invariant
            from <= i <= to <= chars.len(),
            forall|k: int| from <= k < i ==> chars@[k] != c,
        decreases to - i,
    {
        i += 1;
    }
    proof {
        lemma_first_index_is(chars@.subrange(from as int, to as int), c, i - from);
    }
    i
}

/// Reads `chars[from..to]` as an unsigned 8-bit decimal number.
pub fn read_u8(chars: &Vec<char>, from: usize, to: usize) -> (value: Option<u8>)
    requires
        from <= to <= chars.len(),
    ensures
        value == parse_u8(chars@.subrange(from as int, to as int)),
{
    let ghost text = chars@.subrange(from as int, to as int);
    let start: usize = if from < to && chars[from] == '+' {
        from + 1
    } else {
        from
    };
    let ghost digits = chars@.subrange(start as int, to as int);
    assert(digits =~= unsigned_digits(text));
    if start == to {
        return None;
    }
    let mut value: u32 = 0;
    let mut i: usize = start;
    while i < to
        invariant
            start <= i <= to <= chars.len(),
            from <= start,
            digits == chars@.subrange(start as int, to as int),
            digits == unsigned_digits(chars@.subrange(from as int, to as int)),
            all_digits(digits.subrange(0, i - start)),
            value == digits_value(digits.subrange(0, i - start)),
            value <= 255,
        decreases to - i,
    {
        let c: char = chars[i];
        if !('0' <= c && c <= '9') {
            assert(!is_digit(digits[i - start]));
            return None;
        }
        let d: u32 = c as u32 - 48;
        let ghost before = digits.subrange(0, i - start);
        let ghost upto = digits.subrange(0, i - start + 1);
        assert(upto.drop_last() =~= before);
        assert(upto.last() == c);
        assert(all_digits(upto));
        let next: u32 = value * 10 + d;
        if next > 255 {
            proof {
                lemma_digits_value_prefix(digits, i - start + 1);
            }
            return None;
        }
        value = next;
        i += 1;
    }
    assert(digits.subrange(0, to - start) =~= digits);
    Some(value as u8)
}

/// A digit string is worth at least as much as each of its prefixes.
pub proof fn lemma_digits_value_prefix(s: Seq<char>, n: int)
    requires
        0 <= n <= s.len(),
    ensures
        digits_value(s.subrange(0, n)) <= digits_value(s),
    decreases s.len(),
{
    if n == s.len() {
        assert(s.subrange(0, n) =~= s);
    } else {
        lemma_digits_value_prefix(s.drop_last(), n);
        assert(s.drop_last().subrange(0, n) =~= s.subrange(0, n));
    }
}

/// Whether `s` is the shortest decimal text of a number: digits only, at
/// least one, and no leading zero but in `0` itself.
pub open spec fn is_canonical(s: Seq<char>) -> bool {
    s.len() > 0 && all_digits(s) && (s.len() == 1 || s[0] != '0')
}

/// The fields put together again, with `sep` between neighbours.
pub open spec fn join(fields: Seq<Seq<char>>, sep: char) -> Seq<char>
    decreases fields.len(),
{
    if fields.len() == 0 {
        Seq::empty()
    } else if fields.len() == 1 {
        fields[0]
    } else {
        fields[0] + seq![sep] + join(fields.drop_first(), sep)
    }
}

/// The shortest decimal text of a number is canonical and is worth the
/// number.
pub proof fn lemma_decimal_text(n: nat)
    ensures
        is_canonical(decimal_text(n)),
        digits_value(decimal_text(n)) == n,
    decreases n,
{
    let t = decimal_text(n);
    if n < 10 {
        assert(t.drop_last() =~= Seq::<char>::empty());
        assert(digits_value(t.drop_last()) == 0);
    } else {
        lemma_decimal_text(n / 10);
        let head = decimal_text(n / 10);
        assert(t.drop_last() =~= head);
        assert(t[0] == head[0]);
        assert forall|i: int| 0 <= i < t.len() implies is_digit(#[trigger] t[i]) by {
            if i < head.len() {
                assert(t[i] == head[i]);
            }
        }
        if head.len() == 1 {
            assert(digits_value(head.drop_last()) == 0);
        }
    }
}

/// A number that starts with a digit other than zero is not zero.
pub proof fn lemma_digits_value_positive(s: Seq<char>)
    requires
        s.len() > 0,
        all_digits(s),
        s[0] != '0',
    ensures
        digits_value(s) >= 1,
{
    lemma_digits_value_prefix(s, 1);
    let first = s.subrange(0, 1);
    assert(first.drop_last() =~= Seq::<char>::empty());
    assert(digits_value(first.drop_last()) == 0);
    assert(first.last() == s[0]);
    assert(is_digit(s[0]));
}

/// A canonical text is the shortest decimal text of its value.
pub proof fn lemma_canonical_text(s: Seq<char>)
    requires
        is_canonical(s),
    ensures
        decimal_text(digits_value(s)) == s,
    decreases s.len(),
{
    let head = s.drop_last();
    let last = s.last();
    assert(is_digit(last));
    if s.len() == 1 {
        assert(digits_value(head) == 0);
        assert(decimal_text(digits_value(s)) =~= s);
    } else {
        assert(head[0] == s[0]);
        assert forall|i: int| 0 <= i < head.len() implies is_digit(#[trigger] head[i]) by {
            assert(head[i] == s[i]);
        }
        lemma_canonical_text(head);
        lemma_digits_value_positive(head);
        let v = digits_value(s);
        assert(v == digits_value(head) * 10 + digit_value(last));
        assert(v / 10 == digits_value(head));
        assert(v % 10 == digit_value(last));
        assert(digit_char(digit_value(last)) == last);
        assert(decimal_text(v) =~= s);
    }
}

/// Reading the shortest decimal text of a number up to 255 gives the number.
pub proof fn lemma_parse_decimal_text(n: u8)
    ensures
        parse_u8(decimal_text(n as nat)) == Some(n),
{
    lemma_decimal_text(n as nat);
    let t = decimal_text(n as nat);
    assert(is_digit(t[0]));
}

/// Reading a canonical text and writing the number gives the text again.
pub proof fn lemma_decimal_text_of_parsed(s: Seq<char>)
    requires
        is_canonical(s),
        parse_u8(s) is Some,
    ensures
        decimal_text(parse_u8(s)->Some_0 as nat) == s,
{
    assert(is_digit(s[0]));
    lemma_canonical_text(s);
}

/// A text without `sep` is one field.
pub proof fn lemma_split_plain(a: Seq<char>, sep: char)
    requires
        forall|i: int| 0 <= i < a.len() ==> a[i] != sep,
    ensures
        split(a, sep) == seq![a],
{
    lemma_first_index_is(a, sep, a.len() as int);
}

/// A text without `sep`, then `sep`, then more text: the first field is
/// the text before `sep`, and the fields of the rest follow.
pub proof fn lemma_split_joined(a: Seq<char>, b: Seq<char>, sep: char)
    requires
        forall|i: int| 0 <= i < a.len() ==> a[i] != sep,
    ensures
        split(a + seq![sep] + b, sep) == seq![a] + split(b, sep),
{
    let s = a + seq![sep] + b;
    lemma_first_index_is(s, sep, a.len() as int);
    assert(s.subrange(0, a.len() as int) =~= a);
    assert(s.subrange(a.len() as int + 1, s.len() as int) =~= b);
}

/// Every text has at least one field.
pub proof fn lemma_split_len(s: Seq<char>, sep: char)
    ensures
        split(s, sep).len() >= 1,
    decreases s.len(),
{
    lemma_first_index(s, sep);
    let i = first_index(s, sep);
    if i < s.len() {
        lemma_split_len(s.subrange(i + 1, s.len() as int), sep);
    }
}

/// Putting the fields of a text together again gives the text.
pub proof fn lemma_join_split(s: Seq<char>, sep: char)
    ensures
        join(split(s, sep), sep) == s,
    decreases s.len(),
{
    lemma_first_index(s, sep);
    let i = first_index(s, sep);
    if i < s.len() {
        let rest = s.subrange(i + 1, s.len() as int);
        lemma_join_split(rest, sep);
        lemma_split_len(rest, sep);
        let fields = split(s, sep);
        assert(fields.drop_first() =~= split(rest, sep));
        assert(fields[0] == s.subrange(0, i));
        assert(s.subrange(0, i) + seq![sep] + rest =~= s);
    }
}

/// The texts that the index pairs `fields` cut out of `chars`.
pub open spec fn field_texts(chars: Seq<char>, fields: Seq<(usize, usize)>) -> Seq<Seq<char>> {
    Seq::new(fields.len(), |i: int| chars.subrange(fields[i].0 as int, fields[i].1 as int))
}

/// Cuts `chars[from..to]` into its fields between occurrences of `sep`.
/// Each field comes back as the pair of its first index and the index after
/// its last: the first field starts at `from`, each later one behind the
/// separator that ends the one before it, and the last one ends at `to`.
pub fn split_fields(chars: &Vec<char>, from: usize, to: usize, sep: char) -> (fields: Vec<
    (usize, usize),
>)
    requires
        from <= to <= chars.len(),
    ensures
        field_texts(chars@, fields@) == split(chars@.subrange(from as int, to as int), sep),
        forall|i: int|
            0 <= i < fields@.len() ==> from <= (#[trigger] fields@[i]).0 <= fields@[i].1 <= to,
        fields@.len() >= 1,
        fields@[0].0 == from,
        fields@[fields@.len() - 1].1 == to,
        forall|i: int|
            0 <= i < fields@.len() - 1 ==> {
                &&& (#[trigger] fields@[i]).1 < to
                &&& chars@[fields@[i].1 as int] == sep
                &&& fields@[i + 1].0 == fields@[i].1 + 1
            },
{
    let ghost whole = split(chars@.subrange(from as int, to as int), sep);
    let mut fields: Vec<(usize, usize)> = Vec::new();
    let mut start: usize = from;
    let mut done: bool = false;
    assert(field_texts(chars@, fields@) + split(chars@.subrange(start as int, to as int), sep)
        =~= whole);
    while !done
        invariant
            from <= start <= to <= chars.len(),
            !done ==> whole == field_texts(chars@, fields@) + split(
                chars@.subrange(start as int, to as int),
                sep,
            ),
            done ==> whole == field_texts(chars@, fields@),
            forall|i: int|
                0 <= i < fields@.len() ==> from <= (#[trigger] fields@[i]).0 <= fields@[i].1 <= to,
            fields@.len() == 0 ==> !done && start == from,
            fields@.len() > 0 ==> fields@[0].0 == from,
            done ==> fields@[fields@.len() - 1].1 == to,
            !done && fields@.len() > 0 ==> {
                &&& fields@[fields@.len() - 1].1 < to
                &&& chars@[fields@[fields@.len() - 1].1 as int] == sep
                &&& start == fields@[fields@.len() - 1].1 + 1
            },
            forall|i: int|
                0 <= i < fields@.len() - 1 ==> {
                    &&& (#[trigger] fields@[i]).1 < to
                    &&& chars@[fields@[i].1 as int] == sep
                    &&& fields@[i + 1].0 == fields@[i].1 + 1
                },
        decreases (to - start) + (if done { 0int } else { 1int }),
    {
        let end: usize = find_char(chars, start, to, sep);
        let ghost rest = chars@.subrange(start as int, to as int);
        let ghost before = field_texts(chars@, fields@);
        fields.push((start, end));
        proof {
            let field = chars@.subrange(start as int, end as int);
            assert(field_texts(chars@, fields@) =~= before.push(field));
            assert(rest.subrange(0, end - start) =~= field);
            if end < to {
                assert(rest.subrange(end - start + 1, rest.len() as int) =~= chars@.subrange(
                    end + 1,
                    to as int,
                ));
                assert(before + (seq![field] + split(chars@.subrange(end + 1, to as int), sep))
                    =~= before.push(field) + split(chars@.subrange(end + 1, to as int), sep));
            } else {
                assert(rest.subrange(0, end - start) =~= rest);
                assert(before + seq![rest] =~= before.push(field));
            }
        }
        if end == to {
            done = true;
        } else {
            start = end + 1;
        }
    }
    fields
}

/// The one-character text of the decimal digit `d`.
pub fn digit_str(d: u8) -> (s: &'static str)
    requires
        d < 10,
    ensures
        s@ == seq![digit_char(d as nat)],
{
    let s: &'static str = if d == 0 {
        "0"
    } else if d == 1 {
        "1"
    } else if d == 2 {
        "2"
    } else if d == 3 {
        "3"
    } else if d == 4 {
        "4"
    } else if d == 5 {
        "5"
    } else if d == 6 {
        "6"
    } else if d == 7 {
        "7"
    } else if d == 8 {
        "8"
    } else {
        "9"
    };
    proof {
        reveal_strlit("0");
        reveal_strlit("1");
        reveal_strlit("2");
        reveal_strlit("3");
        reveal_strlit("4");
        reveal_strlit("5");
        reveal_strlit("6");
        reveal_strlit("7");
        reveal_strlit("8");
        reveal_strlit("9");
        assert(s@ =~= seq![digit_char(d as nat)]);
    }
    s
}

/// Appends the shortest decimal text of `n` to `out`.
pub fn push_decimal(out: &mut String, n: u128)
    ensures
        final(out)@ == old(out)@ + decimal_text(n as nat),
    decreases n,
{
    if n >= 10 {
        push_decimal(out, n / 10);
    }
    let d: u8 = (n % 10) as u8;
    out.append(digit_str(d));
    proof {
        if n >= 10 {
            assert(final(out)@ =~= old(out)@ + decimal_text(n as nat));
        } else {
            assert(final(out)@ =~= old(out)@ + decimal_text(n as nat));
        }
    }
}

/// The shortest decimal text of `n` as a string.
pub fn decimal_string(n: u128) -> (s: String)
    ensures
        s@ == decimal_text(n as nat),
{
    let mut s: String = String::new();
    push_decimal(&mut s, n);
    assert(s@ =~= decimal_text(n as nat));
    s
}

} // verus!
