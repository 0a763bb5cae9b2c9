//! IPv4 addresses: 32-bit values, their dotted-quad text and the bit
//! arithmetic of masks and ranges.

use crate::text::{
    decimal_text, field_texts, find_char, is_canonical, join, lemma_decimal_text,
    lemma_decimal_text_of_parsed, lemma_join_split, lemma_parse_decimal_text, lemma_split_joined,
    lemma_split_plain, parse_u8, push_decimal, read_u8, split, split_fields, split_once, to_chars,
};
use std::str::FromStr;
use vstd::prelude::*;
use vstd::std_specs::convert::FromSpecImpl;

verus! {

/// Why a text is not an IPv4 address.
#[derive(Debug, PartialEq, Eq, Clone, Copy, Structural)]
pub enum IpParseError {
    /// The text does not have exactly four dot-separated fields.
    InvalidFormat,
    /// A field is not a decimal number between 0 and 255.
    InvalidIp,
}

/// An IPv4 address as a 32-bit value, first octet most significant.
#[derive(Debug, PartialEq, Eq, Clone, Copy, Structural)]
pub struct IPv4 {
    pub address: u32,
}

/// The 32-bit value with the octets `o0` to `o3`, `o0` most significant.
pub open spec fn from_octets(o0: u8, o1: u8, o2: u8, o3: u8) -> u32 {
    (o0 as int * 0x100_0000 + o1 as int * 0x1_0000 + o2 as int * 0x100 + o3 as int) as u32
}

/// Octet `i` of `address`, counted from the most significant.
pub open spec fn octet(address: u32, i: int) -> u8 {
    if i == 0 {
        (address as int / 0x100_0000) as u8
    } else if i == 1 {
        (address as int / 0x1_0000 % 0x100) as u8
    } else if i == 2 {
        (address as int / 0x100 % 0x100) as u8
    } else {
        (address as int % 0x100) as u8
    }
}

/// The dotted-quad text of `address`: its four octets in decimal, without
/// leading zeros, separated by dots.
pub open spec fn dotted_quad(address: u32) -> Seq<char> {
    decimal_text(octet(address, 0) as nat) + seq!['.'] + decimal_text(octet(address, 1) as nat)
        + seq!['.'] + decimal_text(octet(address, 2) as nat) + seq!['.'] + decimal_text(
        octet(address, 3) as nat,
    )
}

/// What `s` means as a dotted-quad address. The number of fields is judged
/// before their contents.
pub open spec fn parse_ipv4(s: Seq<char>) -> Result<u32, IpParseError> {
    let fields = split(s, '.');
    if fields.len() != 4 {
        Err(IpParseError::InvalidFormat)
    } else if parse_u8(fields[0]) is None || parse_u8(fields[1]) is None || parse_u8(fields[2])
        is None || parse_u8(fields[3]) is None {
        Err(IpParseError::InvalidIp)
    } else {
        Ok(
            from_octets(
                parse_u8(fields[0])->Some_0,
                parse_u8(fields[1])->Some_0,
                parse_u8(fields[2])->Some_0,
                parse_u8(fields[3])->Some_0,
            ),
        )
    }
}

/// The 32-bit mask whose top `prefix` bits are set.
pub open spec fn mask32(prefix: u8) -> u32 {
    if prefix == 0 {
        0u32
    } else if prefix >= 32 {
        0xFFFF_FFFFu32
    } else {
        0xFFFF_FFFFu32 << ((32 - prefix) as u32)
    }
}

/// The bits below a prefix of `prefix` bits, all set.
pub open spec fn host_span32(prefix: u8) -> u32 {
    if prefix >= 32 {
        0u32
    } else {
        0xFFFF_FFFFu32 >> (prefix as u32)
    }
}

/// `a + b` on 32 bits, dropping the carry.
pub open spec fn wrapping_sum32(a: u32, b: u32) -> u32 {
    ((a as int + b as int) % 0x1_0000_0000) as u32
}

/// `a - b` on 32 bits, borrowing from above.
pub open spec fn wrapping_diff32(a: u32, b: u32) -> u32 {
    ((a as int - b as int) % 0x1_0000_0000) as u32
}

/// The last address of the block that starts at `network`.
pub open spec fn broadcast32(network: u32, prefix: u8) -> u32 {
    wrapping_sum32(network, host_span32(prefix))
}

/// The address after `network`.
pub open spec fn first_usable32(network: u32) -> u32 {
    wrapping_sum32(network, 1)
}

/// The address before the broadcast address.
pub open spec fn last_usable32(network: u32, prefix: u8) -> u32 {
    wrapping_diff32(broadcast32(network, prefix), 1)
}

/// Whether `s` is a dotted quad in its shortest form: four fields, each
/// without a sign and without a leading zero.
pub open spec fn is_canonical_quad(s: Seq<char>) -> bool {
    let fields = split(s, '.');
    &&& fields.len() == 4
    &&& is_canonical(fields[0])
    &&& is_canonical(fields[1])
    &&& is_canonical(fields[2])
    &&& is_canonical(fields[3])
}

/// The octets of a value, put together, give the value.
pub proof fn lemma_octets_joined(address: u32)
    ensures
        from_octets(octet(address, 0), octet(address, 1), octet(address, 2), octet(address, 3))
            == address,
{
    let a = address as int;
    let low24 = a % 0x100_0000;
    let low16 = a % 0x1_0000;
    let low8 = a % 0x100;
    assert(a == (a / 0x100_0000) * 0x100_0000 + low24);
    assert(a / 0x1_0000 % 0x100 == low24 / 0x1_0000);
    assert(low24 == (low24 / 0x1_0000) * 0x1_0000 + low16);
    assert(a / 0x100 % 0x100 == low16 / 0x100);
    assert(low16 == (low16 / 0x100) * 0x100 + low8);
}

/// The value of four octets has those octets.
pub proof fn lemma_octets_split(o0: u8, o1: u8, o2: u8, o3: u8)
    ensures
        octet(from_octets(o0, o1, o2, o3), 0) == o0,
        octet(from_octets(o0, o1, o2, o3), 1) == o1,
        octet(from_octets(o0, o1, o2, o3), 2) == o2,
        octet(from_octets(o0, o1, o2, o3), 3) == o3,
{
    let a = o0 as int * 0x100_0000 + o1 as int * 0x1_0000 + o2 as int * 0x100 + o3 as int;
    assert(0 <= a <= 0xFFFF_FFFF);
    assert(a / 0x100_0000 == o0);
    assert(a / 0x1_0000 == o0 as int * 0x100 + o1 as int);
    assert(a / 0x100 == o0 as int * 0x1_0000 + o1 as int * 0x100 + o2 as int);
    assert(a % 0x100 == o3);
}

/// The fields of a dotted-quad text are the decimal texts of the octets.
pub proof fn lemma_dotted_quad_fields(address: u32)
    ensures
        split(dotted_quad(address), '.') == seq![
            decimal_text(octet(address, 0) as nat),
            decimal_text(octet(address, 1) as nat),
            decimal_text(octet(address, 2) as nat),
            decimal_text(octet(address, 3) as nat),
        ],
{
    let d0 = decimal_text(octet(address, 0) as nat);
    let d1 = decimal_text(octet(address, 1) as nat);
    let d2 = decimal_text(octet(address, 2) as nat);
    let d3 = decimal_text(octet(address, 3) as nat);
    lemma_decimal_text(octet(address, 0) as nat);
    lemma_decimal_text(octet(address, 1) as nat);
    lemma_decimal_text(octet(address, 2) as nat);
    lemma_decimal_text(octet(address, 3) as nat);
    let dot = seq!['.'];
    let t2 = d2 + dot + d3;
    let t1 = d1 + dot + t2;
    let t0 = d0 + dot + t1;
    assert(t0 =~= dotted_quad(address));
    lemma_split_plain(d3, '.');
    lemma_split_joined(d2, d3, '.');
    lemma_split_joined(d1, t2, '.');
    lemma_split_joined(d0, t1, '.');
    assert(split(t0, '.') =~= seq![d0, d1, d2, d3]);
}

/// Round trip, from a value: the dotted-quad text of every address is in
/// shortest form and parses to that address.
pub proof fn lemma_parse_rendered(address: u32)
    ensures
        is_canonical_quad(dotted_quad(address)),
        parse_ipv4(dotted_quad(address)) == Ok::<u32, IpParseError>(address),
{
    lemma_dotted_quad_fields(address);
    lemma_decimal_text(octet(address, 0) as nat);
    lemma_decimal_text(octet(address, 1) as nat);
    lemma_decimal_text(octet(address, 2) as nat);
    lemma_decimal_text(octet(address, 3) as nat);
    lemma_parse_decimal_text(octet(address, 0));
    lemma_parse_decimal_text(octet(address, 1));
    lemma_parse_decimal_text(octet(address, 2));
    lemma_parse_decimal_text(octet(address, 3));
    lemma_octets_joined(address);
}

/// Round trip, from a text: a dotted quad in shortest form that parses is
/// the text of the address it parses to.
pub proof fn lemma_render_parsed(s: Seq<char>)
    requires
        is_canonical_quad(s),
        parse_ipv4(s) is Ok,
    ensures
        dotted_quad(parse_ipv4(s)->Ok_0) == s,
{
    let fields = split(s, '.');
    let address = parse_ipv4(s)->Ok_0;
    let o0 = parse_u8(fields[0])->Some_0;
    let o1 = parse_u8(fields[1])->Some_0;
    let o2 = parse_u8(fields[2])->Some_0;
    let o3 = parse_u8(fields[3])->Some_0;
    lemma_octets_split(o0, o1, o2, o3);
    lemma_decimal_text_of_parsed(fields[0]);
    lemma_decimal_text_of_parsed(fields[1]);
    lemma_decimal_text_of_parsed(fields[2]);
    lemma_decimal_text_of_parsed(fields[3]);
    lemma_join_split(s, '.');
    let f1 = fields.drop_first();
    let f2 = f1.drop_first();
    let f3 = f2.drop_first();
    assert(join(f3, '.') == fields[3]);
    assert(join(f2, '.') == fields[2] + seq!['.'] + join(f3, '.'));
    assert(join(f1, '.') == fields[1] + seq!['.'] + join(f2, '.'));
    assert(join(fields, '.') == fields[0] + seq!['.'] + join(f1, '.'));
    assert(dotted_quad(address) =~= join(fields, '.'));
}

/// Mask monotonicity: the mask of a longer prefix keeps every bit that the
/// mask of a shorter prefix keeps.
pub proof fn lemma_mask_monotonic(shorter: u8, longer: u8)
    requires
        shorter < longer <= 32,
    ensures
        mask32(shorter) & mask32(longer) == mask32(shorter),
{
    let small = mask32(shorter);
    let large = mask32(longer);
    if shorter == 0 {
        assert(0u32 & large == 0u32) by (bit_vector);
    } else if longer == 32 {
        assert(small & 0xFFFF_FFFFu32 == small) by (bit_vector);
    } else {
        let far: u32 = (32 - shorter) as u32;
        let near: u32 = (32 - longer) as u32;
        assert((0xFFFF_FFFFu32 << far) & (0xFFFF_FFFFu32 << near) == (0xFFFF_FFFFu32 << far))
            by (bit_vector)
            requires
                near < far < 32,
        ;
    }
}

/// The mask and the host span of a prefix length share no bit and cover
/// all 32 between them.
pub proof fn lemma_mask_host_span(prefix: u8)
    requires
        prefix <= 32,
    ensures
        mask32(prefix) & host_span32(prefix) == 0,
        mask32(prefix) | host_span32(prefix) == 0xFFFF_FFFFu32,
        host_span32(prefix) == !mask32(prefix),
{
    let m = mask32(prefix);
    let h = host_span32(prefix);
    if prefix == 0 {
        assert(0xFFFF_FFFFu32 >> 0u32 == 0xFFFF_FFFFu32) by (bit_vector);
        assert(0xFFFF_FFFFu32 == !0u32) by (bit_vector);
        assert(0u32 & 0xFFFF_FFFFu32 == 0u32) by (bit_vector);
        assert(0u32 | 0xFFFF_FFFFu32 == 0xFFFF_FFFFu32) by (bit_vector);
    } else if prefix == 32 {
        assert(0u32 == !0xFFFF_FFFFu32) by (bit_vector);
        assert(0xFFFF_FFFFu32 & 0u32 == 0u32) by (bit_vector);
        assert(0xFFFF_FFFFu32 | 0u32 == 0xFFFF_FFFFu32) by (bit_vector);
    } else {
        let p: u32 = prefix as u32;
        let s: u32 = (32 - prefix) as u32;
        assert({
            &&& (0xFFFF_FFFFu32 << s) & (0xFFFF_FFFFu32 >> p) == 0u32
            &&& (0xFFFF_FFFFu32 << s) | (0xFFFF_FFFFu32 >> p) == 0xFFFF_FFFFu32
            &&& (0xFFFF_FFFFu32 >> p) == !(0xFFFF_FFFFu32 << s)
        }) by (bit_vector)
            requires
                0 < p < 32,
                s == 32 - p,
        ;
    }
}

/// The broadcast address of a network address is reached without carry:
/// it is the network address with every host bit set, and it lies in the
/// same network.
pub proof fn lemma_broadcast_in_network(address: u32, prefix: u8)
    requires
        prefix <= 32,
    ensures
        (address & mask32(prefix)) + host_span32(prefix) <= 0xFFFF_FFFF,
        broadcast32(address & mask32(prefix), prefix) == (address & mask32(prefix)) | host_span32(
            prefix,
        ),
        broadcast32(address & mask32(prefix), prefix) & mask32(prefix) == address & mask32(
            prefix,
        ),
{
    lemma_mask_host_span(prefix);
    let m = mask32(prefix);
    let h = host_span32(prefix);
    let n = address & m;
    assert(n + h <= 0xFFFF_FFFF && n + h == (n | h) && (n | h) & m == n) by (bit_vector)
        requires
            n == address & m,
            h == !m,
    ;
}

/// Reads `chars[from..to]` as a dotted-quad address.
pub fn read_ipv4(chars: &Vec<char>, from: usize, to: usize) -> (r: Result<u32, IpParseError>)
    requires
        from <= to <= chars.len(),
    ensures
        r == parse_ipv4(chars@.subrange(from as int, to as int)),
{
    let fields: Vec<(usize, usize)> = split_fields(chars, from, to, '.');
    let ghost texts = split(chars@.subrange(from as int, to as int), '.');
    if fields.len() != 4 {
        return Err(IpParseError::InvalidFormat);
    }
    assert(forall|i: int|
        0 <= i < 4 ==> chars@.subrange(fields@[i].0 as int, fields@[i].1 as int) == texts[i]);
    let o0: Option<u8> = read_u8(chars, fields[0].0, fields[0].1);
    let o1: Option<u8> = read_u8(chars, fields[1].0, fields[1].1);
    let o2: Option<u8> = read_u8(chars, fields[2].0, fields[2].1);
    let o3: Option<u8> = read_u8(chars, fields[3].0, fields[3].1);
    match (o0, o1, o2, o3) {
        (Some(a), Some(b), Some(c), Some(d)) => Ok(join_octets(a, b, c, d)),
        _ => Err(IpParseError::InvalidIp),
    }
}

/// Puts four octets together, `o0` most significant.
pub fn join_octets(o0: u8, o1: u8, o2: u8, o3: u8) -> (address: u32)
    ensures
        address == from_octets(o0, o1, o2, o3),
{
    (o0 as u32) * 0x100_0000 + (o1 as u32) * 0x1_0000 + (o2 as u32) * 0x100 + (o3 as u32)
}

/// Appends the dotted-quad text of `address` to `out`.
pub fn push_dotted_quad(out: &mut String, address: u32)
    ensures
        final(out)@ == old(out)@ + dotted_quad(address),
{
    push_decimal(out, (address / 0x100_0000) as u128);
    out.append(".");
    push_decimal(out, (address / 0x1_0000 % 0x100) as u128);
    out.append(".");
    push_decimal(out, (address / 0x100 % 0x100) as u128);
    out.append(".");
    push_decimal(out, (address % 0x100) as u128);
    proof {
        reveal_strlit(".");
        assert("."@ =~= seq!['.']);
        assert(final(out)@ =~= old(out)@ + dotted_quad(address));
    }
}

impl IPv4 {
    /// The address as a 32-bit value.
    pub fn addr(&self) -> (address: u32)
        ensures
            address == self.address,
    {
        self.address
    }

    /// The dotted-quad text of the address.
    pub fn human_readable(&self) -> (s: String)
        ensures
            s@ == dotted_quad(self.address),
    {
        let mut s: String = String::new();
        push_dotted_quad(&mut s, self.address);
        assert(s@ =~= dotted_quad(self.address));
        s
    }
}

/// The arithmetic of the IPv4 family on plain values: text to octets,
/// octets to a 32-bit value, masks, and the addresses of a block.
pub trait Address {
    /// Cuts `address/prefix` text at its first slash and reads the prefix
    /// length.
    fn get_ip_and_mask(string: String) -> (r: (String, u8))
        requires
            split_once(string@, '/') is Some,
            parse_u8(split_once(string@, '/')->Some_0.1) is Some,
        ensures
            r.0@ == split_once(string@, '/')->Some_0.0,
            Some(r.1) == parse_u8(split_once(string@, '/')->Some_0.1),
    ;

    /// Reads each dot-separated field of `string` as an octet.
    fn split_into_octets(string: &str) -> (octets: Vec<u8>)
        requires
            forall|i: int|
                0 <= i < split(string@, '.').len() ==> parse_u8(
                    #[trigger] split(string@, '.')[i],
                ) is Some,
        ensures
            octets@.len() == split(string@, '.').len(),
            forall|i: int|
                0 <= i < octets@.len() ==> Some(#[trigger] octets@[i]) == parse_u8(
                    split(string@, '.')[i],
                ),
    ;

    /// The 32-bit value of the first four octets, the first most significant.
    fn get_binary_address(octets: Vec<u8>) -> (address: u32)
        requires
            octets@.len() >= 4,
        ensures
            address == from_octets(octets@[0], octets@[1], octets@[2], octets@[3]),
    ;

    /// The mask with the top `mask` bits set; all zero for a length of 0.
    fn get_binary_mask(mask: u8) -> (bits: u32)
        requires
            mask <= 32,
        ensures
            bits == mask32(mask),
    ;

    /// The bits of `address` that `mask` keeps.
    fn get_subnet_address(address: u32, mask: u32) -> (subnet: u32)
        ensures
            subnet == address & mask,
    ;

    /// The first usable, last usable and broadcast address of the block of
    /// prefix length `mask` that starts at `subnet_address`. The sums are
    /// taken on 32 bits: there is no special case for a prefix of 31 or 32
    /// bits, where the usable addresses lie outside the block.
    fn get_ip_range_and_broadcast(subnet_address: u32, mask: u8) -> (r: (u32, u32, u32))
        requires
            mask <= 32,
        ensures
            r.0 == first_usable32(subnet_address),
            r.1 == last_usable32(subnet_address, mask),
            r.2 == broadcast32(subnet_address, mask),
    ;

    /// The dotted-quad text of `address`.
    fn get_human_readable_address(address: u32) -> (s: String)
        ensures
            s@ == dotted_quad(address),
    ;
}

impl Address for IPv4 {
    fn get_ip_and_mask(string: String) -> (r: (String, u8)) {
        let s: &str = string.as_str();
        let chars: Vec<char> = to_chars(s);
        let n: usize = chars.len();
        assert(chars@.subrange(0, n as int) =~= s@);
        let slash: usize = find_char(&chars, 0, n, '/');
        let ip: String = s.substring_char(0, slash).to_owned();
        let mask: Option<u8> = read_u8(&chars, slash + 1, n);
        (ip, mask.unwrap())
    }

    fn split_into_octets(string: &str) -> (octets: Vec<u8>) {
        let chars: Vec<char> = to_chars(string);
        let n: usize = chars.len();
        assert(chars@.subrange(0, n as int) =~= string@);
        let fields: Vec<(usize, usize)> = split_fields(&chars, 0, n, '.');
        let ghost texts = split(string@, '.');
        let mut octets: Vec<u8> = Vec::new();
        let mut i: usize = 0;
        while i < fields.len()
            invariant
                i <= fields@.len(),
                octets@.len() == i,
                n == chars@.len(),
                texts == split(string@, '.'),
                field_texts(chars@, fields@) == texts,
                forall|k: int|
                    0 <= k < fields@.len() ==> (#[trigger] fields@[k]).0 <= fields@[k].1 <= n,
                forall|k: int| 0 <= k < texts.len() ==> parse_u8(#[trigger] texts[k]) is Some,
                forall|k: int| 0 <= k < i ==> Some(#[trigger] octets@[k]) == parse_u8(texts[k]),
            decreases fields@.len() - i,
        {
            let field: (usize, usize) = fields[i];
            assert(chars@.subrange(field.0 as int, field.1 as int) == texts[i as int]);
            let value: Option<u8> = read_u8(&chars, field.0, field.1);
            octets.push(value.unwrap());
            i += 1;
        }
        octets
    }

    fn get_binary_address(octets: Vec<u8>) -> (address: u32) {
        join_octets(octets[0], octets[1], octets[2], octets[3])
    }

    fn get_binary_mask(mask: u8) -> (bits: u32) {
        if mask == 0 {
            0u32
        } else if mask == 32 {
            0xFFFF_FFFFu32
        } else {
            let shift: u32 = (32 - mask) as u32;
            0xFFFF_FFFFu32 << shift
        }
    }

    fn get_subnet_address(address: u32, mask: u32) -> (subnet: u32) {
        address & mask
    }

    fn get_ip_range_and_broadcast(subnet_address: u32, mask: u8) -> (r: (u32, u32, u32)) {
        let host_span: u32 = if mask == 32 {
            0u32
        } else {
            0xFFFF_FFFFu32 >> (mask as u32)
        };
        let first_usable_ip: u32 = subnet_address.wrapping_add(1);
        let broadcast_address: u32 = subnet_address.wrapping_add(host_span);
        let last_usable_ip: u32 = broadcast_address.wrapping_sub(1);
        (first_usable_ip, last_usable_ip, broadcast_address)
    }

    fn get_human_readable_address(address: u32) -> (s: String) {
        IPv4 { address }.human_readable()
    }
}

impl From<u32> for IPv4 {
    /// The address with the 32-bit value `address`.
    fn from(address: u32) -> (ip: IPv4)
        ensures
            ip.address == address,
    {
        IPv4 { address }
    }
}

impl FromSpecImpl<u32> for IPv4 {
    open spec fn obeys_from_spec() -> bool {
        true
    }

    open spec fn from_spec(address: u32) -> IPv4 {
        IPv4 { address }
    }
}

impl FromStr for IPv4 {
    type Err = IpParseError;

    /// Parses a dotted-quad text.
    fn from_str(s: &str) -> (r: Result<IPv4, IpParseError>)
        ensures
            match parse_ipv4(s@) {
                Ok(address) => r == Ok::<IPv4, IpParseError>(IPv4 { address }),
                Err(e) => r == Err::<IPv4, IpParseError>(e),
            },
    {
        let chars: Vec<char> = to_chars(s);
        assert(chars@.subrange(0, chars@.len() as int) =~= s@);
        match read_ipv4(&chars, 0, chars.len()) {
            Ok(address) => Ok(IPv4 { address }),
            Err(e) => Err(e),
        }
    }
}

} // verus!
