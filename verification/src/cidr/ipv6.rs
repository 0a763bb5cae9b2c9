//! IPv6 networks in CIDR notation: an address, a prefix length of at most
//! 128 bits and the mask that the prefix length stands for. The text of a
//! network is read by `ipnet`.

use crate::cidr::CidrPartsError;
use crate::inspector::ipv6::{Ipv6InspectionResult, Ipv6InspectionView};
use crate::inspector::{InspectionResult, InspectionView};
use crate::ip::ipv6::{ipv6_text, make_mask128, mask128, IPv6};
use crate::text::{decimal_string, decimal_text, push_decimal};
use vstd::arithmetic::power2::pow2;
use std::str::FromStr;
use vstd::prelude::*;
use vstd::std_specs::convert::TryFromSpecImpl;

verus! {

/// The longest prefix that an IPv6 network can have.
pub const MAX_IPV6_CIDR_PREFIX_LEN: u8 = 128;

/// The prefix length from which on the size of a network is written out as
/// a number.
pub const MIN_REASONABLE_PREFIX_LEN: u8 = 96;

/// Why a text is not an IPv6 network in CIDR notation.
#[derive(Debug, PartialEq, Eq, Clone, Copy, Structural)]
pub enum Ipv6CidrParseError {
    /// The text is not a colon-hex address, a slash and a prefix length of
    /// at most 128.
    InvalidSyntax,
}

/// An address and a prefix length that have not been checked yet.
pub struct Ipv6CidrParts {
    pub address: u128,
    pub prefix: u8,
}

/// An IPv6 network: an address and a prefix length of at most 128 bits.
#[derive(Debug, PartialEq, Eq, Clone, Copy)]
pub struct Ipv6Cidr {
    ip: IPv6,
    mask: IPv6,
    prefix: u8,
}

/// What an `Ipv6Cidr` stands for. The mask is not part of it: it follows from
/// the prefix length.
pub struct Ipv6CidrView {
    pub address: u128,
    pub prefix: u8,
}

/// How the size of a network with a prefix of `prefix` bits is written: as
/// the power `2^n` of its `n` host bits below a prefix of 96 bits, and from
/// there on as the number of its addresses.
pub open spec fn subnet_size_text(prefix: u8) -> Seq<char> {
    if prefix < 96 {
        seq!['2', '^'] + decimal_text((128 - prefix) as nat)
    } else {
        decimal_text(pow2((128 - prefix) as nat))
    }
}

impl Ipv6CidrView {
    /// The mask of the network: its top `prefix` bits.
    pub open spec fn netmask(self) -> u128 {
        mask128(self.prefix)
    }

    /// The host bits: the complement of the mask.
    pub open spec fn hostmask(self) -> u128 {
        !mask128(self.prefix)
    }

    /// The network address: the address with its host bits cleared.
    pub open spec fn network(self) -> u128 {
        self.address & mask128(self.prefix)
    }

    /// The text `address/prefix`.
    pub open spec fn cidr_text(self) -> Seq<char> {
        ipv6_text(self.address) + seq!['/'] + decimal_text(self.prefix as nat)
    }

    /// What an inspection reports of the network.
    pub open spec fn inspection(self) -> Ipv6InspectionView {
        Ipv6InspectionView {
            cidr: self.cidr_text(),
            address: ipv6_text(self.address),
            prefix_len: self.prefix,
            netmask: ipv6_text(self.netmask()),
            hostmask: ipv6_text(self.hostmask()),
            network: ipv6_text(self.network()),
            subnet_size: subnet_size_text(self.prefix),
        }
    }
}

/// The address and the prefix length that `ipnet` reads in `text` as an
/// IPv6 network, if it reads one.
pub uninterp spec fn ipv6_net_syntax(text: Seq<char>) -> Option<(u128, u8)>;

/// What `s` means as an IPv6 network.
pub open spec fn parse_ipv6_cidr(s: Seq<char>) -> Result<Ipv6CidrView, Ipv6CidrParseError> {
    match ipv6_net_syntax(s) {
        Some((address, prefix)) => if prefix <= 128 {
            Ok(Ipv6CidrView { address, prefix })
        } else {
            Err(Ipv6CidrParseError::InvalidSyntax)
        },
        None => Err(Ipv6CidrParseError::InvalidSyntax),
    }
}

/// The error of `ipnet`'s parsers. It holds nothing but the fact.
#[verifier::external_type_specification]
#[verifier::external_body]
pub struct ExAddrParseError(ipnet::AddrParseError);

/// Trusted. Parses `s` with the `FromStr` of `ipnet::Ipv6Net` and hands
/// back the 128-bit value of `Ipv6Net::addr` and `Ipv6Net::prefix_len`.
/// The contract claims only that what comes back depends on the characters
/// of `s` alone.
#[verifier::external_body]
fn parse_ipv6_net(s: &str) -> (r: Result<(u128, u8), ipnet::AddrParseError>)
    ensures
        r is Ok <==> ipv6_net_syntax(s@) is Some,
        r is Ok ==> Some(r->Ok_0) == ipv6_net_syntax(s@),
{
    match s.parse::<ipnet::Ipv6Net>() {
        Ok(net) => Ok((net.addr().into(), net.prefix_len())),
        Err(e) => Err(e),
    }
}

/// Network idempotence: the network address of a network written with its
/// own network address is that address again.
pub proof fn lemma_network_idempotent(cidr: Ipv6CidrView)
    ensures
        (Ipv6CidrView { address: cidr.network(), prefix: cidr.prefix }).network()
            == cidr.network(),
{
    let a = cidr.address;
    let m = mask128(cidr.prefix);
    assert((a & m) & m == a & m) by (bit_vector);
}

impl View for Ipv6Cidr {
    type V = Ipv6CidrView;

    closed spec fn view(&self) -> Ipv6CidrView {
        Ipv6CidrView { address: self.ip.address, prefix: self.prefix }
    }
}

impl Ipv6Cidr {
    #[verifier::type_invariant]
    spec fn well_formed(self) -> bool {
        self.prefix <= 128 && self.mask.address == mask128(self.prefix)
    }

    /// The prefix length, which is at most 128.
    pub fn prefix_len(&self) -> (prefix: u8)
        ensures
            prefix == self@.prefix,
            prefix <= 128,
    {
        proof {
            use_type_invariant(self);
        }
        self.prefix
    }

    /// The address that the network was written with.
    pub fn addr(&self) -> (ip: IPv6)
        ensures
            ip.address == self@.address,
    {
        self.ip
    }

    /// The mask: the top `prefix_len()` bits.
    pub fn netmask(&self) -> (mask: IPv6)
        ensures
            mask.address == self@.netmask(),
    {
        proof {
            use_type_invariant(self);
        }
        self.mask
    }

    /// The host bits: the complement of the mask.
    pub fn hostmask(&self) -> (mask: IPv6)
        ensures
            mask.address == self@.hostmask(),
    {
        proof {
            use_type_invariant(self);
        }
        IPv6::from(!self.mask.addr())
    }

    /// The network address: the address with its host bits cleared.
    pub fn network(&self) -> (network: IPv6)
        ensures
            network.address == self@.network(),
    {
        proof {
            use_type_invariant(self);
        }
        IPv6::from(self.ip.addr() & self.mask.addr())
    }

    /// The size of the network as text: see `subnet_size_text`.
    pub fn subnet_size(&self) -> (s: String)
        ensures
            s@ == subnet_size_text(self@.prefix),
    {
        let prefix_len: u8 = self.prefix_len();
        let power: u8 = MAX_IPV6_CIDR_PREFIX_LEN - prefix_len;
        if prefix_len < MIN_REASONABLE_PREFIX_LEN {
            let mut s: String = String::new();
            s.append("2^");
            push_decimal(&mut s, power as u128);
            proof {
                reveal_strlit("2^");
                assert("2^"@ =~= seq!['2', '^']);
                assert(s@ =~= subnet_size_text(prefix_len));
            }
            s
        } else {
            let size: u128 = 1u128 << (power as u128);
            proof {
                lemma_one_shifted(power);
            }
            decimal_string(size)
        }
    }

    /// Derives the network address, the masks and the size of the network
    /// and renders them.
    pub fn inspect(&self) -> (r: InspectionResult)
        ensures
            r@ == InspectionView::V6(self@.inspection()),
    {
        let address: String = self.addr().human_readable();
        let mut cidr: String = address.clone();
        cidr.append("/");
        push_decimal(&mut cidr, self.prefix_len() as u128);
        proof {
            reveal_strlit("/");
            assert("/"@ =~= seq!['/']);
            assert(cidr@ =~= self@.cidr_text());
        }
        InspectionResult::V6(
            Ipv6InspectionResult {
                cidr,
                address,
                prefix_len: self.prefix_len(),
                netmask: self.netmask().human_readable(),
                hostmask: self.hostmask().human_readable(),
                network: self.network().human_readable(),
                subnet_size: self.subnet_size(),
            },
        )
    }
}

/// One shifted left by at most 32 places is that power of two.
pub proof fn lemma_one_shifted(power: u8)
    requires
        power <= 32,
    ensures
        (1u128 << (power as u128)) == pow2(power as nat),
{
    let wide: u128 = 1u128 << (power as u128);
    let narrow: u64 = 1u64 << (power as u64);
    assert(wide == narrow as u128) by (bit_vector)
        requires
            power <= 32,
            wide == 1u128 << (power as u128),
            narrow == 1u64 << (power as u64),
    ;
    vstd::bits::lemma_u64_pow2_no_overflow(power as nat);
    vstd::bits::lemma_u64_shl_is_mul(1u64, power as u64);
}

impl TryFrom<Ipv6CidrParts> for Ipv6Cidr {
    type Error = CidrPartsError;

    /// Makes a network of an address and a prefix length. A prefix length
    /// above 128 is refused and handed back in the error.
    fn try_from(value: Ipv6CidrParts) -> (r: Result<Ipv6Cidr, CidrPartsError>)
        ensures
            value.prefix > 128 ==> r == Err::<Ipv6Cidr, CidrPartsError>(
                CidrPartsError::InvalidPrefix(value.prefix),
            ),
            value.prefix <= 128 ==> r is Ok && r->Ok_0@ == (Ipv6CidrView {
                address: value.address,
                prefix: value.prefix,
            }),
    {
        if value.prefix > MAX_IPV6_CIDR_PREFIX_LEN {
            return Err(CidrPartsError::InvalidPrefix(value.prefix));
        }
        Ok(
            Ipv6Cidr {
                ip: IPv6::from(value.address),
                mask: IPv6::from(make_mask128(value.prefix)),
                prefix: value.prefix,
            },
        )
    }
}

impl TryFromSpecImpl<Ipv6CidrParts> for Ipv6Cidr {
    open spec fn obeys_try_from_spec() -> bool {
        true
    }

    closed spec fn try_from_spec(value: Ipv6CidrParts) -> Result<Ipv6Cidr, CidrPartsError> {
        if value.prefix > 128 {
            Err(CidrPartsError::InvalidPrefix(value.prefix))
        } else {
            Ok(
                Ipv6Cidr {
                    ip: IPv6 { address: value.address },
                    mask: IPv6 { address: mask128(value.prefix) },
                    prefix: value.prefix,
                },
            )
        }
    }
}

impl FromStr for Ipv6Cidr {
    type Err = Ipv6CidrParseError;

    /// Parses `address/prefix` text.
    fn from_str(s: &str) -> (r: Result<Ipv6Cidr, Ipv6CidrParseError>)
        ensures
            match parse_ipv6_cidr(s@) {
                Ok(cidr) => r is Ok && r->Ok_0@ == cidr,
                Err(e) => r == Err::<Ipv6Cidr, Ipv6CidrParseError>(e),
            },
    {
        match parse_ipv6_net(s) {
            Ok(net) => match Ipv6Cidr::try_from(Ipv6CidrParts { address: net.0, prefix: net.1 }) {
                Ok(cidr) => Ok(cidr),
                Err(_) => Err(Ipv6CidrParseError::InvalidSyntax),
            },
            Err(_) => Err(Ipv6CidrParseError::InvalidSyntax),
        }
    }
}

} // verus!
