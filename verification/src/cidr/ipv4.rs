//! IPv4 networks in CIDR notation: an address, a prefix length of at most 32
//! bits and the mask that the prefix length stands for.

use crate::cidr::CidrPartsError;
use crate::inspector::ipv4::{Ipv4InspectionResult, Ipv4InspectionView};
use crate::inspector::{InspectionResult, InspectionView};
use crate::ip::ipv4::{
    broadcast32, dotted_quad, first_usable32, last_usable32, mask32, parse_ipv4, read_ipv4,
    Address, IPv4,
};
use crate::text::{decimal_text, parse_u8, push_decimal, read_u8, split, split_fields, to_chars};
use std::str::FromStr;
use vstd::prelude::*;
use vstd::std_specs::convert::TryFromSpecImpl;

verus! {

/// The longest prefix that an IPv4 network can have.
pub const MAX_IPV4_CIDR_PREFIX_LEN: u8 = 32;

/// Why a text is not an IPv4 network in CIDR notation.
#[derive(Debug, PartialEq, Eq, Clone, Copy, Structural)]
pub enum Ipv4CidrParseError {
    /// The text does not have exactly one slash.
    InvalidFormat,
    /// The address or the prefix length is not valid.
    InvalidCidr,
}

/// An address and a prefix length that have not been checked yet.
pub struct Ipv4CidrParts {
    pub address: u32,
    pub prefix: u8,
}

/// An IPv4 network: an address and a prefix length of at most 32 bits.
#[derive(Debug, PartialEq, Eq, Clone, Copy)]
pub struct Ipv4Cidr {
    ip: IPv4,
    mask: IPv4,
    prefix: u8,
}

/// What an `Ipv4Cidr` stands for. The mask is not part of it: it follows from
/// the prefix length.
pub struct Ipv4CidrView {
    pub address: u32,
    pub prefix: u8,
}

impl Ipv4CidrView {
    /// The mask of the network: its top `prefix` bits.
    pub open spec fn mask(self) -> u32 {
        mask32(self.prefix)
    }

    /// The network address: the address with its host bits cleared.
    pub open spec fn network(self) -> u32 {
        self.address & mask32(self.prefix)
    }

    /// The text `address/prefix`.
    pub open spec fn cidr_text(self) -> Seq<char> {
        dotted_quad(self.address) + seq!['/'] + decimal_text(self.prefix as nat)
    }

    /// What an inspection reports of the network.
    pub open spec fn inspection(self) -> Ipv4InspectionView {
        Ipv4InspectionView {
            cidr: self.cidr_text(),
            address: dotted_quad(self.address),
            prefix_length: self.prefix,
            first_usable: dotted_quad(first_usable32(self.network())),
            last_usable: dotted_quad(last_usable32(self.network(), self.prefix)),
            network: dotted_quad(self.network()),
            broadcast: dotted_quad(broadcast32(self.network(), self.prefix)),
        }
    }
}

/// What `s` means as an IPv4 network: one slash, a dotted-quad address
/// before it and a prefix length of at most 32 after it.
pub open spec fn parse_ipv4_cidr(s: Seq<char>) -> Result<Ipv4CidrView, Ipv4CidrParseError> {
    let fields = split(s, '/');
    if fields.len() != 2 {
        Err(Ipv4CidrParseError::InvalidFormat)
    } else {
        match (parse_ipv4(fields[0]), parse_u8(fields[1])) {
            (Ok(address), Some(prefix)) => if prefix <= 32 {
                Ok(Ipv4CidrView { address, prefix })
            } else {
                Err(Ipv4CidrParseError::InvalidCidr)
            },
            _ => Err(Ipv4CidrParseError::InvalidCidr),
        }
    }
}

/// Network idempotence: the network address of a network written with its
/// own network address is that address again.
pub proof fn lemma_network_idempotent(cidr: Ipv4CidrView)
    ensures
        (Ipv4CidrView { address: cidr.network(), prefix: cidr.prefix }).network()
            == cidr.network(),
{
    let a = cidr.address;
    let m = mask32(cidr.prefix);
    assert((a & m) & m == a & m) by (bit_vector);
}

impl View for Ipv4Cidr {
    type V = Ipv4CidrView;

    closed spec fn view(&self) -> Ipv4CidrView {
        Ipv4CidrView { address: self.ip.address, prefix: self.prefix }
    }
}

impl Ipv4Cidr {
    #[verifier::type_invariant]
    spec fn well_formed(self) -> bool {
        self.prefix <= 32 && self.mask.address == mask32(self.prefix)
    }

    /// The prefix length, which is at most 32.
    pub fn prefix_len(&self) -> (prefix: u8)
        ensures
            prefix == self@.prefix,
            prefix <= 32,
    {
        proof {
            use_type_invariant(self);
        }
        self.prefix
    }

    /// The address that the network was written with.
    pub fn addr(&self) -> (ip: IPv4)
        ensures
            ip.address == self@.address,
    {
        self.ip
    }

    /// The mask: the top `prefix_len()` bits.
    pub fn mask(&self) -> (mask: IPv4)
        ensures
            mask.address == self@.mask(),
    {
        proof {
            use_type_invariant(self);
        }
        self.mask
    }

    /// The network address: the address with its host bits cleared.
    pub fn get_network_address(&self) -> (network: u32)
        ensures
            network == self@.network(),
    {
        proof {
            use_type_invariant(self);
        }
        IPv4::get_subnet_address(self.ip.addr(), self.mask.addr())
    }

    /// The subnet address: the same as `get_network_address`.
    pub fn get_subnet_address(&self) -> (network: u32)
        ensures
            network == self@.network(),
    {
        self.get_network_address()
    }

    /// Derives the network, broadcast and usable addresses and renders them.
    /// The usable addresses are the one after the network address and the
    /// one before the broadcast address, on 32 bits, for every prefix
    /// length: with a prefix of 31 or 32 bits they lie outside the network.
    pub fn inspect(&self) -> (r: InspectionResult)
        ensures
            r@ == InspectionView::V4(self@.inspection()),
    {
        let prefix_len: u8 = self.prefix_len();
        let human_readable_ip_part: String = self.addr().human_readable();
        let network_address: u32 = self.get_network_address();
        let range: (u32, u32, u32) = IPv4::get_ip_range_and_broadcast(network_address, prefix_len);
        let mut cidr: String = human_readable_ip_part.clone();
        cidr.append("/");
        push_decimal(&mut cidr, prefix_len as u128);
        proof {
            reveal_strlit("/");
            assert("/"@ =~= seq!['/']);
            assert(cidr@ =~= self@.cidr_text());
        }
        InspectionResult::V4(
            Ipv4InspectionResult {
                cidr,
                first_usable: IPv4::from(range.0).human_readable(),
                last_usable: IPv4::from(range.1).human_readable(),
                network: IPv4::from(network_address).human_readable(),
                broadcast: IPv4::from(range.2).human_readable(),
                address: human_readable_ip_part,
                prefix_length: prefix_len,
            },
        )
    }
}

impl TryFrom<Ipv4CidrParts> for Ipv4Cidr {
    type Error = CidrPartsError;

    /// Makes a network of an address and a prefix length. A prefix length
    /// above 32 is refused and handed back in the error.
    fn try_from(value: Ipv4CidrParts) -> (r: Result<Ipv4Cidr, CidrPartsError>)
        ensures
            value.prefix > 32 ==> r == Err::<Ipv4Cidr, CidrPartsError>(
                CidrPartsError::InvalidPrefix(value.prefix),
            ),
            value.prefix <= 32 ==> r is Ok && r->Ok_0@ == (Ipv4CidrView {
                address: value.address,
                prefix: value.prefix,
            }),
    {
        if value.prefix > MAX_IPV4_CIDR_PREFIX_LEN {
            return Err(CidrPartsError::InvalidPrefix(value.prefix));
        }
        Ok(
            Ipv4Cidr {
                ip: IPv4::from(value.address),
                mask: IPv4::from(IPv4::get_binary_mask(value.prefix)),
                prefix: value.prefix,
            },
        )
    }
}

impl TryFromSpecImpl<Ipv4CidrParts> for Ipv4Cidr {
    open spec fn obeys_try_from_spec() -> bool {
        true
    }

    closed spec fn try_from_spec(value: Ipv4CidrParts) -> Result<Ipv4Cidr, CidrPartsError> {
        if value.prefix > 32 {
            Err(CidrPartsError::InvalidPrefix(value.prefix))
        } else {
            Ok(
                Ipv4Cidr {
                    ip: IPv4 { address: value.address },
                    mask: IPv4 { address: mask32(value.prefix) },
                    prefix: value.prefix,
                },
            )
        }
    }
}

impl FromStr for Ipv4Cidr {
    type Err = Ipv4CidrParseError;

    /// Parses `address/prefix` text.
    fn from_str(s: &str) -> (r: Result<Ipv4Cidr, Ipv4CidrParseError>)
        ensures
            match parse_ipv4_cidr(s@) {
                Ok(cidr) => r is Ok && r->Ok_0@ == cidr,
                Err(e) => r == Err::<Ipv4Cidr, Ipv4CidrParseError>(e),
            },
    {
        let chars: Vec<char> = to_chars(s);
        let n: usize = chars.len();
        assert(chars@.subrange(0, n as int) =~= s@);
        let fields: Vec<(usize, usize)> = split_fields(&chars, 0, n, '/');
        let ghost texts = split(s@, '/');
        if fields.len() != 2 {
            return Err(Ipv4CidrParseError::InvalidFormat);
        }
        assert(forall|i: int|
            0 <= i < 2 ==> chars@.subrange(fields@[i].0 as int, fields@[i].1 as int) == texts[i]);
        let address: u32 = match read_ipv4(&chars, fields[0].0, fields[0].1) {
            Ok(address) => address,
            Err(_) => {
                return Err(Ipv4CidrParseError::InvalidCidr);
            },
        };
        let prefix: u8 = match read_u8(&chars, fields[1].0, fields[1].1) {
            Some(prefix) => prefix,
            None => {
                return Err(Ipv4CidrParseError::InvalidCidr);
            },
        };
        match Ipv4Cidr::try_from(Ipv4CidrParts { address, prefix }) {
            Ok(cidr) => Ok(cidr),
            Err(_) => Err(Ipv4CidrParseError::InvalidCidr),
        }
    }
}

} // verus!
