//! IPv6 addresses: 128-bit values and their masks. The colon-hex text of an
//! address is written by the standard library's formatter, reached through
//! `ipnet`.

use vstd::prelude::*;
use vstd::std_specs::convert::FromSpecImpl;

verus! {

/// An IPv6 address as a 128-bit value, first group most significant.
#[derive(Debug, PartialEq, Eq, Clone, Copy, Structural)]
pub struct IPv6 {
    pub address: u128,
}

/// The colon-hex text of the address with the 128-bit value `address`, as
/// the formatter of the standard library's IPv6 address type writes it.
pub uninterp spec fn ipv6_text(address: u128) -> Seq<char>;

/// Trusted. Makes the `ipnet::Ipv6Net` of `address` with a prefix of 128
/// bits (`Ipv6Net::new_assert`, which stops only on a prefix above 128),
/// takes its address back with `Ipv6Net::addr` and formats it with the
/// standard library's `to_string`. The contract claims only that the text
/// depends on the 128-bit value alone.
#[verifier::external_body]
fn render_ipv6(address: u128) -> (s: String)
    ensures
        s@ == ipv6_text(address),
{
    ipnet::Ipv6Net::new_assert(address.into(), 128).addr().to_string()
}

/// The 128-bit mask whose top `prefix` bits are set.
pub open spec fn mask128(prefix: u8) -> u128 {
    if prefix == 0 {
        0u128
    } else if prefix >= 128 {
        0xFFFF_FFFF_FFFF_FFFF_FFFF_FFFF_FFFF_FFFFu128
    } else {
        0xFFFF_FFFF_FFFF_FFFF_FFFF_FFFF_FFFF_FFFFu128 << ((128 - prefix) as u128)
    }
}

/// Builds the mask with the top `prefix` bits set; all zero for a length
/// of 0.
pub fn make_mask128(prefix: u8) -> (mask: u128)
    requires
        prefix <= 128,
    ensures
        mask == mask128(prefix),
{
    if prefix == 0 {
        0u128
    } else if prefix == 128 {
        0xFFFF_FFFF_FFFF_FFFF_FFFF_FFFF_FFFF_FFFFu128
    } else {
        let shift: u128 = (128 - prefix) as u128;
        0xFFFF_FFFF_FFFF_FFFF_FFFF_FFFF_FFFF_FFFFu128 << shift
    }
}

/// Mask monotonicity: the mask of a longer prefix keeps every bit that the
/// mask of a shorter prefix keeps.
pub proof fn lemma_mask_monotonic(shorter: u8, longer: u8)
    requires
        shorter < longer <= 128,
    ensures
        mask128(shorter) & mask128(longer) == mask128(shorter),
{
    let small = mask128(shorter);
    let large = mask128(longer);
    let ones: u128 = 0xFFFF_FFFF_FFFF_FFFF_FFFF_FFFF_FFFF_FFFFu128;
    if shorter == 0 {
        assert(0u128 & large == 0u128) by (bit_vector);
    } else if longer == 128 {
        assert(small & 0xFFFF_FFFF_FFFF_FFFF_FFFF_FFFF_FFFF_FFFFu128 == small) by (bit_vector);
    } else {
        let far: u128 = (128 - shorter) as u128;
        let near: u128 = (128 - longer) as u128;
        assert((ones << far) & (ones << near) == (ones << far)) by (bit_vector)
            requires
                near < far < 128,
                ones == 0xFFFF_FFFF_FFFF_FFFF_FFFF_FFFF_FFFF_FFFFu128,
        ;
    }
}

impl IPv6 {
    /// The address as a 128-bit value.
    pub fn addr(&self) -> (address: u128)
        ensures
            address == self.address,
    {
        self.address
    }

    /// The colon-hex text of the address.
    pub fn human_readable(&self) -> (s: String)
        ensures
            s@ == ipv6_text(self.address),
    {
        render_ipv6(self.address)
    }
}

impl From<u128> for IPv6 {
    /// The address with the 128-bit value `address`.
    fn from(address: u128) -> (ip: IPv6)
        ensures
            ip.address == address,
    {
        IPv6 { address }
    }
}

impl FromSpecImpl<u128> for IPv6 {
    open spec fn obeys_from_spec() -> bool {
        true
    }

    open spec fn from_spec(address: u128) -> IPv6 {
        IPv6 { address }
    }
}

} // verus!
