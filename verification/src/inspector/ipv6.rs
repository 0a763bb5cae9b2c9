//! What an inspection reports of an IPv6 network.

use vstd::prelude::*;

verus! {

/// The derived properties of an IPv6 network, as text.
#[derive(Debug, PartialEq, Eq)]
pub struct Ipv6InspectionResult {
    pub cidr: String,
    pub address: String,
    pub prefix_len: u8,
    pub netmask: String,
    pub hostmask: String,
    pub network: String,
    pub subnet_size: String,
}

/// The characters of an `Ipv6InspectionResult`.
pub struct Ipv6InspectionView {
    pub cidr: Seq<char>,
    pub address: Seq<char>,
    pub prefix_len: u8,
    pub netmask: Seq<char>,
    pub hostmask: Seq<char>,
    pub network: Seq<char>,
    pub subnet_size: Seq<char>,
}

impl View for Ipv6InspectionResult {
    type V = Ipv6InspectionView;

    open spec fn view(&self) -> Ipv6InspectionView {
        Ipv6InspectionView {
            cidr: self.cidr@,
            address: self.address@,
            prefix_len: self.prefix_len,
            netmask: self.netmask@,
            hostmask: self.hostmask@,
            network: self.network@,
            subnet_size: self.subnet_size@,
        }
    }
}

} // verus!
