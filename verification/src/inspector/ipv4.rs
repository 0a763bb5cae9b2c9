//! What an inspection reports of an IPv4 network.

use vstd::prelude::*;

verus! {

/// The derived properties of an IPv4 network, as text.
#[derive(Debug, PartialEq, Eq)]
pub struct Ipv4InspectionResult {
    pub cidr: String,
    pub address: String,
    pub prefix_length: u8,
    pub first_usable: String,
    pub last_usable: String,
    pub network: String,
    pub broadcast: String,
}

/// The characters of an `Ipv4InspectionResult`.
pub struct Ipv4InspectionView {
    pub cidr: Seq<char>,
    pub address: Seq<char>,
    pub prefix_length: u8,
    pub first_usable: Seq<char>,
    pub last_usable: Seq<char>,
    pub network: Seq<char>,
    pub broadcast: Seq<char>,
}

impl View for Ipv4InspectionResult {
    type V = Ipv4InspectionView;

    open spec fn view(&self) -> Ipv4InspectionView {
        Ipv4InspectionView {
            cidr: self.cidr@,
            address: self.address@,
            prefix_length: self.prefix_length,
            first_usable: self.first_usable@,
            last_usable: self.last_usable@,
            network: self.network@,
            broadcast: self.broadcast@,
        }
    }
}

} // verus!
