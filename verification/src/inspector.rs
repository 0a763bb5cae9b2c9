//! Inspection results: one shape per address family under a common tag, and
//! the flat row that a table shows for either.

use crate::inspector::ipv4::{Ipv4InspectionResult, Ipv4InspectionView};
use crate::inspector::ipv6::{Ipv6InspectionResult, Ipv6InspectionView};
use vstd::prelude::*;
use vstd::std_specs::convert::FromSpecImpl;

pub mod ipv4;
pub mod ipv6;

verus! {

/// The result of inspecting one network, tagged by its family.
#[derive(Debug, PartialEq, Eq)]
pub enum InspectionResult {
    V4(Ipv4InspectionResult),
    V6(Ipv6InspectionResult),
}

/// The characters of an `InspectionResult`.
pub enum InspectionView {
    V4(Ipv4InspectionView),
    V6(Ipv6InspectionView),
}

impl View for InspectionResult {
    type V = InspectionView;

    open spec fn view(&self) -> InspectionView {
        match self {
            InspectionResult::V4(v4) => InspectionView::V4(v4@),
            InspectionResult::V6(v6) => InspectionView::V6(v6@),
        }
    }
}

/// One line of a table of inspection results. A column that a family does
/// not report is empty.
#[derive(Debug, PartialEq, Eq)]
pub struct TableRow {
    pub ip_ver: &'static str,
    pub cidr: String,
    pub address: String,
    pub prefix: u8,
    pub network: String,
    pub first_usable: String,
    pub last_usable: String,
    pub broadcast: String,
    pub available: String,
    pub netmask: String,
    pub hostmask: String,
}

/// The characters of a `TableRow`.
pub struct TableRowView {
    pub ip_ver: Seq<char>,
    pub cidr: Seq<char>,
    pub address: Seq<char>,
    pub prefix: u8,
    pub network: Seq<char>,
    pub first_usable: Seq<char>,
    pub last_usable: Seq<char>,
    pub broadcast: Seq<char>,
    pub available: Seq<char>,
    pub netmask: Seq<char>,
    pub hostmask: Seq<char>,
}

impl View for TableRow {
    type V = TableRowView;

    open spec fn view(&self) -> TableRowView {
        TableRowView {
            ip_ver: self.ip_ver@,
            cidr: self.cidr@,
            address: self.address@,
            prefix: self.prefix,
            network: self.network@,
            first_usable: self.first_usable@,
            last_usable: self.last_usable@,
            broadcast: self.broadcast@,
            available: self.available@,
            netmask: self.netmask@,
            hostmask: self.hostmask@,
        }
    }
}

/// The row that a table shows for `result`: the family's tag, the fields
/// that the family reports, and nothing in the other columns.
pub open spec fn table_row(result: InspectionView) -> TableRowView {
    match result {
        InspectionView::V4(v4) => TableRowView {
            ip_ver: seq!['v', '4'],
            cidr: v4.cidr,
            address: v4.address,
            prefix: v4.prefix_length,
            network: v4.network,
            first_usable: v4.first_usable,
            last_usable: v4.last_usable,
            broadcast: v4.broadcast,
            available: Seq::empty(),
            netmask: Seq::empty(),
            hostmask: Seq::empty(),
        },
        InspectionView::V6(v6) => TableRowView {
            ip_ver: seq!['v', '6'],
            cidr: v6.cidr,
            address: v6.address,
            prefix: v6.prefix_len,
            network: v6.network,
            first_usable: Seq::empty(),
            last_usable: Seq::empty(),
            broadcast: Seq::empty(),
            available: v6.subnet_size,
            netmask: v6.netmask,
            hostmask: v6.hostmask,
        },
    }
}

impl From<InspectionResult> for TableRow {
    /// Lays `value` out as a table row.
    fn from(value: InspectionResult) -> (row: TableRow)
        ensures
            row@ == table_row(value@),
    {
        proof {
            reveal_strlit("v4");
            reveal_strlit("v6");
        }
        let row = match value {
            InspectionResult::V4(v4) => TableRow {
                ip_ver: "v4",
                cidr: v4.cidr,
                address: v4.address,
                prefix: v4.prefix_length,
                first_usable: v4.first_usable,
                last_usable: v4.last_usable,
                network: v4.network,
                broadcast: v4.broadcast,
                available: String::new(),
                netmask: String::new(),
                hostmask: String::new(),
            },
            InspectionResult::V6(v6) => TableRow {
                ip_ver: "v6",
                cidr: v6.cidr,
                address: v6.address,
                prefix: v6.prefix_len,
                netmask: v6.netmask,
                hostmask: v6.hostmask,
                network: v6.network,
                available: v6.subnet_size,
                first_usable: String::new(),
                last_usable: String::new(),
                broadcast: String::new(),
            },
        };
        assert(row@.ip_ver =~= table_row(value@).ip_ver);
        row
    }
}

/// Two rows with the same characters need not be the same value, so the
/// conversion is specified by the `ensures` of `from`, over views.
impl FromSpecImpl<InspectionResult> for TableRow {
    open spec fn obeys_from_spec() -> bool {
        false
    }

    open spec fn from_spec(value: InspectionResult) -> TableRow {
        choose|row: TableRow| row@ == table_row(value@)
    }
}

} // verus!
