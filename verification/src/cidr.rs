//! Networks in CIDR notation, one module per family, and the parser that
//! tells the families apart.

use crate::cidr::ipv4::{parse_ipv4_cidr, Ipv4Cidr, Ipv4CidrParseError, Ipv4CidrView};
use crate::cidr::ipv6::{parse_ipv6_cidr, Ipv6Cidr, Ipv6CidrParseError, Ipv6CidrView};
use crate::inspector::{InspectionResult, InspectionView};
use std::str::FromStr;
use vstd::prelude::*;

pub mod ipv4;
pub mod ipv6;

verus! {

/// Why an address and a prefix length do not make a network.
#[derive(Debug, PartialEq, Eq, Clone, Copy, Structural)]
pub enum CidrPartsError {
    /// The prefix length, which is longer than the address.
    InvalidPrefix(u8),
}

/// Why a text is not a network of either family.
#[derive(Debug, PartialEq, Eq, Clone, Copy, Structural)]
pub enum CidrParseError {
    /// Neither family accepts the text; `v4` and `v6` say why not.
    Neither { v4: Ipv4CidrParseError, v6: Ipv6CidrParseError },
}

/// The first text of a batch that is not a network, and why not.
#[derive(Debug, PartialEq, Eq, Clone, Copy, Structural)]
pub struct InspectError {
    /// The position of the text in the batch.
    pub index: usize,
    pub error: CidrParseError,
}

/// A network of either family.
#[derive(Debug, PartialEq, Eq, Clone, Copy)]
pub enum Cidr {
    V4(Ipv4Cidr),
    V6(Ipv6Cidr),
}

/// What a `Cidr` stands for.
pub enum CidrView {
    V4(Ipv4CidrView),
    V6(Ipv6CidrView),
}

impl CidrView {
    /// What an inspection reports of the network.
    pub open spec fn inspection(self) -> InspectionView {
        match self {
            CidrView::V4(v4) => InspectionView::V4(v4.inspection()),
            CidrView::V6(v6) => InspectionView::V6(v6.inspection()),
        }
    }
}

impl View for Cidr {
    type V = CidrView;

    open spec fn view(&self) -> CidrView {
        match self {
            Cidr::V4(v4) => CidrView::V4(v4@),
            Cidr::V6(v6) => CidrView::V6(v6@),
        }
    }
}

/// What `s` means as a network: an IPv4 network if it is one; else an IPv6
/// network if it is one; else nothing, for the reasons of both families.
pub open spec fn parse_cidr(s: Seq<char>) -> Result<CidrView, CidrParseError> {
    match parse_ipv4_cidr(s) {
        Ok(v4) => Ok(CidrView::V4(v4)),
        Err(v4) => match parse_ipv6_cidr(s) {
            Ok(v6) => Ok(CidrView::V6(v6)),
            Err(v6) => Err(CidrParseError::Neither { v4, v6 }),
        },
    }
}

impl Cidr {
    /// Inspects the network with the rules of its family.
    pub fn inspect(&self) -> (r: InspectionResult)
        ensures
            r@ == self@.inspection(),
    {
        match self {
            Cidr::V4(v4) => v4.inspect(),
            Cidr::V6(v6) => v6.inspect(),
        }
    }
}

impl FromStr for Cidr {
    type Err = CidrParseError;

    /// Parses a network of either family. The text is tried as IPv4 first,
    /// and as IPv6 only if that fails.
    fn from_str(s: &str) -> (r: Result<Cidr, CidrParseError>)
        ensures
            match parse_cidr(s@) {
                Ok(cidr) => r is Ok && r->Ok_0@ == cidr,
                Err(e) => r == Err::<Cidr, CidrParseError>(e),
            },
    {
        let v4_err: Ipv4CidrParseError = match Ipv4Cidr::from_str(s) {
            Ok(v4) => {
                return Ok(Cidr::V4(v4));
            },
            Err(e) => e,
        };
        let v6_err: Ipv6CidrParseError = match Ipv6Cidr::from_str(s) {
            Ok(v6) => {
                return Ok(Cidr::V6(v6));
            },
            Err(e) => e,
        };
        Err(CidrParseError::Neither { v4: v4_err, v6: v6_err })
    }
}

/// What inspecting the text `s` gives: the inspection of the network that
/// it means, or the reason why it means none.
#[verifier::opaque]
pub open spec fn inspect_text(s: Seq<char>) -> Result<InspectionView, CidrParseError> {
    match parse_cidr(s) {
        Ok(cidr) => Ok(cidr.inspection()),
        Err(e) => Err(e),
    }
}

/// Parses and inspects one text.
pub fn inspect_one(input: &str) -> (r: Result<InspectionResult, CidrParseError>)
    ensures
        match inspect_text(input@) {
            Ok(inspection) => r is Ok && r->Ok_0@ == inspection,
            Err(e) => r == Err::<InspectionResult, CidrParseError>(e),
        },
{
    reveal(inspect_text);
    match Cidr::from_str(input) {
        Ok(cidr) => Ok(cidr.inspect()),
        Err(e) => Err(e),
    }
}

/// Parses and inspects each text of a batch, in order. The batch fails as
/// a whole on the first text that is not a network: nothing is skipped.
pub fn inspect_all(inputs: &Vec<String>) -> (r: Result<Vec<InspectionResult>, InspectError>)
    ensures
        match r {
            Ok(results) => {
                &&& results@.len() == inputs@.len()
                &&& forall|i: int|
                    0 <= i < inputs@.len() ==> inspect_text(inputs@[i]@) == Ok::<
                        InspectionView,
                        CidrParseError,
                    >((#[trigger] results@[i])@)
            },
            Err(e) => {
                &&& e.index < inputs@.len()
                &&& inspect_text(inputs@[e.index as int]@) == Err::<
                    InspectionView,
                    CidrParseError,
                >(e.error)
                &&& forall|i: int|
                    0 <= i < e.index ==> (#[trigger] inspect_text(inputs@[i]@)) is Ok
            },
        },
{
    let mut results: Vec<InspectionResult> = Vec::new();
    let mut index: usize = 0;
    while index < inputs.len()
        invariant
            index <= inputs@.len(),
            results@.len() == index,
            forall|i: int|
                0 <= i < index ==> inspect_text(inputs@[i]@) == Ok::<
                    InspectionView,
                    CidrParseError,
                >((#[trigger] results@[i])@),
            forall|i: int| 0 <= i < index ==> (#[trigger] inspect_text(inputs@[i]@)) is Ok,
        decreases inputs@.len() - index,
    {
        match inspect_one(inputs[index].as_str()) {
            Ok(result) => {
                results.push(result);
            },
            Err(error) => {
                return Err(InspectError { index, error });
            },
        }
        index += 1;
    }
    Ok(results)
}

} // verus!
