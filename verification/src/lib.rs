//! CIDR inspection: parsing of IPv4 and IPv6 network specifications and the
//! bit-level arithmetic that derives their network properties.
//!
//! Text goes through `cidr::Cidr::from_str` to a network of one of the two
//! families, and through `inspect` to an `inspector::InspectionResult`.
//! `cidr::inspect_all` does both for a batch.

pub mod cidr;
pub mod inspector;
pub mod ip;
pub mod text;
