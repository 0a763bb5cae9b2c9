//! Addresses, one module per family.

pub mod ipv4;
pub mod ipv6;
