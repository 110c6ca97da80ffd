//! The internet layer: IPv4 addresses, datagrams and ICMP.

pub mod address;
pub mod icmp;
pub mod interface;
pub mod ip;

pub use interface::Interface;
