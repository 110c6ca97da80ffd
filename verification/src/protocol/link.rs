//! The link layer: hardware addresses, Ethernet frames and ARP.

pub mod address;
pub mod arp;
pub mod ethernet;
pub mod interface;

pub use interface::Interface;
