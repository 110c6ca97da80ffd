//! A small layered network stack, verified with Verus.
//!
//! The codec layer decodes Ethernet frames, ARP messages, IPv4 datagrams and
//! ICMP messages from bytes and encodes them again; its contracts are stated
//! over `parse` and `encode`, which are proved to be inverse to each other on
//! well-formed values. The link interface turns a [`protocol::physical::Device`]
//! into a stream of frames, and the internet interface turns that into a
//! stream of datagrams and resolves hardware addresses through an ARP table.
//!
//! Nothing is assumed of a device. Instead each link interface keeps, for
//! proofs only, a record of the buffers that went to the device and of those
//! that came from it, in the order in which that happened, and the contracts
//! of the interfaces speak of this record. What an interface makes of an
//! answer of the device is the work of a function of its own, which takes the
//! answer as an argument. Every wait is bounded: an interface gives up after
//! as many frames as it has patience for.

pub mod protocol;
