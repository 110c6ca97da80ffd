//! What the link layer asks of a network device.

use crate::protocol::link::address::MacAddress;
use vstd::prelude::*;

verus! {

/// A packet-oriented device: each `read` delivers one frame, each `write`
/// sends one. The stack builds on these calls and assumes nothing about what
/// they return.
pub trait Device {
    /// The name of the device.
    fn name(&self) -> String;

    /// The hardware address of the device.
    fn address(&self) -> Result<MacAddress, std::io::Error>;

    /// Waits for a frame, puts it at the front of `buf` and returns its
    /// length.
    fn read(&mut self, buf: &mut [u8]) -> Result<usize, std::io::Error>;

    /// Sends `buf` as one frame and returns how many bytes went out.
    fn write(&mut self, buf: &[u8]) -> Result<usize, std::io::Error>;

    /// Pushes out what the device may have buffered.
    fn flush(&mut self) -> Result<(), std::io::Error>;
}

} // verus!
