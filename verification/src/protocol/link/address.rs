//! Hardware addresses.

use crate::protocol::error::FormatError;
use crate::protocol::text::{hex8, push_hex8, push_text};
use crate::protocol::wire::{write_all, Reader};
use vstd::prelude::*;

verus! {

/// A 6-byte hardware address.
#[derive(Debug, Clone, Copy, PartialEq, Eq, Hash)]
pub struct MacAddress(pub [u8; 6]);

impl MacAddress {
    /// The address as it stands on the wire.
    pub open spec fn encode(self) -> Seq<u8> {
        self.0@
    }

    /// The address at the front of `s`, where `s` holds one.
    pub open spec fn parse(s: Seq<u8>) -> Option<MacAddress> {
        if s.len() >= 6 {
            Some(MacAddress([s[0], s[1], s[2], s[3], s[4], s[5]]))
        } else {
            None
        }
    }

    /// The address that every station on a link receives: all bytes `0xff`.
    pub open spec fn spec_broadcast() -> MacAddress {
        MacAddress([0xff, 0xff, 0xff, 0xff, 0xff, 0xff])
    }

    /// The broadcast address.
    pub fn broadcast() -> (addr: Self)
        ensures
            addr == Self::spec_broadcast(),
    {
        MacAddress([0xff, 0xff, 0xff, 0xff, 0xff, 0xff])
    }

    /// Decodes an address from the next six bytes.
    pub fn read_from(r: &mut Reader<'_>) -> (res: Result<Self, FormatError>)
        ensures
            match Self::parse(old(r).remaining()) {
                Some(addr) => {
                    &&& res == Ok::<Self, FormatError>(addr)
                    &&& final(r).remaining() == old(r).remaining().skip(6)
                },
                None => {
                    &&& res == Err::<Self, FormatError>(FormatError::Truncated)
                    &&& final(r).remaining() == Seq::<u8>::empty()
                },
            },
    {
        match r.read_exact(6) {
            Ok(b) => Ok(MacAddress([b[0], b[1], b[2], b[3], b[4], b[5]])),
            Err(e) => Err(e),
        }
    }

    /// Appends the six bytes of the address to `w`.
    pub fn write_to(&self, w: &mut Vec<u8>)
        ensures
            final(w)@ == old(w)@ + self.encode(),
    {
        write_all(w, self.0.as_slice());
    }
}

/// An address survives encoding and decoding, whatever follows it.
pub proof fn lemma_mac_round_trip(addr: MacAddress, rest: Seq<u8>)
    ensures
        addr.encode().len() == 6,
        MacAddress::parse(addr.encode() + rest) == Some(addr),
{
    let s = addr.encode() + rest;
    let back = MacAddress([s[0], s[1], s[2], s[3], s[4], s[5]]);
    assert(back.0 =~= addr.0);
}

/// What was decoded is what stood at the front of the buffer.
pub proof fn lemma_mac_parse_prefix(s: Seq<u8>)
    ensures
        MacAddress::parse(s) matches Some(addr) ==> addr.encode() == s.take(6),
        s.len() < 6 <==> MacAddress::parse(s) is None,
{
    if s.len() >= 6 {
        let addr = MacAddress::parse(s)->Some_0;
        assert(addr.encode() =~= s.take(6));
    }
}

impl MacAddress {
    /// The address as text: its bytes in two hexadecimal digits each, with
    /// colons between them.
    pub open spec fn render(self) -> Seq<char> {
        hex8(self.0[0], 2) + ":"@ + hex8(self.0[1], 2) + ":"@ + hex8(self.0[2], 2) + ":"@ + hex8(
            self.0[3],
            2,
        ) + ":"@ + hex8(self.0[4], 2) + ":"@ + hex8(self.0[5], 2)
    }

    /// The address as text.
    pub fn to_string(&self) -> (s: String)
        ensures
            s@ == self.render(),
    {
        let mut s = String::new();
        push_hex8(&mut s, self.0[0], 2);
        assert(s@ =~= hex8(self.0[0], 2));
        push_text(&mut s, ":");
        push_hex8(&mut s, self.0[1], 2);
        push_text(&mut s, ":");
        push_hex8(&mut s, self.0[2], 2);
        push_text(&mut s, ":");
        push_hex8(&mut s, self.0[3], 2);
        push_text(&mut s, ":");
        push_hex8(&mut s, self.0[4], 2);
        push_text(&mut s, ":");
        push_hex8(&mut s, self.0[5], 2);
        s
    }
}

} // verus!
