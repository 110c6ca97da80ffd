//! IPv4 addresses.

use crate::protocol::error::FormatError;
use crate::protocol::text::{dec8, push_dec8, push_text};
use crate::protocol::wire::{write_all, Reader};
use vstd::prelude::*;

verus! {

/// A 4-byte IPv4 address.
#[derive(Debug, Clone, Copy, PartialEq, Eq, Hash)]
pub struct IPAddress(pub [u8; 4]);

impl IPAddress {
    /// The address as it stands on the wire.
    pub open spec fn encode(self) -> Seq<u8> {
        self.0@
    }

    /// The address at the front of `s`, where `s` holds one.
    pub open spec fn parse(s: Seq<u8>) -> Option<IPAddress> {
        if s.len() >= 4 {
            Some(IPAddress([s[0], s[1], s[2], s[3]]))
        } else {
            None
        }
    }

    /// Decodes an address from the next four bytes.
    pub fn read_from(r: &mut Reader<'_>) -> (res: Result<Self, FormatError>)
        ensures
            match Self::parse(old(r).remaining()) {
                Some(addr) => {
                    &&& res == Ok::<Self, FormatError>(addr)
                    &&& final(r).remaining() == old(r).remaining().skip(4)
                },
                None => {
                    &&& res == Err::<Self, FormatError>(FormatError::Truncated)
                    &&& final(r).remaining() == Seq::<u8>::empty()
                },
            },
    {
        match r.read_exact(4) {
            Ok(b) => Ok(IPAddress([b[0], b[1], b[2], b[3]])),
            Err(e) => Err(e),
        }
    }

    /// Appends the four bytes of the address to `w`.
    pub fn write_to(&self, w: &mut Vec<u8>)
        ensures
            final(w)@ == old(w)@ + self.encode(),
    {
        write_all(w, self.0.as_slice());
    }
}

/// An address survives encoding and decoding, whatever follows it.
pub proof fn lemma_ip_round_trip(addr: IPAddress, rest: Seq<u8>)
    ensures
        addr.encode().len() == 4,
        IPAddress::parse(addr.encode() + rest) == Some(addr),
{
    let s = addr.encode() + rest;
    let back = IPAddress([s[0], s[1], s[2], s[3]]);
    assert(back.0 =~= addr.0);
}

/// What was decoded is what stood at the front of the buffer.
pub proof fn lemma_ip_parse_prefix(s: Seq<u8>)
    ensures
        IPAddress::parse(s) matches Some(addr) ==> addr.encode() == s.take(4),
        s.len() < 4 <==> IPAddress::parse(s) is None,
{
    if s.len() >= 4 {
        let addr = IPAddress::parse(s)->Some_0;
        assert(addr.encode() =~= s.take(4));
    }
}

impl IPAddress {
    /// The address as text: its bytes in decimal, with dots between them.
    pub open spec fn render(self) -> Seq<char> {
        dec8(self.0[0]) + "."@ + dec8(self.0[1]) + "."@ + dec8(self.0[2]) + "."@ + dec8(self.0[3])
    }

    /// The address as text.
    pub fn to_string(&self) -> (s: String)
        ensures
            s@ == self.render(),
    {
        let mut s = String::new();
        push_dec8(&mut s, self.0[0]);
        assert(s@ =~= dec8(self.0[0]));
        push_text(&mut s, ".");
        push_dec8(&mut s, self.0[1]);
        push_text(&mut s, ".");
        push_dec8(&mut s, self.0[2]);
        push_text(&mut s, ".");
        push_dec8(&mut s, self.0[3]);
        s
    }
}

} // verus!
