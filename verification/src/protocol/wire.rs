//! Reading and writing integers in network byte order.

use crate::protocol::error::FormatError;
use byteorder::{BigEndian, ByteOrder};
use vstd::prelude::*;
use vstd::slice::slice_subrange;

verus! {

/// The 16-bit integer whose big-endian encoding is `hi` followed by `lo`.
pub open spec fn be16(hi: u8, lo: u8) -> u16 {
    (hi as int * 256 + lo as int) as u16
}

/// The big-endian encoding of `n`: most significant byte first.
pub open spec fn be16_bytes(n: u16) -> Seq<u8> {
    seq![(n / 256) as u8, (n % 256) as u8]
}

/// Decoding the encoding of a 16-bit integer gives the integer back.
pub proof fn lemma_be16_of_bytes(n: u16)
    ensures
        be16_bytes(n).len() == 2,
        be16(be16_bytes(n)[0], be16_bytes(n)[1]) == n,
{
}

/// Encoding a decoded pair of bytes gives the two bytes back.
pub proof fn lemma_bytes_of_be16(hi: u8, lo: u8)
    ensures
        be16_bytes(be16(hi, lo)) == seq![hi, lo],
{
    assert(be16_bytes(be16(hi, lo)) =~= seq![hi, lo]);
}

/// Where `head` stands at the front of `s` and `tail` right behind it, the two
/// together stand at the front of `s`.
pub proof fn lemma_prefix_extend(head: Seq<u8>, tail: Seq<u8>, s: Seq<u8>)
    requires
        head.is_prefix_of(s),
        tail.is_prefix_of(s.skip(head.len() as int)),
    ensures
        (head + tail).is_prefix_of(s),
{
    assert((head + tail) =~= s.subrange(0, (head + tail).len() as int));
}

/// Calls `byteorder::BigEndian::read_u16`, which reads the first two bytes of
/// `buf` as a big-endian integer and panics on a shorter buffer.
#[verifier::external_body]
fn big_endian_read_u16(buf: &[u8]) -> (n: u16)
    requires
        buf@.len() >= 2,
    ensures
        n == be16(buf@[0], buf@[1]),
{
    BigEndian::read_u16(buf)
}

/// Calls `byteorder::BigEndian::write_u16` on a two-byte buffer, which it
/// fills with the big-endian encoding of `n`.
#[verifier::external_body]
fn big_endian_write_u16(n: u16) -> (bytes: [u8; 2])
    ensures
        bytes@ == be16_bytes(n),
{
    let mut bytes = [0u8; 2];
    BigEndian::write_u16(&mut bytes, n);
    bytes
}

/// A cursor over a byte buffer: decoding consumes bytes from its front.
pub struct Reader<'a> {
    buf: &'a [u8],
    pos: usize,
}

impl<'a> Reader<'a> {
    #[verifier::type_invariant]
    spec fn in_bounds(self) -> bool {
        self.pos <= self.buf@.len()
    }

    /// The bytes not yet consumed.
    pub closed spec fn remaining(&self) -> Seq<u8> {
        self.buf@.skip(self.pos as int)
    }

    /// A cursor at the start of `buf`.
    pub fn new(buf: &'a [u8]) -> (r: Self)
        ensures
            r.remaining() == buf@,
    {
        Reader { buf, pos: 0 }
    }

    /// How many bytes are left.
    pub fn len(&self) -> (n: usize)
        ensures
            n == self.remaining().len(),
    {
        proof {
            use_type_invariant(self);
        }
        self.buf.len() - self.pos
    }

    /// Consumes one byte. At the end of the buffer this fails.
    pub fn read_u8(&mut self) -> (res: Result<u8, FormatError>)
        ensures
            old(self).remaining().len() >= 1 ==> {
                &&& res == Ok::<u8, FormatError>(old(self).remaining()[0])
                &&& final(self).remaining() == old(self).remaining().skip(1)
            },
            old(self).remaining().len() < 1 ==> {
                &&& res == Err::<u8, FormatError>(FormatError::Truncated)
                &&& final(self).remaining() == Seq::<u8>::empty()
            },
    {
        proof {
            use_type_invariant(&*self);
        }
        if self.buf.len() - self.pos < 1 {
            self.pos = self.buf.len();
            return Err(FormatError::Truncated);
        }
        let b: u8 = self.buf[self.pos];
        self.pos = self.pos + 1;
        Ok(b)
    }

    /// Consumes two bytes as a big-endian integer. With fewer than two bytes
    /// left this fails and the cursor ends up at the end of the buffer.
    pub fn read_u16(&mut self) -> (res: Result<u16, FormatError>)
        ensures
            old(self).remaining().len() >= 2 ==> {
                &&& res == Ok::<u16, FormatError>(
                    be16(old(self).remaining()[0], old(self).remaining()[1]),
                )
                &&& final(self).remaining() == old(self).remaining().skip(2)
            },
            old(self).remaining().len() < 2 ==> {
                &&& res == Err::<u16, FormatError>(FormatError::Truncated)
                &&& final(self).remaining() == Seq::<u8>::empty()
            },
    {
        proof {
            use_type_invariant(&*self);
        }
        if self.buf.len() - self.pos < 2 {
            self.pos = self.buf.len();
            return Err(FormatError::Truncated);
        }
        let n: u16 = big_endian_read_u16(slice_subrange(self.buf, self.pos, self.pos + 2));
        self.pos = self.pos + 2;
        Ok(n)
    }

    /// Consumes `n` bytes and hands them out. With fewer than `n` bytes left
    /// this fails and the cursor ends up at the end of the buffer.
    pub fn read_exact(&mut self, n: usize) -> (res: Result<&'a [u8], FormatError>)
        ensures
            old(self).remaining().len() >= n ==> {
                &&& res is Ok
                &&& res->Ok_0@ == old(self).remaining().take(n as int)
                &&& final(self).remaining() == old(self).remaining().skip(n as int)
            },
            old(self).remaining().len() < n ==> {
                &&& res is Err
                &&& res->Err_0 == FormatError::Truncated
                &&& final(self).remaining() == Seq::<u8>::empty()
            },
    {
        proof {
            use_type_invariant(&*self);
        }
        if self.buf.len() - self.pos < n {
            self.pos = self.buf.len();
            return Err(FormatError::Truncated);
        }
        let bytes: &'a [u8] = slice_subrange(self.buf, self.pos, self.pos + n);
        self.pos = self.pos + n;
        assert(bytes@ =~= old(self).remaining().take(n as int));
        Ok(bytes)
    }

    /// Consumes everything that is left.
    pub fn read_to_end(&mut self) -> (rest: Vec<u8>)
        ensures
            rest@ == old(self).remaining(),
            final(self).remaining() == Seq::<u8>::empty(),
    {
        proof {
            use_type_invariant(&*self);
        }
        let mut rest: Vec<u8> = Vec::new();
        let ghost start: int = self.pos as int;
        while self.pos < self.buf.len()
            invariant
                0 <= start <= self.pos <= self.buf@.len(),
                self.buf == old(self).buf,
                rest@ == self.buf@.subrange(start, self.pos as int),
            decreases self.buf@.len() - self.pos,
        {
            rest.push(self.buf[self.pos]);
            self.pos = self.pos + 1;
            assert(rest@ =~= self.buf@.subrange(start, self.pos as int));
        }
        assert(rest@ =~= old(self).remaining());
        assert(self.remaining() =~= Seq::<u8>::empty());
        rest
    }
}

/// Appends one byte to `w`.
pub fn write_u8(w: &mut Vec<u8>, n: u8)
    ensures
        final(w)@ == old(w)@.push(n),
{
    w.push(n);
}

/// Appends the big-endian encoding of `n` to `w`.
pub fn write_u16(w: &mut Vec<u8>, n: u16)
    ensures
        final(w)@ == old(w)@ + be16_bytes(n),
{
    let bytes: [u8; 2] = big_endian_write_u16(n);
    w.push(bytes[0]);
    w.push(bytes[1]);
}

/// Appends `bytes` to `w`.
pub fn write_all(w: &mut Vec<u8>, bytes: &[u8])
    ensures
        final(w)@ == old(w)@ + bytes@,
{
    let mut i: usize = 0;
    while i < bytes.len()
        invariant
            i <= bytes@.len(),
            w@ == old(w)@ + bytes@.take(i as int),
        decreases bytes@.len() - i,
    {
        w.push(bytes[i]);
        i = i + 1;
    }
}

} // verus!
