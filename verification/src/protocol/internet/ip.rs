//! IPv4 datagrams.

use crate::protocol::error::FormatError;
pub use crate::protocol::internet::address::IPAddress;
use crate::protocol::internet::icmp::IcmpMessage;
use crate::protocol::text::{
    bin16, dec16, dec8, hex16, hex8, push_bin16, push_dec16, push_dec8, push_hex16, push_hex8,
    push_text,
};
use crate::protocol::wire::{
    be16, be16_bytes, lemma_prefix_extend, write_all, write_u16, write_u8, Reader,
};
use vstd::prelude::*;
use vstd::std_specs::convert::FromSpecImpl;
use vstd::string::StringExecFns;

verus! {

/// An IPv4 datagram: its header and what the header's protocol tag announces.
#[derive(Debug, Clone, PartialEq, Eq)]
pub struct IPDatagram {
    pub header: IPHeader,
    pub payload: IPPayload,
}

/// The fixed 20 bytes of an IPv4 header. Version, header length, flags and
/// fragment offset are packed as on the wire and unpacked by the methods of
/// those names; the checksum is carried and never computed.
#[derive(Debug, Clone, Copy, PartialEq, Eq)]
pub struct IPHeader {
    pub version_ihl: u8,
    pub tos: u8,
    pub length: u16,
    pub identification: u16,
    pub flags_offset: u16,
    pub ttl: u8,
    pub protocol: Protocol,
    pub checksum: u16,
    pub src_addr: IPAddress,
    pub dst_addr: IPAddress,
}

/// The tag of an IPv4 header that names the protocol of the payload.
#[derive(Debug, Clone, Copy, PartialEq, Eq, Structural)]
pub enum Protocol {
    Icmp,
    Tcp,
    Udp,
    Unknown(u8),
}

/// What an IPv4 datagram carries: a decoded ICMP message, or the bytes of a
/// protocol that is not decoded.
#[derive(Debug, Clone, PartialEq, Eq)]
pub enum IPPayload {
    Icmp(IcmpMessage),
    Raw(Vec<u8>),
}

/// The mathematical value of an [`IPPayload`].
pub enum IPPayloadView {
    Icmp(IcmpMessage),
    Raw(Seq<u8>),
}

/// The mathematical value of an [`IPDatagram`].
pub struct IPDatagramView {
    pub header: IPHeader,
    pub payload: IPPayloadView,
}

impl View for IPPayload {
    type V = IPPayloadView;

    open spec fn view(&self) -> IPPayloadView {
        match *self {
            IPPayload::Icmp(msg) => IPPayloadView::Icmp(msg),
            IPPayload::Raw(bytes) => IPPayloadView::Raw(bytes@),
        }
    }
}

impl View for IPDatagram {
    type V = IPDatagramView;

    open spec fn view(&self) -> IPDatagramView {
        IPDatagramView { header: self.header, payload: self.payload@ }
    }
}

impl Protocol {
    /// The protocol that the number `v` stands for.
    pub open spec fn of(v: u8) -> Protocol {
        if v == 1 {
            Protocol::Icmp
        } else if v == 6 {
            Protocol::Tcp
        } else if v == 17 {
            Protocol::Udp
        } else {
            Protocol::Unknown(v)
        }
    }

    /// The number that stands for the protocol on the wire.
    pub open spec fn value(self) -> u8 {
        match self {
            Protocol::Icmp => 1,
            Protocol::Tcp => 6,
            Protocol::Udp => 17,
            Protocol::Unknown(x) => x,
        }
    }

    /// `Unknown` holds no number that has a variant of its own.
    pub open spec fn wf(self) -> bool {
        self matches Protocol::Unknown(x) ==> x != 1 && x != 6 && x != 17
    }
}

impl From<u8> for Protocol {
    fn from(v: u8) -> (protocol: Self) {
        match v {
            1 => Self::Icmp,
            6 => Self::Tcp,
            17 => Self::Udp,
            x => Self::Unknown(x),
        }
    }
}

impl FromSpecImpl<u8> for Protocol {
    open spec fn obeys_from_spec() -> bool {
        true
    }

    open spec fn from_spec(v: u8) -> Self {
        Protocol::of(v)
    }
}

impl From<Protocol> for u8 {
    fn from(v: Protocol) -> (n: Self) {
        match v {
            Protocol::Icmp => 1,
            Protocol::Tcp => 6,
            Protocol::Udp => 17,
            Protocol::Unknown(x) => x,
        }
    }
}

impl FromSpecImpl<Protocol> for u8 {
    open spec fn obeys_from_spec() -> bool {
        true
    }

    open spec fn from_spec(v: Protocol) -> Self {
        v.value()
    }
}

impl IPHeader {
    /// The protocol tag holds no number that has a variant of its own.
    pub open spec fn wf(self) -> bool {
        self.protocol.wf()
    }

    /// The header as it stands on the wire.
    pub open spec fn encode(self) -> Seq<u8> {
        seq![self.version_ihl, self.tos] + be16_bytes(self.length) + be16_bytes(
            self.identification,
        ) + be16_bytes(self.flags_offset) + seq![self.ttl, self.protocol.value()] + be16_bytes(
            self.checksum,
        ) + self.src_addr.encode() + self.dst_addr.encode()
    }

    /// The header at the front of `s`, where `s` holds one.
    pub open spec fn parse(s: Seq<u8>) -> Option<IPHeader> {
        if s.len() >= 20 {
            Some(
                IPHeader {
                    version_ihl: s[0],
                    tos: s[1],
                    length: be16(s[2], s[3]),
                    identification: be16(s[4], s[5]),
                    flags_offset: be16(s[6], s[7]),
                    ttl: s[8],
                    protocol: Protocol::of(s[9]),
                    checksum: be16(s[10], s[11]),
                    src_addr: IPAddress([s[12], s[13], s[14], s[15]]),
                    dst_addr: IPAddress([s[16], s[17], s[18], s[19]]),
                },
            )
        } else {
            None
        }
    }

    /// The IP version: the upper four bits of the first byte.
    pub fn version(&self) -> (v: u8)
        ensures
            v == self.spec_version(),
    {
        let x: u8 = self.version_ihl;
        assert((x & 0xf0) >> 4 == x / 16) by (bit_vector);
        (self.version_ihl & 0xf0) >> 4
    }

    /// The header length in 32-bit words: the lower four bits of the first
    /// byte.
    pub fn ihl(&self) -> (v: u8)
        ensures
            v == self.spec_ihl(),
    {
        let x: u8 = self.version_ihl;
        assert(x & 0x0f == x % 16) by (bit_vector);
        self.version_ihl & 0x0f
    }

    /// The three flag bits: the upper three bits of the flags and offset.
    pub fn flags(&self) -> (v: u16)
        ensures
            v == self.spec_flags(),
    {
        let x: u16 = self.flags_offset;
        assert((x & 0xe000) >> 13 == x / 8192) by (bit_vector);
        (self.flags_offset & 0xe000) >> 13
    }

    /// The fragment offset: the lower thirteen bits of the flags and offset.
    pub fn offset(&self) -> (v: u16)
        ensures
            v == self.spec_offset(),
    {
        let x: u16 = self.flags_offset;
        assert(x & 0x1fff == x % 8192) by (bit_vector);
        self.flags_offset & 0x1fff
    }

    /// Decodes a header from the next 20 bytes. With fewer bytes left this
    /// fails and the cursor ends up at the end of the buffer.
    pub fn read_from(r: &mut Reader<'_>) -> (res: Result<Self, FormatError>)
        ensures
            match Self::parse(old(r).remaining()) {
                Some(header) => {
                    &&& res == Ok::<Self, FormatError>(header)
                    &&& final(r).remaining() == old(r).remaining().skip(20)
                },
                None => {
                    &&& res == Err::<Self, FormatError>(FormatError::Truncated)
                    &&& final(r).remaining() == Seq::<u8>::empty()
                },
            },
    {
        let ghost s = r.remaining();
        let version_ihl: u8 = r.read_u8()?;
        assert(r.remaining() =~= s.skip(1));
        let tos: u8 = r.read_u8()?;
        assert(r.remaining() =~= s.skip(2));
        let length: u16 = r.read_u16()?;
        assert(r.remaining() =~= s.skip(4));
        let identification: u16 = r.read_u16()?;
        assert(r.remaining() =~= s.skip(6));
        let flags_offset: u16 = r.read_u16()?;
        assert(r.remaining() =~= s.skip(8));
        let ttl: u8 = r.read_u8()?;
        assert(r.remaining() =~= s.skip(9));
        let protocol = Protocol::from(r.read_u8()?);
        assert(r.remaining() =~= s.skip(10));
        let checksum: u16 = r.read_u16()?;
        assert(r.remaining() =~= s.skip(12));
        let src_addr = IPAddress::read_from(r)?;
        assert(r.remaining() =~= s.skip(16));
        let dst_addr = IPAddress::read_from(r)?;
        assert(r.remaining() =~= s.skip(20));
        Ok(
            IPHeader {
                version_ihl,
                tos,
                length,
                identification,
                flags_offset,
                ttl,
                protocol,
                checksum,
                src_addr,
                dst_addr,
            },
        )
    }

    /// Appends the 20 bytes of the header to `w`.
    pub fn write_to(self, w: &mut Vec<u8>)
        ensures
            final(w)@ == old(w)@ + self.encode(),
    {
        write_u8(w, self.version_ihl);
        write_u8(w, self.tos);
        write_u16(w, self.length);
        write_u16(w, self.identification);
        write_u16(w, self.flags_offset);
        write_u8(w, self.ttl);
        write_u8(w, self.protocol.into());
        write_u16(w, self.checksum);
        self.src_addr.write_to(w);
        self.dst_addr.write_to(w);
        assert(w@ =~= old(w)@ + self.encode());
    }
}

impl IPPayloadView {
    /// The payload as it stands on the wire.
    pub open spec fn encode(self) -> Seq<u8> {
        match self {
            IPPayloadView::Icmp(msg) => msg.encode(),
            IPPayloadView::Raw(bytes) => bytes,
        }
    }
}

impl IPPayload {
    /// Appends the bytes of the payload to `w`.
    pub fn write_to(self, w: &mut Vec<u8>)
        ensures
            final(w)@ == old(w)@ + self@.encode(),
    {
        match self {
            Self::Icmp(msg) => msg.write_to(w),
            Self::Raw(bytes) => write_all(w, bytes.as_slice()),
        }
    }

    /// The protocol tag of a header that carries this payload. Only a decoded
    /// payload has one.
    pub fn protocol(&self) -> (protocol: Protocol)
        requires
            self is Icmp,
        ensures
            protocol == Protocol::Icmp,
    {
        Protocol::Icmp
    }
}

impl IPDatagramView {
    /// The header is well-formed, and the payload is the one that the
    /// header's protocol tag announces: a well-formed ICMP message under the
    /// ICMP tag, raw bytes under every other.
    pub open spec fn wf(self) -> bool {
        &&& self.header.wf()
        &&& match self.payload {
            IPPayloadView::Icmp(msg) => self.header.protocol is Icmp && msg.wf(),
            IPPayloadView::Raw(_) => !(self.header.protocol is Icmp),
        }
    }

    /// The datagram as it stands on the wire.
    pub open spec fn encode(self) -> Seq<u8> {
        self.header.encode() + self.payload.encode()
    }

    /// The datagram at the front of `s`, where `s` holds one. Under the ICMP
    /// tag the payload is the message that follows the header; under every
    /// other it is all that follows the header.
    pub open spec fn parse(s: Seq<u8>) -> Option<IPDatagramView> {
        match IPHeader::parse(s) {
            None => None,
            Some(header) => if header.protocol is Icmp {
                match IcmpMessage::parse(s.skip(20)) {
                    None => None,
                    Some(msg) => Some(
                        IPDatagramView { header, payload: IPPayloadView::Icmp(msg) },
                    ),
                }
            } else {
                Some(IPDatagramView { header, payload: IPPayloadView::Raw(s.skip(20)) })
            },
        }
    }
}

impl IPDatagram {
    /// Decodes a datagram: the header, then the payload that its protocol tag
    /// announces. Where the buffer ends before the header or the ICMP message
    /// is complete, this fails and the cursor ends up at the end of the
    /// buffer.
    pub fn read_from(r: &mut Reader<'_>) -> (res: Result<Self, FormatError>)
        ensures
            match IPDatagramView::parse(old(r).remaining()) {
                Some(v) => {
                    &&& res is Ok
                    &&& res->Ok_0@ == v
                    &&& old(r).remaining() == v.encode() + final(r).remaining()
                },
                None => {
                    &&& res is Err
                    &&& res->Err_0 == FormatError::Truncated
                    &&& final(r).remaining() == Seq::<u8>::empty()
                },
            },
    {
        let ghost s = r.remaining();
        let header = IPHeader::read_from(r)?;
        proof {
            lemma_ip_header_parse_prefix(s);
        }
        let payload = match header.protocol {
            Protocol::Icmp => IPPayload::Icmp(IcmpMessage::read_from(r)?),
            _ => IPPayload::Raw(r.read_to_end()),
        };
        let datagram = IPDatagram { header, payload };
        proof {
            let tail = datagram@.payload.encode() + r.remaining();
            assert(tail =~= s.skip(20));
            assert(s =~= s.take(20) + s.skip(20));
            assert(s =~= datagram@.encode() + r.remaining());
        }
        Ok(datagram)
    }

    /// Appends the bytes of the datagram to `w`: the header, then the payload.
    pub fn write_to(self, w: &mut Vec<u8>)
        ensures
            final(w)@ == old(w)@ + self@.encode(),
    {
        self.header.write_to(w);
        self.payload.write_to(w);
        assert(w@ =~= old(w)@ + self@.encode());
    }
}

/// Every 8-bit number is a protocol, a number without a variant of its own is
/// kept in `Unknown`, and the protocol gives the number back.
pub proof fn lemma_protocol_total(v: u8)
    ensures
        Protocol::of(v).wf(),
        Protocol::of(v).value() == v,
        v != 1 && v != 6 && v != 17 ==> Protocol::of(v) == Protocol::Unknown(v),
{
}

/// A well-formed protocol survives the way to its number and back.
pub proof fn lemma_protocol_round_trip(protocol: Protocol)
    requires
        protocol.wf(),
    ensures
        Protocol::of(protocol.value()) == protocol,
{
}

/// A well-formed header survives encoding and decoding, whatever follows it.
pub proof fn lemma_ip_header_round_trip(header: IPHeader, rest: Seq<u8>)
    requires
        header.wf(),
    ensures
        header.encode().len() == 20,
        IPHeader::parse(header.encode() + rest) == Some(header),
{
    let s = header.encode() + rest;
    let back = IPHeader::parse(s)->Some_0;
    assert(back.src_addr.0 =~= header.src_addr.0);
    assert(back.dst_addr.0 =~= header.dst_addr.0);
}

/// A buffer of fewer than 20 bytes holds no header; what was decoded from a
/// longer one is well-formed and encodes to the 20 bytes it was decoded from.
pub proof fn lemma_ip_header_parse_prefix(s: Seq<u8>)
    ensures
        s.len() < 20 <==> IPHeader::parse(s) is None,
        IPHeader::parse(s) matches Some(header) ==> header.wf() && header.encode() == s.take(20),
{
    if s.len() >= 20 {
        let header = IPHeader::parse(s)->Some_0;
        assert(header.encode() =~= s.take(20));
    }
}

/// A well-formed datagram survives encoding and decoding.
pub proof fn lemma_ip_datagram_round_trip(datagram: IPDatagramView)
    requires
        datagram.wf(),
    ensures
        IPDatagramView::parse(datagram.encode()) == Some(datagram),
{
    let s = datagram.encode();
    lemma_ip_header_round_trip(datagram.header, datagram.payload.encode());
    assert(s.skip(20) =~= datagram.payload.encode());
    match datagram.payload {
        IPPayloadView::Icmp(msg) => {
            crate::protocol::internet::icmp::lemma_icmp_round_trip(msg, Seq::<u8>::empty());
            assert(msg.encode() + Seq::<u8>::empty() =~= msg.encode());
        },
        IPPayloadView::Raw(_) => {},
    }
}

/// A buffer of fewer than 20 bytes holds no datagram; what was decoded from a
/// buffer is well-formed and encodes to the bytes it was decoded from.
pub proof fn lemma_ip_datagram_parse_prefix(s: Seq<u8>)
    ensures
        s.len() < 20 ==> IPDatagramView::parse(s) is None,
        IPDatagramView::parse(s) matches Some(datagram) ==> datagram.wf()
            && datagram.encode().is_prefix_of(s),
{
    if let Some(datagram) = IPDatagramView::parse(s) {
        lemma_ip_header_parse_prefix(s);
        if datagram.payload is Icmp {
            crate::protocol::internet::icmp::lemma_icmp_parse_prefix(s.skip(20));
        }
        lemma_prefix_extend(datagram.header.encode(), datagram.payload.encode(), s);
    }
}

impl Protocol {
    /// The protocol as text: its name, and its number in decimal.
    pub open spec fn render(self) -> Seq<char> {
        match self {
            Protocol::Icmp => "ICMP(1)"@,
            Protocol::Tcp => "TCP(6)"@,
            Protocol::Udp => "UDP(17)"@,
            Protocol::Unknown(x) => "Unknown("@ + dec8(x) + ")"@,
        }
    }

    /// The protocol as text.
    pub fn to_string(&self) -> (s: String)
        ensures
            s@ == self.render(),
    {
        match self {
            Protocol::Icmp => String::from_str("ICMP(1)"),
            Protocol::Tcp => String::from_str("TCP(6)"),
            Protocol::Udp => String::from_str("UDP(17)"),
            Protocol::Unknown(x) => {
                let mut s = String::from_str("Unknown(");
                push_dec8(&mut s, *x);
                push_text(&mut s, ")");
                s
            },
        }
    }
}

impl IPHeader {
    /// The IP version: the upper four bits of the first byte.
    pub open spec fn spec_version(self) -> u8 {
        (self.version_ihl / 16) as u8
    }

    /// The header length in 32-bit words: the lower four bits of the first
    /// byte.
    pub open spec fn spec_ihl(self) -> u8 {
        (self.version_ihl % 16) as u8
    }

    /// The three flag bits: the upper three bits of the flags and offset.
    pub open spec fn spec_flags(self) -> u16 {
        (self.flags_offset / 8192) as u16
    }

    /// The fragment offset: the lower thirteen bits of the flags and offset.
    pub open spec fn spec_offset(self) -> u16 {
        (self.flags_offset % 8192) as u16
    }

    /// The header as text, a line for each field, the packed ones unpacked.
    pub open spec fn render(self) -> Seq<char> {
        "IPHeader:\n  ver: "@ + dec8(self.spec_version()) + "\n  ihl: "@ + dec8(self.spec_ihl())
            + "\n  tos: 0x"@ + hex8(self.tos, 0) + "\n  len: "@ + dec16(self.length)
            + "\n  id:  "@ + dec16(self.identification) + "\n  flg: 0b"@ + bin16(
            self.spec_flags(),
            3,
        ) + "\n  off: "@ + dec16(self.spec_offset()) + "\n  ttl: "@ + dec8(self.ttl)
            + "\n  pro: "@ + self.protocol.render() + "\n  chs: 0x"@ + hex16(self.checksum, 4)
            + "\n  src: "@ + self.src_addr.render() + "\n  dst: "@ + self.dst_addr.render()
    }

    /// The header as text.
    pub fn to_string(&self) -> (s: String)
        ensures
            s@ == self.render(),
    {
        let mut s = String::from_str("IPHeader:\n  ver: ");
        push_dec8(&mut s, self.version());
        push_text(&mut s, "\n  ihl: ");
        push_dec8(&mut s, self.ihl());
        push_text(&mut s, "\n  tos: 0x");
        push_hex8(&mut s, self.tos, 0);
        push_text(&mut s, "\n  len: ");
        push_dec16(&mut s, self.length);
        push_text(&mut s, "\n  id:  ");
        push_dec16(&mut s, self.identification);
        push_text(&mut s, "\n  flg: 0b");
        push_bin16(&mut s, self.flags(), 3);
        push_text(&mut s, "\n  off: ");
        push_dec16(&mut s, self.offset());
        push_text(&mut s, "\n  ttl: ");
        push_dec8(&mut s, self.ttl);
        push_text(&mut s, "\n  pro: ");
        push_text(&mut s, self.protocol.to_string().as_str());
        push_text(&mut s, "\n  chs: 0x");
        push_hex16(&mut s, self.checksum, 4);
        push_text(&mut s, "\n  src: ");
        push_text(&mut s, self.src_addr.to_string().as_str());
        push_text(&mut s, "\n  dst: ");
        push_text(&mut s, self.dst_addr.to_string().as_str());
        s
    }
}

/// A protocol that is not decoded never makes decoding fail: a buffer that
/// holds a header with such a tag holds a datagram, whose payload is all that
/// follows the header.
pub proof fn lemma_other_protocol_is_kept(s: Seq<u8>)
    requires
        s.len() >= 20,
        Protocol::of(s[9]) != Protocol::Icmp,
    ensures
        IPDatagramView::parse(s) matches Some(datagram) && datagram.header.protocol
            == Protocol::of(s[9]) && datagram.payload == IPPayloadView::Raw(s.skip(20)),
{
}

} // verus!
