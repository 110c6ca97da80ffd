//! Ethernet frames.

use crate::protocol::error::FormatError;
use crate::protocol::internet::ip::{
    lemma_ip_datagram_parse_prefix, lemma_ip_datagram_round_trip, IPDatagram, IPDatagramView,
};
pub use crate::protocol::link::address::MacAddress;
use crate::protocol::link::arp::{lemma_arp_parse_prefix, lemma_arp_round_trip, Arp};
use crate::protocol::text::{hex16, push_hex16, push_text};
use crate::protocol::wire::{be16, be16_bytes, lemma_prefix_extend, write_all, write_u16, Reader};
use vstd::pervasive::unreached;
use vstd::prelude::*;
use vstd::std_specs::convert::FromSpecImpl;
use vstd::string::StringExecFns;

verus! {

/// An Ethernet frame: its header and what the header's tag announces.
#[derive(Debug, Clone, PartialEq, Eq)]
pub struct EthernetFrame {
    pub header: EthernetHeader,
    pub payload: EthernetPayload,
}

/// The 14 bytes of an Ethernet header.
#[derive(Debug, Clone, Copy, PartialEq, Eq)]
pub struct EthernetHeader {
    pub dst_addr: MacAddress,
    pub src_addr: MacAddress,
    pub typ: EtherType,
}

/// The tag of an Ethernet header that names the protocol of the payload.
#[derive(Debug, Clone, Copy, PartialEq, Eq, Structural)]
pub enum EtherType {
    IPv4,
    Arp,
    Unknown(u16),
}

impl EtherType {
    /// The tag that the number `v` stands for.
    pub open spec fn of(v: u16) -> EtherType {
        if v == 0x0800 {
            EtherType::IPv4
        } else if v == 0x0806 {
            EtherType::Arp
        } else {
            EtherType::Unknown(v)
        }
    }

    /// The number that stands for the tag on the wire.
    pub open spec fn value(self) -> u16 {
        match self {
            EtherType::IPv4 => 0x0800,
            EtherType::Arp => 0x0806,
            EtherType::Unknown(x) => x,
        }
    }

    /// `Unknown` holds no number that has a variant of its own.
    pub open spec fn wf(self) -> bool {
        self matches EtherType::Unknown(x) ==> x != 0x0800 && x != 0x0806
    }
}

impl From<u16> for EtherType {
    fn from(v: u16) -> (typ: Self) {
        match v {
            0x0800 => Self::IPv4,
            0x0806 => Self::Arp,
            x => Self::Unknown(x),
        }
    }
}

impl FromSpecImpl<u16> for EtherType {
    open spec fn obeys_from_spec() -> bool {
        true
    }

    open spec fn from_spec(v: u16) -> Self {
        EtherType::of(v)
    }
}

impl From<EtherType> for u16 {
    fn from(v: EtherType) -> (n: Self) {
        match v {
            EtherType::IPv4 => 0x0800,
            EtherType::Arp => 0x0806,
            EtherType::Unknown(x) => x,
        }
    }
}

impl FromSpecImpl<EtherType> for u16 {
    open spec fn obeys_from_spec() -> bool {
        true
    }

    open spec fn from_spec(v: EtherType) -> Self {
        v.value()
    }
}

/// What an Ethernet frame carries: a decoded ARP message or IPv4 datagram, or
/// the bytes of a protocol that is not decoded.
#[derive(Debug, Clone, PartialEq, Eq)]
pub enum EthernetPayload {
    Arp(Arp),
    IP(IPDatagram),
    Raw(Vec<u8>),
}

/// The mathematical value of an [`EthernetPayload`].
pub enum EthernetPayloadView {
    Arp(Arp),
    IP(IPDatagramView),
    Raw(Seq<u8>),
}

/// The mathematical value of an [`EthernetFrame`].
pub struct EthernetFrameView {
    pub header: EthernetHeader,
    pub payload: EthernetPayloadView,
}

impl View for EthernetPayload {
    type V = EthernetPayloadView;

    open spec fn view(&self) -> EthernetPayloadView {
        match *self {
            EthernetPayload::Arp(arp) => EthernetPayloadView::Arp(arp),
            EthernetPayload::IP(datagram) => EthernetPayloadView::IP(datagram@),
            EthernetPayload::Raw(bytes) => EthernetPayloadView::Raw(bytes@),
        }
    }
}

impl View for EthernetFrame {
    type V = EthernetFrameView;

    open spec fn view(&self) -> EthernetFrameView {
        EthernetFrameView { header: self.header, payload: self.payload@ }
    }
}

impl EthernetHeader {
    /// The tag holds no number that has a variant of its own.
    pub open spec fn wf(self) -> bool {
        self.typ.wf()
    }

    /// The header as it stands on the wire.
    pub open spec fn encode(self) -> Seq<u8> {
        self.dst_addr.encode() + self.src_addr.encode() + be16_bytes(self.typ.value())
    }

    /// The header at the front of `s`, where `s` holds one.
    pub open spec fn parse(s: Seq<u8>) -> Option<EthernetHeader> {
        if s.len() >= 14 {
            Some(
                EthernetHeader {
                    dst_addr: MacAddress([s[0], s[1], s[2], s[3], s[4], s[5]]),
                    src_addr: MacAddress([s[6], s[7], s[8], s[9], s[10], s[11]]),
                    typ: EtherType::of(be16(s[12], s[13])),
                },
            )
        } else {
            None
        }
    }
}

impl EthernetPayloadView {
    /// The payload as it stands on the wire.
    pub open spec fn encode(self) -> Seq<u8> {
        match self {
            EthernetPayloadView::Arp(arp) => arp.encode(),
            EthernetPayloadView::IP(datagram) => datagram.encode(),
            EthernetPayloadView::Raw(bytes) => bytes,
        }
    }

    /// The tag of a header that carries this payload, where it has one.
    pub open spec fn typ(self) -> Option<EtherType> {
        match self {
            EthernetPayloadView::Arp(_) => Some(EtherType::Arp),
            EthernetPayloadView::IP(_) => Some(EtherType::IPv4),
            EthernetPayloadView::Raw(_) => None,
        }
    }
}

impl EthernetPayload {
    /// Appends the bytes of the payload to `w`.
    pub fn write_to(self, w: &mut Vec<u8>)
        ensures
            final(w)@ == old(w)@ + self@.encode(),
    {
        match self {
            Self::Arp(arp) => arp.write_to(w),
            Self::IP(datagram) => datagram.write_to(w),
            Self::Raw(bytes) => write_all(w, bytes.as_slice()),
        }
    }

    /// The tag of a header that carries this payload. Only a decoded payload
    /// has one.
    pub fn typ(&self) -> (typ: EtherType)
        requires
            !(self is Raw),
        ensures
            Some(typ) == self@.typ(),
    {
        match self {
            Self::Arp(_) => EtherType::Arp,
            Self::IP(_) => EtherType::IPv4,
            Self::Raw(_) => unreached(),
        }
    }
}

impl EthernetFrameView {
    /// The header is well-formed, and the payload is the one that the
    /// header's tag announces: a well-formed ARP message under the ARP tag, a
    /// well-formed datagram under the IPv4 tag, raw bytes under every other.
    pub open spec fn wf(self) -> bool {
        &&& self.header.wf()
        &&& match self.payload {
            EthernetPayloadView::Arp(arp) => self.header.typ is Arp && arp.wf(),
            EthernetPayloadView::IP(datagram) => self.header.typ is IPv4 && datagram.wf(),
            EthernetPayloadView::Raw(_) => self.header.typ is Unknown,
        }
    }

    /// The frame as it stands on the wire.
    pub open spec fn encode(self) -> Seq<u8> {
        self.header.encode() + self.payload.encode()
    }

    /// The frame at the front of `s`, where `s` holds one. Under the ARP and
    /// IPv4 tags the payload is the message or datagram that follows the
    /// header; under every other it is all that follows the header.
    pub open spec fn parse(s: Seq<u8>) -> Option<EthernetFrameView> {
        match EthernetHeader::parse(s) {
            None => None,
            Some(header) => match header.typ {
                EtherType::Arp => match Arp::parse(s.skip(14)) {
                    None => None,
                    Some(arp) => Some(
                        EthernetFrameView { header, payload: EthernetPayloadView::Arp(arp) },
                    ),
                },
                EtherType::IPv4 => match IPDatagramView::parse(s.skip(14)) {
                    None => None,
                    Some(datagram) => Some(
                        EthernetFrameView { header, payload: EthernetPayloadView::IP(datagram) },
                    ),
                },
                EtherType::Unknown(_) => Some(
                    EthernetFrameView { header, payload: EthernetPayloadView::Raw(s.skip(14)) },
                ),
            },
        }
    }
}

impl EthernetFrame {
    /// Decodes a frame: the header, then the payload that its tag announces.
    /// Where the buffer ends before the header or a decoded payload is
    /// complete, this fails and the cursor ends up at the end of the buffer.
    pub fn read_from(r: &mut Reader<'_>) -> (res: Result<Self, FormatError>)
        ensures
            match EthernetFrameView::parse(old(r).remaining()) {
                Some(v) => {
                    &&& res is Ok
                    &&& res->Ok_0@ == v
                    &&& old(r).remaining() == v.encode() + final(r).remaining()
                },
                None => {
                    &&& res is Err
                    &&& res->Err_0 == FormatError::Truncated
                    &&& final(r).remaining() == Seq::<u8>::empty()
                },
            },
    {
        let ghost s = r.remaining();
        let dst_addr = MacAddress::read_from(r)?;
        assert(r.remaining() =~= s.skip(6));
        let src_addr = MacAddress::read_from(r)?;
        assert(r.remaining() =~= s.skip(12));
        let typ = EtherType::from(r.read_u16()?);
        assert(r.remaining() =~= s.skip(14));
        let header = EthernetHeader { dst_addr, src_addr, typ };
        proof {
            lemma_ethernet_header_parse_prefix(s);
            lemma_arp_parse_prefix(s.skip(14));
        }
        let payload = match header.typ {
            EtherType::Arp => EthernetPayload::Arp(Arp::read_from(r)?),
            EtherType::IPv4 => EthernetPayload::IP(IPDatagram::read_from(r)?),
            _ => EthernetPayload::Raw(r.read_to_end()),
        };
        let frame = EthernetFrame { header, payload };
        proof {
            let tail = frame@.payload.encode() + r.remaining();
            assert(tail =~= s.skip(14)) by {
                if header.typ is Arp {
                    assert(s.skip(14) =~= s.skip(14).take(28) + s.skip(14).skip(28));
                }
            }
            assert(s =~= s.take(14) + s.skip(14));
            assert(s =~= frame@.encode() + r.remaining());
        }
        Ok(frame)
    }

    /// Appends the bytes of the frame to `w`: the header, then the payload.
    pub fn write_to(self, w: &mut Vec<u8>)
        ensures
            final(w)@ == old(w)@ + self@.encode(),
    {
        self.header.dst_addr.write_to(w);
        self.header.src_addr.write_to(w);
        write_u16(w, self.header.typ.into());
        self.payload.write_to(w);
        assert(w@ =~= old(w)@ + self@.encode());
    }
}

/// Every 16-bit number is a tag, a number without a variant of its own is
/// kept in `Unknown`, and the tag gives the number back.
pub proof fn lemma_ether_type_total(v: u16)
    ensures
        EtherType::of(v).wf(),
        EtherType::of(v).value() == v,
        v != 0x0800 && v != 0x0806 ==> EtherType::of(v) == EtherType::Unknown(v),
{
}

/// A well-formed tag survives the way to its number and back.
pub proof fn lemma_ether_type_round_trip(typ: EtherType)
    requires
        typ.wf(),
    ensures
        EtherType::of(typ.value()) == typ,
{
}

/// A well-formed header survives encoding and decoding, whatever follows it.
pub proof fn lemma_ethernet_header_round_trip(header: EthernetHeader, rest: Seq<u8>)
    requires
        header.wf(),
    ensures
        header.encode().len() == 14,
        EthernetHeader::parse(header.encode() + rest) == Some(header),
{
    let s = header.encode() + rest;
    let back = EthernetHeader::parse(s)->Some_0;
    assert(back.dst_addr.0 =~= header.dst_addr.0);
    assert(back.src_addr.0 =~= header.src_addr.0);
}

/// A buffer of fewer than 14 bytes holds no header; what was decoded from a
/// longer one is well-formed and encodes to the 14 bytes it was decoded from.
pub proof fn lemma_ethernet_header_parse_prefix(s: Seq<u8>)
    ensures
        s.len() < 14 <==> EthernetHeader::parse(s) is None,
        EthernetHeader::parse(s) matches Some(header) ==> header.wf() && header.encode()
            == s.take(14),
{
    if s.len() >= 14 {
        let header = EthernetHeader::parse(s)->Some_0;
        assert(header.encode() =~= s.take(14));
    }
}

/// A well-formed frame survives encoding and decoding.
pub proof fn lemma_ethernet_frame_round_trip(frame: EthernetFrameView)
    requires
        frame.wf(),
    ensures
        EthernetFrameView::parse(frame.encode()) == Some(frame),
{
    let s = frame.encode();
    lemma_ethernet_header_round_trip(frame.header, frame.payload.encode());
    assert(s.skip(14) =~= frame.payload.encode());
    match frame.payload {
        EthernetPayloadView::Arp(arp) => {
            lemma_arp_round_trip(arp, Seq::<u8>::empty());
            assert(arp.encode() + Seq::<u8>::empty() =~= arp.encode());
        },
        EthernetPayloadView::IP(datagram) => {
            lemma_ip_datagram_round_trip(datagram);
        },
        EthernetPayloadView::Raw(_) => {},
    }
}

/// A buffer of fewer than 14 bytes holds no frame; what was decoded from a
/// buffer is well-formed and encodes to the bytes it was decoded from.
pub proof fn lemma_ethernet_frame_parse_prefix(s: Seq<u8>)
    ensures
        s.len() < 14 ==> EthernetFrameView::parse(s) is None,
        EthernetFrameView::parse(s) matches Some(frame) ==> frame.wf()
            && frame.encode().is_prefix_of(s),
{
    if let Some(frame) = EthernetFrameView::parse(s) {
        lemma_ethernet_header_parse_prefix(s);
        match frame.payload {
            EthernetPayloadView::Arp(_) => {
                lemma_arp_parse_prefix(s.skip(14));
            },
            EthernetPayloadView::IP(_) => {
                lemma_ip_datagram_parse_prefix(s.skip(14));
            },
            EthernetPayloadView::Raw(_) => {},
        }
        lemma_prefix_extend(frame.header.encode(), frame.payload.encode(), s);
    }
}

impl EtherType {
    /// The tag as text: its name, and its number in four hexadecimal digits.
    pub open spec fn render(self) -> Seq<char> {
        match self {
            EtherType::IPv4 => "IPv4(0x0800)"@,
            EtherType::Arp => "ARP(0x0806)"@,
            EtherType::Unknown(x) => "UNKNOWN(0x"@ + hex16(x, 4) + ")"@,
        }
    }

    /// The tag as text.
    pub fn to_string(&self) -> (s: String)
        ensures
            s@ == self.render(),
    {
        match self {
            EtherType::IPv4 => String::from_str("IPv4(0x0800)"),
            EtherType::Arp => String::from_str("ARP(0x0806)"),
            EtherType::Unknown(x) => {
                let mut s = String::from_str("UNKNOWN(0x");
                push_hex16(&mut s, *x, 4);
                push_text(&mut s, ")");
                s
            },
        }
    }
}

impl EthernetHeader {
    /// The header as text, a line for each field.
    pub open spec fn render(self) -> Seq<char> {
        "EthernetHeader:\n  dst: "@ + self.dst_addr.render() + "\n  src: "@
            + self.src_addr.render() + "\n  typ: "@ + self.typ.render()
    }

    /// The header as text.
    pub fn to_string(&self) -> (s: String)
        ensures
            s@ == self.render(),
    {
        let mut s = String::from_str("EthernetHeader:\n  dst: ");
        push_text(&mut s, self.dst_addr.to_string().as_str());
        push_text(&mut s, "\n  src: ");
        push_text(&mut s, self.src_addr.to_string().as_str());
        push_text(&mut s, "\n  typ: ");
        push_text(&mut s, self.typ.to_string().as_str());
        s
    }
}

/// A tag without a variant of its own never makes decoding fail: a buffer
/// that holds a header with such a tag holds a frame, whose payload is all
/// that follows the header.
pub proof fn lemma_unknown_ether_type_is_kept(s: Seq<u8>)
    requires
        s.len() >= 14,
        EtherType::of(be16(s[12], s[13])) is Unknown,
    ensures
        EthernetFrameView::parse(s) matches Some(frame) && frame.header.typ
            == EtherType::Unknown(be16(s[12], s[13])) && frame.payload
            == EthernetPayloadView::Raw(s.skip(14)),
{
}

} // verus!
