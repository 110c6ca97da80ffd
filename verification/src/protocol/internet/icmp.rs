//! ICMP messages.

use crate::protocol::error::FormatError;
use crate::protocol::text::{dec16, dec8, hex16, push_dec16, push_dec8, push_hex16, push_text};
use crate::protocol::wire::{be16, be16_bytes, write_u16, write_u8, Reader};
use vstd::prelude::*;
use vstd::std_specs::convert::FromSpecImpl;
use vstd::string::StringExecFns;

verus! {

/// An ICMP message: its header and, for the echo types, the echo fields.
#[derive(Debug, Clone, Copy, PartialEq, Eq)]
pub struct IcmpMessage {
    pub typ: IcmpType,
    pub code: u8,
    pub checksum: u16,
    pub data: IcmpData,
}

/// The type of an ICMP message.
#[derive(Debug, Clone, Copy, PartialEq, Eq, Structural)]
pub enum IcmpType {
    EchoReply,
    DestinationUnreachable,
    Echo,
    TimeExceeded,
    Unknown(u8),
}

/// What follows the header of an ICMP message.
#[derive(Debug, Clone, Copy, PartialEq, Eq, Structural)]
pub enum IcmpData {
    Empty,
    Echo { id: u16, sequence: u16 },
}

impl IcmpType {
    /// The type that the number `v` stands for.
    pub open spec fn of(v: u8) -> IcmpType {
        if v == 0 {
            IcmpType::EchoReply
        } else if v == 3 {
            IcmpType::DestinationUnreachable
        } else if v == 8 {
            IcmpType::Echo
        } else if v == 11 {
            IcmpType::TimeExceeded
        } else {
            IcmpType::Unknown(v)
        }
    }

    /// The number that stands for the type on the wire.
    pub open spec fn value(self) -> u8 {
        match self {
            IcmpType::EchoReply => 0,
            IcmpType::DestinationUnreachable => 3,
            IcmpType::Echo => 8,
            IcmpType::TimeExceeded => 11,
            IcmpType::Unknown(x) => x,
        }
    }

    /// `Unknown` holds no number that has a variant of its own.
    pub open spec fn wf(self) -> bool {
        self matches IcmpType::Unknown(x) ==> x != 0 && x != 3 && x != 8 && x != 11
    }

    /// Whether messages of the type carry an identifier and a sequence number.
    pub open spec fn has_echo(self) -> bool {
        self is Echo || self is EchoReply
    }
}

impl From<u8> for IcmpType {
    fn from(v: u8) -> (typ: Self) {
        match v {
            0 => Self::EchoReply,
            3 => Self::DestinationUnreachable,
            8 => Self::Echo,
            11 => Self::TimeExceeded,
            x => Self::Unknown(x),
        }
    }
}

impl FromSpecImpl<u8> for IcmpType {
    open spec fn obeys_from_spec() -> bool {
        true
    }

    open spec fn from_spec(v: u8) -> Self {
        IcmpType::of(v)
    }
}

impl From<IcmpType> for u8 {
    fn from(v: IcmpType) -> (n: Self) {
        match v {
            IcmpType::EchoReply => 0,
            IcmpType::DestinationUnreachable => 3,
            IcmpType::Echo => 8,
            IcmpType::TimeExceeded => 11,
            IcmpType::Unknown(x) => x,
        }
    }
}

impl FromSpecImpl<IcmpType> for u8 {
    open spec fn obeys_from_spec() -> bool {
        true
    }

    open spec fn from_spec(v: IcmpType) -> Self {
        v.value()
    }
}

impl IcmpData {
    /// The echo fields as they stand on the wire; nothing where there are none.
    pub open spec fn encode(self) -> Seq<u8> {
        match self {
            IcmpData::Empty => Seq::<u8>::empty(),
            IcmpData::Echo { id, sequence } => be16_bytes(id) + be16_bytes(sequence),
        }
    }
}

impl IcmpMessage {
    /// The type holds no number that has a variant of its own, and the echo
    /// fields are there for the echo types and for no other.
    pub open spec fn wf(self) -> bool {
        &&& self.typ.wf()
        &&& self.typ.has_echo() <==> self.data is Echo
    }

    /// The message as it stands on the wire.
    pub open spec fn encode(self) -> Seq<u8> {
        seq![self.typ.value(), self.code] + be16_bytes(self.checksum) + self.data.encode()
    }

    /// The message at the front of `s`, where `s` holds one.
    pub open spec fn parse(s: Seq<u8>) -> Option<IcmpMessage> {
        if s.len() < 4 {
            None
        } else if !IcmpType::of(s[0]).has_echo() {
            Some(
                IcmpMessage {
                    typ: IcmpType::of(s[0]),
                    code: s[1],
                    checksum: be16(s[2], s[3]),
                    data: IcmpData::Empty,
                },
            )
        } else if s.len() < 8 {
            None
        } else {
            Some(
                IcmpMessage {
                    typ: IcmpType::of(s[0]),
                    code: s[1],
                    checksum: be16(s[2], s[3]),
                    data: IcmpData::Echo { id: be16(s[4], s[5]), sequence: be16(s[6], s[7]) },
                },
            )
        }
    }

    /// Decodes a message: four bytes of header and, for the echo types, four
    /// bytes of echo fields. Where the buffer ends before that, this fails and
    /// the cursor ends up at the end of the buffer.
    pub fn read_from(r: &mut Reader<'_>) -> (res: Result<Self, FormatError>)
        ensures
            match Self::parse(old(r).remaining()) {
                Some(msg) => {
                    &&& res == Ok::<Self, FormatError>(msg)
                    &&& old(r).remaining() == msg.encode() + final(r).remaining()
                },
                None => {
                    &&& res == Err::<Self, FormatError>(FormatError::Truncated)
                    &&& final(r).remaining() == Seq::<u8>::empty()
                },
            },
    {
        let ghost s = r.remaining();
        let typ = IcmpType::from(r.read_u8()?);
        assert(r.remaining() =~= s.skip(1));
        let code: u8 = r.read_u8()?;
        assert(r.remaining() =~= s.skip(2));
        let checksum: u16 = r.read_u16()?;
        assert(r.remaining() =~= s.skip(4));
        let mut msg = IcmpMessage { typ, code, checksum, data: IcmpData::Empty };
        match msg.typ {
            IcmpType::EchoReply | IcmpType::Echo => {
                let id: u16 = r.read_u16()?;
                assert(r.remaining() =~= s.skip(6));
                let sequence: u16 = r.read_u16()?;
                assert(r.remaining() =~= s.skip(8));
                msg.data = IcmpData::Echo { id, sequence };
            },
            _ => {},
        }
        assert(s =~= msg.encode() + r.remaining());
        Ok(msg)
    }

    /// Appends the bytes of the message to `w`: the header and, where the
    /// message has them, the echo fields.
    pub fn write_to(self, w: &mut Vec<u8>)
        ensures
            final(w)@ == old(w)@ + self.encode(),
    {
        write_u8(w, self.typ.into());
        write_u8(w, self.code);
        write_u16(w, self.checksum);
        match self.data {
            IcmpData::Empty => {},
            IcmpData::Echo { id, sequence } => {
                write_u16(w, id);
                write_u16(w, sequence);
            },
        }
        assert(w@ =~= old(w)@ + self.encode());
    }
}

/// Every 8-bit number is a type, a number without a variant of its own is
/// kept in `Unknown`, and the type gives the number back.
pub proof fn lemma_icmp_type_total(v: u8)
    ensures
        IcmpType::of(v).wf(),
        IcmpType::of(v).value() == v,
        v != 0 && v != 3 && v != 8 && v != 11 ==> IcmpType::of(v) == IcmpType::Unknown(v),
{
}

/// A well-formed type survives the way to its number and back.
pub proof fn lemma_icmp_type_round_trip(typ: IcmpType)
    requires
        typ.wf(),
    ensures
        IcmpType::of(typ.value()) == typ,
{
}

/// A well-formed message survives encoding and decoding, whatever follows it.
pub proof fn lemma_icmp_round_trip(msg: IcmpMessage, rest: Seq<u8>)
    requires
        msg.wf(),
    ensures
        msg.encode().len() == (if msg.typ.has_echo() { 8nat } else { 4nat }),
        IcmpMessage::parse(msg.encode() + rest) == Some(msg),
{
}

/// A buffer of fewer than four bytes holds no message, nor does one of fewer
/// than eight that starts with an echo type; what was decoded is well-formed
/// and encodes to the bytes it was decoded from.
pub proof fn lemma_icmp_parse_prefix(s: Seq<u8>)
    ensures
        s.len() < 4 ==> IcmpMessage::parse(s) is None,
        s.len() < 8 && IcmpType::of(s[0]).has_echo() ==> IcmpMessage::parse(s) is None,
        s.len() >= 8 ==> IcmpMessage::parse(s) is Some,
        IcmpMessage::parse(s) matches Some(msg) ==> msg.wf() && msg.encode().is_prefix_of(s),
{
    if let Some(msg) = IcmpMessage::parse(s) {
        if msg.typ.has_echo() {
            assert(msg.encode() =~= s.subrange(0, 8));
        } else {
            assert(msg.encode() =~= s.subrange(0, 4));
        }
    }
}

impl IcmpType {
    /// The type as text: its name, and its number in decimal.
    pub open spec fn render(self) -> Seq<char> {
        match self {
            IcmpType::EchoReply => "Echo Reply(0)"@,
            IcmpType::DestinationUnreachable => "Destination Unreachable(3)"@,
            IcmpType::Echo => "Echo(8)"@,
            IcmpType::TimeExceeded => "Time Exceeded(11)"@,
            IcmpType::Unknown(x) => "Unknown("@ + dec8(x) + ")"@,
        }
    }

    /// The type as text.
    pub fn to_string(&self) -> (s: String)
        ensures
            s@ == self.render(),
    {
        match self {
            IcmpType::EchoReply => String::from_str("Echo Reply(0)"),
            IcmpType::DestinationUnreachable => String::from_str("Destination Unreachable(3)"),
            IcmpType::Echo => String::from_str("Echo(8)"),
            IcmpType::TimeExceeded => String::from_str("Time Exceeded(11)"),
            IcmpType::Unknown(x) => {
                let mut s = String::from_str("Unknown(");
                push_dec8(&mut s, *x);
                push_text(&mut s, ")");
                s
            },
        }
    }
}

impl IcmpData {
    /// The echo fields as text, or a line that says that there are none.
    pub open spec fn render(self) -> Seq<char> {
        match self {
            IcmpData::Empty => "IcmpData::None\n"@,
            IcmpData::Echo { id, sequence } => "IcmpData::Echo:\n  id:  "@ + dec16(id)
                + "\n  seq: "@ + dec16(sequence),
        }
    }

    /// The echo fields as text.
    pub fn to_string(&self) -> (s: String)
        ensures
            s@ == self.render(),
    {
        match self {
            IcmpData::Empty => String::from_str("IcmpData::None\n"),
            IcmpData::Echo { id, sequence } => {
                let mut s = String::from_str("IcmpData::Echo:\n  id:  ");
                push_dec16(&mut s, *id);
                push_text(&mut s, "\n  seq: ");
                push_dec16(&mut s, *sequence);
                s
            },
        }
    }
}

impl IcmpMessage {
    /// The message as text, a line for each field of the header, then the
    /// echo fields.
    pub open spec fn render(self) -> Seq<char> {
        "IcmpMessage:\n  typ: "@ + self.typ.render() + "\n  cod: "@ + dec8(self.code)
            + "\n  chs: "@ + hex16(self.checksum, 4) + "\n"@ + self.data.render()
    }

    /// The message as text.
    pub fn to_string(&self) -> (s: String)
        ensures
            s@ == self.render(),
    {
        let mut s = String::from_str("IcmpMessage:\n  typ: ");
        push_text(&mut s, self.typ.to_string().as_str());
        push_text(&mut s, "\n  cod: ");
        push_dec8(&mut s, self.code);
        push_text(&mut s, "\n  chs: ");
        push_hex16(&mut s, self.checksum, 4);
        push_text(&mut s, "\n");
        push_text(&mut s, self.data.to_string().as_str());
        s
    }
}

} // verus!
