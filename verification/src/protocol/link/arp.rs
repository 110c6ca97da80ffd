//! The address resolution protocol.

use crate::protocol::error::FormatError;
use crate::protocol::internet::address::IPAddress;
use crate::protocol::link::address::MacAddress;
use crate::protocol::link::ethernet::EtherType;
use crate::protocol::text::{dec8, hex16, push_dec8, push_hex16, push_text};
use crate::protocol::wire::{be16, be16_bytes, write_u16, write_u8, Reader};
use vstd::prelude::*;
use vstd::std_specs::convert::FromSpecImpl;
use vstd::string::StringExecFns;

pub mod table;

pub use table::ArpTable;

verus! {

/// An ARP message for hardware addresses of six and protocol addresses of
/// four bytes.
#[derive(Debug, Clone, Copy, PartialEq, Eq)]
pub struct Arp {
    pub hardware_type: HardwareType,
    pub protocol_type: EtherType,
    pub hardware_len: u8,
    pub protocol_len: u8,
    pub opcode: Opcode,
    pub sender_hardware_addr: MacAddress,
    pub sender_protocol_addr: IPAddress,
    pub target_hardware_addr: MacAddress,
    pub target_protocol_addr: IPAddress,
}

/// The kind of link that the hardware addresses of a message belong to.
#[derive(Debug, Clone, Copy, PartialEq, Eq, Structural)]
pub enum HardwareType {
    Ethernet,
    Unknown(u16),
}

/// What an ARP message asks for or answers.
#[derive(Debug, Clone, Copy, PartialEq, Eq, Structural)]
pub enum Opcode {
    Request,
    Reply,
    Unknown(u16),
}

impl HardwareType {
    /// The hardware type that the number `v` stands for.
    pub open spec fn of(v: u16) -> HardwareType {
        if v == 1 {
            HardwareType::Ethernet
        } else {
            HardwareType::Unknown(v)
        }
    }

    /// The number that stands for the hardware type on the wire.
    pub open spec fn value(self) -> u16 {
        match self {
            HardwareType::Ethernet => 1,
            HardwareType::Unknown(x) => x,
        }
    }

    /// `Unknown` holds no number that has a variant of its own.
    pub open spec fn wf(self) -> bool {
        self matches HardwareType::Unknown(x) ==> x != 1
    }
}

impl Opcode {
    /// The opcode that the number `v` stands for.
    pub open spec fn of(v: u16) -> Opcode {
        if v == 1 {
            Opcode::Request
        } else if v == 2 {
            Opcode::Reply
        } else {
            Opcode::Unknown(v)
        }
    }

    /// The number that stands for the opcode on the wire.
    pub open spec fn value(self) -> u16 {
        match self {
            Opcode::Request => 1,
            Opcode::Reply => 2,
            Opcode::Unknown(x) => x,
        }
    }

    /// `Unknown` holds no number that has a variant of its own.
    pub open spec fn wf(self) -> bool {
        self matches Opcode::Unknown(x) ==> x != 1 && x != 2
    }
}

impl From<u16> for HardwareType {
    fn from(v: u16) -> (typ: Self) {
        match v {
            1 => Self::Ethernet,
            x => Self::Unknown(x),
        }
    }
}

impl FromSpecImpl<u16> for HardwareType {
    open spec fn obeys_from_spec() -> bool {
        true
    }

    open spec fn from_spec(v: u16) -> Self {
        HardwareType::of(v)
    }
}

impl From<HardwareType> for u16 {
    fn from(v: HardwareType) -> (n: Self) {
        match v {
            HardwareType::Ethernet => 1,
            HardwareType::Unknown(x) => x,
        }
    }
}

impl FromSpecImpl<HardwareType> for u16 {
    open spec fn obeys_from_spec() -> bool {
        true
    }

    open spec fn from_spec(v: HardwareType) -> Self {
        v.value()
    }
}

impl From<u16> for Opcode {
    fn from(v: u16) -> (op: Self) {
        match v {
            1 => Self::Request,
            2 => Self::Reply,
            x => Self::Unknown(x),
        }
    }
}

impl FromSpecImpl<u16> for Opcode {
    open spec fn obeys_from_spec() -> bool {
        true
    }

    open spec fn from_spec(v: u16) -> Self {
        Opcode::of(v)
    }
}

impl From<Opcode> for u16 {
    fn from(v: Opcode) -> (n: Self) {
        match v {
            Opcode::Request => 1,
            Opcode::Reply => 2,
            Opcode::Unknown(x) => x,
        }
    }
}

impl FromSpecImpl<Opcode> for u16 {
    open spec fn obeys_from_spec() -> bool {
        true
    }

    open spec fn from_spec(v: Opcode) -> Self {
        v.value()
    }
}

impl Arp {
    /// The tags of the message hold no number that has a variant of its own.
    pub open spec fn wf(self) -> bool {
        &&& self.hardware_type.wf()
        &&& self.protocol_type.wf()
        &&& self.opcode.wf()
    }

    /// The message as it stands on the wire.
    pub open spec fn encode(self) -> Seq<u8> {
        be16_bytes(self.hardware_type.value()) + be16_bytes(self.protocol_type.value())
            + seq![self.hardware_len, self.protocol_len] + be16_bytes(self.opcode.value())
            + self.sender_hardware_addr.encode() + self.sender_protocol_addr.encode()
            + self.target_hardware_addr.encode() + self.target_protocol_addr.encode()
    }

    /// The message at the front of `s`, where `s` holds one.
    pub open spec fn parse(s: Seq<u8>) -> Option<Arp> {
        if s.len() >= 28 {
            Some(
                Arp {
                    hardware_type: HardwareType::of(be16(s[0], s[1])),
                    protocol_type: EtherType::of(be16(s[2], s[3])),
                    hardware_len: s[4],
                    protocol_len: s[5],
                    opcode: Opcode::of(be16(s[6], s[7])),
                    sender_hardware_addr: MacAddress([s[8], s[9], s[10], s[11], s[12], s[13]]),
                    sender_protocol_addr: IPAddress([s[14], s[15], s[16], s[17]]),
                    target_hardware_addr: MacAddress([s[18], s[19], s[20], s[21], s[22], s[23]]),
                    target_protocol_addr: IPAddress([s[24], s[25], s[26], s[27]]),
                },
            )
        } else {
            None
        }
    }

    /// The message that `new` builds.
    pub open spec fn spec_new(
        opcode: Opcode,
        sender_hardware_addr: MacAddress,
        sender_protocol_addr: IPAddress,
        target_hardware_addr: MacAddress,
        target_protocol_addr: IPAddress,
    ) -> Arp {
        Arp {
            hardware_type: HardwareType::Ethernet,
            protocol_type: EtherType::IPv4,
            hardware_len: 6,
            protocol_len: 4,
            opcode,
            sender_hardware_addr,
            sender_protocol_addr,
            target_hardware_addr,
            target_protocol_addr,
        }
    }

    /// A message that resolves IPv4 addresses over Ethernet.
    pub fn new(
        opcode: Opcode,
        sender_hardware_addr: MacAddress,
        sender_protocol_addr: IPAddress,
        target_hardware_addr: MacAddress,
        target_protocol_addr: IPAddress,
    ) -> (arp: Self)
        ensures
            arp == Self::spec_new(
                opcode,
                sender_hardware_addr,
                sender_protocol_addr,
                target_hardware_addr,
                target_protocol_addr,
            ),
    {
        Arp {
            hardware_type: HardwareType::Ethernet,
            protocol_type: EtherType::IPv4,
            hardware_len: 6,
            protocol_len: 4,
            opcode,
            sender_hardware_addr,
            sender_protocol_addr,
            target_hardware_addr,
            target_protocol_addr,
        }
    }

    /// Decodes a message from the next 28 bytes. With fewer bytes left this
    /// fails and the cursor ends up at the end of the buffer.
    pub fn read_from(r: &mut Reader<'_>) -> (res: Result<Self, FormatError>)
        ensures
            match Self::parse(old(r).remaining()) {
                Some(arp) => {
                    &&& res == Ok::<Self, FormatError>(arp)
                    &&& final(r).remaining() == old(r).remaining().skip(28)
                },
                None => {
                    &&& res == Err::<Self, FormatError>(FormatError::Truncated)
                    &&& final(r).remaining() == Seq::<u8>::empty()
                },
            },
    {
        let ghost s = r.remaining();
        let hardware_type = HardwareType::from(r.read_u16()?);
        assert(r.remaining() =~= s.skip(2));
        let protocol_type = EtherType::from(r.read_u16()?);
        assert(r.remaining() =~= s.skip(4));
        let hardware_len: u8 = r.read_u8()?;
        assert(r.remaining() =~= s.skip(5));
        let protocol_len: u8 = r.read_u8()?;
        assert(r.remaining() =~= s.skip(6));
        let opcode = Opcode::from(r.read_u16()?);
        assert(r.remaining() =~= s.skip(8));
        let sender_hardware_addr = MacAddress::read_from(r)?;
        assert(r.remaining() =~= s.skip(14));
        let sender_protocol_addr = IPAddress::read_from(r)?;
        assert(r.remaining() =~= s.skip(18));
        let target_hardware_addr = MacAddress::read_from(r)?;
        assert(r.remaining() =~= s.skip(24));
        let target_protocol_addr = IPAddress::read_from(r)?;
        assert(r.remaining() =~= s.skip(28));
        Ok(
            Arp {
                hardware_type,
                protocol_type,
                hardware_len,
                protocol_len,
                opcode,
                sender_hardware_addr,
                sender_protocol_addr,
                target_hardware_addr,
                target_protocol_addr,
            },
        )
    }

    /// Appends the 28 bytes of the message to `w`.
    pub fn write_to(self, w: &mut Vec<u8>)
        ensures
            final(w)@ == old(w)@ + self.encode(),
    {
        write_u16(w, self.hardware_type.into());
        write_u16(w, self.protocol_type.into());
        write_u8(w, self.hardware_len);
        write_u8(w, self.protocol_len);
        write_u16(w, self.opcode.into());
        self.sender_hardware_addr.write_to(w);
        self.sender_protocol_addr.write_to(w);
        self.target_hardware_addr.write_to(w);
        self.target_protocol_addr.write_to(w);
        assert(w@ =~= old(w)@ + self.encode());
    }
}

/// Every 16-bit number is a hardware type, a number without a variant of its
/// own is kept in `Unknown`, and the hardware type gives the number back.
pub proof fn lemma_hardware_type_total(v: u16)
    ensures
        HardwareType::of(v).wf(),
        HardwareType::of(v).value() == v,
        v != 1 ==> HardwareType::of(v) == HardwareType::Unknown(v),
{
}

/// A well-formed hardware type survives the way to its number and back.
pub proof fn lemma_hardware_type_round_trip(typ: HardwareType)
    requires
        typ.wf(),
    ensures
        HardwareType::of(typ.value()) == typ,
{
}

/// Every 16-bit number is an opcode, a number without a variant of its own is
/// kept in `Unknown`, and the opcode gives the number back.
pub proof fn lemma_opcode_total(v: u16)
    ensures
        Opcode::of(v).wf(),
        Opcode::of(v).value() == v,
        v != 1 && v != 2 ==> Opcode::of(v) == Opcode::Unknown(v),
{
}

/// A well-formed opcode survives the way to its number and back.
pub proof fn lemma_opcode_round_trip(op: Opcode)
    requires
        op.wf(),
    ensures
        Opcode::of(op.value()) == op,
{
}

/// A well-formed message survives encoding and decoding, whatever follows it.
pub proof fn lemma_arp_round_trip(arp: Arp, rest: Seq<u8>)
    requires
        arp.wf(),
    ensures
        arp.encode().len() == 28,
        Arp::parse(arp.encode() + rest) == Some(arp),
{
    let s = arp.encode() + rest;
    let back = Arp::parse(s)->Some_0;
    assert(back.sender_hardware_addr.0 =~= arp.sender_hardware_addr.0);
    assert(back.sender_protocol_addr.0 =~= arp.sender_protocol_addr.0);
    assert(back.target_hardware_addr.0 =~= arp.target_hardware_addr.0);
    assert(back.target_protocol_addr.0 =~= arp.target_protocol_addr.0);
}

/// A buffer of fewer than 28 bytes holds no message; what was decoded from a
/// longer one is well-formed and encodes to the 28 bytes it was decoded from.
pub proof fn lemma_arp_parse_prefix(s: Seq<u8>)
    ensures
        s.len() < 28 <==> Arp::parse(s) is None,
        Arp::parse(s) matches Some(arp) ==> arp.wf() && arp.encode() == s.take(28),
{
    if s.len() >= 28 {
        let arp = Arp::parse(s)->Some_0;
        assert(arp.encode() =~= s.take(28));
    }
}

impl HardwareType {
    /// The hardware type as text: its name, and its number in hexadecimal.
    pub open spec fn render(self) -> Seq<char> {
        match self {
            HardwareType::Ethernet => "Ethernet(0x1)"@,
            HardwareType::Unknown(x) => "Unknown(0x"@ + hex16(x, 0) + ")"@,
        }
    }

    /// The hardware type as text.
    pub fn to_string(&self) -> (s: String)
        ensures
            s@ == self.render(),
    {
        match self {
            HardwareType::Ethernet => String::from_str("Ethernet(0x1)"),
            HardwareType::Unknown(x) => {
                let mut s = String::from_str("Unknown(0x");
                push_hex16(&mut s, *x, 0);
                push_text(&mut s, ")");
                s
            },
        }
    }
}

impl Opcode {
    /// The opcode as text: its name, and its number in hexadecimal.
    pub open spec fn render(self) -> Seq<char> {
        match self {
            Opcode::Request => "Request(0x1)"@,
            Opcode::Reply => "Reply(0x2)"@,
            Opcode::Unknown(x) => "Unknown(0x"@ + hex16(x, 0) + ")"@,
        }
    }

    /// The opcode as text.
    pub fn to_string(&self) -> (s: String)
        ensures
            s@ == self.render(),
    {
        match self {
            Opcode::Request => String::from_str("Request(0x1)"),
            Opcode::Reply => String::from_str("Reply(0x2)"),
            Opcode::Unknown(x) => {
                let mut s = String::from_str("Unknown(0x");
                push_hex16(&mut s, *x, 0);
                push_text(&mut s, ")");
                s
            },
        }
    }
}

impl Arp {
    /// The message as text, a line for each field.
    pub open spec fn render(self) -> Seq<char> {
        "Arp:\n  hrd: "@ + self.hardware_type.render() + "\n  pro: "@
            + self.protocol_type.render() + "\n  hln: "@ + dec8(self.hardware_len) + "\n  pln: "@
            + dec8(self.protocol_len) + "\n  op: "@ + self.opcode.render() + "\n  sha: "@
            + self.sender_hardware_addr.render() + "\n  spa: "@
            + self.sender_protocol_addr.render() + "\n  tha: "@
            + self.target_hardware_addr.render() + "\n  tpa: "@
            + self.target_protocol_addr.render()
    }

    /// The message as text.
    pub fn to_string(&self) -> (s: String)
        ensures
            s@ == self.render(),
    {
        let mut s = String::from_str("Arp:\n  hrd: ");
        push_text(&mut s, self.hardware_type.to_string().as_str());
        push_text(&mut s, "\n  pro: ");
        push_text(&mut s, self.protocol_type.to_string().as_str());
        push_text(&mut s, "\n  hln: ");
        push_dec8(&mut s, self.hardware_len);
        push_text(&mut s, "\n  pln: ");
        push_dec8(&mut s, self.protocol_len);
        push_text(&mut s, "\n  op: ");
        push_text(&mut s, self.opcode.to_string().as_str());
        push_text(&mut s, "\n  sha: ");
        push_text(&mut s, self.sender_hardware_addr.to_string().as_str());
        push_text(&mut s, "\n  spa: ");
        push_text(&mut s, self.sender_protocol_addr.to_string().as_str());
        push_text(&mut s, "\n  tha: ");
        push_text(&mut s, self.target_hardware_addr.to_string().as_str());
        push_text(&mut s, "\n  tpa: ");
        push_text(&mut s, self.target_protocol_addr.to_string().as_str());
        s
    }
}

} // verus!
