//! The link interface: a device seen as a stream of Ethernet frames.

use crate::protocol::error::{Error, FormatError};
use crate::protocol::link::address::MacAddress;
use crate::protocol::link::ethernet::{
    lemma_ethernet_frame_round_trip, EthernetFrame, EthernetFrameView, EthernetHeader,
    EthernetPayload, EthernetPayloadView,
};
use crate::protocol::physical::Device;
use crate::protocol::wire::Reader;
use vstd::prelude::*;
use vstd::slice::slice_subrange;

verus! {

/// The most bytes that one read takes from the device.
pub const MTU: usize = 4096;

/// One exchange of a buffer with the device.
pub enum Event {
    /// A buffer was handed to the device's `write`; the flag says whether
    /// the device took it.
    Sent(Seq<u8>, bool),
    /// The device's `read` delivered a buffer.
    Received(Seq<u8>),
}

/// A device together with its hardware address. The interface keeps, for
/// proofs only, a record of every buffer that it handed to the device's
/// `write` and of every buffer that the device's `read` delivered, in the
/// order in which that happened.
pub struct Interface {
    dev: Box<dyn Device>,
    mac_addr: MacAddress,
    events: Ghost<Seq<Event>>,
}

/// The buffers handed to `write` among `events`, oldest first.
pub open spec fn sent_of(events: Seq<Event>) -> Seq<Seq<u8>>
    decreases events.len(),
{
    if events.len() == 0 {
        Seq::empty()
    } else {
        match events.last() {
            Event::Sent(bytes, _) => sent_of(events.drop_last()).push(bytes),
            Event::Received(_) => sent_of(events.drop_last()),
        }
    }
}

/// The buffers that `read` delivered among `events`, oldest first.
pub open spec fn received_of(events: Seq<Event>) -> Seq<Seq<u8>>
    decreases events.len(),
{
    if events.len() == 0 {
        Seq::empty()
    } else {
        match events.last() {
            Event::Sent(_, _) => received_of(events.drop_last()),
            Event::Received(bytes) => received_of(events.drop_last()).push(bytes),
        }
    }
}

/// Whether `after` is `before` with nothing but deliveries behind it.
pub open spec fn only_received(before: Seq<Event>, after: Seq<Event>) -> bool {
    &&& before.len() <= after.len()
    &&& after.take(before.len() as int) == before
    &&& forall|i: int| before.len() <= i < after.len() ==> #[trigger] after[i] is Received
}

/// What one more event adds to the buffers sent and received.
pub proof fn lemma_event_pushed(events: Seq<Event>, event: Event)
    ensures
        event matches Event::Sent(bytes, _) ==> sent_of(events.push(event)) == sent_of(
            events,
        ).push(bytes) && received_of(events.push(event)) == received_of(events),
        event matches Event::Received(bytes) ==> received_of(events.push(event)) == received_of(
            events,
        ).push(bytes) && sent_of(events.push(event)) == sent_of(events),
{
    assert(events.push(event).drop_last() =~= events);
}

/// A record has nothing but deliveries behind itself, and stays so when one
/// more delivery comes.
pub proof fn lemma_only_received_grows(before: Seq<Event>, after: Seq<Event>, bytes: Seq<u8>)
    ensures
        only_received(before, before),
        only_received(before, after) ==> only_received(
            before,
            after.push(Event::Received(bytes)),
        ),
{
    assert(before.take(before.len() as int) =~= before);
    if only_received(before, after) {
        let more = after.push(Event::Received(bytes));
        assert(more.take(before.len() as int) =~= after.take(before.len() as int));
    }
}

/// The frame that an interface with the address `src_addr` sends to
/// `dst_addr` for `payload`: the header's tag is the payload's.
pub open spec fn outgoing(
    src_addr: MacAddress,
    dst_addr: MacAddress,
    payload: EthernetPayloadView,
) -> EthernetFrameView {
    EthernetFrameView {
        header: EthernetHeader { dst_addr, src_addr, typ: payload.typ()->Some_0 },
        payload,
    }
}

/// A frame built for a well-formed payload that has a tag is well-formed, and
/// decoding what it encodes to gives it back.
pub proof fn lemma_outgoing_round_trip(
    src_addr: MacAddress,
    dst_addr: MacAddress,
    payload: EthernetPayloadView,
)
    requires
        payload matches EthernetPayloadView::Arp(arp) ==> arp.wf(),
        payload matches EthernetPayloadView::IP(datagram) ==> datagram.wf(),
        !(payload is Raw),
    ensures
        outgoing(src_addr, dst_addr, payload).wf(),
        EthernetFrameView::parse(outgoing(src_addr, dst_addr, payload).encode()) == Some(
            outgoing(src_addr, dst_addr, payload),
        ),
{
    lemma_ethernet_frame_round_trip(outgoing(src_addr, dst_addr, payload));
}

/// Whether `res` is what decoding the delivered buffer `bytes` gives: the
/// frame at its front, or a format error where it holds none.
pub open spec fn is_decoding(bytes: Seq<u8>, res: Result<EthernetFrame, Error>) -> bool {
    match EthernetFrameView::parse(bytes) {
        Some(v) => res is Ok && res->Ok_0@ == v,
        None => res is Err && res->Err_0 == Error::Format(FormatError::Truncated),
    }
}

/// What a device delivered when its `read` filled `buf` and returned `n`: the
/// first `n` bytes of the buffer, and all of it where `n` is more than it
/// holds.
pub open spec fn delivered(buf: Seq<u8>, n: usize) -> Seq<u8> {
    if n <= buf.len() {
        buf.take(n as int)
    } else {
        buf
    }
}

/// Decodes one delivered buffer as exactly one frame.
pub fn decode(bytes: &[u8]) -> (res: Result<EthernetFrame, Error>)
    ensures
        is_decoding(bytes@, res),
{
    let mut r = Reader::new(bytes);
    match EthernetFrame::read_from(&mut r) {
        Ok(frame) => Ok(frame),
        Err(e) => Err(Error::Format(e)),
    }
}

/// What `recv` returns for the answer `read` of the device's `read` on
/// `buf`: the decoding of what was delivered, or the device's error as it
/// came.
pub fn received_frame(buf: &[u8], read: Result<usize, std::io::Error>) -> (res: Result<
    EthernetFrame,
    Error,
>)
    ensures
        read matches Ok(n) ==> is_decoding(delivered(buf@, n), res),
        read matches Err(e) ==> res == Err::<EthernetFrame, Error>(Error::Io(e)),
{
    match read {
        Ok(n) => {
            let len: usize = if n <= buf.len() {
                n
            } else {
                buf.len()
            };
            let bytes = slice_subrange(buf, 0, len);
            assert(bytes@ =~= delivered(buf@, n));
            decode(bytes)
        },
        Err(e) => Err(Error::Io(e)),
    }
}

/// What `send` returns for the answer `written` of the device's `write`:
/// success where the device took the frame, the device's error as it came
/// where it did not.
pub fn sent_frame(written: Result<usize, std::io::Error>) -> (res: Result<(), Error>)
    ensures
        written is Ok ==> res == Ok::<(), Error>(()),
        written matches Err(e) ==> res == Err::<(), Error>(Error::Io(e)),
{
    match written {
        Ok(_) => Ok(()),
        Err(e) => Err(Error::Io(e)),
    }
}

impl Interface {
    /// The hardware address of the interface.
    pub closed spec fn spec_mac_addr(&self) -> MacAddress {
        self.mac_addr
    }

    /// Every exchange of a buffer with the device so far, oldest first.
    pub closed spec fn events(&self) -> Seq<Event> {
        self.events@
    }

    /// Every buffer handed to the device's `write` so far, oldest first.
    pub open spec fn sent(&self) -> Seq<Seq<u8>> {
        sent_of(self.events())
    }

    /// Every buffer that the device's `read` delivered so far, oldest first.
    pub open spec fn received(&self) -> Seq<Seq<u8>> {
        received_of(self.events())
    }

    /// An interface on `dev` for the answer `address` of the device to the
    /// question for its hardware address: with that address where the
    /// device gave one, and else the device's error as it came.
    pub fn from_address(dev: Box<dyn Device>, address: Result<MacAddress, std::io::Error>) -> (res:
        Result<Self, Error>)
        ensures
            address matches Ok(mac_addr) ==> (res matches Ok(iface) && iface.spec_mac_addr()
                == mac_addr && iface.events() == Seq::<Event>::empty() && iface.sent()
                == Seq::<Seq<u8>>::empty() && iface.received() == Seq::<Seq<u8>>::empty()),
            address matches Err(e) ==> res == Err::<Self, Error>(Error::Io(e)),
    {
        match address {
            Ok(mac_addr) => Ok(Interface { dev, mac_addr, events: Ghost(Seq::empty()) }),
            Err(e) => Err(Error::Io(e)),
        }
    }

    /// An interface on `dev`, with the hardware address that the device
    /// reports. Where the device cannot tell its address, its error is
    /// returned.
    pub fn new(dev: Box<dyn Device>) -> (res: Result<Self, Error>)
        ensures
            res matches Ok(iface) ==> iface.events() == Seq::<Event>::empty() && iface.sent()
                == Seq::<Seq<u8>>::empty() && iface.received() == Seq::<Seq<u8>>::empty(),
            res matches Err(e) ==> e is Io,
    {
        let address = dev.address();
        Self::from_address(dev, address)
    }

    /// The hardware address of the interface.
    pub fn mac_addr(&self) -> (addr: &MacAddress)
        ensures
            *addr == self.spec_mac_addr(),
    {
        &self.mac_addr
    }

    /// Reads one buffer from the device and decodes it as exactly one frame.
    /// A failure of the device is returned as it came; a buffer that holds no
    /// frame gives a format error. A device that claims more bytes than the
    /// buffer has is taken to have filled the buffer.
    pub fn recv(&mut self) -> (res: Result<EthernetFrame, Error>)
        ensures
            final(self).spec_mac_addr() == old(self).spec_mac_addr(),
            final(self).sent() == old(self).sent(),
            res matches Err(Error::Io(_)) ==> final(self).events() == old(self).events(),
            !(res matches Err(Error::Io(_))) ==> {
                &&& final(self).events() == old(self).events().push(
                    Event::Received(final(self).received().last()),
                )
                &&& final(self).received() == old(self).received().push(
                    final(self).received().last(),
                )
                &&& final(self).received().last().len() <= MTU
                &&& is_decoding(final(self).received().last(), res)
            },
    {
        let mut buf = [0u8; 4096];
        let read = self.dev.read(&mut buf);
        proof {
            if let Ok(n) = read {
                let event = Event::Received(delivered(buf@, n));
                lemma_event_pushed(self.events@, event);
                self.events@ = self.events@.push(event);
            }
        }
        received_frame(buf.as_slice(), read)
    }

    /// The frame that `send` hands to the device for `payload`.
    pub fn frame(&self, dst_addr: MacAddress, payload: EthernetPayload) -> (frame: EthernetFrame)
        requires
            !(payload is Raw),
        ensures
            frame@ == outgoing(self.spec_mac_addr(), dst_addr, payload@),
    {
        let header = EthernetHeader { dst_addr, src_addr: self.mac_addr, typ: payload.typ() };
        EthernetFrame { header, payload }
    }

    /// Sends `payload` to `dst_addr`: one frame with this interface's address
    /// as its source and the payload's tag, handed to the device in one
    /// write. A failure of the device is returned as it came. A raw payload
    /// has no tag and cannot be sent.
    pub fn send(&mut self, dst_addr: MacAddress, payload: EthernetPayload) -> (res: Result<
        (),
        Error,
    >)
        requires
            !(payload is Raw),
        ensures
            final(self).spec_mac_addr() == old(self).spec_mac_addr(),
            final(self).events() == old(self).events().push(
                Event::Sent(
                    outgoing(old(self).spec_mac_addr(), dst_addr, payload@).encode(),
                    res is Ok,
                ),
            ),
            final(self).received() == old(self).received(),
            final(self).sent() == old(self).sent().push(
                outgoing(old(self).spec_mac_addr(), dst_addr, payload@).encode(),
            ),
            res matches Err(e) ==> e is Io,
    {
        let frame = self.frame(dst_addr, payload);
        let mut bytes: Vec<u8> = Vec::new();
        frame.write_to(&mut bytes);
        assert(bytes@ =~= outgoing(self.spec_mac_addr(), dst_addr, payload@).encode());
        let written = self.dev.write(bytes.as_slice());
        proof {
            let event = Event::Sent(bytes@, written is Ok);
            lemma_event_pushed(self.events@, event);
            self.events@ = self.events@.push(event);
        }
        sent_frame(written)
    }
}

impl Device for Interface {
    /// The name of the device underneath.
    fn name(&self) -> String {
        self.dev.name()
    }

    /// The hardware address that the device underneath reports now.
    fn address(&self) -> Result<MacAddress, std::io::Error> {
        self.dev.address()
    }

    /// Reads one buffer from the device underneath, undecoded. What the
    /// device delivered is recorded as received; where the device fails,
    /// nothing is.
    fn read(&mut self, buf: &mut [u8]) -> (res: Result<usize, std::io::Error>)
        ensures
            final(self).spec_mac_addr() == old(self).spec_mac_addr(),
            final(self).sent() == old(self).sent(),
            res is Err ==> final(self).events() == old(self).events(),
            res matches Ok(n) ==> {
                &&& final(self).events() == old(self).events().push(
                    Event::Received(delivered(final(buf)@, n)),
                )
                &&& final(self).received() == old(self).received().push(
                    delivered(final(buf)@, n),
                )
            },
    {
        let res = self.dev.read(buf);
        proof {
            if let Ok(n) = res {
                let event = Event::Received(delivered(buf@, n));
                lemma_event_pushed(self.events@, event);
                self.events@ = self.events@.push(event);
            }
        }
        res
    }

    /// Hands `buf` to the device underneath as it is.
    fn write(&mut self, buf: &[u8]) -> (res: Result<usize, std::io::Error>)
        ensures
            final(self).spec_mac_addr() == old(self).spec_mac_addr(),
            final(self).events() == old(self).events().push(Event::Sent(buf@, res is Ok)),
            final(self).received() == old(self).received(),
            final(self).sent() == old(self).sent().push(buf@),
    {
        let res = self.dev.write(buf);
        proof {
            let event = Event::Sent(buf@, res is Ok);
            lemma_event_pushed(self.events@, event);
            self.events@ = self.events@.push(event);
        }
        res
    }

    /// Flushes the device underneath.
    fn flush(&mut self) -> (res: Result<(), std::io::Error>)
        ensures
            final(self).spec_mac_addr() == old(self).spec_mac_addr(),
            final(self).events() == old(self).events(),
    {
        self.dev.flush()
    }
}

} // verus!
