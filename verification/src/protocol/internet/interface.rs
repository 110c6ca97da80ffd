//! The internet interface: a link interface seen as a stream of IPv4
//! datagrams, with address resolution on the way out.

use crate::protocol::error::{Error, FormatError};
use crate::protocol::internet::address::IPAddress;
use crate::protocol::internet::ip::{
    lemma_ip_datagram_round_trip, IPDatagram, IPDatagramView, IPHeader, IPPayload, IPPayloadView,
    Protocol,
};
use crate::protocol::link;
use crate::protocol::link::address::MacAddress;
use crate::protocol::link::arp::table::{resolution, ArpTable};
use crate::protocol::link::ethernet::{EthernetFrameView, EthernetPayload, EthernetPayloadView};
use crate::protocol::link::interface::{
    delivered, lemma_only_received_grows, only_received, outgoing, Event,
};
use crate::protocol::physical::Device;
use vstd::pervasive::unreached;
use vstd::prelude::*;

verus! {

/// A link interface together with its IPv4 address, the ARP table that it
/// fills, and its patience: the most frames that one call waits through.
pub struct Interface {
    dev: link::Interface,
    ip_addr: IPAddress,
    arp_table: ArpTable,
    patience: usize,
}

/// The datagram that the delivered buffer `bytes` holds, where it holds a
/// frame that carries one.
pub open spec fn datagram_in(bytes: Seq<u8>) -> Option<IPDatagramView> {
    match EthernetFrameView::parse(bytes) {
        Some(frame) => match frame.payload {
            EthernetPayloadView::IP(datagram) => Some(datagram),
            _ => None,
        },
        None => None,
    }
}

/// Whether a wait for a datagram sets aside every buffer of `frames`: each
/// holds a frame, and none of them a datagram.
pub open spec fn set_aside(frames: Seq<Seq<u8>>) -> bool {
    forall|i: int|
        0 <= i < frames.len() ==> EthernetFrameView::parse(#[trigger] frames[i]) is Some
            && datagram_in(frames[i]) is None
}

/// What `recv` does to the link and returns. Frames are received until one
/// carries a datagram, at most `patience` of them; those before it are set
/// aside. A failure of the device, a buffer that holds no frame, or the end
/// of patience ends the wait. Nothing is sent: the device is only read.
pub open spec fn reception(
    link0: link::Interface,
    patience: usize,
    link1: link::Interface,
    res: Result<IPDatagram, Error>,
) -> bool {
    let fresh = link1.received().skip(link0.received().len() as int);
    &&& link1.spec_mac_addr() == link0.spec_mac_addr()
    &&& only_received(link0.events(), link1.events())
    &&& link1.sent() == link0.sent()
    &&& link0.received().len() <= link1.received().len()
    &&& link1.received().take(link0.received().len() as int) == link0.received()
    &&& fresh.len() <= patience
    &&& match res {
        Ok(datagram) => {
            &&& fresh.len() >= 1
            &&& set_aside(fresh.drop_last())
            &&& datagram_in(fresh.last()) == Some(datagram@)
        },
        Err(Error::Io(_)) => set_aside(fresh),
        Err(Error::Format(e)) => {
            &&& e == FormatError::Truncated
            &&& fresh.len() >= 1
            &&& set_aside(fresh.drop_last())
            &&& EthernetFrameView::parse(fresh.last()) is None
        },
        Err(Error::TimedOut) => set_aside(fresh) && fresh.len() == patience,
    }
}

/// The datagram that the station `src_addr` sends to `dst_addr` for
/// `payload`: IPv4 with a header of five words, a time to live of 64, the
/// payload's protocol tag, and the checksum left at zero.
pub open spec fn outgoing_datagram(
    src_addr: IPAddress,
    dst_addr: IPAddress,
    payload: IPPayloadView,
) -> IPDatagramView {
    IPDatagramView {
        header: IPHeader {
            version_ihl: 0x45,
            tos: 5,
            length: 112,
            identification: 0,
            flags_offset: 0,
            ttl: 64,
            protocol: Protocol::Icmp,
            checksum: 0,
            src_addr,
            dst_addr,
        },
        payload,
    }
}

/// A datagram built for a well-formed ICMP message is well-formed, and
/// decoding what it encodes to gives it back.
pub proof fn lemma_outgoing_datagram_round_trip(
    src_addr: IPAddress,
    dst_addr: IPAddress,
    payload: IPPayloadView,
)
    requires
        (payload matches IPPayloadView::Icmp(msg) && msg.wf()),
    ensures
        outgoing_datagram(src_addr, dst_addr, payload).wf(),
        IPDatagramView::parse(outgoing_datagram(src_addr, dst_addr, payload).encode()) == Some(
            outgoing_datagram(src_addr, dst_addr, payload),
        ),
{
    lemma_ip_datagram_round_trip(outgoing_datagram(src_addr, dst_addr, payload));
}

/// What `send` does to the table and the link and returns. The destination
/// is resolved as `resolution` says, leaving the link as `resolved`. Where
/// that gives a hardware address, the datagram goes to it in one frame, and
/// the result is success where the device took the frame and the device's
/// error where it did not. Where the resolution failed, nothing more is sent
/// and its error is the result.
pub open spec fn transmission(
    table0: Map<IPAddress, MacAddress>,
    link0: link::Interface,
    ip_addr: IPAddress,
    patience: usize,
    dst_addr: IPAddress,
    payload: IPPayloadView,
    table1: Map<IPAddress, MacAddress>,
    resolved: link::Interface,
    found: Result<Option<MacAddress>, Error>,
    link1: link::Interface,
    res: Result<(), Error>,
) -> bool {
    &&& resolution(table0, link0, dst_addr, ip_addr, patience, table1, resolved, found)
    &&& match found {
        Ok(Some(mac_addr)) => {
            let frame = outgoing(
                link0.spec_mac_addr(),
                mac_addr,
                EthernetPayloadView::IP(outgoing_datagram(ip_addr, dst_addr, payload)),
            ).encode();
            &&& link1.spec_mac_addr() == link0.spec_mac_addr()
            &&& link1.events() == resolved.events().push(Event::Sent(frame, res is Ok))
            &&& link1.received() == resolved.received()
            &&& link1.sent() == resolved.sent().push(frame)
            &&& res matches Err(e) ==> e is Io
        },
        Ok(None) => false,
        Err(e) => link1 == resolved && res == Err::<(), Error>(e),
    }
}

impl Interface {
    /// The link interface underneath.
    pub closed spec fn spec_link(&self) -> link::Interface {
        self.dev
    }

    /// The IPv4 address of the interface.
    pub closed spec fn spec_ip_addr(&self) -> IPAddress {
        self.ip_addr
    }

    /// What the ARP table of the interface holds.
    pub closed spec fn table(&self) -> Map<IPAddress, MacAddress> {
        self.arp_table@
    }

    /// The most frames that one call waits through.
    pub closed spec fn spec_patience(&self) -> usize {
        self.patience
    }

    /// An interface on `dev` with the address `ip_addr`, an empty ARP table
    /// and all the patience there is.
    pub fn new(dev: link::Interface, ip_addr: IPAddress) -> (res: Result<Self, Error>)
        ensures
            res matches Ok(iface) && iface.spec_link() == dev && iface.spec_ip_addr() == ip_addr
                && iface.table() == Map::<IPAddress, MacAddress>::empty()
                && iface.spec_patience() == usize::MAX,
    {
        Ok(Interface { dev, ip_addr, arp_table: ArpTable::new(), patience: usize::MAX })
    }

    /// The most frames that one call waits through.
    pub fn patience(&self) -> (patience: usize)
        ensures
            patience == self.spec_patience(),
    {
        self.patience
    }

    /// Sets the most frames that one call waits through.
    pub fn set_patience(&mut self, patience: usize)
        ensures
            final(self).spec_patience() == patience,
            final(self).spec_link() == old(self).spec_link(),
            final(self).spec_ip_addr() == old(self).spec_ip_addr(),
            final(self).table() == old(self).table(),
    {
        self.patience = patience;
    }

    /// The hardware address of the link interface underneath.
    pub fn mac_addr(&self) -> (addr: &MacAddress)
        ensures
            *addr == self.spec_link().spec_mac_addr(),
    {
        self.dev.mac_addr()
    }

    /// The IPv4 address of the interface.
    pub fn ip_addr(&self) -> (addr: &IPAddress)
        ensures
            *addr == self.spec_ip_addr(),
    {
        &self.ip_addr
    }

    /// The link interface underneath, to receive and send frames on it.
    pub fn link(&mut self) -> (dev: &mut link::Interface)
        ensures
            *dev == old(self).spec_link(),
            final(self).spec_link() == *final(dev),
            final(self).spec_ip_addr() == old(self).spec_ip_addr(),
            final(self).table() == old(self).table(),
            final(self).spec_patience() == old(self).spec_patience(),
    {
        &mut self.dev
    }

    /// Receives the next datagram: frames that carry none are set aside, at
    /// most as many as the interface has patience for.
    pub fn recv(&mut self) -> (res: Result<IPDatagram, Error>)
        ensures
            reception(
                old(self).spec_link(),
                old(self).spec_patience(),
                final(self).spec_link(),
                res,
            ),
            final(self).spec_ip_addr() == old(self).spec_ip_addr(),
            final(self).table() == old(self).table(),
            final(self).spec_patience() == old(self).spec_patience(),
    {
        let ghost log0 = self.dev.received();
        let ghost events0 = self.dev.events();
        proof {
            lemma_only_received_grows(events0, events0, Seq::empty());
        }
        assert(self.dev.received().skip(log0.len() as int) =~= Seq::<Seq<u8>>::empty());
        assert(self.dev.received().take(log0.len() as int) =~= log0);
        let mut waited: usize = 0;
        while waited < self.patience
            invariant
                waited <= self.patience,
                self.patience == old(self).patience,
                self.ip_addr == old(self).ip_addr,
                self.arp_table == old(self).arp_table,
                log0 == old(self).dev.received(),
                events0 == old(self).dev.events(),
                only_received(events0, self.dev.events()),
                self.dev.spec_mac_addr() == old(self).dev.spec_mac_addr(),
                self.dev.sent() == old(self).dev.sent(),
                self.dev.received().len() == log0.len() + waited,
                self.dev.received().take(log0.len() as int) == log0,
                set_aside(self.dev.received().skip(log0.len() as int)),
            decreases self.patience - waited,
        {
            let ghost log1 = self.dev.received();
            let ghost events1 = self.dev.events();
            let received = self.dev.recv();
            proof {
                let fresh = self.dev.received().skip(log0.len() as int);
                if received matches Err(Error::Io(_)) {
                    assert(self.dev.received() == log1);
                } else {
                    lemma_only_received_grows(events0, events1, self.dev.received().last());
                    assert(self.dev.received().drop_last() =~= log1);
                    assert(self.dev.received().take(log0.len() as int) =~= log1.take(
                        log0.len() as int,
                    ));
                    assert(fresh.drop_last() =~= log1.skip(log0.len() as int));
                    assert(fresh.last() == self.dev.received().last());
                }
            }
            match received {
                Ok(frame) => {
                    waited = waited + 1;
                    if let EthernetPayload::IP(datagram) = frame.payload {
                        return Ok(datagram);
                    }
                    proof {
                        let fresh = self.dev.received().skip(log0.len() as int);
                        assert forall|i: int| 0 <= i < fresh.len() implies EthernetFrameView::parse(
                            #[trigger] fresh[i],
                        ) is Some && datagram_in(fresh[i]) is None by {
                            if i < fresh.len() - 1 {
                                assert(fresh[i] == fresh.drop_last()[i]);
                            }
                        }
                    }
                },
                Err(e) => {
                    return Err(e);
                },
            }
        }
        Err(Error::TimedOut)
    }

    /// The datagram that `send` hands to the link for `payload`.
    pub fn datagram(&self, dst_addr: IPAddress, payload: IPPayload) -> (datagram: IPDatagram)
        requires
            payload is Icmp,
        ensures
            datagram@ == outgoing_datagram(self.spec_ip_addr(), dst_addr, payload@),
    {
        let header = IPHeader {
            version_ihl: (4 << 4) | 5,
            tos: 5,
            length: 112,
            identification: 0,
            flags_offset: 0,
            ttl: 64,
            protocol: payload.protocol(),
            checksum: 0,
            src_addr: self.ip_addr,
            dst_addr,
        };
        assert((4u8 << 4) | 5 == 0x45) by (bit_vector);
        IPDatagram { header, payload }
    }

    /// Sends `payload` to `dst_addr`: resolves the hardware address of the
    /// destination, from the ARP table or by asking on the link, and sends
    /// the datagram there in one frame. A payload without a protocol tag of
    /// its own cannot be sent.
    pub fn send(&mut self, dst_addr: IPAddress, payload: IPPayload) -> (res: Result<(), Error>)
        requires
            payload is Icmp,
        ensures
            final(self).spec_ip_addr() == old(self).spec_ip_addr(),
            final(self).spec_patience() == old(self).spec_patience(),
            exists|resolved: link::Interface, found: Result<Option<MacAddress>, Error>|
                transmission(
                    old(self).table(),
                    old(self).spec_link(),
                    old(self).spec_ip_addr(),
                    old(self).spec_patience(),
                    dst_addr,
                    payload@,
                    final(self).table(),
                    resolved,
                    found,
                    final(self).spec_link(),
                    res,
                ),
    {
        let datagram = self.datagram(dst_addr, payload);
        let found = self.arp_table.find(dst_addr, &mut self.dev, self.ip_addr, self.patience);
        let ghost resolved = self.dev;
        let res = match found {
            Ok(Some(mac_addr)) => self.dev.send(mac_addr, EthernetPayload::IP(datagram)),
            Ok(None) => unreached(),
            Err(e) => Err(e),
        };
        assert(transmission(
            old(self).table(),
            old(self).spec_link(),
            old(self).spec_ip_addr(),
            old(self).spec_patience(),
            dst_addr,
            payload@,
            self.table(),
            resolved,
            found,
            self.spec_link(),
            res,
        ));
        res
    }
}

impl Device for Interface {
    /// The name of the device underneath.
    fn name(&self) -> String {
        self.dev.name()
    }

    /// The hardware address that the device underneath reports now.
    fn address(&self) -> Result<MacAddress, std::io::Error> {
        self.dev.address()
    }

    /// Reads one buffer from the device underneath, undecoded. What the
    /// device delivered is recorded as received on the link; where the device
    /// fails, nothing is. The ARP table learns nothing from it.
    fn read(&mut self, buf: &mut [u8]) -> (res: Result<usize, std::io::Error>)
        ensures
            final(self).spec_ip_addr() == old(self).spec_ip_addr(),
            final(self).table() == old(self).table(),
            final(self).spec_patience() == old(self).spec_patience(),
            final(self).spec_link().spec_mac_addr() == old(self).spec_link().spec_mac_addr(),
            final(self).spec_link().sent() == old(self).spec_link().sent(),
            res is Err ==> final(self).spec_link().events() == old(self).spec_link().events(),
            res matches Ok(n) ==> {
                &&& final(self).spec_link().events() == old(self).spec_link().events().push(
                    Event::Received(delivered(final(buf)@, n)),
                )
                &&& final(self).spec_link().received() == old(self).spec_link().received().push(
                    delivered(final(buf)@, n),
                )
            },
    {
        self.dev.read(buf)
    }

    /// Hands `buf` to the device underneath as it is.
    fn write(&mut self, buf: &[u8]) -> (res: Result<usize, std::io::Error>)
        ensures
            final(self).spec_ip_addr() == old(self).spec_ip_addr(),
            final(self).table() == old(self).table(),
            final(self).spec_patience() == old(self).spec_patience(),
            final(self).spec_link().spec_mac_addr() == old(self).spec_link().spec_mac_addr(),
            final(self).spec_link().events() == old(self).spec_link().events().push(
                Event::Sent(buf@, res is Ok),
            ),
            final(self).spec_link().sent() == old(self).spec_link().sent().push(buf@),
            final(self).spec_link().received() == old(self).spec_link().received(),
    {
        self.dev.write(buf)
    }

    /// Flushes the device underneath. Nothing is sent or received by it.
    fn flush(&mut self) -> (res: Result<(), std::io::Error>)
        ensures
            final(self).spec_ip_addr() == old(self).spec_ip_addr(),
            final(self).table() == old(self).table(),
            final(self).spec_patience() == old(self).spec_patience(),
            final(self).spec_link().spec_mac_addr() == old(self).spec_link().spec_mac_addr(),
            final(self).spec_link().events() == old(self).spec_link().events(),
    {
        self.dev.flush()
    }
}

/// A wait that took exactly two buffers from the device, the first a frame
/// that carries no datagram and the second a frame that carries one, ended
/// well and returned that datagram; a wait that took only the first did not
/// return a datagram.
pub proof fn lemma_datagram_after_other_frame(
    link0: link::Interface,
    patience: usize,
    link1: link::Interface,
    res: Result<IPDatagram, Error>,
    other: Seq<u8>,
    carrier: Seq<u8>,
)
    requires
        reception(link0, patience, link1, res),
        EthernetFrameView::parse(other) is Some,
        datagram_in(other) is None,
        datagram_in(carrier) is Some,
    ensures
        link1.received() == link0.received().push(other).push(carrier) ==> res is Ok
            && Some(res->Ok_0@) == datagram_in(carrier),
        link1.received() == link0.received().push(other) ==> res is Err,
{
    let fresh = link1.received().skip(link0.received().len() as int);
    if link1.received() == link0.received().push(other).push(carrier) {
        assert(fresh =~= seq![other, carrier]);
        assert(fresh[1] == carrier);
        assert(fresh.last() == carrier);
    }
    if link1.received() == link0.received().push(other) {
        assert(fresh =~= seq![other]);
        assert(fresh.last() == other);
    }
}

} // verus!
