//! The ARP cache and the resolution of addresses that it does not hold.

use crate::protocol::error::{Error, FormatError};
use crate::protocol::internet::address::IPAddress;
use crate::protocol::link::address::MacAddress;
use crate::protocol::link::arp::{Arp, Opcode};
use crate::protocol::link::ethernet::{EthernetFrameView, EthernetPayload, EthernetPayloadView};
use crate::protocol::link::interface::{
    lemma_event_pushed, lemma_only_received_grows, only_received, outgoing, received_of, Event,
    Interface,
};
use std::collections::HashMap;
use vstd::prelude::*;

verus! {

broadcast use vstd::std_specs::hash::group_hash_axioms;

/// The hardware addresses learned so far, by IPv4 address. Entries are never
/// removed. In memory the four bytes of an IPv4 address are one integer.
#[derive(Debug)]
pub struct ArpTable(HashMap<u32, MacAddress>);

/// The integer that stands for `ip` in memory: its bytes in network order.
spec fn key(ip: IPAddress) -> u32 {
    (ip.0[0] * 16777216 + ip.0[1] * 65536 + ip.0[2] * 256 + ip.0[3]) as u32
}

/// Two addresses with the same integer are the same address.
proof fn lemma_key_injective(a: IPAddress, b: IPAddress)
    requires
        key(a) == key(b),
    ensures
        a == b,
{
    assert(a.0 =~= b.0);
}

fn key_of(ip: &IPAddress) -> (k: u32)
    ensures
        k == key(*ip),
{
    let b0: u32 = ip.0[0] as u32;
    let b1: u32 = ip.0[1] as u32;
    let b2: u32 = ip.0[2] as u32;
    let b3: u32 = ip.0[3] as u32;
    b0 * 16777216 + b1 * 65536 + b2 * 256 + b3
}

/// What a lookup of `addr` in `table` gives.
pub open spec fn lookup(table: Map<IPAddress, MacAddress>, addr: IPAddress) -> Option<
    MacAddress,
> {
    if table.contains_key(addr) {
        Some(table[addr])
    } else {
        None
    }
}

/// The ARP reply that `payload` is, where it is one.
pub open spec fn reply_of(payload: EthernetPayloadView) -> Option<Arp> {
    match payload {
        EthernetPayloadView::Arp(arp) => if arp.opcode is Reply {
            Some(arp)
        } else {
            None
        },
        _ => None,
    }
}

/// The ARP reply that the delivered buffer `bytes` holds, where it holds one.
pub open spec fn reply_in(bytes: Seq<u8>) -> Option<Arp> {
    match EthernetFrameView::parse(bytes) {
        Some(frame) => reply_of(frame.payload),
        None => None,
    }
}

/// The ARP reply from the station `addr` that the delivered buffer `bytes`
/// holds, where it holds one.
pub open spec fn answer_in(bytes: Seq<u8>, addr: IPAddress) -> Option<Arp> {
    match reply_in(bytes) {
        Some(reply) => if reply.sender_protocol_addr == addr {
            Some(reply)
        } else {
            None
        },
        None => None,
    }
}

/// Whether a resolution of `addr` passes over every buffer of `frames`: each
/// holds a frame, and none of them an ARP reply from `addr`.
pub open spec fn passed_over(frames: Seq<Seq<u8>>, addr: IPAddress) -> bool {
    forall|i: int|
        0 <= i < frames.len() ==> EthernetFrameView::parse(#[trigger] frames[i]) is Some
            && answer_in(frames[i], addr) is None
}

/// The table that `table` becomes by learning from every ARP reply among the
/// delivered buffers `frames`, oldest first: the sender's pair of addresses.
pub open spec fn learned(table: Map<IPAddress, MacAddress>, frames: Seq<Seq<u8>>) -> Map<
    IPAddress,
    MacAddress,
>
    decreases frames.len(),
{
    if frames.len() == 0 {
        table
    } else {
        let before = learned(table, frames.drop_last());
        match reply_in(frames.last()) {
            Some(reply) => before.insert(reply.sender_protocol_addr, reply.sender_hardware_addr),
            None => before,
        }
    }
}

/// The frame that asks every station for the hardware address of `addr`, on
/// behalf of the station with the addresses `mac_addr` and `ip_addr`.
pub open spec fn request(mac_addr: MacAddress, ip_addr: IPAddress, addr: IPAddress) -> Seq<u8> {
    outgoing(
        mac_addr,
        MacAddress::spec_broadcast(),
        EthernetPayloadView::Arp(
            Arp::spec_new(
                Opcode::Request,
                mac_addr,
                ip_addr,
                MacAddress::spec_broadcast(),
                addr,
            ),
        ),
    ).encode()
}

/// What `find` does. An address that the table holds is answered from the
/// table, and the link is left alone. For any other, the request is
/// broadcast first; where the device does not take it, the call ends there.
/// Then frames are received, at most `patience` of them, until one holds an
/// ARP reply from `addr`: the answer is the hardware address of that reply.
/// Frames before it are passed over, but what the replies among them say is
/// learned. A failure of the device, a buffer that holds no frame, or the
/// end of patience ends the wait without an answer.
pub open spec fn resolution(
    table0: Map<IPAddress, MacAddress>,
    link0: Interface,
    addr: IPAddress,
    ip_addr: IPAddress,
    patience: usize,
    table1: Map<IPAddress, MacAddress>,
    link1: Interface,
    res: Result<Option<MacAddress>, Error>,
) -> bool {
    &&& link1.spec_mac_addr() == link0.spec_mac_addr()
    &&& if table0.contains_key(addr) {
        &&& res == Ok::<Option<MacAddress>, Error>(Some(table0[addr]))
        &&& table1 == table0
        &&& link1.events() == link0.events()
    } else {
        let asked = request(link0.spec_mac_addr(), ip_addr, addr);
        let fresh = link1.received().skip(link0.received().len() as int);
        &&& link1.events().len() > link0.events().len()
        &&& link1.events()[link0.events().len() as int] matches Event::Sent(bytes, taken)
        &&& bytes == asked
        &&& only_received(link0.events().push(Event::Sent(asked, taken)), link1.events())
        &&& !taken ==> fresh.len() == 0 && res is Err && res->Err_0 is Io
        &&& link1.sent() == link0.sent().push(asked)
        &&& link0.received().len() <= link1.received().len()
        &&& link1.received().take(link0.received().len() as int) == link0.received()
        &&& fresh.len() <= patience
        &&& table1 == learned(table0, fresh)
        &&& match res {
            Ok(found) => {
                &&& fresh.len() >= 1
                &&& passed_over(fresh.drop_last(), addr)
                &&& answer_in(fresh.last(), addr) matches Some(reply)
                &&& found == Some(reply.sender_hardware_addr)
            },
            Err(Error::Io(_)) => passed_over(fresh, addr),
            Err(Error::Format(e)) => {
                &&& e == FormatError::Truncated
                &&& fresh.len() >= 1
                &&& passed_over(fresh.drop_last(), addr)
                &&& EthernetFrameView::parse(fresh.last()) is None
            },
            Err(Error::TimedOut) => passed_over(fresh, addr) && fresh.len() == patience,
        }
    }
}

impl View for ArpTable {
    type V = Map<IPAddress, MacAddress>;

    closed spec fn view(&self) -> Map<IPAddress, MacAddress> {
        Map::new(|ip: IPAddress| self.0@.contains_key(key(ip)), |ip: IPAddress| self.0@[key(ip)])
    }
}

impl ArpTable {
    /// A table that holds nothing.
    pub fn new() -> (table: Self)
        ensures
            table@ == Map::<IPAddress, MacAddress>::empty(),
    {
        let table = ArpTable(HashMap::new());
        assert(table@ =~= Map::<IPAddress, MacAddress>::empty());
        table
    }

    /// The hardware address that the table holds for `addr`.
    pub fn get(&self, addr: &IPAddress) -> (found: Option<MacAddress>)
        ensures
            found == lookup(self@, *addr),
    {
        match self.0.get(&key_of(addr)) {
            Some(mac_addr) => Some(*mac_addr),
            None => None,
        }
    }

    /// Puts `mac_addr` in the table for `ip_addr`, in place of what was there.
    pub fn insert(&mut self, ip_addr: IPAddress, mac_addr: MacAddress)
        ensures
            final(self)@ == old(self)@.insert(ip_addr, mac_addr),
    {
        self.0.insert(key_of(&ip_addr), mac_addr);
        proof {
            assert forall|a: IPAddress| key(a) == key(ip_addr) implies a == ip_addr by {
                lemma_key_injective(a, ip_addr);
            }
            assert(self@ =~= old(self)@.insert(ip_addr, mac_addr));
        }
    }

    /// Takes from a received payload what it teaches: the sender's pair of
    /// addresses where the payload is an ARP reply, nothing otherwise.
    pub fn learn(&mut self, payload: &EthernetPayload) -> (learned: bool)
        ensures
            match reply_of(payload@) {
                Some(reply) => learned && final(self)@ == old(self)@.insert(
                    reply.sender_protocol_addr,
                    reply.sender_hardware_addr,
                ),
                None => !learned && final(self)@ == old(self)@,
            },
    {
        match payload {
            EthernetPayload::Arp(arp) => match arp.opcode {
                Opcode::Reply => {
                    self.insert(arp.sender_protocol_addr, arp.sender_hardware_addr);
                    true
                },
                _ => false,
            },
            _ => false,
        }
    }

    /// Resolves `addr` to a hardware address, for the station with the
    /// address `ip_addr` on `link`: from the table where it holds `addr`, and
    /// else by a broadcast request and a wait of at most `patience` frames for
    /// the reply of `addr`.
    pub fn find(
        &mut self,
        addr: IPAddress,
        link: &mut Interface,
        ip_addr: IPAddress,
        patience: usize,
    ) -> (res: Result<Option<MacAddress>, Error>)
        ensures
            resolution(
                old(self)@,
                *old(link),
                addr,
                ip_addr,
                patience,
                final(self)@,
                *final(link),
                res,
            ),
    {
        if let Some(mac_addr) = self.get(&addr) {
            return Ok(Some(mac_addr));
        }
        let mac_addr: MacAddress = *link.mac_addr();
        let payload = EthernetPayload::Arp(
            Arp::new(Opcode::Request, mac_addr, ip_addr, MacAddress::broadcast(), addr),
        );
        let ghost events0 = link.events();
        let ghost log0 = link.received();
        let ghost asked = request(mac_addr, ip_addr, addr);
        let sent = link.send(MacAddress::broadcast(), payload);
        let ghost events1 = link.events();
        proof {
            assert(link.received().skip(log0.len() as int) =~= Seq::<Seq<u8>>::empty());
            assert(link.received().take(log0.len() as int) =~= log0);
            lemma_only_received_grows(events1, events1, Seq::empty());
            assert(events1[events0.len() as int] == Event::Sent(asked, sent is Ok));
        }
        if let Err(e) = sent {
            return Err(e);
        }
        let mut waited: usize = 0;
        while waited < patience
            invariant
                waited <= patience,
                !old(self)@.contains_key(addr),
                !self@.contains_key(addr),
                mac_addr == old(link).spec_mac_addr(),
                events0 == old(link).events(),
                log0 == old(link).received(),
                asked == request(mac_addr, ip_addr, addr),
                events1 == events0.push(Event::Sent(asked, true)),
                only_received(events1, link.events()),
                link.spec_mac_addr() == mac_addr,
                link.sent() == old(link).sent().push(asked),
                link.received().len() == log0.len() + waited,
                link.received().take(log0.len() as int) == log0,
                passed_over(link.received().skip(log0.len() as int), addr),
                self@ == learned(old(self)@, link.received().skip(log0.len() as int)),
            decreases patience - waited,
        {
            let ghost log1 = link.received();
            let ghost events2 = link.events();
            let ghost table1 = self@;
            let received = link.recv();
            proof {
                let fresh = link.received().skip(log0.len() as int);
                if received matches Err(Error::Io(_)) {
                    assert(link.received() == log1);
                } else {
                    lemma_only_received_grows(events1, events2, link.received().last());
                    assert(link.received().drop_last() =~= log1);
                    assert(link.received().take(log0.len() as int) =~= log1.take(
                        log0.len() as int,
                    ));
                    assert(fresh.drop_last() =~= log1.skip(log0.len() as int));
                    assert(fresh.last() == link.received().last());
                }
                assert(events1.len() == events0.len() + 1);
                assert(link.events()[events0.len() as int] == link.events().take(
                    events1.len() as int,
                )[events0.len() as int]);
            }
            match received {
                Ok(frame) => {
                    waited = waited + 1;
                    if self.learn(&frame.payload) {
                        if let Some(found) = self.get(&addr) {
                            return Ok(Some(found));
                        }
                    }
                    proof {
                        let fresh = link.received().skip(log0.len() as int);
                        assert forall|i: int| 0 <= i < fresh.len() implies EthernetFrameView::parse(
                            #[trigger] fresh[i],
                        ) is Some && answer_in(fresh[i], addr) is None by {
                            if i < fresh.len() - 1 {
                                assert(fresh[i] == fresh.drop_last()[i]);
                            }
                        }
                    }
                },
                Err(e) => {
                    return Err(e);
                },
            }
        }
        Err(Error::TimedOut)
    }
}

/// Learning only adds to a table: what it held before, it holds after.
pub proof fn lemma_learned_keeps_entries(table: Map<IPAddress, MacAddress>, frames: Seq<Seq<u8>>)
    ensures
        table.dom().subset_of(learned(table, frames).dom()),
    decreases frames.len(),
{
    if frames.len() > 0 {
        lemma_learned_keeps_entries(table, frames.drop_last());
    }
}

/// The table only grows: what it held before a resolution it holds after it.
pub proof fn lemma_resolution_keeps_entries(
    table0: Map<IPAddress, MacAddress>,
    link0: Interface,
    addr: IPAddress,
    ip_addr: IPAddress,
    patience: usize,
    table1: Map<IPAddress, MacAddress>,
    link1: Interface,
    res: Result<Option<MacAddress>, Error>,
)
    requires
        resolution(table0, link0, addr, ip_addr, patience, table1, link1, res),
    ensures
        table0.dom().subset_of(table1.dom()),
{
    if !table0.contains_key(addr) {
        lemma_learned_keeps_entries(
            table0,
            link1.received().skip(link0.received().len() as int),
        );
    }
}

/// A resolution never ends without an answer or an error, and an answer is
/// what the table then holds for the address: it is cached.
pub proof fn lemma_resolution_answers(
    table0: Map<IPAddress, MacAddress>,
    link0: Interface,
    addr: IPAddress,
    ip_addr: IPAddress,
    patience: usize,
    table1: Map<IPAddress, MacAddress>,
    link1: Interface,
    res: Result<Option<MacAddress>, Error>,
)
    requires
        resolution(table0, link0, addr, ip_addr, patience, table1, link1, res),
    ensures
        res matches Ok(found) ==> found is Some && found == lookup(table1, addr),
{
}

/// A resolution of an address that the table does not hold asks before it
/// listens: the first thing it does on the link is to hand the request to
/// the device, and all that follows are deliveries. Where the device did not
/// take the request, nothing follows.
pub proof fn lemma_request_comes_first(
    table0: Map<IPAddress, MacAddress>,
    link0: Interface,
    addr: IPAddress,
    ip_addr: IPAddress,
    patience: usize,
    table1: Map<IPAddress, MacAddress>,
    link1: Interface,
    res: Result<Option<MacAddress>, Error>,
)
    requires
        resolution(table0, link0, addr, ip_addr, patience, table1, link1, res),
        !table0.contains_key(addr),
    ensures
        link1.events().len() > link0.events().len(),
        link1.events().take(link0.events().len() as int) == link0.events(),
        link1.events()[link0.events().len() as int] matches Event::Sent(bytes, taken) && bytes
            == request(link0.spec_mac_addr(), ip_addr, addr) && (!taken ==> link1.events().len()
            == link0.events().len() + 1 && link1.received() == link0.received()),
        forall|i: int|
            link0.events().len() < i < link1.events().len() ==> #[trigger] link1.events()[i]
                is Received,
{
    let n = link0.events().len() as int;
    let asked = request(link0.spec_mac_addr(), ip_addr, addr);
    let taken = link1.events()[n]->Sent_1;
    let first = link0.events().push(Event::Sent(asked, taken));
    assert(link1.events().take(n) =~= link1.events().take(n + 1).take(n));
    assert(first.take(n) =~= link0.events());
    if !taken {
        assert(link1.received() =~= link1.received().take(link0.received().len() as int));
        lemma_received_counts(first, link1.events());
        lemma_event_pushed(link0.events(), Event::Sent(asked, taken));
    }
}

/// Where a record has nothing but deliveries behind an earlier one, it holds
/// as many deliveries more as it holds events more.
proof fn lemma_received_counts(before: Seq<Event>, after: Seq<Event>)
    requires
        only_received(before, after),
    ensures
        received_of(after).len() == received_of(before).len() + after.len() - before.len(),
    decreases after.len(),
{
    if after.len() == before.len() {
        assert(after =~= before);
    } else {
        let shorter = after.drop_last();
        assert(shorter.take(before.len() as int) =~= after.take(before.len() as int));
        assert forall|i: int| before.len() <= i < shorter.len() implies #[trigger] shorter[i]
            is Received by {
            assert(shorter[i] == after[i]);
        }
        lemma_received_counts(before, shorter);
        assert(after.last() == after[after.len() - 1]);
    }
}

/// After a reply from another station and then the reply from `addr`, the
/// answer is the hardware address of the second reply, and the pair of the
/// first is learned as well unless the second is about the same station.
pub proof fn lemma_resolution_waits_for_the_answer(
    table0: Map<IPAddress, MacAddress>,
    link0: Interface,
    addr: IPAddress,
    ip_addr: IPAddress,
    patience: usize,
    table1: Map<IPAddress, MacAddress>,
    link1: Interface,
    res: Result<Option<MacAddress>, Error>,
    other: Seq<u8>,
    answer: Seq<u8>,
)
    requires
        resolution(table0, link0, addr, ip_addr, patience, table1, link1, res),
        !table0.contains_key(addr),
        reply_in(other) is Some,
        answer_in(other, addr) is None,
        answer_in(answer, addr) is Some,
    ensures
        link1.received() == link0.received().push(other).push(answer) ==> res == Ok::<
            Option<MacAddress>,
            Error,
        >(Some(answer_in(answer, addr)->Some_0.sender_hardware_addr)) && table1.contains_key(
            reply_in(other)->Some_0.sender_protocol_addr,
        ),
        link1.received() == link0.received().push(other) ==> res is Err,
{
    let fresh = link1.received().skip(link0.received().len() as int);
    if link1.received() == link0.received().push(other).push(answer) {
        assert(fresh =~= seq![other, answer]);
        assert(fresh[1] == answer);
        assert(fresh.last() == answer);
        assert(fresh.drop_last() =~= seq![other]);
        assert(fresh.drop_last().drop_last() =~= Seq::<Seq<u8>>::empty());
        assert(fresh.drop_last().last() == other);
        reveal_with_fuel(learned, 3);
    }
    if link1.received() == link0.received().push(other) {
        assert(fresh =~= seq![other]);
        assert(fresh.last() == other);
    }
}

/// An address that a resolution answered is answered again from the table:
/// a second resolution of the same address on the table and link that the
/// first one left gives the same hardware address, leaves the table as it
/// is, and neither sends nor receives.
pub proof fn lemma_resolved_address_is_cached(
    table0: Map<IPAddress, MacAddress>,
    link0: Interface,
    addr: IPAddress,
    ip_addr: IPAddress,
    patience: usize,
    table1: Map<IPAddress, MacAddress>,
    link1: Interface,
    mac_addr: MacAddress,
    again: usize,
    table2: Map<IPAddress, MacAddress>,
    link2: Interface,
    res: Result<Option<MacAddress>, Error>,
)
    requires
        resolution(
            table0,
            link0,
            addr,
            ip_addr,
            patience,
            table1,
            link1,
            Ok(Some(mac_addr)),
        ),
        resolution(table1, link1, addr, ip_addr, again, table2, link2, res),
    ensures
        res == Ok::<Option<MacAddress>, Error>(Some(mac_addr)),
        table2 == table1,
        link2.events() == link1.events(),
        link2.sent() == link1.sent(),
        link2.received() == link1.received(),
{
}

} // verus!
