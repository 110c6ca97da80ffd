use std::cell::RefCell;
use std::collections::VecDeque;
use std::io;
use std::rc::Rc;

use tendium::protocol::error::{Error, FormatError};
use tendium::protocol::internet;
use tendium::protocol::internet::address::IPAddress;
use tendium::protocol::internet::icmp::{IcmpData, IcmpMessage, IcmpType};
use tendium::protocol::internet::ip::{IPDatagram, IPHeader, IPPayload, Protocol};
use tendium::protocol::link;
use tendium::protocol::link::address::MacAddress;
use tendium::protocol::link::arp::{Arp, ArpTable, Opcode};
use tendium::protocol::link::ethernet::{
    EtherType, EthernetFrame, EthernetHeader, EthernetPayload,
};
use tendium::protocol::link::interface::{decode, received_frame, sent_frame};
use tendium::protocol::physical::Device;

const OWN_MAC: MacAddress = MacAddress([0x44, 0xc4, 0xc3, 0xf1, 0x15, 0x5b]);
const OWN_IP: IPAddress = IPAddress([10, 0, 0, 4]);
const PEER_MAC: MacAddress = MacAddress([0x02, 0x00, 0x00, 0x00, 0x00, 0x01]);
const PEER_IP: IPAddress = IPAddress([10, 0, 0, 1]);
const OTHER_MAC: MacAddress = MacAddress([0x02, 0x00, 0x00, 0x00, 0x00, 0x09]);
const OTHER_IP: IPAddress = IPAddress([10, 0, 0, 9]);

/// What a test hands to the interface and sees of what it did.
#[derive(Default)]
struct Wire {
    incoming: VecDeque<io::Result<Vec<u8>>>,
    written: Vec<Vec<u8>>,
    reads: usize,
    calls: Vec<&'static str>,
    fail_writes: bool,
    fail_address: bool,
}

struct Loopback {
    wire: Rc<RefCell<Wire>>,
}

impl Device for Loopback {
    fn name(&self) -> String {
        String::from("lo-test")
    }

    fn address(&self) -> io::Result<MacAddress> {
        if self.wire.borrow().fail_address {
            Err(io::Error::new(io::ErrorKind::NotFound, "no such device"))
        } else {
            Ok(OWN_MAC)
        }
    }

    fn read(&mut self, buf: &mut [u8]) -> io::Result<usize> {
        let mut wire = self.wire.borrow_mut();
        wire.reads += 1;
        wire.calls.push("read");
        match wire.incoming.pop_front() {
            Some(Ok(bytes)) => {
                buf[..bytes.len()].copy_from_slice(&bytes);
                Ok(bytes.len())
            }
            Some(Err(e)) => Err(e),
            None => Err(io::Error::new(io::ErrorKind::WouldBlock, "nothing left")),
        }
    }

    fn write(&mut self, buf: &[u8]) -> io::Result<usize> {
        let mut wire = self.wire.borrow_mut();
        wire.written.push(buf.to_vec());
        wire.calls.push("write");
        if wire.fail_writes {
            Err(io::Error::new(io::ErrorKind::BrokenPipe, "link down"))
        } else {
            Ok(buf.len())
        }
    }

    fn flush(&mut self) -> io::Result<()> {
        Ok(())
    }
}

fn wire_with(incoming: Vec<Vec<u8>>) -> Rc<RefCell<Wire>> {
    let wire = Wire { incoming: incoming.into_iter().map(Ok).collect(), ..Wire::default() };
    Rc::new(RefCell::new(wire))
}

fn link_on(wire: &Rc<RefCell<Wire>>) -> link::Interface {
    link::Interface::new(Box::new(Loopback { wire: wire.clone() })).unwrap()
}

fn internet_on(wire: &Rc<RefCell<Wire>>) -> internet::Interface {
    internet::Interface::new(link_on(wire), OWN_IP).unwrap()
}

fn bytes_of(frame: EthernetFrame) -> Vec<u8> {
    let mut w = Vec::new();
    frame.write_to(&mut w);
    w
}

fn arp_frame(opcode: Opcode, sha: MacAddress, spa: IPAddress, tha: MacAddress, tpa: IPAddress) -> Vec<u8> {
    bytes_of(EthernetFrame {
        header: EthernetHeader { dst_addr: tha, src_addr: sha, typ: EtherType::Arp },
        payload: EthernetPayload::Arp(Arp::new(opcode, sha, spa, tha, tpa)),
    })
}

fn reply_from(mac: MacAddress, ip: IPAddress) -> Vec<u8> {
    arp_frame(Opcode::Reply, mac, ip, OWN_MAC, OWN_IP)
}

fn request_for(addr: IPAddress) -> Vec<u8> {
    arp_frame(Opcode::Request, OWN_MAC, OWN_IP, MacAddress([0xff; 6]), addr)
}

fn echo(sequence: u16) -> IcmpMessage {
    IcmpMessage {
        typ: IcmpType::Echo,
        code: 0,
        checksum: 0,
        data: IcmpData::Echo { id: 0x0102, sequence },
    }
}

fn incoming_datagram(sequence: u16) -> IPDatagram {
    IPDatagram {
        header: IPHeader {
            version_ihl: 0x45,
            tos: 0,
            length: 28,
            identification: 1,
            flags_offset: 0,
            ttl: 64,
            protocol: Protocol::Icmp,
            checksum: 0,
            src_addr: PEER_IP,
            dst_addr: OWN_IP,
        },
        payload: IPPayload::Icmp(echo(sequence)),
    }
}

fn ip_frame(sequence: u16) -> Vec<u8> {
    bytes_of(EthernetFrame {
        header: EthernetHeader { dst_addr: OWN_MAC, src_addr: PEER_MAC, typ: EtherType::IPv4 },
        payload: EthernetPayload::IP(incoming_datagram(sequence)),
    })
}

fn raw_frame() -> Vec<u8> {
    bytes_of(EthernetFrame {
        header: EthernetHeader {
            dst_addr: OWN_MAC,
            src_addr: PEER_MAC,
            typ: EtherType::Unknown(0x86dd),
        },
        payload: EthernetPayload::Raw(vec![1, 2, 3]),
    })
}

fn outgoing_frame(dst_mac: MacAddress, dst_ip: IPAddress, payload: IPPayload) -> Vec<u8> {
    bytes_of(EthernetFrame {
        header: EthernetHeader { dst_addr: dst_mac, src_addr: OWN_MAC, typ: EtherType::IPv4 },
        payload: EthernetPayload::IP(IPDatagram {
            header: IPHeader {
                version_ihl: 0x45,
                tos: 5,
                length: 112,
                identification: 0,
                flags_offset: 0,
                ttl: 64,
                protocol: Protocol::Icmp,
                checksum: 0,
                src_addr: OWN_IP,
                dst_addr: dst_ip,
            },
            payload,
        }),
    })
}

#[test]
fn decode_gives_the_frame_or_a_format_error() {
    let frame = decode(&ip_frame(3)).unwrap();
    assert_eq!(frame.header.typ, EtherType::IPv4);
    assert_eq!(frame.payload, EthernetPayload::IP(incoming_datagram(3)));
    assert!(matches!(decode(&[0u8; 13]), Err(Error::Format(FormatError::Truncated))));
    assert!(matches!(decode(&[]), Err(Error::Format(FormatError::Truncated))));
    let frame = decode(&[0u8; 14]).unwrap();
    assert_eq!(frame.header.typ, EtherType::Unknown(0));
    assert_eq!(frame.payload, EthernetPayload::Raw(vec![]));
}

#[test]
fn link_interface_takes_the_address_of_the_device() {
    let wire = wire_with(vec![]);
    let link = link_on(&wire);
    assert_eq!(*link.mac_addr(), OWN_MAC);
    assert_eq!(link.name(), "lo-test");
    assert_eq!(link.address().unwrap(), OWN_MAC);
}

#[test]
fn link_interface_has_the_address_that_was_reported() {
    let wire = wire_with(vec![]);
    let dev = Box::new(Loopback { wire: wire.clone() });
    let link = link::Interface::from_address(dev, Ok(PEER_MAC)).unwrap();
    assert_eq!(*link.mac_addr(), PEER_MAC);
    assert!(wire.borrow().calls.is_empty());

    let dev = Box::new(Loopback { wire: wire.clone() });
    let refused = io::Error::new(io::ErrorKind::PermissionDenied, "not allowed");
    let res = link::Interface::from_address(dev, Err(refused));
    assert!(matches!(res, Err(Error::Io(ref e)) if e.kind() == io::ErrorKind::PermissionDenied));
}

#[test]
fn received_frame_decodes_what_was_delivered() {
    let mut buf = ip_frame(4);
    let len = buf.len();
    buf.extend_from_slice(&[0xee; 40]);
    let frame = received_frame(&buf, Ok(len)).unwrap();
    assert_eq!(frame.payload, EthernetPayload::IP(incoming_datagram(4)));

    let raw = raw_frame();
    let mut buf = raw.clone();
    buf.extend_from_slice(&[0xee; 5]);
    let frame = received_frame(&buf, Ok(raw.len())).unwrap();
    assert_eq!(frame.payload, EthernetPayload::Raw(vec![1, 2, 3]));
    let frame = received_frame(&buf, Ok(raw.len() + 2)).unwrap();
    assert_eq!(frame.payload, EthernetPayload::Raw(vec![1, 2, 3, 0xee, 0xee]));
    let frame = received_frame(&buf, Ok(buf.len() + 100)).unwrap();
    assert_eq!(frame.payload, EthernetPayload::Raw(vec![1, 2, 3, 0xee, 0xee, 0xee, 0xee, 0xee]));

    assert!(matches!(received_frame(&buf, Ok(13)), Err(Error::Format(FormatError::Truncated))));
    assert!(matches!(received_frame(&buf, Ok(0)), Err(Error::Format(FormatError::Truncated))));
    let reset = io::Error::new(io::ErrorKind::ConnectionReset, "reset");
    let res = received_frame(&buf, Err(reset));
    assert!(matches!(res, Err(Error::Io(ref e)) if e.kind() == io::ErrorKind::ConnectionReset));
}

#[test]
fn link_recv_decodes_only_what_was_delivered() {
    struct Stale;
    impl Device for Stale {
        fn name(&self) -> String {
            String::from("stale")
        }
        fn address(&self) -> io::Result<MacAddress> {
            Ok(OWN_MAC)
        }
        fn read(&mut self, buf: &mut [u8]) -> io::Result<usize> {
            for b in buf.iter_mut() {
                *b = 0x55;
            }
            let frame = raw_frame();
            buf[..frame.len()].copy_from_slice(&frame);
            Ok(frame.len())
        }
        fn write(&mut self, buf: &[u8]) -> io::Result<usize> {
            Ok(buf.len())
        }
        fn flush(&mut self) -> io::Result<()> {
            Ok(())
        }
    }
    let mut link = link::Interface::new(Box::new(Stale)).unwrap();
    assert_eq!(link.recv().unwrap().payload, EthernetPayload::Raw(vec![1, 2, 3]));
}

#[test]
fn sent_frame_follows_the_device() {
    assert!(matches!(sent_frame(Ok(42)), Ok(())));
    assert!(matches!(sent_frame(Ok(0)), Ok(())));
    let down = io::Error::new(io::ErrorKind::BrokenPipe, "link down");
    let res = sent_frame(Err(down));
    assert!(matches!(res, Err(Error::Io(ref e)) if e.kind() == io::ErrorKind::BrokenPipe));
}

#[test]
fn link_interface_without_an_address_fails() {
    let wire = wire_with(vec![]);
    wire.borrow_mut().fail_address = true;
    let res = link::Interface::new(Box::new(Loopback { wire: wire.clone() }));
    assert!(matches!(res, Err(Error::Io(ref e)) if e.kind() == io::ErrorKind::NotFound));
}

#[test]
fn link_recv_decodes_one_frame_per_read() {
    let wire = wire_with(vec![reply_from(PEER_MAC, PEER_IP), ip_frame(1), raw_frame()]);
    let mut link = link_on(&wire);
    let frame = link.recv().unwrap();
    assert_eq!(
        frame,
        EthernetFrame {
            header: EthernetHeader { dst_addr: OWN_MAC, src_addr: PEER_MAC, typ: EtherType::Arp },
            payload: EthernetPayload::Arp(Arp::new(
                Opcode::Reply,
                PEER_MAC,
                PEER_IP,
                OWN_MAC,
                OWN_IP
            )),
        }
    );
    assert_eq!(wire.borrow().reads, 1);
    assert_eq!(link.recv().unwrap().payload, EthernetPayload::IP(incoming_datagram(1)));
    assert_eq!(link.recv().unwrap().payload, EthernetPayload::Raw(vec![1, 2, 3]));
    assert_eq!(wire.borrow().reads, 3);
    assert!(wire.borrow().written.is_empty());
}

#[test]
fn link_recv_of_a_short_buffer_is_a_format_error() {
    let mut truncated = ip_frame(1);
    truncated.truncate(20);
    let wire = wire_with(vec![vec![0u8; 13], truncated, ip_frame(2)]);
    let mut link = link_on(&wire);
    assert!(matches!(link.recv(), Err(Error::Format(FormatError::Truncated))));
    assert!(matches!(link.recv(), Err(Error::Format(FormatError::Truncated))));
    assert_eq!(link.recv().unwrap().payload, EthernetPayload::IP(incoming_datagram(2)));
}

#[test]
fn link_recv_hands_on_the_error_of_the_device() {
    let wire = wire_with(vec![]);
    wire.borrow_mut()
        .incoming
        .push_back(Err(io::Error::new(io::ErrorKind::ConnectionReset, "reset")));
    let mut link = link_on(&wire);
    assert!(
        matches!(link.recv(), Err(Error::Io(ref e)) if e.kind() == io::ErrorKind::ConnectionReset)
    );
}

#[test]
fn link_send_writes_one_frame_from_its_own_address() {
    let wire = wire_with(vec![]);
    let mut link = link_on(&wire);
    let arp = Arp::new(Opcode::Reply, OWN_MAC, OWN_IP, PEER_MAC, PEER_IP);
    link.send(PEER_MAC, EthernetPayload::Arp(arp)).unwrap();
    let written = wire.borrow().written.clone();
    assert_eq!(written.len(), 1);
    assert_eq!(written[0].len(), 42);
    assert_eq!(&written[0][..6], &PEER_MAC.0);
    assert_eq!(&written[0][6..12], &OWN_MAC.0);
    assert_eq!(&written[0][12..14], &[0x08, 0x06]);
    assert_eq!(written[0], arp_frame(Opcode::Reply, OWN_MAC, OWN_IP, PEER_MAC, PEER_IP));
    assert_eq!(wire.borrow().reads, 0);

    link.send(PEER_MAC, EthernetPayload::IP(incoming_datagram(5))).unwrap();
    let written = wire.borrow().written.clone();
    assert_eq!(written.len(), 2);
    assert_eq!(&written[1][12..14], &[0x08, 0x00]);
}

#[test]
fn link_frame_is_what_send_writes() {
    let wire = wire_with(vec![]);
    let link = link_on(&wire);
    let arp = Arp::new(Opcode::Request, OWN_MAC, OWN_IP, MacAddress::broadcast(), PEER_IP);
    let frame = link.frame(MacAddress::broadcast(), EthernetPayload::Arp(arp));
    assert_eq!(
        frame.header,
        EthernetHeader { dst_addr: MacAddress([0xff; 6]), src_addr: OWN_MAC, typ: EtherType::Arp }
    );
    assert_eq!(frame.payload, EthernetPayload::Arp(arp));
    assert!(wire.borrow().written.is_empty());
}

#[test]
fn link_send_hands_on_the_error_of_the_device() {
    let wire = wire_with(vec![]);
    wire.borrow_mut().fail_writes = true;
    let mut link = link_on(&wire);
    let arp = Arp::new(Opcode::Reply, OWN_MAC, OWN_IP, PEER_MAC, PEER_IP);
    let res = link.send(PEER_MAC, EthernetPayload::Arp(arp));
    assert!(matches!(res, Err(Error::Io(ref e)) if e.kind() == io::ErrorKind::BrokenPipe));
}

#[test]
fn link_interface_is_a_device_itself() {
    let wire = wire_with(vec![vec![7, 8, 9]]);
    let mut link = link_on(&wire);
    let mut buf = [0u8; 16];
    assert_eq!(link.read(&mut buf).unwrap(), 3);
    assert_eq!(&buf[..3], &[7, 8, 9]);
    assert_eq!(link.write(&[1, 2]).unwrap(), 2);
    link.flush().unwrap();
    assert_eq!(wire.borrow().written, vec![vec![1u8, 2]]);
}

#[test]
fn arp_table_keeps_what_is_put_in() {
    let mut table = ArpTable::new();
    assert_eq!(table.get(&PEER_IP), None);
    table.insert(PEER_IP, PEER_MAC);
    assert_eq!(table.get(&PEER_IP), Some(PEER_MAC));
    assert_eq!(table.get(&OTHER_IP), None);
    table.insert(OTHER_IP, OTHER_MAC);
    assert_eq!(table.get(&PEER_IP), Some(PEER_MAC));
    assert_eq!(table.get(&OTHER_IP), Some(OTHER_MAC));
    table.insert(PEER_IP, OTHER_MAC);
    assert_eq!(table.get(&PEER_IP), Some(OTHER_MAC));
    assert_eq!(table.get(&IPAddress([1, 0, 0, 10])), None);
    assert_eq!(table.get(&IPAddress([0, 1, 0, 10])), None);
    assert_eq!(table.get(&IPAddress([4, 0, 0, 10])), None);
}

#[test]
fn arp_table_learns_from_replies_only() {
    let mut table = ArpTable::new();
    let request = Arp::new(Opcode::Request, PEER_MAC, PEER_IP, OWN_MAC, OWN_IP);
    assert!(!table.learn(&EthernetPayload::Arp(request)));
    assert_eq!(table.get(&PEER_IP), None);
    assert!(!table.learn(&EthernetPayload::IP(incoming_datagram(1))));
    assert!(!table.learn(&EthernetPayload::Raw(vec![0, 2])));
    let unknown = Arp::new(Opcode::Unknown(3), PEER_MAC, PEER_IP, OWN_MAC, OWN_IP);
    assert!(!table.learn(&EthernetPayload::Arp(unknown)));
    assert_eq!(table.get(&PEER_IP), None);
    let reply = Arp::new(Opcode::Reply, PEER_MAC, PEER_IP, OWN_MAC, OWN_IP);
    assert!(table.learn(&EthernetPayload::Arp(reply)));
    assert_eq!(table.get(&PEER_IP), Some(PEER_MAC));
    assert_eq!(table.get(&OWN_IP), None);
}

#[test]
fn find_asks_once_and_then_answers_from_the_table() {
    let wire = wire_with(vec![reply_from(PEER_MAC, PEER_IP)]);
    let mut link = link_on(&wire);
    let mut table = ArpTable::new();
    let found = table.find(PEER_IP, &mut link, OWN_IP, 8).unwrap();
    assert_eq!(found, Some(PEER_MAC));
    assert_eq!(wire.borrow().written, vec![request_for(PEER_IP)]);
    assert_eq!(wire.borrow().reads, 1);

    let again = table.find(PEER_IP, &mut link, OWN_IP, 8).unwrap();
    assert_eq!(again, Some(PEER_MAC));
    assert_eq!(wire.borrow().written.len(), 1);
    assert_eq!(wire.borrow().reads, 1);
    assert_eq!(table.get(&PEER_IP), Some(PEER_MAC));
}

#[test]
fn find_request_is_a_broadcast_from_this_station() {
    let wire = wire_with(vec![reply_from(PEER_MAC, PEER_IP)]);
    let mut link = link_on(&wire);
    let mut table = ArpTable::new();
    table.find(PEER_IP, &mut link, OWN_IP, 1).unwrap();
    let written = wire.borrow().written.clone();
    assert_eq!(written.len(), 1);
    let frame = decode(&written[0]).unwrap();
    assert_eq!(
        frame.header,
        EthernetHeader { dst_addr: MacAddress([0xff; 6]), src_addr: OWN_MAC, typ: EtherType::Arp }
    );
    assert_eq!(
        frame.payload,
        EthernetPayload::Arp(Arp::new(
            Opcode::Request,
            OWN_MAC,
            OWN_IP,
            MacAddress([0xff; 6]),
            PEER_IP
        ))
    );
}

#[test]
fn find_passes_over_what_is_no_reply() {
    let wire = wire_with(vec![
        ip_frame(1),
        arp_frame(Opcode::Request, OTHER_MAC, OTHER_IP, MacAddress([0xff; 6]), OWN_IP),
        raw_frame(),
        reply_from(PEER_MAC, PEER_IP),
        ip_frame(2),
    ]);
    let mut link = link_on(&wire);
    let mut table = ArpTable::new();
    assert_eq!(table.find(PEER_IP, &mut link, OWN_IP, 10).unwrap(), Some(PEER_MAC));
    assert_eq!(wire.borrow().reads, 4);
    assert_eq!(table.get(&OTHER_IP), None);
    assert_eq!(link.recv().unwrap().payload, EthernetPayload::IP(incoming_datagram(2)));
}

#[test]
fn find_waits_for_the_reply_of_the_address_asked_for() {
    let wire = wire_with(vec![reply_from(OTHER_MAC, OTHER_IP), reply_from(PEER_MAC, PEER_IP)]);
    let mut link = link_on(&wire);
    let mut table = ArpTable::new();
    assert_eq!(table.find(PEER_IP, &mut link, OWN_IP, 10).unwrap(), Some(PEER_MAC));
    assert_eq!(wire.borrow().reads, 2);
    assert_eq!(wire.borrow().written, vec![request_for(PEER_IP)]);
    assert_eq!(table.get(&PEER_IP), Some(PEER_MAC));
}

#[test]
fn find_learns_from_the_replies_it_passes_over() {
    let wire = wire_with(vec![
        reply_from(OTHER_MAC, OTHER_IP),
        ip_frame(1),
        reply_from(PEER_MAC, PEER_IP),
    ]);
    let mut link = link_on(&wire);
    let mut table = ArpTable::new();
    assert_eq!(table.find(PEER_IP, &mut link, OWN_IP, 10).unwrap(), Some(PEER_MAC));
    assert_eq!(wire.borrow().reads, 3);
    assert_eq!(table.get(&OTHER_IP), Some(OTHER_MAC));
    assert_eq!(table.find(OTHER_IP, &mut link, OWN_IP, 10).unwrap(), Some(OTHER_MAC));
    assert_eq!(wire.borrow().written.len(), 1);
    assert_eq!(wire.borrow().reads, 3);
}

#[test]
fn find_does_not_end_at_a_reply_of_another_address() {
    let wire = wire_with(vec![reply_from(OTHER_MAC, OTHER_IP)]);
    let mut link = link_on(&wire);
    let mut table = ArpTable::new();
    assert!(matches!(table.find(PEER_IP, &mut link, OWN_IP, 1), Err(Error::TimedOut)));
    assert_eq!(wire.borrow().reads, 1);
    assert_eq!(table.get(&OTHER_IP), Some(OTHER_MAC));
    assert_eq!(table.get(&PEER_IP), None);

    wire.borrow_mut().incoming.push_back(Ok(reply_from(OTHER_MAC, OTHER_IP)));
    let res = table.find(PEER_IP, &mut link, OWN_IP, 10);
    assert!(matches!(res, Err(Error::Io(ref e)) if e.kind() == io::ErrorKind::WouldBlock));
    assert_eq!(wire.borrow().reads, 3);
    assert_eq!(table.get(&PEER_IP), None);
}

#[test]
fn find_takes_the_latest_address_of_a_station() {
    let wire = wire_with(vec![reply_from(OTHER_MAC, OTHER_IP), reply_from(PEER_MAC, PEER_IP)]);
    let mut link = link_on(&wire);
    let mut table = ArpTable::new();
    table.insert(OTHER_IP, PEER_MAC);
    assert_eq!(table.find(PEER_IP, &mut link, OWN_IP, 10).unwrap(), Some(PEER_MAC));
    assert_eq!(table.get(&OTHER_IP), Some(OTHER_MAC));
}

#[test]
fn find_asks_before_it_listens() {
    let wire = wire_with(vec![ip_frame(1), reply_from(PEER_MAC, PEER_IP)]);
    let mut link = link_on(&wire);
    let mut table = ArpTable::new();
    table.find(PEER_IP, &mut link, OWN_IP, 10).unwrap();
    assert_eq!(wire.borrow().calls, vec!["write", "read", "read"]);
}

#[test]
fn find_does_not_listen_where_the_request_did_not_go_out() {
    let wire = wire_with(vec![reply_from(PEER_MAC, PEER_IP)]);
    wire.borrow_mut().fail_writes = true;
    let mut link = link_on(&wire);
    let mut table = ArpTable::new();
    let res = table.find(PEER_IP, &mut link, OWN_IP, 10);
    assert!(matches!(res, Err(Error::Io(ref e)) if e.kind() == io::ErrorKind::BrokenPipe));
    assert_eq!(wire.borrow().calls, vec!["write"]);
    assert_eq!(table.get(&PEER_IP), None);
}

#[test]
fn find_gives_up_when_patience_ends() {
    let wire = wire_with(vec![ip_frame(1), ip_frame(2), reply_from(PEER_MAC, PEER_IP)]);
    let mut link = link_on(&wire);
    let mut table = ArpTable::new();
    assert!(matches!(table.find(PEER_IP, &mut link, OWN_IP, 2), Err(Error::TimedOut)));
    assert_eq!(wire.borrow().reads, 2);
    assert_eq!(wire.borrow().written.len(), 1);
    assert_eq!(table.get(&PEER_IP), None);
    assert!(matches!(table.find(PEER_IP, &mut link, OWN_IP, 0), Err(Error::TimedOut)));
    assert_eq!(wire.borrow().reads, 2);
    assert_eq!(wire.borrow().written.len(), 2);
}

#[test]
fn find_hands_on_failures() {
    let wire = wire_with(vec![vec![0u8; 5]]);
    let mut link = link_on(&wire);
    let mut table = ArpTable::new();
    assert!(matches!(
        table.find(PEER_IP, &mut link, OWN_IP, 5),
        Err(Error::Format(FormatError::Truncated))
    ));
    assert!(matches!(table.find(PEER_IP, &mut link, OWN_IP, 5), Err(Error::Io(_))));
    wire.borrow_mut().fail_writes = true;
    wire.borrow_mut().incoming.push_back(Ok(reply_from(PEER_MAC, PEER_IP)));
    let reads = wire.borrow().reads;
    assert!(matches!(table.find(PEER_IP, &mut link, OWN_IP, 5), Err(Error::Io(_))));
    assert_eq!(wire.borrow().reads, reads);
    assert_eq!(table.get(&PEER_IP), None);
}

#[test]
fn internet_interface_starts_empty_and_patient() {
    let wire = wire_with(vec![]);
    let mut iface = internet_on(&wire);
    assert_eq!(*iface.ip_addr(), OWN_IP);
    assert_eq!(*iface.mac_addr(), OWN_MAC);
    assert_eq!(iface.patience(), usize::MAX);
    iface.set_patience(3);
    assert_eq!(iface.patience(), 3);
    assert_eq!(*iface.link().mac_addr(), OWN_MAC);
    assert_eq!(iface.name(), "lo-test");
    assert_eq!(iface.address().unwrap(), OWN_MAC);
}

#[test]
fn internet_recv_returns_only_the_datagram() {
    let wire = wire_with(vec![reply_from(PEER_MAC, PEER_IP), ip_frame(7)]);
    let mut iface = internet_on(&wire);
    let datagram = iface.recv().unwrap();
    assert_eq!(datagram, incoming_datagram(7));
    assert_eq!(wire.borrow().reads, 2);
    assert!(wire.borrow().written.is_empty());
}

#[test]
fn internet_recv_sets_aside_every_other_frame() {
    let wire = wire_with(vec![
        raw_frame(),
        arp_frame(Opcode::Request, PEER_MAC, PEER_IP, MacAddress([0xff; 6]), OWN_IP),
        reply_from(PEER_MAC, PEER_IP),
        ip_frame(1),
        raw_frame(),
        ip_frame(2),
    ]);
    let mut iface = internet_on(&wire);
    assert_eq!(iface.recv().unwrap(), incoming_datagram(1));
    assert_eq!(wire.borrow().reads, 4);
    assert_eq!(iface.recv().unwrap(), incoming_datagram(2));
    assert_eq!(wire.borrow().reads, 6);
}

#[test]
fn internet_recv_does_not_learn_from_the_replies_it_sets_aside() {
    let wire = wire_with(vec![reply_from(PEER_MAC, PEER_IP), ip_frame(1)]);
    let mut iface = internet_on(&wire);
    iface.set_patience(4);
    iface.recv().unwrap();
    wire.borrow_mut().incoming.push_back(Ok(reply_from(PEER_MAC, PEER_IP)));
    iface.send(PEER_IP, IPPayload::Icmp(echo(1))).unwrap();
    assert_eq!(wire.borrow().written.len(), 2);
    assert_eq!(wire.borrow().written[0], request_for(PEER_IP));
}

#[test]
fn internet_recv_gives_up_when_patience_ends() {
    let wire = wire_with(vec![raw_frame(), raw_frame(), raw_frame(), ip_frame(1)]);
    let mut iface = internet_on(&wire);
    iface.set_patience(3);
    assert!(matches!(iface.recv(), Err(Error::TimedOut)));
    assert_eq!(wire.borrow().reads, 3);
    assert_eq!(iface.recv().unwrap(), incoming_datagram(1));
    iface.set_patience(0);
    assert!(matches!(iface.recv(), Err(Error::TimedOut)));
    assert_eq!(wire.borrow().reads, 4);
}

#[test]
fn internet_recv_hands_on_failures() {
    let wire = wire_with(vec![raw_frame(), vec![1, 2, 3]]);
    let mut iface = internet_on(&wire);
    assert!(matches!(iface.recv(), Err(Error::Format(FormatError::Truncated))));
    assert!(matches!(iface.recv(), Err(Error::Io(ref e)) if e.kind() == io::ErrorKind::WouldBlock));
}

#[test]
fn internet_datagram_is_what_send_builds() {
    let wire = wire_with(vec![]);
    let iface = internet_on(&wire);
    let datagram = iface.datagram(PEER_IP, IPPayload::Icmp(echo(9)));
    assert_eq!(datagram.header.version(), 4);
    assert_eq!(datagram.header.ihl(), 5);
    assert_eq!(datagram.header.tos, 5);
    assert_eq!(datagram.header.length, 112);
    assert_eq!(datagram.header.identification, 0);
    assert_eq!(datagram.header.flags_offset, 0);
    assert_eq!(datagram.header.ttl, 64);
    assert_eq!(datagram.header.protocol, Protocol::Icmp);
    assert_eq!(datagram.header.checksum, 0);
    assert_eq!(datagram.header.src_addr, OWN_IP);
    assert_eq!(datagram.header.dst_addr, PEER_IP);
    assert_eq!(datagram.payload, IPPayload::Icmp(echo(9)));
}

#[test]
fn internet_send_resolves_and_sends_to_the_resolved_address() {
    let wire = wire_with(vec![ip_frame(1), reply_from(PEER_MAC, PEER_IP)]);
    let mut iface = internet_on(&wire);
    iface.send(PEER_IP, IPPayload::Icmp(echo(1))).unwrap();
    let written = wire.borrow().written.clone();
    assert_eq!(written.len(), 2);
    assert_eq!(written[0], request_for(PEER_IP));
    assert_eq!(written[1], outgoing_frame(PEER_MAC, PEER_IP, IPPayload::Icmp(echo(1))));
    assert_eq!(&written[1][..6], &PEER_MAC.0);
    assert_eq!(wire.borrow().reads, 2);

    iface.send(PEER_IP, IPPayload::Icmp(echo(2))).unwrap();
    let written = wire.borrow().written.clone();
    assert_eq!(written.len(), 3);
    assert_eq!(written[2], outgoing_frame(PEER_MAC, PEER_IP, IPPayload::Icmp(echo(2))));
    assert_eq!(wire.borrow().reads, 2);
}

#[test]
fn internet_send_waits_for_the_reply_of_the_destination() {
    let wire = wire_with(vec![reply_from(OTHER_MAC, OTHER_IP), reply_from(PEER_MAC, PEER_IP)]);
    let mut iface = internet_on(&wire);
    iface.send(PEER_IP, IPPayload::Icmp(echo(1))).unwrap();
    let written = wire.borrow().written.clone();
    assert_eq!(written.len(), 2);
    assert_eq!(written[0], request_for(PEER_IP));
    assert_eq!(written[1], outgoing_frame(PEER_MAC, PEER_IP, IPPayload::Icmp(echo(1))));
    assert_eq!(wire.borrow().reads, 2);
    assert_eq!(wire.borrow().calls, vec!["write", "read", "read", "write"]);

    iface.send(OTHER_IP, IPPayload::Icmp(echo(2))).unwrap();
    let written = wire.borrow().written.clone();
    assert_eq!(written.len(), 3);
    assert_eq!(written[2], outgoing_frame(OTHER_MAC, OTHER_IP, IPPayload::Icmp(echo(2))));
    assert_eq!(wire.borrow().reads, 2);
}

#[test]
fn internet_send_gives_up_when_patience_ends() {
    let wire = wire_with(vec![raw_frame(), raw_frame(), reply_from(PEER_MAC, PEER_IP)]);
    let mut iface = internet_on(&wire);
    iface.set_patience(2);
    assert!(matches!(iface.send(PEER_IP, IPPayload::Icmp(echo(1))), Err(Error::TimedOut)));
    assert_eq!(wire.borrow().written, vec![request_for(PEER_IP)]);
    assert_eq!(wire.borrow().reads, 2);
}

#[test]
fn internet_send_hands_on_the_error_of_the_device() {
    let wire = wire_with(vec![reply_from(PEER_MAC, PEER_IP)]);
    let mut iface = internet_on(&wire);
    iface.send(PEER_IP, IPPayload::Icmp(echo(1))).unwrap();
    wire.borrow_mut().fail_writes = true;
    let res = iface.send(PEER_IP, IPPayload::Icmp(echo(2)));
    assert!(matches!(res, Err(Error::Io(ref e)) if e.kind() == io::ErrorKind::BrokenPipe));
    assert_eq!(wire.borrow().written.len(), 3);
}

#[test]
fn internet_interface_is_a_device_itself() {
    let wire = wire_with(vec![vec![4, 5]]);
    let mut iface = internet_on(&wire);
    let mut buf = [0u8; 8];
    assert_eq!(iface.read(&mut buf).unwrap(), 2);
    assert_eq!(&buf[..2], &[4, 5]);
    assert_eq!(iface.write(&[6]).unwrap(), 1);
    iface.flush().unwrap();
    assert_eq!(wire.borrow().written, vec![vec![6u8]]);
}

#[test]
fn device_that_claims_too_much_is_taken_at_the_buffer() {
    struct Liar;
    impl Device for Liar {
        fn name(&self) -> String {
            String::from("liar")
        }
        fn address(&self) -> io::Result<MacAddress> {
            Ok(OWN_MAC)
        }
        fn read(&mut self, buf: &mut [u8]) -> io::Result<usize> {
            for b in buf.iter_mut() {
                *b = 0;
            }
            Ok(usize::MAX)
        }
        fn write(&mut self, buf: &[u8]) -> io::Result<usize> {
            Ok(buf.len())
        }
        fn flush(&mut self) -> io::Result<()> {
            Ok(())
        }
    }
    let mut link = link::Interface::new(Box::new(Liar)).unwrap();
    let frame = link.recv().unwrap();
    assert_eq!(frame.header.typ, EtherType::Unknown(0));
    assert_eq!(frame.payload, EthernetPayload::Raw(vec![0u8; 4096 - 14]));
}
