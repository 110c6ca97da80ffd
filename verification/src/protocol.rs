//! The protocol layers, from the wire upwards.

pub mod error;
pub mod internet;
pub mod link;
pub mod physical;
pub mod text;
pub mod wire;

use internet::ip::{IPPayload, IPPayloadView};
use link::ethernet::{EthernetFrame, EthernetFrameView, EthernetPayload, EthernetPayloadView};
use text::push_text;
use vstd::prelude::*;

verus! {

/// What `dump` writes for a frame: the Ethernet header, then the ARP message
/// or the IPv4 header that the frame carries, then the ICMP message that the
/// datagram carries; a line break after each. Raw payloads are left out.
pub open spec fn dump_text(frame: EthernetFrameView) -> Seq<char> {
    frame.header.render() + "\n"@ + match frame.payload {
        EthernetPayloadView::Arp(arp) => arp.render() + "\n"@,
        EthernetPayloadView::IP(datagram) => datagram.header.render() + "\n"@
            + match datagram.payload {
            IPPayloadView::Icmp(msg) => msg.render() + "\n"@,
            IPPayloadView::Raw(_) => Seq::<char>::empty(),
        },
        EthernetPayloadView::Raw(_) => Seq::<char>::empty(),
    }
}

/// A frame as text, layer by layer.
pub fn dump(frame: &EthernetFrame) -> (s: String)
    ensures
        s@ == dump_text(frame@),
{
    let mut s = frame.header.to_string();
    push_text(&mut s, "\n");
    match &frame.payload {
        EthernetPayload::Arp(arp) => {
            push_text(&mut s, arp.to_string().as_str());
            push_text(&mut s, "\n");
        },
        EthernetPayload::IP(ip) => {
            push_text(&mut s, ip.header.to_string().as_str());
            push_text(&mut s, "\n");
            match &ip.payload {
                IPPayload::Icmp(icmp) => {
                    push_text(&mut s, icmp.to_string().as_str());
                    push_text(&mut s, "\n");
                },
                _ => {},
            }
        },
        _ => {},
    }
    assert(s@ =~= dump_text(frame@));
    s
}

} // verus!
