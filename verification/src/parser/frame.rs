//! Packet headers, as the `pnet_packet` crate reads them.

use pnet_packet::ethernet::EthernetPacket;
use pnet_packet::ipv4::Ipv4Packet;
use pnet_packet::tcp::TcpPacket;
use pnet_packet::udp::UdpPacket;
use pnet_packet::Packet;
use vstd::prelude::*;

use crate::net::Ipv4Addr;
use crate::parser::bytes::{be16, be32, mac_at};

verus! {

/// An IPv4 packet: the header fields of interest and what it carries.
pub struct Ipv4Fields {
    pub dscp: u8,
    pub ecn: u8,
    pub ttl: u8,
    pub protocol: u8,
    pub source: Ipv4Addr,
    pub destination: Ipv4Addr,
    pub payload: Vec<u8>,
}

/// A UDP datagram.
pub struct UdpFields {
    pub source: u16,
    pub destination: u16,
    pub payload: Vec<u8>,
}

/// The header fields of interest of a TCP segment.
pub struct TcpFields {
    pub source: u16,
    pub destination: u16,
    pub sequence: u32,
    pub acknowledgement: u32,
    pub flags: u8,
}

/// Four bytes as an address.
pub open spec fn ip_at(p: Seq<u8>, i: int) -> Ipv4Addr {
    Ipv4Addr { a: p[i], b: p[i + 1], c: p[i + 2], d: p[i + 3] }
}

/// Where the payload of an IPv4 packet begins: behind the header, which is at
/// least 20 bytes long.
pub open spec fn ip_start(p: Seq<u8>) -> int {
    if p[0] % 16 < 5 {
        20
    } else {
        p[0] % 16 * 4
    }
}

/// How long the payload is by the header: the total length without the header
/// length.
pub open spec fn ip_length(p: Seq<u8>) -> int {
    if be16(p, 2) < p[0] % 16 * 4 {
        0
    } else {
        be16(p, 2) - p[0] % 16 * 4
    }
}

/// The payload of an IPv4 packet, as far as it is there.
pub open spec fn ip_payload(p: Seq<u8>) -> Seq<u8> {
    let start = ip_start(p);
    if p.len() <= start {
        Seq::empty()
    } else if start + ip_length(p) <= p.len() {
        p.subrange(start, start + ip_length(p))
    } else {
        p.subrange(start, p.len() as int)
    }
}

/// The payload of a UDP datagram: all that follows its eight bytes of header.
pub open spec fn udp_payload(p: Seq<u8>) -> Seq<u8> {
    p.subrange(8, p.len() as int)
}

/// The source address of an Ethernet frame. Calls `EthernetPacket::new`, which
/// takes any frame of at least 14 bytes, and `get_source`, which reads bytes 6
/// to 11.
#[verifier::external_body]
pub(crate) fn ethernet_source(frame: &[u8]) -> (r: Option<[u8; 6]>)
    ensures
        r == (if frame@.len() >= 14 {
            Some(mac_at(frame@, 6))
        } else {
            None
        }),
{
    let m = EthernetPacket::new(frame)?.get_source();
    Some([m.0, m.1, m.2, m.3, m.4, m.5])
}

/// Reads an IPv4 packet. Calls `Ipv4Packet::new`, which takes any packet of at
/// least 20 bytes, and its accessors, which read the fields at their places.
/// The payload runs from the end of the header over the length that the header
/// tells, cut where the packet ends. Nothing is validated.
#[verifier::external_body]
pub(crate) fn ipv4(p: &[u8]) -> (r: Option<Ipv4Fields>)
    ensures
        r is Some <==> p@.len() >= 20,
        r matches Some(ip) ==> ip.dscp == p@[1] / 4 && ip.ecn == p@[1] % 4 && ip.ttl == p@[8]
            && ip.protocol == p@[9] && ip.source == ip_at(p@, 12) && ip.destination == ip_at(p@, 16)
            && ip.payload@ == ip_payload(p@),
{
    let ip = Ipv4Packet::new(p)?;
    let (s, d) = (ip.get_source().octets(), ip.get_destination().octets());
    Some(Ipv4Fields {
        dscp: ip.get_dscp(),
        ecn: ip.get_ecn(),
        ttl: ip.get_ttl(),
        protocol: ip.get_next_level_protocol().0,
        source: Ipv4Addr { a: s[0], b: s[1], c: s[2], d: s[3] },
        destination: Ipv4Addr { a: d[0], b: d[1], c: d[2], d: d[3] },
        payload: ip.payload().to_vec(),
    })
}

/// Reads a UDP datagram. Calls `UdpPacket::new`, which takes any datagram of at
/// least 8 bytes, and its accessors. The length field plays no part.
#[verifier::external_body]
pub(crate) fn udp(p: &[u8]) -> (r: Option<UdpFields>)
    ensures
        r is Some <==> p@.len() >= 8,
        r matches Some(u) ==> u.source == be16(p@, 0) && u.destination == be16(p@, 2) && u.payload@
            == udp_payload(p@),
{
    let u = UdpPacket::new(p)?;
    Some(UdpFields {
        source: u.get_source(),
        destination: u.get_destination(),
        payload: u.payload().to_vec(),
    })
}

/// Reads a TCP header. Calls `TcpPacket::new`, which takes any segment of at
/// least 20 bytes, and its accessors.
#[verifier::external_body]
pub(crate) fn tcp(p: &[u8]) -> (r: Option<TcpFields>)
    ensures
        r == (if p@.len() >= 20 {
            Some(
                TcpFields {
                    source: be16(p@, 0),
                    destination: be16(p@, 2),
                    sequence: be32(p@, 4),
                    acknowledgement: be32(p@, 8),
                    flags: p@[13],
                },
            )
        } else {
            None
        }),
{
    let t = TcpPacket::new(p)?;
    Some(TcpFields {
        source: t.get_source(),
        destination: t.get_destination(),
        sequence: t.get_sequence(),
        acknowledgement: t.get_acknowledgement(),
        flags: t.get_flags(),
    })
}

} // verus!
