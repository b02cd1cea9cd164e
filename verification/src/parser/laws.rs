//! Which frame is told to be what, said of its ports, addresses and bytes.

use vstd::prelude::*;

use crate::net::Ipv4Addr;
use crate::parser::avb::{msrp, mvrp};
use crate::parser::avdecc::adp;
use crate::parser::bytes::{be16, be32, id_at, mac_at};
use crate::parser::conmon::{channel_count, conmon_frame, sender_mac};
use crate::parser::frame::{ip_payload, udp_payload};
use crate::parser::lldp::eee_port;
use crate::parser::mdns::{dante_message, dante_name, instance_name, ndi, netaudio, netaudio_arc, netaudio_cmc, occurs, stands_at};
use crate::parser::ptp::ptp;
use crate::parser::sdp::sap;
use crate::parser::{first_claim, igmp_message, igmpv3_groups, ip_protocol, protocol, report_groups, rtp, st2110_type, tcp_data, udp_protocol, untagged, untagged_from};
use crate::protocols::{dante_control, port_class, AvProtocolView, DanteKindView, FlowControlKind, IgmpTypeView, PtpInfoView, TransmitterClass};

verus! {

// ── UDP by port ──────────────────────────────────────────────────────────────

/// Whether a port is one of Dante's own control ports.
pub proof fn law_control_ports(port: u16)
    ensures
        dante_control(port) <==> port == 4440 || port == 4455 || port == 8700 || port == 8800,
{
}

/// The control ports of software tell its kind, those of Dante Virtual Soundcard before
/// those of Dante Via, and either before those of hardware.
pub proof fn law_control_ports_tell_the_class(src: u16, dst: u16)
    ensures
        ({
            let dvs = |p: u16| 38700 <= p && p <= 38708 || p == 38800 || p == 38900 || p == 8899;
            let via = |p: u16|
                28700 <= p && p <= 28708 || p == 28800 || p == 28900 || p == 4777 || p == 24440 || p
                    == 24441 || p == 24444 || p == 24455 || 34336 <= p && p <= 34600;
            &&& port_class(src, dst) == Some(TransmitterClass::Dvs) <==> dvs(src) || dvs(dst)
            &&& port_class(src, dst) == Some(TransmitterClass::Via) <==> !dvs(src) && !dvs(dst) && (
            via(src) || via(dst))
            &&& port_class(src, dst) == Some(TransmitterClass::Hardware) <==> !dvs(src) && !dvs(dst)
                && !via(src) && !via(dst) && (src == 8751 || dst == 8751 || 61440 <= dst && dst
                <= 61951)
        }),
{
}

/// A datagram to or from port 319 or port 320 that no earlier check claims, and that
/// reads as a clock message, is that message, with its sender and the kind of clock that
/// its version tells. No other datagram is one.
pub proof fn law_clock_messages_by_port(
    src: Ipv4Addr,
    dst: Ipv4Addr,
    src_port: u16,
    dst_port: u16,
    p: Seq<u8>,
)
    requires
        dst_port != 9875,
        dst_port != 5353,
        src_port != 5353,
        !(8700 <= dst_port <= 8708 && conmon_frame(p)),
        !dante_control(src_port),
        !dante_control(dst_port),
        port_class(src_port, dst_port) is None,
    ensures
        (dst_port == 319 || dst_port == 320 || src_port == 319 || src_port == 320) && ptp(p) is Some
            ==> udp_protocol(src, dst, src_port, dst_port, p) == Some(
            AvProtocolView::Ptp {
                info: PtpInfoView {
                    src_ip: Some(src),
                    protocol_kind: Some(
                        if ptp(p).unwrap().version == 1 {
                            "PTPv1"@
                        } else {
                            "PTPv2"@
                        },
                    ),
                    ..ptp(p).unwrap()
                },
            },
        ),
        dst_port != 319 && dst_port != 320 && src_port != 319 && src_port != 320 ==> !(udp_protocol(
            src,
            dst,
            src_port,
            dst_port,
            p,
        ) matches Some(AvProtocolView::Ptp { .. })),
{
    reveal_with_fuel(first_claim, 5);
}

/// The two clock ports, and the two directions, are alike.
pub proof fn law_clock_ports_are_alike(
    src: Ipv4Addr,
    dst: Ipv4Addr,
    other: u16,
    port: u16,
    p: Seq<u8>,
)
    requires
        port == 319 || port == 320,
        other < 4440,
        ptp(p) is Some,
    ensures
        udp_protocol(src, dst, other, port, p) == udp_protocol(src, dst, other, 319, p),
        udp_protocol(src, dst, port, other, p) == udp_protocol(src, dst, other, 319, p),
        udp_protocol(src, dst, other, port, p) is Some,
{
}

/// What goes to port 9875 is an announcement or nothing.
pub proof fn law_announcements_by_port(src: Ipv4Addr, dst: Ipv4Addr, src_port: u16, p: Seq<u8>)
    ensures
        sap(p) is Some ==> udp_protocol(src, dst, src_port, 9875, p) == Some(
            AvProtocolView::Sap { src, sdp: sap(p).unwrap() },
        ),
        sap(p) is None ==> udp_protocol(src, dst, src_port, 9875, p) is None,
        forall|dst_port: u16|
            dst_port != 9875 ==> !(#[trigger] udp_protocol(src, dst, src_port, dst_port, p) matches Some(
                AvProtocolView::Sap { .. },
            )),
{
    assert forall|dst_port: u16| dst_port != 9875 implies !(#[trigger] udp_protocol(
        src,
        dst,
        src_port,
        dst_port,
        p,
    ) matches Some(AvProtocolView::Sap { .. })) by {
        reveal_with_fuel(first_claim, 5);
    }
}

/// A response of port 5353 that holds one of the labels `_netaudio`, `_netaudio-cmc` and
/// `_netaudio-arc` is a Dante device's, and one that holds `_ndi` is an NDI source's
/// where it is no device's. One with neither is nobody's.
pub proof fn law_responses_by_label(
    src: Ipv4Addr,
    dst: Ipv4Addr,
    src_port: u16,
    dst_port: u16,
    p: Seq<u8>,
    i: int,
)
    requires
        dst_port != 9875,
        dst_port == 5353 || src_port == 5353,
        p.len() > 2,
        p[2] >= 0x80,
        0 <= i,
    ensures
        ({
            let r = udp_protocol(src, dst, src_port, dst_port, p);
            let found = Some(
                AvProtocolView::Dante {
                    kind: DanteKindView::Discovery { device_name: dante_name(p) },
                    src,
                    dst,
                    dst_port,
                },
            );
            &&& i + 10 <= p.len() && p.subrange(i, i + 10) == seq![
                9u8,
                0x5f,
                0x6e,
                0x65,
                0x74,
                0x61,
                0x75,
                0x64,
                0x69,
                0x6f,
            ] ==> r == found
            &&& i + 14 <= p.len() && p.subrange(i, i + 14) == seq![
                13u8,
                0x5f,
                0x6e,
                0x65,
                0x74,
                0x61,
                0x75,
                0x64,
                0x69,
                0x6f,
                0x2d,
                0x63,
                0x6d,
                0x63,
            ] ==> r == found
            &&& i + 14 <= p.len() && p.subrange(i, i + 14) == seq![
                13u8,
                0x5f,
                0x6e,
                0x65,
                0x74,
                0x61,
                0x75,
                0x64,
                0x69,
                0x6f,
                0x2d,
                0x61,
                0x72,
                0x63,
            ] ==> r == found
            &&& i + 5 <= p.len() && p.subrange(i, i + 5) == seq![4u8, 0x5f, 0x6e, 0x64, 0x69] ==> r
                == found || r == Some(
                AvProtocolView::Ndi {
                    source_name: instance_name(p, seq![4u8, 0x5f, 0x6e, 0x64, 0x69]),
                    src,
                },
            )
            &&& (forall|j: int|
                0 <= j && j + 9 <= p.len() ==> #[trigger] p.subrange(j, j + 9) != seq![
                    0x5fu8,
                    0x6e,
                    0x65,
                    0x74,
                    0x61,
                    0x75,
                    0x64,
                    0x69,
                    0x6f,
                ]) ==> !(r matches Some(AvProtocolView::Dante { .. }))
            &&& (forall|j: int| 0 <= j < p.len() ==> #[trigger] p[j] != 0x5f) ==> r is None
        }),
{
    if i + 10 <= p.len() && p.subrange(i, i + 10) == netaudio() {
        assert(stands_at(p, netaudio(), i));
    }
    if i + 14 <= p.len() && p.subrange(i, i + 14) == netaudio_cmc() {
        assert(stands_at(p, netaudio_cmc(), i));
    }
    if i + 14 <= p.len() && p.subrange(i, i + 14) == netaudio_arc() {
        assert(stands_at(p, netaudio_arc(), i));
    }
    if i + 5 <= p.len() && p.subrange(i, i + 5) == ndi() {
        assert(stands_at(p, ndi(), i));
    }
    let common = netaudio().skip(1);
    assert(common =~= seq![0x5fu8, 0x6e, 0x65, 0x74, 0x61, 0x75, 0x64, 0x69, 0x6f]);
    if dante_message(p) {
        lemma_marked(p, netaudio());
        lemma_marked(p, netaudio_cmc());
        lemma_marked(p, netaudio_arc());
        assert(netaudio_cmc().subrange(1, 10) =~= common);
        assert(netaudio_arc().subrange(1, 10) =~= common);
        assert(netaudio().subrange(1, 10) =~= common);
        lemma_within(p, netaudio());
        lemma_within(p, netaudio_cmc());
        lemma_within(p, netaudio_arc());
    }
    if occurs(p, ndi()) {
        lemma_marked(p, ndi());
    }
}

/// Where a label occurs, its name does.
proof fn lemma_within(p: Seq<u8>, needle: Seq<u8>)
    requires
        needle.len() >= 10,
    ensures
        occurs(p, needle) ==> exists|j: int|
            0 <= j && j + 9 <= p.len() && #[trigger] p.subrange(j, j + 9) == needle.subrange(1, 10),
{
    if occurs(p, needle) {
        let i = choose|i: int| stands_at(p, needle, i);
        assert(p.subrange(i, i + needle.len()).subrange(1, 10) =~= p.subrange(i + 1, i + 10));
        let j = i + 1;
        assert(p.subrange(j, j + 9) == needle.subrange(1, 10));
    }
}

/// Where a label occurs, its second byte does.
proof fn lemma_marked(p: Seq<u8>, needle: Seq<u8>)
    requires
        needle.len() > 1,
    ensures
        occurs(p, needle) ==> exists|j: int| 0 <= j < p.len() && #[trigger] p[j] == needle[1],
{
    if occurs(p, needle) {
        let i = choose|i: int| stands_at(p, needle, i);
        assert(p.subrange(i, i + needle.len())[1] == p[i + 1]);
    }
}

/// A monitoring frame to a port from 8700 to 8708 tells its sender and channels; without
/// its signature it is control traffic at most.
pub proof fn law_monitoring_by_port(
    src: Ipv4Addr,
    dst: Ipv4Addr,
    src_port: u16,
    dst_port: u16,
    p: Seq<u8>,
)
    requires
        src_port != 5353,
    ensures
        8700 <= dst_port <= 8708 && conmon_frame(p) ==> udp_protocol(src, dst, src_port, dst_port, p)
            == Some(
            AvProtocolView::Dante {
                kind: DanteKindView::ConMon {
                    device_mac: sender_mac(p),
                    channels: channel_count(p),
                },
                src,
                dst,
                dst_port,
            },
        ),
        dst_port != 9875 && dst_port != 5353 && !(8700 <= dst_port <= 8708 && conmon_frame(p)) && (
        dst_port == 4440 || dst_port == 4455 || dst_port == 8700 || dst_port == 8800 || src_port == 4440
            || src_port == 4455 || src_port == 8700 || src_port == 8800) ==> udp_protocol(
            src,
            dst,
            src_port,
            dst_port,
            p,
        ) == Some(AvProtocolView::Dante { kind: DanteKindView::Control, src, dst, dst_port }),
{
}

/// Control traffic of a port that tells a class is that class's.
pub proof fn law_control_traffic_by_port(
    src: Ipv4Addr,
    dst: Ipv4Addr,
    src_port: u16,
    dst_port: u16,
    p: Seq<u8>,
    class: TransmitterClass,
)
    requires
        dst_port != 9875,
        dst_port != 5353,
        src_port != 5353,
        !(8700 <= dst_port <= 8708 && conmon_frame(p)),
        !dante_control(src_port),
        !dante_control(dst_port),
        port_class(src_port, dst_port) == Some(class),
    ensures
        udp_protocol(src, dst, src_port, dst_port, p) == Some(
            AvProtocolView::Dante {
                kind: DanteKindView::ControlPlane { class },
                src,
                dst,
                dst_port,
            },
        ),
{
}

/// Dante's own transport goes to port 4321 of 239.255.0.0/16, or to or from a port from
/// 14336 to 15359. It is audio whatever it carries.
pub proof fn law_dante_transport_by_port(
    src: Ipv4Addr,
    dst: Ipv4Addr,
    src_port: u16,
    dst_port: u16,
    p: Seq<u8>,
)
    requires
        dst_port != 9875,
        dst_port != 5353,
        src_port != 5353,
        !(8700 <= dst_port <= 8708 && conmon_frame(p)),
        !dante_control(src_port),
        !dante_control(dst_port),
        port_class(src_port, dst_port) is None,
        ptp(p) is None || (dst_port != 319 && dst_port != 320 && src_port != 319 && src_port != 320),
    ensures
        (dst.a == 239 && dst.b == 255 && dst_port == 4321) || 14336 <= dst_port <= 15359 || 14336
            <= src_port <= 15359 ==> udp_protocol(src, dst, src_port, dst_port, p) == Some(
            AvProtocolView::Dante { kind: DanteKindView::AudioStream, src, dst, dst_port },
        ),
{
}

/// What is left is a media stream where it holds at least twelve bytes of RTP version 2,
/// and nothing elsewhere. By its address, its ports and its payload type it is Dante,
/// AES67 or ST 2110.
pub proof fn law_media_by_address(
    src: Ipv4Addr,
    dst: Ipv4Addr,
    src_port: u16,
    dst_port: u16,
    p: Seq<u8>,
)
    requires
        dst_port != 9875,
        dst_port != 5353,
        src_port != 5353,
        !(8700 <= dst_port <= 8708 && conmon_frame(p)),
        !dante_control(src_port),
        !dante_control(dst_port),
        port_class(src_port, dst_port) is None,
        ptp(p) is None || (dst_port != 319 && dst_port != 320 && src_port != 319 && src_port != 320),
        !(dst.a == 239 && dst.b == 255 && dst_port == 4321),
        !(14336 <= dst_port <= 15359),
        !(14336 <= src_port <= 15359),
    ensures
        ({
            let r = udp_protocol(src, dst, src_port, dst_port, p);
            let pt = p[1] % 128;
            let to_dante = 5000 <= dst_port <= 6000 && dst_port % 2 == 0;
            let from_dante = 5000 <= src_port <= 6000 && src_port % 2 == 0;
            let dante = (pt == 0 || pt == 8 || pt >= 96) && to_dante && from_dante || dst.a == 239
                && dst.b == 255 && to_dante;
            &&& p.len() < 12 || p[0] < 0x80 || p[0] >= 0xC0 ==> r is None
            &&& p.len() >= 12 && 0x80 <= p[0] < 0xC0 ==> {
                &&& dante ==> r == Some(
                    AvProtocolView::Dante { kind: DanteKindView::AudioStream, src, dst, dst_port },
                )
                &&& !dante && dst.a == 239 && dst.b == 69 ==> r == Some(
                    AvProtocolView::Aes67 { src, dst, dst_port, payload_type: pt as u8 },
                )
                &&& !dante && dst.a == 239 && dst.b != 69 ==> r == Some(
                    AvProtocolView::St2110 {
                        src,
                        dst,
                        dst_port,
                        stream_type: st2110_type(pt as u8, dst_port),
                    },
                )
                &&& !dante && dst.a != 239 ==> r is None
            }
        }),
{
    reveal_with_fuel(first_claim, 5);
}

/// The last digit of its port tells what an ST 2110 stream carries: four video, six
/// audio, eight ancillary data. Else its payload type does.
pub proof fn law_st2110_by_port_and_type(pt: u8, port: u16)
    ensures
        ({
            let t = st2110_type(pt, port);
            let last = port % 10;
            let told = last == 4 || last == 6 || last == 8;
            &&& t is Video <==> last == 4 || !told && 96 <= pt <= 107
            &&& t is Audio <==> last == 6 || !told && 108 <= pt <= 115
            &&& t is Ancdata <==> last == 8 || !told && 116 <= pt <= 127
        }),
{
}

/// The RTP header: its number in two bytes, its timestamp in four, and its source in
/// four, each with the highest byte first.
pub proof fn law_rtp_header(first: u8, pt: u8, seq: Seq<u8>, ts: Seq<u8>, ssrc: Seq<u8>, rest: Seq<u8>)
    requires
        0x80 <= first < 0xC0,
        seq.len() == 2,
        ts.len() == 4,
        ssrc.len() == 4,
    ensures
        rtp(seq![first, pt] + seq + ts + ssrc + rest) matches Some((s, t, x)) && s == seq[0] * 256
            + seq[1] && t == ts[0] * 16777216 + ts[1] * 65536 + ts[2] * 256 + ts[3] && x == ssrc[0]
            * 16777216 + ssrc[1] * 65536 + ssrc[2] * 256 + ssrc[3],
{
    let p = seq![first, pt] + seq + ts + ssrc + rest;
    assert(p[0] == first && p[2] == seq[0] && p[3] == seq[1]);
    assert(p[4] == ts[0] && p[5] == ts[1] && p[6] == ts[2] && p[7] == ts[3]);
    assert(p[8] == ssrc[0] && p[9] == ssrc[1] && p[10] == ssrc[2] && p[11] == ssrc[3]);
}

/// Less than a header, or another version, is no RTP.
pub proof fn law_rtp_needs_its_header(p: Seq<u8>)
    ensures
        rtp(p) is Some <==> p.len() >= 12 && 0x80 <= p[0] < 0xC0,
{
}

// ── Frames by type ───────────────────────────────────────────────────────────

/// What a frame of each EtherType is.
pub proof fn law_frames_by_type(frame: Seq<u8>, p: Seq<u8>)
    ensures
        protocol(frame, 0x22EA, p) == (if msrp(p).len() > 0 {
            Some(AvProtocolView::Msrp { declarations: msrp(p) })
        } else {
            None
        }),
        protocol(frame, 0x88F5, p) == (if mvrp(p).len() > 0 {
            Some(AvProtocolView::Mvrp { vlan_ids: mvrp(p) })
        } else {
            None
        }),
        protocol(frame, 0x88CC, p) is Some <==> eee_port(p) is Some,
        protocol(frame, 0x88CC, p) matches Some(q) ==> (q matches AvProtocolView::LldpEee {
            chassis_id,
            port_id,
            tx_wake_us,
            rx_wake_us,
        } && chassis_id == eee_port(p).unwrap().chassis_id && port_id == eee_port(p).unwrap().port_id
            && tx_wake_us == eee_port(p).unwrap().tx_wake_us && rx_wake_us
            == eee_port(p).unwrap().rx_wake_us),
        p.len() >= 2 && p[0] == 0 && p[1] == 1 ==> protocol(frame, 0x8808, p) == Some(
            AvProtocolView::FlowControl { kind: FlowControlKind::Pause },
        ),
        p.len() >= 2 && p[0] == 1 && p[1] == 1 ==> protocol(frame, 0x8808, p) == Some(
            AvProtocolView::FlowControl { kind: FlowControlKind::PriorityFlowControl },
        ),
        p.len() < 2 || p[0] > 1 || p[1] != 1 ==> protocol(frame, 0x8808, p) is None,
        ptp(p) matches Some(info) ==> protocol(frame, 0x88F7, p) == Some(
            AvProtocolView::Ptp { info: PtpInfoView { protocol_kind: Some("AVB"@), ..info } },
        ),
        ptp(p) is None ==> protocol(frame, 0x88F7, p) is None,
        protocol(frame, 0x0800, p) == ip_protocol(frame, p),
{
}

/// A frame of any other EtherType is nothing.
pub proof fn law_no_other_types(frame: Seq<u8>, et: u16, p: Seq<u8>)
    ensures
        et != 0x22EA && et != 0x88F5 && et != 0x88CC && et != 0x8808 && et != 0x88F7 && et != 0x22F0
            && et != 0x0800 ==> protocol(frame, et, p) is None,
{
}

/// A transport frame of AVB is discovery where its first byte is 0xFA, and a stream's
/// elsewhere. The stream's identifier holds only where its bit is set.
pub proof fn law_transport_frames(frame: Seq<u8>, p: Seq<u8>)
    ensures
        ({
            let r = protocol(frame, 0x22F0, p);
            &&& p.len() > 0 && p[0] == 0xFA ==> r == (match adp(p) {
                Some(a) => Some(AvProtocolView::AvdeccAdp(a)),
                None => None,
            })
            &&& p.len() == 0 ==> r == Some(
                AvProtocolView::Avb { subtype: 0, stream_id: None, seq: None },
            )
            &&& p.len() > 0 && p[0] != 0xFA ==> (r matches Some(
                AvProtocolView::Avb { subtype, stream_id, seq },
            ) && subtype == p[0] && (seq is Some <==> p.len() > 2) && (seq is Some ==> seq.unwrap()
                == p[2]) && (stream_id is Some <==> p.len() >= 12 && p[1] >= 0x80) && (stream_id is Some
                ==> stream_id.unwrap()@ == p.subrange(4, 12)))
        }),
{
    if p.len() >= 12 {
        assert(id_at(p, 4)@ =~= p.subrange(4, 12));
    }
}

/// An IP packet is IGMP by the number 2 in its header, TCP by the number 6, and a
/// datagram elsewhere, whose addresses, ports and payload are read where they stand.
pub proof fn law_packets_by_number(frame: Seq<u8>, p: Seq<u8>)
    ensures
        p.len() >= 20 && p[9] == 2 ==> (ip_protocol(frame, p) matches Some(
            AvProtocolView::Igmp { src, src_mac, group, igmp_type },
        ) && src == (Ipv4Addr { a: p[12], b: p[13], c: p[14], d: p[15] }) && group == (Ipv4Addr {
            a: p[16],
            b: p[17],
            c: p[18],
            d: p[19],
        }) && src_mac@ == seq![frame[6], frame[7], frame[8], frame[9], frame[10], frame[11]]
            && igmp_type == igmp_message(ip_payload(p))),
        p.len() >= 20 && p[9] != 2 && tcp_data(frame) is None && ip_payload(p).len() >= 8
            ==> ip_protocol(frame, p) == udp_protocol(
            Ipv4Addr { a: p[12], b: p[13], c: p[14], d: p[15] },
            Ipv4Addr { a: p[16], b: p[17], c: p[18], d: p[19] },
            (ip_payload(p)[0] * 256 + ip_payload(p)[1]) as u16,
            (ip_payload(p)[2] * 256 + ip_payload(p)[3]) as u16,
            ip_payload(p).skip(8),
        ),
        p.len() < 20 && tcp_data(frame) is None ==> ip_protocol(frame, p) is None,
{
    if p.len() >= 20 && ip_payload(p).len() >= 8 {
        assert(udp_payload(ip_payload(p)) =~= ip_payload(p).skip(8));
    }
    if p.len() >= 20 && p[9] == 2 {
        assert(mac_at(frame, 6)@ =~= seq![
            frame[6],
            frame[7],
            frame[8],
            frame[9],
            frame[10],
            frame[11],
        ]);
    }
}

/// What an IP packet carries stands behind its header, whose length in words is in the
/// low half of the first byte, and ends where the packet's length says, or with what was
/// captured.
pub proof fn law_payload_stands_behind_the_header(p: Seq<u8>, words: int, total: int)
    requires
        p.len() >= 20,
        words == p[0] % 16,
        words >= 5,
        total == p[2] * 256 + p[3],
        words * 4 <= total,
        words * 4 < p.len(),
    ensures
        total <= p.len() ==> ip_payload(p) == p.subrange(words * 4, total),
        total > p.len() ==> ip_payload(p) == p.skip(words * 4),
{
    assert(p.subrange(words * 4, p.len() as int) =~= p.skip(words * 4));
}

proof fn lemma_low_bits(b: u8)
    ensures
        b / 2 % 2 == 1 <==> b % 4 >= 2,
        b / 4 % 2 == 1 <==> b % 8 >= 4,
{
}

proof fn lemma_words(t: Seq<u8>, i: int)
    ensures
        be16(t, i) == t[i] * 256 + t[i + 1],
        be32(t, i) == t[i] * 16777216 + t[i + 1] * 65536 + t[i + 2] * 256 + t[i + 3],
{
}

/// A TCP segment stands in an IP packet of the number 6 that holds its header of twenty
/// bytes, and nowhere else.
pub proof fn law_segments_by_number(f: Seq<u8>, et: u16, pcp: Option<u8>, p: Seq<u8>)
    requires
        untagged(f) == Some((et, pcp, p)),
    ensures
        tcp_data(f) is Some <==> et == 0x0800 && p.len() >= 20 && p[9] == 6 && ip_payload(p).len()
            >= 20,
{
}

/// A TCP segment tells its ends and its numbers, and by the low bits of its flags that it
/// ends, begins or breaks off a connection.
pub proof fn law_segments(f: Seq<u8>, pcp: Option<u8>, p: Seq<u8>, t: Seq<u8>)
    requires
        untagged(f) == Some((0x0800u16, pcp, p)),
        t == ip_payload(p),
        tcp_data(f) is Some,
    ensures
        tcp_data(f) matches Some((src, dst, from, to, fin, syn, rst, seq, ack)) && {
            &&& src == (Ipv4Addr { a: p[12], b: p[13], c: p[14], d: p[15] })
            &&& dst == (Ipv4Addr { a: p[16], b: p[17], c: p[18], d: p[19] })
            &&& from == t[0] * 256 + t[1]
            &&& to == t[2] * 256 + t[3]
            &&& fin <==> t[13] % 2 == 1
            &&& syn <==> t[13] % 4 >= 2
            &&& rst <==> t[13] % 8 >= 4
            &&& seq == t[4] * 16777216 + t[5] * 65536 + t[6] * 256 + t[7]
            &&& ack == t[8] * 16777216 + t[9] * 65536 + t[10] * 256 + t[11]
        },
{
    lemma_low_bits(t[13]);
    lemma_words(t, 0);
    lemma_words(t, 2);
    lemma_words(t, 4);
    lemma_words(t, 8);
}

/// What is detected of a segment is what it tells.
pub proof fn law_segments_are_told(f: Seq<u8>, p: Seq<u8>)
    requires
        p.len() < 20 || p[9] != 2,
    ensures
        tcp_data(f) matches Some((src, dst, from, to, fin, syn, rst, seq, ack)) ==> (ip_protocol(f, p)
            matches Some(AvProtocolView::Tcp(s)) && s.src == src && s.dst == dst && s.src_port == from
            && s.dst_port == to && s.seq == seq && s.ack == ack && s.has_fin == fin && s.has_syn == syn
            && s.has_rst == rst),
        ip_protocol(f, p) matches Some(AvProtocolView::Tcp(_)) ==> tcp_data(f) is Some,
{
    reveal_with_fuel(first_claim, 5);
}

/// The messages of IGMP by their first byte. A query of twelve bytes or more is of
/// version 3.
pub proof fn law_group_messages(p: Seq<u8>)
    requires
        p.len() > 0,
    ensures
        p[0] == 0x11 && p.len() >= 12 ==> igmp_message(p) == (IgmpTypeView::Query { version: 3 }),
        p[0] == 0x11 && p.len() < 12 ==> igmp_message(p) == (IgmpTypeView::Query { version: 2 }),
        p[0] == 0x16 ==> igmp_message(p) is Join,
        p[0] == 0x17 ==> igmp_message(p) is Leave,
        p[0] == 0x22 ==> igmp_message(p) is MembershipReportV3,
        p[0] != 0x11 && p[0] != 0x16 && p[0] != 0x17 && p[0] != 0x22 ==> igmp_message(p)
            == IgmpTypeView::Unknown(p[0]),
{
}

/// A report names the multicast group of each of its records in turn. A record holds
/// eight bytes, its sources at four bytes each, and as many words more as it says.
pub proof fn law_reports_name_their_groups(p: Seq<u8>, n: nat)
    requires
        p.len() >= 16,
        n == p[6] * 256 + p[7],
        n > 0,
    ensures
        ({
            let first = Ipv4Addr { a: p[12], b: p[13], c: p[14], d: p[15] };
            let next = 16 + 4 * (p[10] * 256 + p[11]) + 4 * p[9];
            let rest = report_groups(p, next, (n - 1) as nat);
            igmpv3_groups(p) == (if 224 <= first.a <= 239 {
                seq![first] + rest
            } else {
                rest
            })
        }),
        p[0] == 0x22 ==> igmp_message(p) == (IgmpTypeView::MembershipReportV3 {
            groups: igmpv3_groups(p),
        }),
{
}

/// A report without a record names no group.
pub proof fn law_empty_reports_name_none(p: Seq<u8>)
    ensures
        p.len() < 16 || (p[6] == 0 && p[7] == 0) ==> igmpv3_groups(p) == Seq::<Ipv4Addr>::empty(),
{
}

// ── Tags ─────────────────────────────────────────────────────────────────────

/// An untagged frame has no priority; its type stands behind the two addresses and its
/// payload behind the type.
pub proof fn law_plain_frames(f: Seq<u8>)
    requires
        f.len() >= 14,
    ensures
        ({
            let et = f[12] * 256 + f[13];
            et != 0x8100 && et != 0x88A8 && et != 0x9100 ==> untagged(f) == Some(
                (et as u16, None::<u8>, f.skip(14)),
            )
        }),
{
    reveal_with_fuel(untagged_from, 2);
}

/// A tag of each of the three types is taken off, and its upper three bits are the
/// priority of what it holds.
pub proof fn law_tags_are_taken_off(f: Seq<u8>)
    requires
        f.len() >= 18,
    ensures
        ({
            let tag = f[12] * 256 + f[13];
            let et = f[16] * 256 + f[17];
            (tag == 0x8100 || tag == 0x88A8 || tag == 0x9100) && et != 0x8100 && et != 0x88A8 && et
                != 0x9100 ==> untagged(f) == Some((et as u16, Some((f[14] / 32) as u8), f.skip(18)))
        }),
{
    reveal_with_fuel(untagged_from, 3);
}

/// Less than a header is no frame.
pub proof fn law_short_frames(f: Seq<u8>)
    ensures
        f.len() < 14 ==> untagged(f) is None,
{
}

/// A header counts at least twenty bytes. Behind a header that is longer than the packet
/// says, or than was captured, nothing is carried.
pub proof fn law_odd_headers(p: Seq<u8>)
    requires
        p.len() >= 20,
    ensures
        ({
            let words = p[0] % 16;
            let total = p[2] * 256 + p[3];
            &&& words < 5 && words * 4 <= total && 20 + total - words * 4 <= p.len() ==> ip_payload(p)
                == p.subrange(20, 20 + total - words * 4)
            &&& total < words * 4 ==> ip_payload(p).len() == 0
            &&& words * 4 >= p.len() ==> ip_payload(p).len() == 0
        }),
{
}

} // verus!
