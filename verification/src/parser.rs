//! Decoding of captured frames: which AV protocol a frame belongs to, and what
//! it says.

use vstd::prelude::*;
use vstd::slice::slice_subrange;

use crate::net::Ipv4Addr;
use crate::parser::avb::{avtp_stream, msrp, mvrp, parse_avtp_stream_id, parse_msrp, parse_mvrp};
use crate::parser::avdecc::{adp, parse_adp};
use crate::parser::bytes::{be16, be32, mac_at, read16, read32};
use crate::parser::conmon::{channel_count, conmon_frame, parse_conmon, sender_mac};
use crate::parser::flow_control::{flow_kind, parse_flow_control};
use crate::parser::frame::{ethernet_source, ip_at, ip_payload, ipv4, tcp, udp, udp_payload};
use crate::parser::lldp::{eee_port, parse_lldp_eee};
use crate::parser::mdns::{dante_message, dante_name, extract_dante_name, extract_ndi_name, instance_name, is_dante_message, is_ndi_message, ndi, occurs};
use crate::parser::ptp::{parse_ptp, ptp};
use crate::parser::sdp::{parse_sap_packet, sap};
use crate::protocols::{dante_control, dante_control_plane_class, is_dante_control, port_class, AvProtocol, AvProtocolView, DanteKind, DanteKindView, IgmpType, IgmpTypeView, NdiKind, PtpInfo, PtpInfoView, St2110Type, TcpSegment, ETHERTYPE_AVTP, ETHERTYPE_FLOW_CTRL, ETHERTYPE_IPV4, ETHERTYPE_LLDP, ETHERTYPE_MSRP, ETHERTYPE_MVRP, ETHERTYPE_PTP, IP_PROTO_IGMP, IP_PROTO_TCP, MDNS_PORT, PTP_EVENT_PORT, PTP_GENERAL_PORT, PTP_VERSION_V1, SAP_PORT};

pub mod avb;
pub mod avdecc;
pub mod bytes;
pub mod conmon;
pub mod field_laws;
pub mod flow_control;
pub mod frame;
pub mod laws;
pub mod lldp;
pub mod mdns;
pub mod ptp;
pub mod sdp;
pub mod sdp_laws;

verus! {

// ── Addresses ────────────────────────────────────────────────────────────────

/// Class D: 224.0.0.0 to 239.255.255.255.
pub open spec fn multicast(ip: Ipv4Addr) -> bool {
    224 <= ip.a <= 239
}

/// AES67's block, 239.69.0.0/16.
pub open spec fn aes67_block(ip: Ipv4Addr) -> bool {
    ip.a == 239 && ip.b == 69
}

/// The addresses left to ST 2110, 239.0.0.0/8 without AES67's block.
pub open spec fn st2110_block(ip: Ipv4Addr) -> bool {
    ip.a == 239 && ip.b != 69
}

/// Dante's block, 239.255.0.0/16.
pub open spec fn dante_block(ip: Ipv4Addr) -> bool {
    ip.a == 239 && ip.b == 255
}

/// Whether an address is multicast.
pub fn is_multicast(ip: Ipv4Addr) -> (r: bool)
    ensures
        r == multicast(ip),
{
    ip.a >= 224 && ip.a <= 239
}

/// Whether an address is in AES67's block.
pub fn is_aes67_multicast(ip: Ipv4Addr) -> (r: bool)
    ensures
        r == aes67_block(ip),
{
    ip.a == 239 && ip.b == 69
}

/// Whether an address is left to ST 2110.
pub fn is_st2110_multicast(ip: Ipv4Addr) -> (r: bool)
    ensures
        r == st2110_block(ip),
{
    ip.a == 239 && ip.b != 69
}

/// Whether an address is in Dante's block. Dante audio is told by this block and
/// port 4321, by the official unicast ports, or by even ports from 5000 to 6000:
/// no single rule decides it.
pub fn is_dante_multicast(ip: Ipv4Addr) -> (r: bool)
    ensures
        r == dante_block(ip),
{
    ip.a == 239 && ip.b == 255
}

// ── Stream types ─────────────────────────────────────────────────────────────

/// What an ST 2110 stream carries: by the last digit of its port, else by its
/// payload type.
pub open spec fn st2110_type(pt: u8, port: u16) -> St2110Type {
    if port % 10 == 4 {
        St2110Type::Video
    } else if port % 10 == 6 {
        St2110Type::Audio
    } else if port % 10 == 8 {
        St2110Type::Ancdata
    } else if 96 <= pt <= 107 {
        St2110Type::Video
    } else if 108 <= pt <= 115 {
        St2110Type::Audio
    } else if 116 <= pt <= 127 {
        St2110Type::Ancdata
    } else {
        St2110Type::Unknown
    }
}

/// Tells what an ST 2110 stream carries.
pub fn classify_st2110(pt: u8, port: u16) -> (r: St2110Type)
    ensures
        r == st2110_type(pt, port),
{
    match port % 10 {
        4 => St2110Type::Video,
        6 => St2110Type::Audio,
        8 => St2110Type::Ancdata,
        _ => match pt {
            96..=107 => St2110Type::Video,
            108..=115 => St2110Type::Audio,
            116..=127 => St2110Type::Ancdata,
            _ => St2110Type::Unknown,
        },
    }
}

/// An even port from 5000 to 6000.
pub open spec fn dante_port(p: u16) -> bool {
    5000 <= p <= 6000 && p % 2 == 0
}

/// Both ports even from 5000 to 6000, and an audio payload type.
pub open spec fn dante_audio(src: u16, dst: u16, pt: u8) -> bool {
    (pt == 0 || pt == 8 || pt >= 96) && dante_port(dst) && dante_port(src)
}

fn is_dante_port(p: u16) -> (r: bool)
    ensures
        r == dante_port(p),
{
    5000 <= p && p <= 6000 && p % 2 == 0
}

/// Whether a stream is likely Dante audio. Both ends take their ports from
/// Dante's range; one alone would match unrelated applications.
pub fn is_likely_dante_audio(src: u16, dst: u16, pt: u8) -> (r: bool)
    ensures
        r == dante_audio(src, dst, pt),
{
    (pt == 0 || pt == 8 || pt >= 96) && is_dante_port(dst) && is_dante_port(src)
}

// ── VLAN tags ────────────────────────────────────────────────────────────────

/// An EtherType that announces a VLAN tag.
pub open spec fn vlan_tag(et: u16) -> bool {
    et == 0x8100 || et == 0x88A8 || et == 0x9100
}

/// The EtherType, priority and payload of a frame whose EtherType of interest
/// ends at `off`, under the priority of the tags before it.
pub open spec fn untagged_from(f: Seq<u8>, off: int, pcp: Option<u8>) -> Option<
    (u16, Option<u8>, Seq<u8>),
>
    decreases f.len() - off,
{
    if off < 2 || off > f.len() {
        None
    } else if !vlan_tag(be16(f, off - 2)) {
        Some((be16(f, off - 2), pcp, f.skip(off)))
    } else if off + 4 > f.len() {
        None
    } else {
        untagged_from(
            f,
            off + 4,
            if pcp is None {
                Some(f[off] / 32)
            } else {
                pcp
            },
        )
    }
}

/// The EtherType behind the tags, the priority of the outermost tag, and the
/// payload.
pub open spec fn untagged(f: Seq<u8>) -> Option<(u16, Option<u8>, Seq<u8>)> {
    if f.len() < 14 {
        None
    } else {
        untagged_from(f, 14, None)
    }
}

/// Takes the VLAN tags off a frame. Untagged frames have no priority; a frame
/// that ends within a tag gives none.
pub fn unwrap_vlan<'a>(frame: &'a [u8]) -> (r: Option<(u16, Option<u8>, &'a [u8])>)
    ensures
        match r {
            Some((et, pcp, payload)) => untagged(frame@) == Some((et, pcp, payload@)),
            None => untagged(frame@) is None,
        },
{
    let n: usize = frame.len();
    if n < 14 {
        return None;
    }
    let mut off: usize = 14;
    let mut pcp: Option<u8> = None;
    let mut et: u16 = read16(frame, 12);
    while et == 0x8100 || et == 0x88A8 || et == 0x9100
        invariant
            n == frame@.len(),
            14 <= off <= n,
            et == be16(frame@, off - 2),
            untagged_from(frame@, off as int, pcp) == untagged(frame@),
        decreases n - off,
    {
        if n - off < 4 {
            return None;
        }
        if pcp.is_none() {
            pcp = Some(frame[off] / 32);
        }
        et = read16(frame, off + 2);
        off += 4;
    }
    let payload: &[u8] = slice_subrange(frame, off, n);
    assert(payload@ =~= frame@.skip(off as int));
    Some((et, pcp, payload))
}

/// A tag put around a frame does not change what the frame is: the EtherType
/// and the payload behind it stay, and the priority is the tag's.
pub proof fn law_tag_is_transparent(f: Seq<u8>, tag: Seq<u8>)
    requires
        f.len() >= 14,
        tag.len() == 4,
        vlan_tag(be16(tag, 0)),
    ensures
        untagged(f.subrange(0, 12) + tag + f.skip(12)) == (match untagged(f) {
            Some((et, pcp, payload)) => Some((et, Some((tag[2] / 32) as u8), payload)),
            None => None,
        }),
{
    let g = f.subrange(0, 12) + tag + f.skip(12);
    assert(g[12] == tag[0] && g[13] == tag[1] && g[14] == tag[2]);
    assert(be16(g, 12) == be16(tag, 0));
    assert(untagged(g) == untagged_from(g, 18, Some((tag[2] / 32) as u8)));
    lemma_tag_shift(f, g, 14, None, Some((tag[2] / 32) as u8));
}

proof fn lemma_tag_shift(f: Seq<u8>, g: Seq<u8>, off: int, pcp: Option<u8>, outer: Option<u8>)
    requires
        14 <= off <= f.len(),
        g.len() == f.len() + 4,
        forall|i: int| 12 <= i < f.len() ==> g[i + 4] == #[trigger] f[i],
        outer is Some,
    ensures
        untagged_from(g, off + 4, outer) == (match untagged_from(f, off, pcp) {
            Some((et, p, payload)) => Some((et, outer, payload)),
            None => None,
        }),
    decreases f.len() - off,
{
    assert(g[off + 2] == f[off - 2]);
    assert(g[off + 3] == f[off - 1]);
    assert(be16(g, off + 2) == be16(f, off - 2));
    if !vlan_tag(be16(f, off - 2)) {
        assert forall|i: int| 0 <= i < f.skip(off).len() implies g.skip(off + 4)[i] == f.skip(
            off,
        )[i] by {
            assert(g[off + i + 4] == f[off + i]);
        }
        assert(g.skip(off + 4) =~= f.skip(off));
    } else if off + 4 <= f.len() {
        assert(g[off + 4] == f[off]);
        lemma_tag_shift(
            f,
            g,
            off + 4,
            if pcp is None {
                Some(f[off] / 32)
            } else {
                pcp
            },
            outer,
        );
    }
}

// ── IGMP ─────────────────────────────────────────────────────────────────────

/// The multicast groups of up to `count` records from `off` on. A record is a
/// type, the length of its trailing data in words, the number of sources, the
/// group, the sources and the data.
pub open spec fn report_groups(p: Seq<u8>, off: int, count: nat) -> Seq<Ipv4Addr>
    decreases count,
{
    if count == 0 || off < 0 || off + 8 > p.len() {
        Seq::empty()
    } else {
        let rest = report_groups(
            p,
            off + 8 + 4 * be16(p, off + 2) + 4 * p[off + 1],
            (count - 1) as nat,
        );
        if multicast(ip_at(p, off + 4)) {
            seq![ip_at(p, off + 4)] + rest
        } else {
            rest
        }
    }
}

/// The groups of a version 3 report.
pub open spec fn igmpv3_groups(p: Seq<u8>) -> Seq<Ipv4Addr> {
    if p.len() < 8 {
        Seq::empty()
    } else {
        report_groups(p, 8, be16(p, 6) as nat)
    }
}

/// Reads a version 3 membership report.
pub fn parse_igmpv3_report(payload: &[u8]) -> (r: IgmpType)
    ensures
        r@ == (IgmpTypeView::MembershipReportV3 { groups: igmpv3_groups(payload@) }),
{
    let p: &[u8] = payload;
    let n: usize = p.len();
    let mut groups: Vec<Ipv4Addr> = Vec::new();
    if n < 8 {
        assert(groups@ =~= igmpv3_groups(p@));
        return IgmpType::MembershipReportV3 { groups };
    }
    let mut left: u16 = read16(p, 6);
    let mut off: usize = 8;
    assert(groups@ + report_groups(p@, 8, left as nat) =~= igmpv3_groups(p@));
    while left > 0 && n - off >= 8
        invariant
            n == p@.len(),
            p@ == payload@,
            8 <= off <= n,
            groups@ + report_groups(p@, off as int, left as nat) == igmpv3_groups(p@),
        decreases left,
    {
        let ghost before = groups@;
        let ghost rest = report_groups(p@, off as int, left as nat);
        let group: Ipv4Addr = Ipv4Addr {
            a: p[off + 4],
            b: p[off + 5],
            c: p[off + 6],
            d: p[off + 7],
        };
        if is_multicast(group) {
            groups.push(group);
        }
        let step: usize = 8 + 4 * read16(p, off + 2) as usize + 4 * p[off + 1] as usize;
        left -= 1;
        assert(groups@ + report_groups(p@, off + step, left as nat) =~= before + rest);
        if n - off < step {
            assert(report_groups(p@, off + step, left as nat) =~= Seq::empty());
            assert(groups@ =~= before + rest);
            return IgmpType::MembershipReportV3 { groups };
        }
        off += step;
    }
    assert(report_groups(p@, off as int, left as nat) =~= Seq::empty());
    assert(groups@ =~= igmpv3_groups(p@));
    IgmpType::MembershipReportV3 { groups }
}

/// What an IGMP payload says. A query of at least twelve bytes is version 3.
pub open spec fn igmp_message(p: Seq<u8>) -> IgmpTypeView {
    if p.len() == 0 {
        IgmpTypeView::Unknown(0)
    } else if p[0] == 0x11 {
        IgmpTypeView::Query {
            version: if p.len() >= 12 {
                3
            } else {
                2
            },
        }
    } else if p[0] == 0x16 {
        IgmpTypeView::Join
    } else if p[0] == 0x17 {
        IgmpTypeView::Leave
    } else if p[0] == 0x22 {
        IgmpTypeView::MembershipReportV3 { groups: igmpv3_groups(p) }
    } else {
        IgmpTypeView::Unknown(p[0])
    }
}

fn parse_igmp(p: &[u8]) -> (r: IgmpType)
    ensures
        r@ == igmp_message(p@),
{
    if p.len() == 0 {
        return IgmpType::Unknown(0);
    }
    match p[0] {
        0x11 => {
            let version: u8 = if p.len() >= 12 {
                3
            } else {
                2
            };
            IgmpType::Query { version }
        },
        0x16 => IgmpType::Join,
        0x17 => IgmpType::Leave,
        0x22 => parse_igmpv3_report(p),
        t => IgmpType::Unknown(t),
    }
}

// ── TCP ──────────────────────────────────────────────────────────────────────

/// Addresses, ports, the FIN, SYN and RST flags, sequence and acknowledgement.
pub type TcpData = (Ipv4Addr, Ipv4Addr, u16, u16, bool, bool, bool, u32, u32);

/// The TCP segment that a frame carries over IPv4.
pub open spec fn tcp_data(f: Seq<u8>) -> Option<TcpData> {
    match untagged(f) {
        Some((et, _, p)) => {
            let t = ip_payload(p);
            if et == ETHERTYPE_IPV4 && p.len() >= 20 && p[9] == IP_PROTO_TCP && t.len() >= 20 {
                Some(
                    (
                        ip_at(p, 12),
                        ip_at(p, 16),
                        be16(t, 0),
                        be16(t, 2),
                        t[13] % 2 == 1,
                        t[13] / 2 % 2 == 1,
                        t[13] / 4 % 2 == 1,
                        be32(t, 4),
                        be32(t, 8),
                    ),
                )
            } else {
                None
            }
        },
        None => None,
    }
}

/// Reads the TCP segment of a frame.
pub fn parse_tcp_packet(frame: &[u8]) -> (r: Option<TcpData>)
    ensures
        r == tcp_data(frame@),
{
    match unwrap_vlan(frame) {
        Some((et, _, payload)) => {
            if et != ETHERTYPE_IPV4 {
                return None;
            }
            match ipv4(payload) {
                Some(ip) => {
                    if ip.protocol != IP_PROTO_TCP {
                        return None;
                    }
                    match tcp(ip.payload.as_slice()) {
                        Some(t) => Some(
                            (
                                ip.source,
                                ip.destination,
                                t.source,
                                t.destination,
                                t.flags % 2 == 1,
                                t.flags / 2 % 2 == 1,
                                t.flags / 4 % 2 == 1,
                                t.sequence,
                                t.acknowledgement,
                            ),
                        ),
                        None => None,
                    }
                },
                None => None,
            }
        },
        None => None,
    }
}

/// A segment by its fields.
pub open spec fn segment_of(t: TcpData) -> TcpSegment {
    TcpSegment {
        src: t.0,
        dst: t.1,
        src_port: t.2,
        dst_port: t.3,
        seq: t.7,
        ack: t.8,
        has_fin: t.4,
        has_syn: t.5,
        has_rst: t.6,
    }
}

// ── RTP ──────────────────────────────────────────────────────────────────────

/// The sequence number, timestamp and source of an RTP packet of version 2.
pub open spec fn rtp(p: Seq<u8>) -> Option<(u16, u32, u32)> {
    if p.len() >= 12 && p[0] / 64 == 2 {
        Some((be16(p, 2), be32(p, 4), be32(p, 8)))
    } else {
        None
    }
}

/// Reads the sequence number, timestamp and source of an RTP packet.
pub fn parse_rtp(payload: &[u8]) -> (r: Option<(u16, u32, u32)>)
    ensures
        r == rtp(payload@),
{
    if payload.len() < 12 || payload[0] / 64 != 2 {
        None
    } else {
        Some((read16(payload, 2), read32(payload, 4), read32(payload, 8)))
    }
}

// ── Classification of RTP flows ──────────────────────────────────────────────

/// What the classification of an RTP flow goes by.
#[derive(Debug, Clone, Copy)]
pub struct AudioClassifyCtx {
    pub src_ip: Ipv4Addr,
    pub dst_ip: Ipv4Addr,
    pub src_port: u16,
    pub dst_port: u16,
    pub payload_type: u8,
}

/// A rule that may claim an RTP flow.
#[derive(Debug, Clone, Copy, PartialEq, Eq, Structural)]
pub enum AudioRule {
    /// Dante, by both ports.
    DanteStrictPorts,
    /// Dante, by its multicast block and the destination port.
    DanteMulticastBlock,
    /// AES67, by its multicast block.
    Aes67Stream,
    /// ST 2110, whatever else is in 239.0.0.0/8.
    St2110Stream,
}

/// Dante audio between the ends of a flow.
pub open spec fn dante_flow(c: AudioClassifyCtx) -> AvProtocolView {
    AvProtocolView::Dante {
        kind: DanteKindView::AudioStream,
        src: c.src_ip,
        dst: c.dst_ip,
        dst_port: c.dst_port,
    }
}

/// What a rule makes of a flow.
pub open spec fn claim(rule: AudioRule, c: AudioClassifyCtx) -> Option<AvProtocolView> {
    match rule {
        AudioRule::DanteStrictPorts => if dante_audio(c.src_port, c.dst_port, c.payload_type) {
            Some(dante_flow(c))
        } else {
            None
        },
        AudioRule::DanteMulticastBlock => if dante_block(c.dst_ip) && dante_port(c.dst_port) {
            Some(dante_flow(c))
        } else {
            None
        },
        AudioRule::Aes67Stream => if aes67_block(c.dst_ip) {
            Some(
                AvProtocolView::Aes67 {
                    src: c.src_ip,
                    dst: c.dst_ip,
                    dst_port: c.dst_port,
                    payload_type: c.payload_type,
                },
            )
        } else {
            None
        },
        AudioRule::St2110Stream => if st2110_block(c.dst_ip) {
            Some(
                AvProtocolView::St2110 {
                    src: c.src_ip,
                    dst: c.dst_ip,
                    dst_port: c.dst_port,
                    stream_type: st2110_type(c.payload_type, c.dst_port),
                },
            )
        } else {
            None
        },
    }
}

/// The rules in the order in which they are tried.
pub open spec fn audio_rules() -> Seq<AudioRule> {
    seq![
        AudioRule::DanteStrictPorts,
        AudioRule::DanteMulticastBlock,
        AudioRule::Aes67Stream,
        AudioRule::St2110Stream,
    ]
}

/// What the first claiming rule from `i` on makes of a flow.
pub open spec fn first_claim(rules: Seq<AudioRule>, c: AudioClassifyCtx, i: int) -> Option<
    AvProtocolView,
>
    decreases rules.len() - i,
{
    if i < 0 || i >= rules.len() {
        None
    } else if claim(rules[i], c) is Some {
        claim(rules[i], c)
    } else {
        first_claim(rules, c, i + 1)
    }
}

fn dante_stream(c: &AudioClassifyCtx) -> (r: AvProtocol)
    ensures
        r@ == dante_flow(*c),
{
    AvProtocol::Dante {
        kind: DanteKind::AudioStream,
        src: c.src_ip,
        dst: c.dst_ip,
        dst_port: c.dst_port,
    }
}

/// What is claimed, in specifications.
pub open spec fn opt_view(p: Option<AvProtocol>) -> Option<AvProtocolView> {
    match p {
        Some(x) => Some(x@),
        None => None,
    }
}

/// Claims a flow whose ports are both Dante's, wherever it is addressed.
pub fn classify_dante_strict_ports(c: &AudioClassifyCtx) -> (r: Option<AvProtocol>)
    ensures
        opt_view(r) == claim(AudioRule::DanteStrictPorts, *c),
{
    if is_likely_dante_audio(c.src_port, c.dst_port, c.payload_type) {
        Some(dante_stream(c))
    } else {
        None
    }
}

/// Claims a flow to Dante's block and a Dante port, from any port.
pub fn classify_dante_multicast_block(c: &AudioClassifyCtx) -> (r: Option<AvProtocol>)
    ensures
        opt_view(r) == claim(AudioRule::DanteMulticastBlock, *c),
{
    if is_dante_multicast(c.dst_ip) && is_dante_port(c.dst_port) {
        Some(dante_stream(c))
    } else {
        None
    }
}

/// Claims a flow to AES67's block.
pub fn classify_aes67_stream(c: &AudioClassifyCtx) -> (r: Option<AvProtocol>)
    ensures
        opt_view(r) == claim(AudioRule::Aes67Stream, *c),
{
    if is_aes67_multicast(c.dst_ip) {
        Some(
            AvProtocol::Aes67 {
                src: c.src_ip,
                dst: c.dst_ip,
                dst_port: c.dst_port,
                payload_type: c.payload_type,
            },
        )
    } else {
        None
    }
}

/// Claims every other flow to 239.0.0.0/8.
pub fn classify_st2110_stream(c: &AudioClassifyCtx) -> (r: Option<AvProtocol>)
    ensures
        opt_view(r) == claim(AudioRule::St2110Stream, *c),
{
    if is_st2110_multicast(c.dst_ip) {
        Some(
            AvProtocol::St2110 {
                src: c.src_ip,
                dst: c.dst_ip,
                dst_port: c.dst_port,
                stream_type: classify_st2110(c.payload_type, c.dst_port),
            },
        )
    } else {
        None
    }
}

/// The rules in the order in which they are tried. The catch-all of ST 2110
/// stands last, or it would take Dante's multicast flows.
pub fn audio_classification_rules() -> (v: Vec<AudioRule>)
    ensures
        v@ == audio_rules(),
{
    let v: Vec<AudioRule> = vec![
        AudioRule::DanteStrictPorts,
        AudioRule::DanteMulticastBlock,
        AudioRule::Aes67Stream,
        AudioRule::St2110Stream,
    ];
    assert(v@ =~= audio_rules());
    v
}

/// Classifies an RTP flow by the first rule that claims it.
pub fn classify_audio(c: &AudioClassifyCtx) -> (r: Option<AvProtocol>)
    ensures
        opt_view(r) == first_claim(audio_rules(), *c, 0),
{
    let rules: Vec<AudioRule> = audio_classification_rules();
    let mut i: usize = 0;
    while i < rules.len()
        invariant
            rules@ == audio_rules(),
            i <= rules@.len(),
            first_claim(audio_rules(), *c, i as int) == first_claim(audio_rules(), *c, 0),
        decreases rules@.len() - i,
    {
        let claimed: Option<AvProtocol> = match rules[i] {
            AudioRule::DanteStrictPorts => classify_dante_strict_ports(c),
            AudioRule::DanteMulticastBlock => classify_dante_multicast_block(c),
            AudioRule::Aes67Stream => classify_aes67_stream(c),
            AudioRule::St2110Stream => classify_st2110_stream(c),
        };
        if claimed.is_some() {
            return claimed;
        }
        i += 1;
    }
    None
}

/// Whatever an earlier rule claims is not taken by the catch-all of ST 2110: no
/// flow to Dante's block and a Dante port, and none to AES67's block.
pub proof fn law_catch_all_comes_last(c: AudioClassifyCtx)
    ensures
        audio_rules().last() == AudioRule::St2110Stream,
        first_claim(audio_rules(), c, 0) matches Some(p) ==> (p is St2110 ==> claim(
            AudioRule::DanteStrictPorts,
            c,
        ) is None && claim(AudioRule::DanteMulticastBlock, c) is None && claim(
            AudioRule::Aes67Stream,
            c,
        ) is None),
        dante_block(c.dst_ip) && dante_port(c.dst_port) ==> first_claim(audio_rules(), c, 0)
            == Some(dante_flow(c)),
        dante_audio(c.src_port, c.dst_port, c.payload_type) ==> first_claim(audio_rules(), c, 0)
            == Some(dante_flow(c)),
{
    reveal_with_fuel(first_claim, 5);
}

// ── Detection ────────────────────────────────────────────────────────────────

/// The protocol of a UDP datagram. The order of the checks decides where ports
/// overlap.
pub open spec fn udp_protocol(
    src: Ipv4Addr,
    dst: Ipv4Addr,
    src_port: u16,
    dst_port: u16,
    p: Seq<u8>,
) -> Option<AvProtocolView> {
    if dst_port == SAP_PORT {
        match sap(p) {
            Some(sdp) => Some(AvProtocolView::Sap { src, sdp }),
            None => None,
        }
    } else if dst_port == MDNS_PORT || src_port == MDNS_PORT {
        if p.len() > 2 && p[2] >= 0x80 {
            if dante_message(p) {
                Some(
                    AvProtocolView::Dante {
                        kind: DanteKindView::Discovery { device_name: dante_name(p) },
                        src,
                        dst,
                        dst_port,
                    },
                )
            } else if occurs(p, ndi()) {
                Some(AvProtocolView::Ndi { source_name: instance_name(p, ndi()), src })
            } else {
                None
            }
        } else {
            None
        }
    } else if 8700 <= dst_port <= 8708 && conmon_frame(p) {
        Some(
            AvProtocolView::Dante {
                kind: DanteKindView::ConMon {
                    device_mac: sender_mac(p),
                    channels: channel_count(p),
                },
                src,
                dst,
                dst_port,
            },
        )
    } else if dante_control(dst_port) || dante_control(src_port) {
        Some(AvProtocolView::Dante { kind: DanteKindView::Control, src, dst, dst_port })
    } else if port_class(src_port, dst_port) is Some {
        Some(
            AvProtocolView::Dante {
                kind: DanteKindView::ControlPlane { class: port_class(src_port, dst_port).unwrap() },
                src,
                dst,
                dst_port,
            },
        )
    } else if ptp_port(src_port, dst_port) && ptp(p) is Some {
        Some(AvProtocolView::Ptp { info: ptp_from(ptp(p).unwrap(), src) })
    } else if (dante_block(dst) && dst_port == 4321) || 14336 <= dst_port <= 15359 || 14336
        <= src_port <= 15359 {
        Some(AvProtocolView::Dante { kind: DanteKindView::AudioStream, src, dst, dst_port })
    } else if rtp(p) is Some {
        first_claim(
            audio_rules(),
            AudioClassifyCtx {
                src_ip: src,
                dst_ip: dst,
                src_port,
                dst_port,
                payload_type: (p[1] % 128) as u8,
            },
            0,
        )
    } else {
        None
    }
}

/// Whether either port is one of PTP's.
pub open spec fn ptp_port(src_port: u16, dst_port: u16) -> bool {
    dst_port == PTP_EVENT_PORT || dst_port == PTP_GENERAL_PORT || src_port == PTP_EVENT_PORT
        || src_port == PTP_GENERAL_PORT
}

/// A PTP message that came over IP from `src`.
pub open spec fn ptp_from(info: PtpInfoView, src: Ipv4Addr) -> PtpInfoView {
    PtpInfoView {
        protocol_kind: Some(
            if info.version == PTP_VERSION_V1 {
                "PTPv1"@
            } else {
                "PTPv2"@
            },
        ),
        src_ip: Some(src),
        ..info
    }
}

/// The protocol of an IPv4 packet in a frame.
pub open spec fn ip_protocol(frame: Seq<u8>, p: Seq<u8>) -> Option<AvProtocolView> {
    if p.len() >= 20 && p[9] == IP_PROTO_IGMP {
        Some(
            AvProtocolView::Igmp {
                src: ip_at(p, 12),
                src_mac: mac_at(frame, 6),
                group: ip_at(p, 16),
                igmp_type: igmp_message(ip_payload(p)),
            },
        )
    } else if tcp_data(frame) is Some {
        Some(AvProtocolView::Tcp(segment_of(tcp_data(frame).unwrap())))
    } else if p.len() >= 20 && ip_payload(p).len() >= 8 {
        let u = ip_payload(p);
        udp_protocol(ip_at(p, 12), ip_at(p, 16), be16(u, 0), be16(u, 2), udp_payload(u))
    } else {
        None
    }
}

/// The protocol of an AVTP frame. Discovery announcements are told apart first,
/// so that they never count as a stream.
pub open spec fn avtp_protocol(p: Seq<u8>) -> Option<AvProtocolView> {
    if p.len() > 0 && p[0] == 0xFA {
        match adp(p) {
            Some(a) => Some(AvProtocolView::AvdeccAdp(a)),
            None => None,
        }
    } else {
        Some(
            AvProtocolView::Avb {
                subtype: if p.len() > 0 {
                    p[0]
                } else {
                    0
                },
                stream_id: avtp_stream(p),
                seq: if p.len() > 2 {
                    Some(p[2])
                } else {
                    None
                },
            },
        )
    }
}

/// The protocol of a frame with the given EtherType and payload.
pub open spec fn protocol(frame: Seq<u8>, et: u16, p: Seq<u8>) -> Option<AvProtocolView> {
    if et == ETHERTYPE_MSRP {
        if msrp(p).len() > 0 {
            Some(AvProtocolView::Msrp { declarations: msrp(p) })
        } else {
            None
        }
    } else if et == ETHERTYPE_LLDP {
        match eee_port(p) {
            Some(v) => Some(
                AvProtocolView::LldpEee {
                    chassis_id: v.chassis_id,
                    port_id: v.port_id,
                    tx_wake_us: v.tx_wake_us,
                    rx_wake_us: v.rx_wake_us,
                },
            ),
            None => None,
        }
    } else if et == ETHERTYPE_FLOW_CTRL {
        match flow_kind(p) {
            Some(kind) => Some(AvProtocolView::FlowControl { kind }),
            None => None,
        }
    } else if et == ETHERTYPE_MVRP {
        if mvrp(p).len() > 0 {
            Some(AvProtocolView::Mvrp { vlan_ids: mvrp(p) })
        } else {
            None
        }
    } else if et == ETHERTYPE_AVTP {
        avtp_protocol(p)
    } else if et == ETHERTYPE_PTP {
        match ptp(p) {
            Some(info) => Some(
                AvProtocolView::Ptp { info: PtpInfoView { protocol_kind: Some("AVB"@), ..info } },
            ),
            None => None,
        }
    } else if et == ETHERTYPE_IPV4 {
        ip_protocol(frame, p)
    } else {
        None
    }
}

fn detect_mdns(src: Ipv4Addr, dst: Ipv4Addr, dst_port: u16, p: &[u8]) -> (r: Option<AvProtocol>)
    ensures
        opt_view(r) == (if p@.len() > 2 && p@[2] >= 0x80 {
            if dante_message(p@) {
                Some(
                    AvProtocolView::Dante {
                        kind: DanteKindView::Discovery { device_name: dante_name(p@) },
                        src,
                        dst,
                        dst_port,
                    },
                )
            } else if occurs(p@, ndi()) {
                Some(AvProtocolView::Ndi { source_name: instance_name(p@, ndi()), src })
            } else {
                None
            }
        } else {
            None
        }),
{
    if p.len() <= 2 || p[2] < 0x80 {
        return None;
    }
    if is_dante_message(p) {
        let device_name: Option<String> = extract_dante_name(p);
        Some(AvProtocol::Dante { kind: DanteKind::Discovery { device_name }, src, dst, dst_port })
    } else if is_ndi_message(p) {
        let source_name: Option<String> = extract_ndi_name(p);
        Some(AvProtocol::Ndi { kind: NdiKind::Discovery { source_name }, src })
    } else {
        None
    }
}

fn is_ptp_port(src_port: u16, dst_port: u16) -> (r: bool)
    ensures
        r == ptp_port(src_port, dst_port),
{
    dst_port == PTP_EVENT_PORT || dst_port == PTP_GENERAL_PORT || src_port == PTP_EVENT_PORT
        || src_port == PTP_GENERAL_PORT
}

fn over_ip(info: PtpInfo, src: Ipv4Addr) -> (r: PtpInfo)
    ensures
        r@ == ptp_from(info@, src),
{
    let mut info: PtpInfo = info;
    info.protocol_kind = Some(
        if info.version == PTP_VERSION_V1 {
            String::from_str("PTPv1")
        } else {
            String::from_str("PTPv2")
        },
    );
    info.src_ip = Some(src);
    info
}

/// Detects the protocol of a UDP datagram.
pub fn detect_udp(
    src: Ipv4Addr,
    dst: Ipv4Addr,
    src_port: u16,
    dst_port: u16,
    payload: &[u8],
) -> (r: Option<AvProtocol>)
    ensures
        opt_view(r) == udp_protocol(src, dst, src_port, dst_port, payload@),
{
    let p: &[u8] = payload;
    if dst_port == SAP_PORT {
        return match parse_sap_packet(p) {
            Some(sdp) => Some(AvProtocol::Sap { src, sdp }),
            None => None,
        };
    }
    if dst_port == MDNS_PORT || src_port == MDNS_PORT {
        return detect_mdns(src, dst, dst_port, p);
    }
    if 8700 <= dst_port && dst_port <= 8708 {
        if let Some(cm) = parse_conmon(p) {
            return Some(
                AvProtocol::Dante {
                    kind: DanteKind::ConMon { device_mac: cm.device_mac, channels: cm.channels },
                    src,
                    dst,
                    dst_port,
                },
            );
        }
    }
    if is_dante_control(dst_port) || is_dante_control(src_port) {
        return Some(AvProtocol::Dante { kind: DanteKind::Control, src, dst, dst_port });
    }
    if let Some(class) = dante_control_plane_class(src_port, dst_port) {
        return Some(
            AvProtocol::Dante { kind: DanteKind::ControlPlane { class }, src, dst, dst_port },
        );
    }
    if is_ptp_port(src_port, dst_port) {
        if let Some(info) = parse_ptp(p) {
            return Some(AvProtocol::Ptp { info: over_ip(info, src) });
        }
    }
    if (is_dante_multicast(dst) && dst_port == 4321) || (14336 <= dst_port && dst_port <= 15359)
        || (14336 <= src_port && src_port <= 15359) {
        return Some(AvProtocol::Dante { kind: DanteKind::AudioStream, src, dst, dst_port });
    }
    if p.len() < 12 || p[0] / 64 != 2 {
        return None;
    }
    let ctx: AudioClassifyCtx = AudioClassifyCtx {
        src_ip: src,
        dst_ip: dst,
        src_port,
        dst_port,
        payload_type: p[1] % 128,
    };
    classify_audio(&ctx)
}

fn detect_ip(frame: &[u8], p: &[u8]) -> (r: Option<AvProtocol>)
    requires
        frame@.len() >= 14,
    ensures
        opt_view(r) == ip_protocol(frame@, p@),
{
    let ip = ipv4(p);
    if let Some(ip) = &ip {
        if ip.protocol == IP_PROTO_IGMP {
            return match ethernet_source(frame) {
                Some(src_mac) => Some(
                    AvProtocol::Igmp {
                        src: ip.source,
                        src_mac,
                        group: ip.destination,
                        igmp_type: parse_igmp(ip.payload.as_slice()),
                    },
                ),
                None => None,
            };
        }
    }
    if let Some(t) = parse_tcp_packet(frame) {
        return Some(
            AvProtocol::Tcp(
                TcpSegment {
                    src: t.0,
                    dst: t.1,
                    src_port: t.2,
                    dst_port: t.3,
                    seq: t.7,
                    ack: t.8,
                    has_fin: t.4,
                    has_syn: t.5,
                    has_rst: t.6,
                },
            ),
        );
    }
    match ip {
        Some(ip) => match udp(ip.payload.as_slice()) {
            Some(u) => detect_udp(
                ip.source,
                ip.destination,
                u.source,
                u.destination,
                u.payload.as_slice(),
            ),
            None => None,
        },
        None => None,
    }
}

fn detect_avtp(p: &[u8]) -> (r: Option<AvProtocol>)
    ensures
        opt_view(r) == avtp_protocol(p@),
{
    if p.len() > 0 && p[0] == 0xFA {
        return match parse_adp(p) {
            Some(a) => Some(AvProtocol::AvdeccAdp(a)),
            None => None,
        };
    }
    let subtype: u8 = if p.len() > 0 {
        p[0]
    } else {
        0
    };
    let seq: Option<u8> = if p.len() > 2 {
        Some(p[2])
    } else {
        None
    };
    Some(AvProtocol::Avb { subtype, stream_id: parse_avtp_stream_id(p), seq })
}

/// Detects the AV protocol of a frame whose VLAN tags were taken off already:
/// `raw_et` and `l2_payload` are what [`unwrap_vlan`] gave for `frame`.
pub fn detect_protocol_unwrapped(frame: &[u8], raw_et: u16, l2_payload: &[u8]) -> (r: Option<
    AvProtocol,
>)
    requires
        frame@.len() >= 14,
    ensures
        opt_view(r) == protocol(frame@, raw_et, l2_payload@),
{
    let p: &[u8] = l2_payload;
    if raw_et == ETHERTYPE_MSRP {
        let declarations = parse_msrp(p);
        if declarations.len() > 0 {
            Some(AvProtocol::Msrp { declarations })
        } else {
            None
        }
    } else if raw_et == ETHERTYPE_LLDP {
        parse_lldp_eee(p)
    } else if raw_et == ETHERTYPE_FLOW_CTRL {
        parse_flow_control(p)
    } else if raw_et == ETHERTYPE_MVRP {
        let vlan_ids: Vec<u16> = parse_mvrp(p);
        if vlan_ids.len() > 0 {
            Some(AvProtocol::Mvrp { vlan_ids })
        } else {
            None
        }
    } else if raw_et == ETHERTYPE_AVTP {
        detect_avtp(p)
    } else if raw_et == ETHERTYPE_PTP {
        match parse_ptp(p) {
            Some(info) => {
                let mut info: PtpInfo = info;
                info.protocol_kind = Some(String::from_str("AVB"));
                Some(AvProtocol::Ptp { info })
            },
            None => None,
        }
    } else if raw_et == ETHERTYPE_IPV4 {
        detect_ip(frame, p)
    } else {
        None
    }
}

/// A frame that no EtherType of interest announces belongs to no protocol.
pub proof fn law_other_frames_are_ignored(frame: Seq<u8>, et: u16, p: Seq<u8>)
    requires
        et != ETHERTYPE_MSRP,
        et != ETHERTYPE_LLDP,
        et != ETHERTYPE_FLOW_CTRL,
        et != ETHERTYPE_MVRP,
        et != ETHERTYPE_AVTP,
        et != ETHERTYPE_PTP,
        et != ETHERTYPE_IPV4,
    ensures
        protocol(frame, et, p) is None,
{
}

/// An mDNS query never counts as a discovery, whatever services it asks for.
pub proof fn law_queries_discover_nothing(
    src: Ipv4Addr,
    dst: Ipv4Addr,
    src_port: u16,
    dst_port: u16,
    p: Seq<u8>,
)
    requires
        dst_port != SAP_PORT,
        dst_port == MDNS_PORT || src_port == MDNS_PORT,
        p.len() <= 2 || p[2] < 0x80,
    ensures
        udp_protocol(src, dst, src_port, dst_port, p) is None,
{
}

} // verus!
