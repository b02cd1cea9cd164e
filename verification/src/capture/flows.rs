//! What NDI, TCP and AVB packets do to the state.

use vstd::prelude::*;

use crate::capture::alert::{info, only, quiet, Alert, AlertView};
use crate::capture::avb::AvbView;
use crate::capture::handlers::found_or;
use crate::capture::media::{endpoint, push_endpoint};
use crate::capture::ndi::ndi_with;
use crate::capture::state::{CaptureState, StateView};
use crate::net::{dotted, push_ip, Ipv4Addr};
use crate::order::views;
use crate::protocols::{MsrpDeclaration, TcpSegment, NDI_PORT_MAX, NDI_PORT_MIN};
use crate::scan::opt_text;
use crate::stats::avtp::{fresh_avtp, with_frame_bytes, with_frame_seq, AvtpStreamStats};
use crate::stats::health::NetworkHealth;
use crate::stats::stream::{fresh, StreamStats, StreamView};
use crate::stats::tcp::{fresh_flow, with_quality, with_rate, TcpStreamStats};
use crate::table::{lookup, put};

verus! {

// ── NDI ──────────────────────────────────────────────────────────────────────

/// The state after an NDI sender announced itself.
pub open spec fn ndi_state(v: StateView, src: Ipv4Addr, name: Option<Seq<char>>) -> StateView {
    if v.local_ips.contains(src) {
        v
    } else {
        StateView { ndi: ndi_with(v.ndi, src, name), ..v }
    }
}

/// The alert on an NDI sender.
pub open spec fn ndi_alerts(v: StateView, src: Ipv4Addr, name: Option<Seq<char>>) -> Seq<AlertView> {
    if v.local_ips.contains(src) {
        Seq::empty()
    } else {
        seq![
            info(
                "🔍 NDI source: "@ + dotted(src) + "  \""@ + (match name {
                    Some(n) => n,
                    None => "unknown source"@,
                }) + "\""@,
            ),
        ]
    }
}

// ── TCP ──────────────────────────────────────────────────────────────────────

pub open spec fn ndi_port(p: u16) -> bool {
    NDI_PORT_MIN <= p <= NDI_PORT_MAX
}

/// Whether a segment is NDI's: by its ports, or by an end that is a known sender.
pub open spec fn is_ndi_segment(v: StateView, t: TcpSegment) -> bool {
    ndi_port(t.src_port) || ndi_port(t.dst_port) || v.ndi.sources.contains(t.src)
        || v.ndi.sources.contains(t.dst)
}

/// The sender that a segment belongs to.
pub open spec fn ndi_sender(v: StateView, t: TcpSegment) -> Option<Ipv4Addr> {
    if v.ndi.sources.contains(t.src) {
        Some(t.src)
    } else if v.ndi.sources.contains(t.dst) {
        Some(t.dst)
    } else {
        None
    }
}

/// The key of an NDI stream.
pub open spec fn ndi_key(ip: Ipv4Addr) -> Seq<char> {
    "NDI "@ + dotted(ip)
}

/// A new NDI stream. It has no media clock.
pub open spec fn new_ndi(v: StateView, ip: Ipv4Addr, now: u64) -> StreamView {
    StreamView {
        dst_ip: Some(ip),
        sdp_name: lookup(v.ndi.names, ip),
        ..fresh("NDI"@, 0, now)
    }
}

/// The streams after a segment of a sender was counted.
pub open spec fn ndi_counted(
    v: StateView,
    sender: Option<Ipv4Addr>,
    now: u64,
) -> Seq<(Seq<char>, StreamView)> {
    match sender {
        Some(ip) => {
            let s = found_or(v.streams, ndi_key(ip), new_ndi(v, ip, now));
            put(
                v.streams,
                ndi_key(ip),
                StreamView {
                    packets: s.packets.wrapping_add(1),
                    last_packet_time: Some(now),
                    ..s
                },
            )
        },
        None => v.streams,
    }
}

/// The key of a TCP flow.
pub open spec fn tcp_key(t: TcpSegment) -> Seq<char> {
    "TCP "@ + endpoint(t.src, t.src_port) + " → "@ + endpoint(t.dst, t.dst_port)
}

/// How far a sequence number is ahead of another, modulo 2^32.
pub open spec fn seq_ahead(last: u32, seq: u32) -> u32 {
    seq.wrapping_sub(last)
}

/// Whether a segment repeats what was sent: its sequence number is behind the
/// last one.
pub open spec fn repeats(f: TcpStreamStats, t: TcpSegment) -> bool {
    match f.last_seq {
        Some(last) => !t.has_syn && seq_ahead(last, t.seq) >= 0x8000_0000
            && f.packets.wrapping_add(1) > 2,
        None => false,
    }
}

/// A flow after a segment, before it is judged.
pub open spec fn flow_counted(f: TcpStreamStats, t: TcpSegment, frame: u64, now: u64) -> TcpStreamStats {
    TcpStreamStats {
        packets: f.packets.wrapping_add(1),
        last_seen: now,
        bytes: f.bytes.wrapping_add(frame.saturating_sub(40)),
        fin_packets: if t.has_fin {
            f.fin_packets.wrapping_add(1)
        } else {
            f.fin_packets
        },
        rst_packets: if t.has_rst {
            f.rst_packets.wrapping_add(1)
        } else {
            f.rst_packets
        },
        retransmissions: if repeats(f, t) {
            f.retransmissions.wrapping_add(1)
        } else {
            f.retransmissions
        },
        last_seq: match f.last_seq {
            Some(last) => if 0 < seq_ahead(last, t.seq) < 0x8000_0000 {
                Some(t.seq)
            } else {
                Some(last)
            },
            None => Some(t.seq),
        },
        last_ack: Some(t.ack),
        ..f
    }
}

/// A flow after a segment.
pub open spec fn flow_after(f: TcpStreamStats, t: TcpSegment, frame: u64, now: u64) -> TcpStreamStats {
    with_quality(with_rate(flow_counted(f, t, frame, now), now))
}

/// The network after a segment: a reset and a repeat each count.
pub open spec fn retransmissions_after(
    h: NetworkHealth,
    f: TcpStreamStats,
    t: TcpSegment,
) -> NetworkHealth {
    let a = if t.has_rst {
        h.tcp_retransmissions.wrapping_add(1)
    } else {
        h.tcp_retransmissions
    };
    NetworkHealth {
        tcp_retransmissions: if repeats(f, t) {
            a.wrapping_add(1)
        } else {
            a
        },
        ..h
    }
}

/// The state after a TCP segment. Only NDI's are of interest.
pub open spec fn tcp_state(v: StateView, t: TcpSegment, frame: u64, now: u64) -> StateView {
    if !is_ndi_segment(v, t) {
        v
    } else {
        let f = found_or(v.tcp_streams, tcp_key(t), fresh_flow(t.src, t.dst, now));
        StateView {
            streams: ndi_counted(v, ndi_sender(v, t), now),
            tcp_streams: put(v.tcp_streams, tcp_key(t), flow_after(f, t, frame, now)),
            network_health: retransmissions_after(v.network_health, f, t),
            ..v
        }
    }
}

fn count_segment(f: &mut TcpStreamStats, t: &TcpSegment, frame: u64, now: u64) -> (repeated: bool)
    ensures
        *final(f) == flow_after(*old(f), *t, frame, now),
        repeated == repeats(*old(f), *t),
{
    f.packets = f.packets.wrapping_add(1);
    f.last_seen = now;
    f.bytes = f.bytes.wrapping_add(frame.saturating_sub(40));
    if t.has_fin {
        f.fin_packets = f.fin_packets.wrapping_add(1);
    }
    if t.has_rst {
        f.rst_packets = f.rst_packets.wrapping_add(1);
    }
    let mut repeated: bool = false;
    match f.last_seq {
        Some(last) => {
            let ahead: u32 = t.seq.wrapping_sub(last);
            if !t.has_syn && ahead >= 0x8000_0000 && f.packets > 2 {
                f.retransmissions = f.retransmissions.wrapping_add(1);
                repeated = true;
            }
            if ahead > 0 && ahead < 0x8000_0000 {
                f.last_seq = Some(t.seq);
            }
        },
        None => {
            f.last_seq = Some(t.seq);
        },
    }
    f.last_ack = Some(t.ack);
    f.update_bitrate(now);
    f.update_quality();
    repeated
}

impl CaptureState {
    /// An NDI sender announced itself.
    pub fn handle_ndi_discovery(&mut self, src: Ipv4Addr, source_name: Option<String>) -> (r: Vec<
        Alert,
    >)
        ensures
            final(self)@ == ndi_state(old(self)@, src, opt_text(source_name)),
            views(r@) == ndi_alerts(old(self)@, src, opt_text(source_name)),
    {
        if self.local_ips.contains(&src) {
            return quiet();
        }
        self.ndi.record_source(src, &source_name);
        let mut s: String = String::from_str("🔍 NDI source: ");
        push_ip(&mut s, src);
        s.append("  \"");
        match &source_name {
            Some(n) => {
                s.append(n.as_str());
            },
            None => {
                s.append("unknown source");
            },
        }
        s.append("\"");
        only(Alert::info(s))
    }

    fn count_ndi(&mut self, sender: Option<Ipv4Addr>, now: u64)
        ensures
            final(self)@ == (StateView {
                streams: ndi_counted(old(self)@, sender, now),
                ..old(self)@
            }),
    {
        let ghost v = self@;
        if let Some(ip) = sender {
            let mut key: String = String::from_str("NDI ");
            push_ip(&mut key, ip);
            let ghost id = key@;
            let i: usize = match self.streams.position(&key) {
                Some(i) => i,
                None => {
                    let mut s: StreamStats = StreamStats::new_with_info(
                        "NDI",
                        0,
                        false,
                        ip,
                        0,
                        now,
                    );
                    s.sdp_name = match self.ndi.names.get(&ip) {
                        Some(n) => Some(n.clone()),
                        None => None,
                    };
                    self.streams.push_new(key, s)
                },
            };
            let ghost base = found_or(v.streams, id, new_ndi(v, ip, now));
            assert(self.streams@[i as int] == (id, base));
            let s: &mut StreamStats = self.streams.value_mut(i);
            s.packets = s.packets.wrapping_add(1);
            s.last_packet_time = Some(now);
            assert(self.streams@ =~= ndi_counted(v, sender, now));
        }
    }

    /// A TCP segment. NDI's are counted, on their flow and for their sender; all
    /// others are passed over.
    pub fn handle_tcp(&mut self, segment: TcpSegment, frame_bytes: u64, now: u64)
        ensures
            final(self)@ == tcp_state(old(self)@, segment, frame_bytes, now),
    {
        let t: TcpSegment = segment;
        let ghost v = self@;
        let from: bool = self.ndi.sources.contains(&t.src);
        let to: bool = self.ndi.sources.contains(&t.dst);
        let port: bool = (NDI_PORT_MIN <= t.src_port && t.src_port <= NDI_PORT_MAX) || (NDI_PORT_MIN
            <= t.dst_port && t.dst_port <= NDI_PORT_MAX);
        if !(port || from || to) {
            return;
        }
        let sender: Option<Ipv4Addr> = if from {
            Some(t.src)
        } else if to {
            Some(t.dst)
        } else {
            None
        };
        self.count_ndi(sender, now);
        let mut key: String = String::from_str("TCP ");
        push_endpoint(&mut key, t.src, t.src_port);
        key.append(" → ");
        push_endpoint(&mut key, t.dst, t.dst_port);
        let ghost id = key@;
        let i: usize = match self.tcp_streams.position(&key) {
            Some(i) => i,
            None => self.tcp_streams.push_new(key, TcpStreamStats::new(t.src, t.dst, now)),
        };
        let ghost base = found_or(v.tcp_streams, id, fresh_flow(t.src, t.dst, now));
        assert(self.tcp_streams@[i as int] == (id, base));
        let f: &mut TcpStreamStats = self.tcp_streams.value_mut(i);
        let repeated: bool = count_segment(f, &t, frame_bytes, now);
        assert(self.tcp_streams@ =~= put(
            v.tcp_streams,
            id,
            flow_after(base, t, frame_bytes, now),
        ));
        if t.has_rst {
            self.network_health.tcp_retransmissions =
            self.network_health.tcp_retransmissions.wrapping_add(1);
        }
        if repeated {
            self.network_health.tcp_retransmissions =
            self.network_health.tcp_retransmissions.wrapping_add(1);
        }
    }
}

// ── AVB ──────────────────────────────────────────────────────────────────────

/// The priority that a stream has reserved.
pub open spec fn reserved_priority(
    msrp: Seq<(Seq<u8>, MsrpDeclaration)>,
    id: Seq<u8>,
) -> Option<u8> {
    match lookup(msrp, id) {
        Some(d) => d.priority,
        None => None,
    }
}

/// A stream after the priority of a frame was held against the reserved one. It
/// matters only where both are known.
pub open spec fn with_priority(
    s: AvtpStreamStats,
    pcp: Option<u8>,
    reserved: Option<u8>,
) -> AvtpStreamStats {
    match (pcp, reserved) {
        (Some(observed), Some(declared)) => if observed != declared {
            AvtpStreamStats {
                pcp_violations: s.pcp_violations.wrapping_add(1),
                observed_pcp: if s.observed_pcp is Some {
                    s.observed_pcp
                } else {
                    Some(observed)
                },
                msrp_declared_pcp: Some(declared),
                ..s
            }
        } else {
            s
        },
        _ => s,
    }
}

/// A stream after a frame.
pub open spec fn avtp_after(
    s: AvtpStreamStats,
    frame: u64,
    seq: Option<u8>,
    pcp: Option<u8>,
    reserved: Option<u8>,
    now: u64,
) -> AvtpStreamStats {
    let a = AvtpStreamStats { packets: s.packets.wrapping_add(1), last_seen: now, ..s };
    let b = with_frame_bytes(a, frame, now);
    let c = match seq {
        Some(n) => with_frame_seq(b, n),
        None => b,
    };
    with_priority(c, pcp, reserved)
}

/// The state after an AVB frame. Frames without a stream identifier carry no
/// media and count for nothing.
pub open spec fn avb_state(
    v: StateView,
    subtype: u8,
    id: Option<[u8; 8]>,
    frame: u64,
    seq: Option<u8>,
    pcp: Option<u8>,
    now: u64,
) -> StateView {
    match id {
        Some(sid) => {
            let s = found_or(v.avb.avtp_streams, sid@, fresh_avtp(sid, subtype, now));
            StateView {
                avb: AvbView {
                    avtp_streams: put(
                        v.avb.avtp_streams,
                        sid@,
                        avtp_after(
                            s,
                            frame,
                            seq,
                            pcp,
                            reserved_priority(v.avb.msrp_state, sid@),
                            now,
                        ),
                    ),
                    ..v.avb
                },
                ..v
            }
        },
        None => v,
    }
}

fn count_frame(
    s: &mut AvtpStreamStats,
    frame: u64,
    seq: Option<u8>,
    pcp: Option<u8>,
    reserved: Option<u8>,
    now: u64,
)
    ensures
        *final(s) == avtp_after(*old(s), frame, seq, pcp, reserved, now),
{
    s.packets = s.packets.wrapping_add(1);
    s.last_seen = now;
    s.update_bitrate(frame, now);
    if let Some(n) = seq {
        s.update_seq(n);
    }
    if let Some(observed) = pcp {
        if let Some(declared) = reserved {
            if observed != declared {
                s.pcp_violations = s.pcp_violations.wrapping_add(1);
                if s.observed_pcp.is_none() {
                    s.observed_pcp = Some(observed);
                }
                s.msrp_declared_pcp = Some(declared);
            }
        }
    }
}

impl CaptureState {
    /// A frame of an AVB stream.
    pub fn handle_avb(
        &mut self,
        subtype: u8,
        stream_id: Option<[u8; 8]>,
        frame_bytes: u64,
        avtp_seq: Option<u8>,
        pcp: Option<u8>,
        now: u64,
    )
        ensures
            final(self)@ == avb_state(
                old(self)@,
                subtype,
                stream_id,
                frame_bytes,
                avtp_seq,
                pcp,
                now,
            ),
    {
        let ghost v = self@;
        if let Some(sid) = stream_id {
            let reserved: Option<u8> = match self.avb.msrp_state.get(&sid) {
                Some(d) => d.priority,
                None => None,
            };
            let i: usize = match self.avb.avtp_streams.position(&sid) {
                Some(i) => i,
                None => self.avb.avtp_streams.push_new(
                    sid,
                    AvtpStreamStats::new(sid, subtype, now),
                ),
            };
            let ghost base = found_or(v.avb.avtp_streams, sid@, fresh_avtp(sid, subtype, now));
            assert(self.avb.avtp_streams@[i as int] == (sid@, base));
            let s: &mut AvtpStreamStats = self.avb.avtp_streams.value_mut(i);
            count_frame(s, frame_bytes, avtp_seq, pcp, reserved, now);
            assert(self.avb.avtp_streams@ =~= put(
                v.avb.avtp_streams,
                sid@,
                avtp_after(base, frame_bytes, avtp_seq, pcp, reserved, now),
            ));
        }
    }
}

// ── Laws ─────────────────────────────────────────────────────────────────────

/// A frame of one stream leaves every other stream as it is.
pub proof fn law_avb_streams_stay_apart(
    v: StateView,
    subtype: u8,
    id: [u8; 8],
    frame: u64,
    seq: Option<u8>,
    pcp: Option<u8>,
    now: u64,
    other: Seq<u8>,
)
    requires
        other != id@,
    ensures
        lookup(
            avb_state(v, subtype, Some(id), frame, seq, pcp, now).avb.avtp_streams,
            other,
        ) == lookup(v.avb.avtp_streams, other),
{
    let s = found_or(v.avb.avtp_streams, id@, fresh_avtp(id, subtype, now));
    crate::table::lemma_put_lookup(
        v.avb.avtp_streams,
        id@,
        avtp_after(s, frame, seq, pcp, reserved_priority(v.avb.msrp_state, id@), now),
        other,
    );
}

/// Other TCP traffic changes nothing.
pub proof fn law_other_tcp_is_passed_over(v: StateView, t: TcpSegment, frame: u64, now: u64)
    requires
        !ndi_port(t.src_port),
        !ndi_port(t.dst_port),
        !v.ndi.sources.contains(t.src),
        !v.ndi.sources.contains(t.dst),
    ensures
        tcp_state(v, t, frame, now) == v,
{
}

/// Untagged frames, and frames of the reserved priority, are no mismatch.
pub proof fn law_untagged_is_no_mismatch(s: AvtpStreamStats, pcp: Option<u8>, reserved: Option<u8>)
    requires
        pcp is None || reserved is None || pcp == reserved,
    ensures
        with_priority(s, pcp, reserved) == s,
{
}

} // verus!
