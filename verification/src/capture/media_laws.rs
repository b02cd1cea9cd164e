//! What a packet of a media stream changes, and what it leaves.

use vstd::prelude::*;

use crate::capture::dispatch::{dispatched, raised};
use crate::capture::handlers::{announcement, datagram, media_for};
use crate::capture::media::{aes67_key, dante_key, new_aes67, new_dante, new_st2110, st2110_key, st2110_label, with_dscp};
use crate::capture::alert::info;
use crate::capture::state::StateView;
use crate::net::{dotted, Ipv4Addr};
use crate::parser::frame::ip_payload;
use crate::parser::sdp::connection_address;
use crate::protocols::{software, verdict, AvProtocolView, DanteKindView, SdpMediaView, SdpSessionView, St2110Type, TransmitterClass, TransmitterSignals};
use crate::stats::health::NetworkHealth;
use crate::stats::laws::law_packet_changes_nothing_else;
use crate::stats::stream::{regularity, with_pcp, StreamView};
use crate::table::{lemma_put_lookup, lookup};
use crate::text::dec;

verus! {

/// Whether bytes are an RTP packet.
pub open spec fn is_rtp(b: Seq<u8>) -> bool {
    b.len() >= 12 && 0x80 <= b[0] < 0xC0
}

/// What a datagram in an IP packet carries.
pub open spec fn carried(p: Seq<u8>) -> Seq<u8> {
    ip_payload(p).skip(8)
}

/// Whether an IP packet holds a datagram.
pub open spec fn holds_datagram(p: Seq<u8>) -> bool {
    p.len() >= 20 && ip_payload(p).len() >= 8
}

proof fn lemma_datagram(p: Seq<u8>)
    ensures
        holds_datagram(p) ==> (datagram(p) matches Some(d) && d.dscp == p[1] / 4 && d.ecn == p[1] % 4
            && d.ttl == p[8] && d.payload == carried(p)),
        !holds_datagram(p) ==> datagram(p) is None,
{
    if holds_datagram(p) {
        assert(ip_payload(p).subrange(8, ip_payload(p).len() as int) =~= carried(p));
    }
}

/// One more where something holds.
pub open spec fn one_more(n: u64, c: bool) -> int {
    if c {
        n + 1
    } else {
        n as int
    }
}

// ── AES67 ────────────────────────────────────────────────────────────────────

/// A packet of a known AES67 stream counts where it is RTP, and counts against it where
/// it is not marked EF, has another priority than six, or another payload type than
/// announced. Other streams stay as they are.
pub proof fn law_aes67_packets(
    v: StateView,
    src: Ipv4Addr,
    dst: Ipv4Addr,
    port: u16,
    pt: u8,
    p: Seq<u8>,
    pcp: Option<u8>,
    frame: u64,
    now: u64,
    s: StreamView,
    other: Seq<char>,
)
    requires
        lookup(v.streams, "AES67 "@ + (dotted(dst) + ":"@ + dec(port as nat))) == Some(s),
        holds_datagram(p),
        s.packets < u64::MAX,
        s.dscp_violations < u64::MAX,
        s.pcp_violations < u64::MAX,
        s.pt_mismatches < u64::MAX,
    ensures
        ({
            let key = "AES67 "@ + (dotted(dst) + ":"@ + dec(port as nat));
            let q = AvProtocolView::Aes67 { src, dst, dst_port: port, payload_type: pt };
            let after = dispatched(v, q, p, pcp, frame, now);
            let rtp = is_rtp(carried(p));
            &&& lookup(after.streams, key) matches Some(w) && {
                &&& w.packets == one_more(s.packets, rtp)
                &&& w.dscp_violations == one_more(s.dscp_violations, p[1] / 4 != 46)
                &&& w.pcp_violations == one_more(s.pcp_violations, pcp is Some && pcp != Some(6u8))
                &&& w.pt_mismatches == one_more(
                    s.pt_mismatches,
                    rtp && s.expected_pt is Some && s.expected_pt != Some(pt),
                )
                &&& rtp ==> w.last_packet_time == Some(now) && w.last_seq == Some(
                    (carried(p)[2] * 256 + carried(p)[3]) as u16,
                )
                &&& w.protocol == s.protocol && w.sdp_name == s.sdp_name && w.dst_ip == s.dst_ip
            }
            &&& other != key ==> lookup(after.streams, other) == lookup(v.streams, other)
            &&& after == (StateView {
                streams: after.streams,
                network_health: after.network_health,
                ..v
            })
            &&& raised(v, q, now).len() == 0
        }),
{
    lemma_datagram(p);
    let key = "AES67 "@ + (dotted(dst) + ":"@ + dec(port as nat));
    assert(aes67_key(dst, port) == key);
    let q = AvProtocolView::Aes67 { src, dst, dst_port: port, payload_type: pt };
    let after = dispatched(v, q, p, pcp, frame, now);
    let d = datagram(p).unwrap();
    let w = crate::capture::media::aes67_packet(s, d, pt, pcp, now);
    lemma_put_lookup(v.streams, key, w, other);
    let a = crate::capture::media::with_payload_type(with_pcp(with_dscp(s, d.dscp != 46), pcp), pt);
    let b = carried(p);
    law_packet_changes_nothing_else(
        a,
        (b[2] * 256 + b[3]) as u16,
        crate::parser::bytes::be32(b, 4),
        crate::parser::bytes::be32(b, 8),
        b.len() as u64,
        now,
    );
}

/// An AES67 stream is first seen as audio of 48 kHz, to its group and port, and as what an
/// announcement says of it.
pub proof fn law_new_aes67_streams(v: StateView, dst: Ipv4Addr, port: u16, now: u64)
    ensures
        ({
            let s = new_aes67(v, dst, port, now);
            &&& s.protocol == "AES67"@ && s.media_type == "audio"@ && s.dst_ip == Some(dst)
                && s.dst_port == port && s.packets == 0
            &&& s.is_multicast <==> dst.a == 239 && dst.b == 69
            &&& announcement(v.sdp_cache, dst, port, 0) is None ==> s.clock_uhz == 48_000_000_000
                && s.channels == 1 && s.sdp_name is None && !s.clock_hz_confirmed
            &&& announcement(v.sdp_cache, dst, port, 0) matches Some((name, m)) ==> s.sdp_name == Some(
                name,
            ) && (m.clock_uhz > 0 ==> s.clock_uhz == m.clock_uhz && s.clock_hz_confirmed)
        }),
{
}

/// A stream that was never seen is entered when its first packet comes.
pub proof fn law_streams_are_entered(
    v: StateView,
    src: Ipv4Addr,
    dst: Ipv4Addr,
    port: u16,
    pt: u8,
    t: St2110Type,
    p: Seq<u8>,
    pcp: Option<u8>,
    frame: u64,
    now: u64,
)
    ensures
        lookup(
            dispatched(
                v,
                AvProtocolView::Aes67 { src, dst, dst_port: port, payload_type: pt },
                p,
                pcp,
                frame,
                now,
            ).streams,
            "AES67 "@ + (dotted(dst) + ":"@ + dec(port as nat)),
        ) is Some,
        lookup(
            dispatched(
                v,
                AvProtocolView::St2110 { src, dst, dst_port: port, stream_type: t },
                p,
                pcp,
                frame,
                now,
            ).streams,
            "ST "@ + st2110_label(t) + " "@ + (dotted(dst) + ":"@ + dec(port as nat)),
        ) is Some,
        lookup(
            dispatched(
                v,
                AvProtocolView::Dante { kind: DanteKindView::AudioStream, src, dst, dst_port: port },
                p,
                pcp,
                frame,
                now,
            ).streams,
            "Dante "@ + dotted(src) + " → "@ + (dotted(dst) + ":"@ + dec(port as nat)),
        ) is Some,
{
    let s = crate::capture::handlers::found_or(
        v.streams,
        aes67_key(dst, port),
        new_aes67(v, dst, port, now),
    );
    let w = match datagram(p) {
        Some(d) => crate::capture::media::aes67_packet(s, d, pt, pcp, now),
        None => s,
    };
    lemma_put_lookup(v.streams, aes67_key(dst, port), w, aes67_key(dst, port));
    let s = crate::capture::handlers::found_or(
        v.streams,
        st2110_key(t, dst, port),
        new_st2110(v, t, dst, port, now),
    );
    let w = match datagram(p) {
        Some(d) => crate::capture::media::st2110_packet(s, t, d, pcp, now),
        None => s,
    };
    lemma_put_lookup(v.streams, st2110_key(t, dst, port), w, st2110_key(t, dst, port));
    let s = crate::capture::handlers::found_or(
        v.streams,
        dante_key(src, dst, port),
        new_dante(v, src, dst, port, now),
    );
    let w = crate::capture::media::dante_flow_after(
        s,
        datagram(p),
        lookup(v.dante.transmitter_class, src),
        now,
    );
    lemma_put_lookup(v.streams, dante_key(src, dst, port), w, dante_key(src, dst, port));
}

/// The first section that names the port, and the group unless it names none, is the
/// stream's.
pub proof fn law_sections_are_matched(m: SdpMediaView, rest: Seq<SdpMediaView>, dst: Ipv4Addr, port: u16)
    ensures
        ({
            let fits = m.port == port && (connection_address(m.connection) is None
                || connection_address(m.connection) == Some(dst));
            let all = seq![m] + rest;
            &&& fits ==> media_for(all, dst, port, 0) == Some(m)
            &&& !fits ==> media_for(all, dst, port, 0) == media_for(rest, dst, port, 0)
            &&& media_for(Seq::empty(), dst, port, 0) is None
        }),
{
    let all = seq![m] + rest;
    lemma_media_for_shift(m, rest, dst, port, 0);
    assert(all[0] == m);
}

proof fn lemma_media_for_shift(m: SdpMediaView, rest: Seq<SdpMediaView>, dst: Ipv4Addr, port: u16, i: int)
    requires
        0 <= i <= rest.len(),
    ensures
        media_for(seq![m] + rest, dst, port, i + 1) == media_for(rest, dst, port, i),
    decreases rest.len() - i,
{
    if i < rest.len() {
        lemma_media_for_shift(m, rest, dst, port, i + 1);
        assert((seq![m] + rest)[i + 1] == rest[i]);
    }
}

/// A stream is announced by the first session with a section for it.
pub proof fn law_sessions_are_matched(
    id: Seq<char>,
    s: SdpSessionView,
    rest: Seq<(Seq<char>, SdpSessionView)>,
    dst: Ipv4Addr,
    port: u16,
)
    ensures
        media_for(s.media, dst, port, 0) matches Some(m) ==> announcement(
            seq![(id, s)] + rest,
            dst,
            port,
            0,
        ) == Some((s.session_name, m)),
        media_for(s.media, dst, port, 0) is None ==> announcement(seq![(id, s)] + rest, dst, port, 0)
            == announcement(rest, dst, port, 0),
        announcement(Seq::<(Seq<char>, SdpSessionView)>::empty(), dst, port, 0) is None,
{
    lemma_announcement_shift(id, s, rest, dst, port, 0);
    assert((seq![(id, s)] + rest)[0] == (id, s));
}

proof fn lemma_announcement_shift(
    id: Seq<char>,
    s: SdpSessionView,
    rest: Seq<(Seq<char>, SdpSessionView)>,
    dst: Ipv4Addr,
    port: u16,
    i: int,
)
    requires
        0 <= i <= rest.len(),
    ensures
        announcement(seq![(id, s)] + rest, dst, port, i + 1) == announcement(rest, dst, port, i),
    decreases rest.len() - i,
{
    if i < rest.len() {
        lemma_announcement_shift(id, s, rest, dst, port, i + 1);
        assert((seq![(id, s)] + rest)[i + 1] == rest[i]);
    }
}

// ── ST 2110 ──────────────────────────────────────────────────────────────────

/// A packet of a known ST 2110 stream, as one of AES67, but that video may also be marked
/// CS5 or AF41.
pub proof fn law_st2110_packets(
    v: StateView,
    src: Ipv4Addr,
    dst: Ipv4Addr,
    port: u16,
    t: St2110Type,
    p: Seq<u8>,
    pcp: Option<u8>,
    frame: u64,
    now: u64,
    s: StreamView,
    other: Seq<char>,
)
    requires
        lookup(
            v.streams,
            "ST "@ + st2110_label(t) + " "@ + (dotted(dst) + ":"@ + dec(port as nat)),
        ) == Some(s),
        holds_datagram(p),
        s.packets < u64::MAX,
        s.dscp_violations < u64::MAX,
        s.pcp_violations < u64::MAX,
        s.pt_mismatches < u64::MAX,
    ensures
        ({
            let key = "ST "@ + st2110_label(t) + " "@ + (dotted(dst) + ":"@ + dec(port as nat));
            let q = AvProtocolView::St2110 { src, dst, dst_port: port, stream_type: t };
            let after = dispatched(v, q, p, pcp, frame, now);
            let b = carried(p);
            let dscp = p[1] / 4;
            let right = dscp == 46 || t is Video && (dscp == 40 || dscp == 34);
            &&& lookup(after.streams, key) matches Some(w) && {
                &&& w.packets == one_more(s.packets, is_rtp(b))
                &&& w.dscp_violations == one_more(s.dscp_violations, !right)
                &&& w.pcp_violations == one_more(s.pcp_violations, pcp is Some && pcp != Some(6u8))
                &&& w.pt_mismatches == one_more(
                    s.pt_mismatches,
                    is_rtp(b) && s.expected_pt is Some && s.expected_pt != Some((b[1] % 128) as u8),
                )
                &&& w.protocol == s.protocol && w.sdp_name == s.sdp_name && w.dst_ip == s.dst_ip
            }
            &&& other != key ==> lookup(after.streams, other) == lookup(v.streams, other)
            &&& after == (StateView {
                streams: after.streams,
                network_health: after.network_health,
                ..v
            })
            &&& raised(v, q, now).len() == 0
        }),
{
    lemma_datagram(p);
    let key = st2110_key(t, dst, port);
    let d = datagram(p).unwrap();
    let w = crate::capture::media::st2110_packet(s, t, d, pcp, now);
    lemma_put_lookup(v.streams, key, w, other);
    let b = carried(p);
    let right = d.dscp == 46 || t is Video && (d.dscp == 40 || d.dscp == 34);
    let a = crate::capture::media::with_payload_type(
        with_pcp(with_dscp(s, !right), pcp),
        (b[1] % 128) as u8,
    );
    law_packet_changes_nothing_else(
        a,
        (b[2] * 256 + b[3]) as u16,
        crate::parser::bytes::be32(b, 4),
        crate::parser::bytes::be32(b, 8),
        b.len() as u64,
        now,
    );
}

/// An ST 2110 stream is named for what it carries. Video has a clock of 90 kHz, which
/// needs no announcement, and the rest one of 48 kHz; unannounced audio comes every
/// millisecond.
pub proof fn law_new_st2110_streams(v: StateView, t: St2110Type, dst: Ipv4Addr, port: u16, now: u64)
    ensures
        ({
            let s = new_st2110(v, t, dst, port, now);
            let a = announcement(v.sdp_cache, dst, port, 0);
            let told = a matches Some((_, m)) && m.clock_uhz > 0;
            &&& s.protocol == (match t {
                St2110Type::Video => "2110-20"@,
                St2110Type::Audio => "2110-30"@,
                St2110Type::Ancdata => "2110-40"@,
                St2110Type::Unknown => "2110-??"@,
            })
            &&& s.media_type == (match t {
                St2110Type::Video => "video"@,
                St2110Type::Audio => "audio"@,
                St2110Type::Ancdata => "ancillary"@,
                St2110Type::Unknown => "unknown"@,
            })
            &&& s.dst_ip == Some(dst) && s.dst_port == port && s.packets == 0
            &&& s.is_multicast <==> dst.a == 239 && dst.b != 69
            &&& s.clock_hz_confirmed <==> told || t is Video
            &&& !told ==> s.clock_uhz == (if t is Video {
                90_000_000_000i64
            } else {
                48_000_000_000i64
            })
            &&& told ==> s.clock_uhz == a.unwrap().1.clock_uhz
            &&& !told && t is Audio ==> s.ptime_ns == 1_000_000
        }),
{
}

// ── Dante ────────────────────────────────────────────────────────────────────

/// A packet of a known Dante flow counts whether or not it is RTP. The flow keeps the first
/// marking and the lowest TTL that it was seen with.
pub proof fn law_dante_packets(
    v: StateView,
    src: Ipv4Addr,
    dst: Ipv4Addr,
    port: u16,
    p: Seq<u8>,
    pcp: Option<u8>,
    frame: u64,
    now: u64,
    s: StreamView,
    other: Seq<char>,
)
    requires
        lookup(
            v.streams,
            "Dante "@ + dotted(src) + " → "@ + (dotted(dst) + ":"@ + dec(port as nat)),
        ) == Some(s),
        holds_datagram(p),
        s.packets < u64::MAX,
        s.dscp_violations < u64::MAX,
    ensures
        ({
            let key = "Dante "@ + dotted(src) + " → "@ + (dotted(dst) + ":"@ + dec(port as nat));
            let q = AvProtocolView::Dante {
                kind: DanteKindView::AudioStream,
                src,
                dst,
                dst_port: port,
            };
            let after = dispatched(v, q, p, pcp, frame, now);
            let dscp = (p[1] / 4) as u8;
            let ttl = p[8];
            &&& lookup(after.streams, key) matches Some(w) && {
                let told = TransmitterSignals {
                    control_plane: lookup(v.dante.transmitter_class, src),
                    metronomic: regularity(w.iat_samples),
                    ttl: w.min_ttl,
                    dscp_zero: w.observed_dscp == Some(0u8),
                };
                &&& w.packets == s.packets + 1
                &&& w.last_packet_time == Some(now)
                &&& w.rtp_seen == (s.rtp_seen || is_rtp(carried(p)))
                &&& s.observed_dscp is None ==> w.observed_dscp == Some(dscp)
                &&& s.observed_dscp is Some ==> w.observed_dscp == s.observed_dscp
                &&& s.min_ttl is None ==> w.min_ttl == Some(ttl)
                &&& s.min_ttl matches Some(m) ==> w.min_ttl == Some(
                    if ttl < m {
                        ttl
                    } else {
                        m
                    },
                )
                &&& w.transmitter == verdict(told)
                &&& dscp == 46 ==> w.dscp_violations == s.dscp_violations
                &&& dscp != 46 && dscp != 0 ==> w.dscp_violations == s.dscp_violations + 1
                &&& dscp == 0 ==> w.dscp_violations == one_more(s.dscp_violations, !software(told))
                &&& w.protocol == s.protocol && w.sdp_name == s.sdp_name
            }
            &&& other != key ==> lookup(after.streams, other) == lookup(v.streams, other)
            &&& after == (StateView {
                streams: after.streams,
                network_health: after.network_health,
                ..v
            })
            &&& raised(v, q, now).len() == 0
        }),
{
    lemma_datagram(p);
    let key = dante_key(src, dst, port);
    let d = datagram(p).unwrap();
    let w = crate::capture::media::dante_flow_after(
        s,
        Some(d),
        lookup(v.dante.transmitter_class, src),
        now,
    );
    lemma_put_lookup(v.streams, key, w, other);
    let b = carried(p);
    let a = StreamView {
        observed_dscp: if s.observed_dscp is Some {
            s.observed_dscp
        } else {
            Some(d.dscp)
        },
        min_ttl: match s.min_ttl {
            Some(m) => if m <= d.ttl {
                Some(m)
            } else {
                Some(d.ttl)
            },
            None => Some(d.ttl),
        },
        ..s
    };
    law_packet_changes_nothing_else(
        a,
        (b[2] * 256 + b[3]) as u16,
        crate::parser::bytes::be32(b, 4),
        crate::parser::bytes::be32(b, 8),
        b.len() as u64,
        now,
    );
}

/// A Dante flow is first seen with a packet time of a millisecond and a clock of 48 kHz,
/// and under the name of its sender where that is known.
pub proof fn law_new_dante_flows(v: StateView, src: Ipv4Addr, dst: Ipv4Addr, port: u16, now: u64)
    ensures
        ({
            let s = new_dante(v, src, dst, port, now);
            &&& s.protocol == "Dante"@ && s.src_ip == Some(src) && s.dst_ip == Some(dst) && s.dst_port
                == port
            &&& s.is_multicast <==> 224 <= dst.a <= 239
            &&& s.ptime_ns == 1_000_000 && s.clock_uhz == 48_000_000_000 && s.packets == 0
            &&& s.sdp_name == lookup(v.dante.names, src)
        }),
{
}

/// A marking of congestion counts once for the network, whatever stream it is of.
pub proof fn law_congestion_of_streams(
    v: StateView,
    q: AvProtocolView,
    p: Seq<u8>,
    pcp: Option<u8>,
    frame: u64,
    now: u64,
)
    requires
        q is Aes67 || q is St2110 || (q matches AvProtocolView::Dante { kind, .. } && kind
            is AudioStream),
        v.network_health.ecn_congestion_marks < u64::MAX,
    ensures
        dispatched(v, q, p, pcp, frame, now).network_health == (NetworkHealth {
            ecn_congestion_marks: one_more(
                v.network_health.ecn_congestion_marks,
                holds_datagram(p) && p[1] % 4 == 3,
            ) as u64,
            ..v.network_health
        }),
{
    lemma_datagram(p);
}

/// A device that was found becomes known, with its name, and its unnamed flows are named.
/// Our own addresses are no devices. Only a device that was not known is told of.
pub proof fn law_devices_are_found(
    v: StateView,
    name: Option<Seq<char>>,
    src: Ipv4Addr,
    dst: Ipv4Addr,
    port: u16,
    p: Seq<u8>,
    pcp: Option<u8>,
    frame: u64,
    now: u64,
    i: int,
)
    requires
        v.dante.sources.len() < 4096,
        0 <= i < v.streams.len(),
    ensures
        ({
            let q = AvProtocolView::Dante {
                kind: DanteKindView::Discovery { device_name: name },
                src,
                dst,
                dst_port: port,
            };
            let w = dispatched(v, q, p, pcp, frame, now);
            let s = v.streams[i].1;
            if v.local_ips.contains(src) {
                w == v && raised(v, q, now).len() == 0
            } else {
                &&& w.dante.sources.contains(src)
                &&& name is Some ==> lookup(w.dante.names, src) == name
                &&& name is None ==> w.dante.names == v.dante.names
                &&& w.dante.conmon == v.dante.conmon && w.dante.transmitter_class
                    == v.dante.transmitter_class && w.dante.unverified_windows
                    == v.dante.unverified_windows
                &&& w.streams.len() == v.streams.len() && w.streams[i].0 == v.streams[i].0
                &&& s.protocol == "Dante"@ && s.src_ip == Some(src) && s.sdp_name is None
                    ==> w.streams[i].1 == (StreamView { sdp_name: name, ..s })
                &&& s.protocol != "Dante"@ || s.src_ip != Some(src) || s.sdp_name is Some
                    ==> w.streams[i].1 == s
                &&& v.dante.sources.contains(src) ==> raised(v, q, now).len() == 0
                &&& !v.dante.sources.contains(src) ==> raised(v, q, now) == seq![
                    info(
                        "🔍 Dante discovered: "@ + dotted(src) + "  \""@ + (if name is Some {
                            name.unwrap()
                        } else {
                            "unknown device"@
                        }) + "\""@,
                    ),
                ]
            }
        }),
{
    crate::capture::ndi::law_sources_stay_bounded(v.dante.sources, src);
    if let Some(n) = name {
        lemma_put_lookup(v.dante.names, src, n, src);
    }
}

/// A monitoring frame is a sign of life of hardware, and gives its address and channels.
/// The channels stay where it tells none, and a device known for software stays so.
pub proof fn law_devices_are_monitored(
    v: StateView,
    mac: [u8; 6],
    channels: Option<u8>,
    src: Ipv4Addr,
    dst: Ipv4Addr,
    port: u16,
    p: Seq<u8>,
    pcp: Option<u8>,
    frame: u64,
    now: u64,
    other: Ipv4Addr,
)
    requires
        v.dante.sources.len() < 4096,
    ensures
        ({
            let q = AvProtocolView::Dante {
                kind: DanteKindView::ConMon { device_mac: mac, channels },
                src,
                dst,
                dst_port: port,
            };
            let w = dispatched(v, q, p, pcp, frame, now);
            let before = lookup(v.dante.conmon, src);
            &&& raised(v, q, now).len() == 0
            &&& v.local_ips.contains(src) ==> w == v
            &&& !v.local_ips.contains(src) ==> {
                &&& w.dante.sources.contains(src)
                &&& lookup(w.dante.conmon, src) matches Some(d) && d.mac == mac && d.last_seen == now && (
                channels is Some ==> d.channels == channels) && (channels is None && before is Some
                    ==> d.channels == before.unwrap().channels) && (before is None ==> d.packets == 1
                    && d.channels == channels) && (before is Some && before.unwrap().packets < u64::MAX
                    ==> d.packets == before.unwrap().packets + 1)
                &&& lookup(v.dante.transmitter_class, src) is None ==> lookup(
                    w.dante.transmitter_class,
                    src,
                ) == Some(TransmitterClass::Hardware)
                &&& lookup(v.dante.transmitter_class, src) is Some ==> lookup(
                    w.dante.transmitter_class,
                    src,
                ) == lookup(v.dante.transmitter_class, src)
                &&& other != src ==> lookup(w.dante.conmon, other) == lookup(v.dante.conmon, other)
                &&& w.dante.names == v.dante.names && w.streams == v.streams
            }
        }),
{
    crate::capture::ndi::law_sources_stay_bounded(v.dante.sources, src);
    let d = crate::capture::media::monitored(v.dante.conmon, src, mac, channels, now);
    lemma_put_lookup(v.dante.conmon, src, d, other);
    lemma_put_lookup(v.dante.transmitter_class, src, TransmitterClass::Hardware, src);
    crate::table::lemma_slot(v.dante.transmitter_class, src, 0);
}

/// Control traffic of a class makes its sender a device of that class; plain control
/// traffic tells nothing.
pub proof fn law_control_traffic_tells_the_class(
    v: StateView,
    class: TransmitterClass,
    src: Ipv4Addr,
    dst: Ipv4Addr,
    port: u16,
    p: Seq<u8>,
    pcp: Option<u8>,
    frame: u64,
    now: u64,
    other: Ipv4Addr,
)
    requires
        v.dante.sources.len() < 4096,
    ensures
        ({
            let q = AvProtocolView::Dante {
                kind: DanteKindView::ControlPlane { class },
                src,
                dst,
                dst_port: port,
            };
            let w = dispatched(v, q, p, pcp, frame, now);
            &&& raised(v, q, now).len() == 0
            &&& v.local_ips.contains(src) ==> w == v
            &&& !v.local_ips.contains(src) ==> {
                &&& w.dante.sources.contains(src)
                &&& !(class is Hardware) || lookup(v.dante.transmitter_class, src) is None ==> lookup(
                    w.dante.transmitter_class,
                    src,
                ) == Some(class)
                &&& other != src ==> lookup(w.dante.transmitter_class, other) == lookup(
                    v.dante.transmitter_class,
                    other,
                )
                &&& w.dante.names == v.dante.names && w.dante.conmon == v.dante.conmon && w.streams
                    == v.streams
            }
        }),
        dispatched(
            v,
            AvProtocolView::Dante { kind: DanteKindView::Control, src, dst, dst_port: port },
            p,
            pcp,
            frame,
            now,
        ) == v,
{
    crate::capture::ndi::law_sources_stay_bounded(v.dante.sources, src);
    lemma_put_lookup(v.dante.transmitter_class, src, class, other);
    crate::table::lemma_slot(v.dante.transmitter_class, src, 0);
}

/// Where there are 4096 devices, the one known longest gives way to a new one, with its
/// name and its class.
pub proof fn law_the_oldest_device_gives_way(v: StateView, name: Option<Seq<char>>, src: Ipv4Addr)
    requires
        v.dante.sources.len() == 4096,
        v.dante.sources.no_duplicates(),
        !v.dante.sources.contains(src),
        crate::table::distinct(v.dante.names),
        crate::table::distinct(v.dante.transmitter_class),
    ensures
        ({
            let w = crate::capture::dante::dante_with(v.dante, src, name);
            let oldest = v.dante.sources[0];
            &&& w.sources.len() == 4096
            &&& w.sources == v.dante.sources.skip(1).push(src)
            &&& lookup(w.names, oldest) is None
            &&& lookup(w.transmitter_class, oldest) is None
        }),
{
    let s = v.dante.sources;
    let w = crate::capture::dante::dante_with(v.dante, src, name);
    let oldest = s[0];
    assert(s.remove(0) =~= s.skip(1));
    assert(!s.skip(1).contains(src)) by {
        if s.skip(1).contains(src) {
            let i = choose|i: int| 0 <= i < s.skip(1).len() && s.skip(1)[i] == src;
            assert(s[i + 1] == src);
        }
    }
    assert(s.contains(oldest));
    crate::table::lemma_without_distinct(v.dante.names, oldest);
    crate::table::lemma_without_distinct(v.dante.transmitter_class, oldest);
    crate::table::lemma_slot(crate::table::without(v.dante.names, oldest), oldest, 0);
    crate::table::lemma_slot(crate::table::without(v.dante.transmitter_class, oldest), oldest, 0);
    if let Some(n) = name {
        lemma_put_lookup(crate::table::without(v.dante.names, oldest), src, n, oldest);
    }
}

} // verus!
