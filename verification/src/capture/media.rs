//! What media packets do to the state: AES67, ST 2110, Dante, NDI and AVB.

use vstd::prelude::*;

use crate::capture::alert::{info, only, quiet, Alert, AlertView};
use crate::capture::dante::{dante_with, dante_with_class, DanteView};
use crate::capture::handlers::{announcement, datagram, ecn_seen, find_sdp_media, found_or, read_datagram, Datagram, DatagramView};
use crate::capture::state::{CaptureState, StateView};
use crate::net::{dotted, push_ip, Ipv4Addr};
use crate::order::views;
use crate::parser::{aes67_block, is_aes67_multicast, is_multicast, is_st2110_multicast, multicast, parse_rtp, rtp, st2110_block};
use crate::protocols::{classify_transmitter, hertz, is_software_ignoring_dscp, microhertz, software, verdict, DanteKind, DanteKindView, St2110Type, TransmitterClass, TransmitterSignals, DEFAULT_CLOCK_HZ};
use crate::scan::opt_text;
use crate::stats::avtp::ConmonDevice;
use crate::stats::stream::{fresh, regularity, updated, updated_non_rtp, with_pcp, with_sdp, StreamStats, StreamView};
use crate::table::{lookup, put, Table};
use crate::text::{dec, push_dec, same};

verus! {

/// An address and a port.
pub open spec fn endpoint(ip: Ipv4Addr, port: u16) -> Seq<char> {
    dotted(ip) + ":"@ + dec(port as nat)
}

/// Appends an address and a port.
pub fn push_endpoint(s: &mut String, ip: Ipv4Addr, port: u16)
    ensures
        final(s)@ == old(s)@ + endpoint(ip, port),
{
    push_ip(s, ip);
    s.append(":");
    push_dec(s, port as u64);
    assert(s@ =~= old(s)@ + endpoint(ip, port));
}

/// The stream after a marking other than expected.
pub open spec fn with_dscp(s: StreamView, wrong: bool) -> StreamView {
    if wrong {
        StreamView { dscp_violations: s.dscp_violations.wrapping_add(1), ..s }
    } else {
        s
    }
}

/// The stream after a payload type, which may not be the announced one.
pub open spec fn with_payload_type(s: StreamView, pt: u8) -> StreamView {
    match s.expected_pt {
        Some(e) => if e != pt {
            StreamView { pt_mismatches: s.pt_mismatches.wrapping_add(1), ..s }
        } else {
            s
        },
        None => s,
    }
}

/// The stream after an RTP payload, if it is one.
pub open spec fn with_rtp(s: StreamView, payload: Seq<u8>, pt: u8, now: u64) -> StreamView {
    match rtp(payload) {
        Some((seq, ts, ssrc)) => updated(
            with_payload_type(s, pt),
            seq,
            ts,
            ssrc,
            payload.len() as u64,
            now,
        ),
        None => s,
    }
}

fn count_rtp(s: &mut StreamStats, payload: &Vec<u8>, pt: u8, now: u64)
    ensures
        final(s)@ == with_rtp(old(s)@, payload@, pt, now),
{
    if let Some((seq, ts, ssrc)) = parse_rtp(payload.as_slice()) {
        if let Some(e) = s.expected_pt {
            if e != pt {
                s.pt_mismatches = s.pt_mismatches.wrapping_add(1);
            }
        }
        s.update(seq, ts, ssrc, payload.len(), now);
    }
}

// ── AES67 ────────────────────────────────────────────────────────────────────

/// The key of an AES67 stream.
pub open spec fn aes67_key(dst: Ipv4Addr, port: u16) -> Seq<char> {
    "AES67 "@ + endpoint(dst, port)
}

/// The stream with the remembered announcement for it.
pub open spec fn announced(
    s: StreamView,
    a: Option<(Seq<char>, crate::protocols::SdpMediaView)>,
) -> StreamView {
    match a {
        Some((name, m)) => with_sdp(s, m, name),
        None => s,
    }
}

/// A new AES67 stream.
pub open spec fn new_aes67(v: StateView, dst: Ipv4Addr, port: u16, now: u64) -> StreamView {
    announced(
        StreamView {
            is_multicast: aes67_block(dst),
            dst_ip: Some(dst),
            dst_port: port,
            media_type: "audio"@,
            channels: 1,
            ..fresh("AES67"@, microhertz(DEFAULT_CLOCK_HZ), now)
        },
        announcement(v.sdp_cache, dst, port, 0),
    )
}

/// An AES67 stream after a datagram, which should be marked EF.
pub open spec fn aes67_packet(
    s: StreamView,
    d: DatagramView,
    pt: u8,
    pcp: Option<u8>,
    now: u64,
) -> StreamView {
    with_rtp(with_pcp(with_dscp(s, d.dscp != 46), pcp), d.payload, pt, now)
}

/// The state after an AES67 packet.
pub open spec fn aes67_state(
    v: StateView,
    dst: Ipv4Addr,
    port: u16,
    pt: u8,
    p: Seq<u8>,
    pcp: Option<u8>,
    now: u64,
) -> StateView {
    let s = found_or(v.streams, aes67_key(dst, port), new_aes67(v, dst, port, now));
    StateView {
        streams: put(
            v.streams,
            aes67_key(dst, port),
            match datagram(p) {
                Some(d) => aes67_packet(s, d, pt, pcp, now),
                None => s,
            },
        ),
        network_health: ecn_seen(v.network_health, datagram(p)),
        ..v
    }
}

// ── ST 2110 ──────────────────────────────────────────────────────────────────

/// The label of an ST 2110 stream.
pub open spec fn st2110_label(t: St2110Type) -> Seq<char> {
    match t {
        St2110Type::Video => "2110-20"@,
        St2110Type::Audio => "2110-30"@,
        St2110Type::Ancdata => "2110-40"@,
        St2110Type::Unknown => "2110-??"@,
    }
}

fn label_of(t: St2110Type) -> (s: &'static str)
    ensures
        s@ == st2110_label(t),
{
    match t {
        St2110Type::Video => "2110-20",
        St2110Type::Audio => "2110-30",
        St2110Type::Ancdata => "2110-40",
        St2110Type::Unknown => "2110-??",
    }
}

/// What an ST 2110 stream carries, in text.
pub open spec fn st2110_media(t: St2110Type) -> Seq<char> {
    match t {
        St2110Type::Video => "video"@,
        St2110Type::Audio => "audio"@,
        St2110Type::Ancdata => "ancillary"@,
        St2110Type::Unknown => "unknown"@,
    }
}

fn media_of(t: St2110Type) -> (s: &'static str)
    ensures
        s@ == st2110_media(t),
{
    match t {
        St2110Type::Video => "video",
        St2110Type::Audio => "audio",
        St2110Type::Ancdata => "ancillary",
        St2110Type::Unknown => "unknown",
    }
}

/// The key of an ST 2110 stream.
pub open spec fn st2110_key(t: St2110Type, dst: Ipv4Addr, port: u16) -> Seq<char> {
    "ST "@ + st2110_label(t) + " "@ + endpoint(dst, port)
}

/// The clock rate of video.
pub const VIDEO_CLOCK_HZ: u32 = 90_000;

/// A new ST 2110 stream. The clock rate of video is fixed; audio without an
/// announcement is taken to come every millisecond.
pub open spec fn new_st2110(
    v: StateView,
    t: St2110Type,
    dst: Ipv4Addr,
    port: u16,
    now: u64,
) -> StreamView {
    let a = announcement(v.sdp_cache, dst, port, 0);
    let confirmed = a matches Some((_, m)) && m.clock_uhz > 0;
    let s = announced(
        StreamView {
            is_multicast: st2110_block(dst),
            dst_ip: Some(dst),
            dst_port: port,
            media_type: st2110_media(t),
            ..fresh(
                st2110_label(t),
                microhertz(
                    if t is Video {
                        VIDEO_CLOCK_HZ
                    } else {
                        DEFAULT_CLOCK_HZ
                    },
                ),
                now,
            )
        },
        a,
    );
    StreamView {
        clock_hz_confirmed: confirmed || t is Video,
        ptime_ns: if !confirmed && t is Audio {
            1_000_000
        } else {
            s.ptime_ns
        },
        ..s
    }
}

/// Whether a marking is right for an ST 2110 stream: EF, and for video also CS5
/// and AF41.
pub open spec fn st2110_marked(t: St2110Type, dscp: u8) -> bool {
    dscp == 46 || (t is Video && (dscp == 40 || dscp == 34))
}

/// An ST 2110 stream after a datagram.
pub open spec fn st2110_packet(
    s: StreamView,
    t: St2110Type,
    d: DatagramView,
    pcp: Option<u8>,
    now: u64,
) -> StreamView {
    with_rtp(
        with_pcp(with_dscp(s, !st2110_marked(t, d.dscp)), pcp),
        d.payload,
        (d.payload[1] % 128) as u8,
        now,
    )
}

/// The state after an ST 2110 packet.
pub open spec fn st2110_state(
    v: StateView,
    dst: Ipv4Addr,
    port: u16,
    t: St2110Type,
    p: Seq<u8>,
    pcp: Option<u8>,
    now: u64,
) -> StateView {
    let s = found_or(v.streams, st2110_key(t, dst, port), new_st2110(v, t, dst, port, now));
    StateView {
        streams: put(
            v.streams,
            st2110_key(t, dst, port),
            match datagram(p) {
                Some(d) => st2110_packet(s, t, d, pcp, now),
                None => s,
            },
        ),
        network_health: ecn_seen(v.network_health, datagram(p)),
        ..v
    }
}

// ── Dante ────────────────────────────────────────────────────────────────────

/// The key of a Dante flow. One device may send several flows from one port, so
/// both ends are in it.
pub open spec fn dante_key(src: Ipv4Addr, dst: Ipv4Addr, port: u16) -> Seq<char> {
    "Dante "@ + dotted(src) + " → "@ + endpoint(dst, port)
}

/// A new Dante flow, at a packet every millisecond.
pub open spec fn new_dante(
    v: StateView,
    src: Ipv4Addr,
    dst: Ipv4Addr,
    port: u16,
    now: u64,
) -> StreamView {
    StreamView {
        is_multicast: multicast(dst),
        dst_ip: Some(dst),
        dst_port: port,
        ptime_ns: 1_000_000,
        src_ip: Some(src),
        sdp_name: lookup(v.dante.names, src),
        ..fresh("Dante"@, microhertz(DEFAULT_CLOCK_HZ), now)
    }
}

/// A Dante flow after a datagram. What is not RTP is counted all the same.
pub open spec fn dante_packet(s: StreamView, d: DatagramView, now: u64) -> StreamView {
    let a = StreamView {
        observed_dscp: if s.observed_dscp is Some {
            s.observed_dscp
        } else {
            Some(d.dscp)
        },
        min_ttl: match s.min_ttl {
            Some(m) => if m <= d.ttl {
                Some(m)
            } else {
                Some(d.ttl)
            },
            None => Some(d.ttl),
        },
        ..s
    };
    match rtp(d.payload) {
        Some((seq, ts, ssrc)) => updated(a, seq, ts, ssrc, d.payload.len() as u64, now),
        None => updated_non_rtp(a, d.payload.len() as u64, now),
    }
}

/// What tells of the kind of transmitter of a flow.
pub open spec fn signals(s: StreamView, control: Option<TransmitterClass>) -> TransmitterSignals {
    TransmitterSignals {
        control_plane: control,
        metronomic: regularity(s.iat_samples),
        ttl: s.min_ttl,
        dscp_zero: s.observed_dscp == Some(0u8),
    }
}

/// Whether a marking is wrong for a Dante flow. Software that sends without one
/// does so by intent.
pub open spec fn dante_mismarked(dscp: u8, signals: TransmitterSignals) -> bool {
    dscp != 46 && !(dscp == 0 && software(signals))
}

/// A Dante flow after a packet that may hold a datagram.
pub open spec fn dante_flow_after(
    s: StreamView,
    d: Option<DatagramView>,
    control: Option<TransmitterClass>,
    now: u64,
) -> StreamView {
    let a = match d {
        Some(x) => dante_packet(s, x, now),
        None => s,
    };
    let sig = signals(a, control);
    let b = StreamView { transmitter: verdict(sig), ..a };
    match d {
        Some(x) => with_dscp(b, dante_mismarked(x.dscp, sig)),
        None => b,
    }
}

/// The state after a packet of a Dante flow.
pub open spec fn dante_audio_state(
    v: StateView,
    src: Ipv4Addr,
    dst: Ipv4Addr,
    port: u16,
    p: Seq<u8>,
    now: u64,
) -> StateView {
    let key = dante_key(src, dst, port);
    let s = found_or(v.streams, key, new_dante(v, src, dst, port, now));
    StateView {
        streams: put(
            v.streams,
            key,
            dante_flow_after(s, datagram(p), lookup(v.dante.transmitter_class, src), now),
        ),
        network_health: ecn_seen(v.network_health, datagram(p)),
        ..v
    }
}

/// The flows of a device with the name it was just found under. A name is given
/// once.
pub open spec fn flows_named(
    t: Seq<(Seq<char>, StreamView)>,
    src: Ipv4Addr,
    name: Seq<char>,
) -> Seq<(Seq<char>, StreamView)> {
    t.map_values(
        |e: (Seq<char>, StreamView)|
            (
                e.0,
                if e.1.protocol == "Dante"@ && e.1.src_ip == Some(src) && e.1.sdp_name is None {
                    StreamView { sdp_name: Some(name), ..e.1 }
                } else {
                    e.1
                },
            ),
    )
}

/// The state after a device announced itself.
pub open spec fn dante_found_state(
    v: StateView,
    src: Ipv4Addr,
    name: Option<Seq<char>>,
) -> StateView {
    if v.local_ips.contains(src) {
        v
    } else {
        StateView {
            dante: dante_with(v.dante, src, name),
            streams: match name {
                Some(n) => flows_named(v.streams, src, n),
                None => v.streams,
            },
            ..v
        }
    }
}

/// The alert on a device that announced itself for the first time.
pub open spec fn dante_found_alerts(
    v: StateView,
    src: Ipv4Addr,
    name: Option<Seq<char>>,
) -> Seq<AlertView> {
    if v.local_ips.contains(src) || v.dante.sources.contains(src) {
        Seq::empty()
    } else {
        seq![
            info(
                "🔍 Dante discovered: "@ + dotted(src) + "  \""@ + (match name {
                    Some(n) => n,
                    None => "unknown device"@,
                }) + "\""@,
            ),
        ]
    }
}

/// A monitored device after a monitoring packet.
pub open spec fn monitored(
    t: Seq<(Ipv4Addr, ConmonDevice)>,
    src: Ipv4Addr,
    mac: [u8; 6],
    channels: Option<u8>,
    now: u64,
) -> ConmonDevice {
    let d = found_or(t, src, ConmonDevice { mac, channels: None, packets: 0, last_seen: now });
    ConmonDevice {
        mac,
        channels: if channels is Some {
            channels
        } else {
            d.channels
        },
        packets: d.packets.wrapping_add(1),
        last_seen: now,
    }
}

/// The state after a monitoring packet, which only hardware sends.
pub open spec fn conmon_state(
    v: StateView,
    src: Ipv4Addr,
    mac: [u8; 6],
    channels: Option<u8>,
    now: u64,
) -> StateView {
    if v.local_ips.contains(src) {
        v
    } else {
        let d = DanteView {
            conmon: put(v.dante.conmon, src, monitored(v.dante.conmon, src, mac, channels, now)),
            ..v.dante
        };
        StateView {
            dante: dante_with_class(dante_with(d, src, None), src, TransmitterClass::Hardware),
            ..v
        }
    }
}

/// The state after control traffic that gives a transmitter away.
pub open spec fn control_plane_state(
    v: StateView,
    src: Ipv4Addr,
    class: TransmitterClass,
) -> StateView {
    if v.local_ips.contains(src) {
        v
    } else {
        StateView { dante: dante_with_class(dante_with(v.dante, src, None), src, class), ..v }
    }
}

/// The state after a Dante packet.
pub open spec fn dante_state(
    v: StateView,
    kind: DanteKindView,
    src: Ipv4Addr,
    dst: Ipv4Addr,
    port: u16,
    p: Seq<u8>,
    now: u64,
) -> StateView {
    match kind {
        DanteKindView::Discovery { device_name } => dante_found_state(v, src, device_name),
        DanteKindView::Control => v,
        DanteKindView::ConMon { device_mac, channels } => conmon_state(
            v,
            src,
            device_mac,
            channels,
            now,
        ),
        DanteKindView::ControlPlane { class } => control_plane_state(v, src, class),
        DanteKindView::AudioStream => dante_audio_state(v, src, dst, port, p, now),
    }
}

/// The alerts of a Dante packet.
pub open spec fn dante_alerts(v: StateView, kind: DanteKindView, src: Ipv4Addr) -> Seq<AlertView> {
    match kind {
        DanteKindView::Discovery { device_name } => dante_found_alerts(v, src, device_name),
        _ => Seq::empty(),
    }
}

fn name_flows(t: &mut Table<String, StreamStats>, src: Ipv4Addr, name: &str)
    ensures
        final(t)@ == flows_named(old(t)@, src, name@),
{
    let ghost all = t@;
    let ghost want = flows_named(all, src, name@);
    let mut i: usize = 0;
    while i < t.len()
        invariant
            i <= all.len(),
            t@.len() == all.len(),
            want == flows_named(all, src, name@),
            forall|j: int| 0 <= j < i ==> #[trigger] t@[j] == want[j],
            forall|j: int| i <= j < all.len() ==> #[trigger] t@[j] == all[j],
        decreases all.len() - i,
    {
        let s: &mut StreamStats = t.value_mut(i);
        if same(s.protocol.as_str(), "Dante") && s.src_ip == Some(src) && s.sdp_name.is_none() {
            s.sdp_name = Some(String::from_str(name));
        }
        i += 1;
    }
    assert(t@ =~= want);
}

fn dante_count(s: &mut StreamStats, d: &Datagram, now: u64)
    ensures
        final(s)@ == dante_packet(old(s)@, d@, now),
{
    if s.observed_dscp.is_none() {
        s.observed_dscp = Some(d.dscp);
    }
    s.min_ttl = match s.min_ttl {
        Some(m) => if m <= d.ttl {
            Some(m)
        } else {
            Some(d.ttl)
        },
        None => Some(d.ttl),
    };
    match parse_rtp(d.payload.as_slice()) {
        Some((seq, ts, ssrc)) => {
            s.update(seq, ts, ssrc, d.payload.len(), now);
        },
        None => {
            s.update_non_rtp(d.payload.len(), now);
        },
    }
}

fn dante_flow_step(
    s: &mut StreamStats,
    d: &Option<Datagram>,
    control: Option<TransmitterClass>,
    now: u64,
)
    ensures
        final(s)@ == dante_flow_after(
            old(s)@,
            match *d {
                Some(x) => Some(x@),
                None => None,
            },
            control,
            now,
        ),
{
    if let Some(x) = d {
        dante_count(s, x, now);
    }
    let sig: TransmitterSignals = TransmitterSignals {
        control_plane: control,
        metronomic: s.timing_metronomic(),
        ttl: s.min_ttl,
        dscp_zero: s.observed_dscp == Some(0),
    };
    s.transmitter = classify_transmitter(&sig);
    if let Some(x) = d {
        if x.dscp != 46 && !(x.dscp == 0 && is_software_ignoring_dscp(&sig)) {
            s.dscp_violations = s.dscp_violations.wrapping_add(1);
        }
    }
}

fn count_st2110(
    s: &mut StreamStats,
    stream_type: St2110Type,
    d: &Datagram,
    pcp: Option<u8>,
    now: u64,
)
    ensures
        final(s)@ == st2110_packet(old(s)@, stream_type, d@, pcp, now),
{
    let video: bool = stream_type == St2110Type::Video;
    if !(d.dscp == 46 || (video && (d.dscp == 40 || d.dscp == 34))) {
        s.dscp_violations = s.dscp_violations.wrapping_add(1);
    }
    s.apply_pcp_advisory(pcp);
    if d.payload.len() >= 12 {
        count_rtp(s, &d.payload, d.payload[1] % 128, now);
    }
}

impl CaptureState {
    fn see_ecn(&mut self, d: &Option<Datagram>)
        ensures
            final(self)@ == (StateView {
                network_health: ecn_seen(
                    old(self)@.network_health,
                    match *d {
                        Some(x) => Some(x@),
                        None => None,
                    },
                ),
                ..old(self)@
            }),
    {
        if let Some(x) = d {
            self.network_health.record_ecn_mark_if_congested(x.ecn);
        }
    }

    /// A packet of an AES67 stream.
    pub fn handle_aes67(
        &mut self,
        dst: Ipv4Addr,
        dst_port: u16,
        payload_type: u8,
        l2_payload: &[u8],
        pcp: Option<u8>,
        now: u64,
    )
        ensures
            final(self)@ == aes67_state(
                old(self)@,
                dst,
                dst_port,
                payload_type,
                l2_payload@,
                pcp,
                now,
            ),
    {
        let ghost v = self@;
        let mut key: String = String::from_str("AES67 ");
        push_endpoint(&mut key, dst, dst_port);
        let ghost id = key@;
        let i: usize = match self.streams.position(&key) {
            Some(i) => i,
            None => {
                let mut s: StreamStats = StreamStats::new_with_info(
                    "AES67",
                    hertz(DEFAULT_CLOCK_HZ),
                    is_aes67_multicast(dst),
                    dst,
                    dst_port,
                    now,
                );
                s.media_type = String::from_str("audio");
                s.channels = 1;
                if let Some((name, m)) = find_sdp_media(&self.sdp_cache, dst, dst_port) {
                    s.apply_sdp(m, name.as_str());
                }
                self.streams.push_new(key, s)
            },
        };
        let ghost base = found_or(v.streams, id, new_aes67(v, dst, dst_port, now));
        assert(self.streams@[i as int] == (id, base));
        let d: Option<Datagram> = read_datagram(l2_payload);
        let s: &mut StreamStats = self.streams.value_mut(i);
        if let Some(x) = &d {
            if x.dscp != 46 {
                s.dscp_violations = s.dscp_violations.wrapping_add(1);
            }
            s.apply_pcp_advisory(pcp);
            count_rtp(s, &x.payload, payload_type, now);
        }
        let ghost after = match datagram(l2_payload@) {
            Some(x) => aes67_packet(base, x, payload_type, pcp, now),
            None => base,
        };
        assert(self.streams@ =~= put(v.streams, id, after));
        self.see_ecn(&d);
    }

    fn start_st2110(&self, dst: Ipv4Addr, dst_port: u16, stream_type: St2110Type, now: u64) -> (r:
        StreamStats)
        ensures
            r@ == new_st2110(self@, stream_type, dst, dst_port, now),
    {
        let video: bool = stream_type == St2110Type::Video;
        let hz: u32 = if video {
            VIDEO_CLOCK_HZ
        } else {
            DEFAULT_CLOCK_HZ
        };
        let mut s: StreamStats = StreamStats::new_with_info(
            label_of(stream_type),
            hertz(hz),
            is_st2110_multicast(dst),
            dst,
            dst_port,
            now,
        );
        s.media_type = String::from_str(media_of(stream_type));
        let confirmed: bool = match find_sdp_media(&self.sdp_cache, dst, dst_port) {
            Some((name, m)) => s.apply_sdp(m, name.as_str()),
            None => false,
        };
        s.clock_hz_confirmed = confirmed || video;
        if !confirmed && stream_type == St2110Type::Audio {
            s.ptime_ns = 1_000_000;
        }
        s
    }

    /// A packet of an ST 2110 stream.
    pub fn handle_st2110(
        &mut self,
        dst: Ipv4Addr,
        dst_port: u16,
        stream_type: St2110Type,
        l2_payload: &[u8],
        pcp: Option<u8>,
        now: u64,
    )
        ensures
            final(self)@ == st2110_state(
                old(self)@,
                dst,
                dst_port,
                stream_type,
                l2_payload@,
                pcp,
                now,
            ),
    {
        let ghost v = self@;
        let mut key: String = String::from_str("ST ");
        key.append(label_of(stream_type));
        key.append(" ");
        push_endpoint(&mut key, dst, dst_port);
        let ghost id = key@;
        let i: usize = match self.streams.position(&key) {
            Some(i) => i,
            None => {
                let s: StreamStats = self.start_st2110(dst, dst_port, stream_type, now);
                self.streams.push_new(key, s)
            },
        };
        let ghost base = found_or(
            v.streams,
            id,
            new_st2110(v, stream_type, dst, dst_port, now),
        );
        assert(self.streams@[i as int] == (id, base));
        let d: Option<Datagram> = read_datagram(l2_payload);
        let s: &mut StreamStats = self.streams.value_mut(i);
        if let Some(x) = &d {
            count_st2110(s, stream_type, x, pcp, now);
        }
        let ghost after = match datagram(l2_payload@) {
            Some(x) => st2110_packet(base, stream_type, x, pcp, now),
            None => base,
        };
        assert(self.streams@ =~= put(v.streams, id, after));
        self.see_ecn(&d);
    }

    fn handle_dante_audio(
        &mut self,
        src: Ipv4Addr,
        dst: Ipv4Addr,
        dst_port: u16,
        l2_payload: &[u8],
        now: u64,
    )
        ensures
            final(self)@ == dante_audio_state(old(self)@, src, dst, dst_port, l2_payload@, now),
    {
        let ghost v = self@;
        let control: Option<TransmitterClass> = match self.dante.transmitter_class.get(&src) {
            Some(c) => Some(*c),
            None => None,
        };
        let mut key: String = String::from_str("Dante ");
        push_ip(&mut key, src);
        key.append(" → ");
        push_endpoint(&mut key, dst, dst_port);
        let ghost id = key@;
        let i: usize = match self.streams.position(&key) {
            Some(i) => i,
            None => {
                let mut s: StreamStats = StreamStats::new_with_info(
                    "Dante",
                    hertz(DEFAULT_CLOCK_HZ),
                    is_multicast(dst),
                    dst,
                    dst_port,
                    now,
                );
                s.ptime_ns = 1_000_000;
                s.src_ip = Some(src);
                s.sdp_name = match self.dante.names.get(&src) {
                    Some(n) => Some(n.clone()),
                    None => None,
                };
                self.streams.push_new(key, s)
            },
        };
        let ghost base = found_or(v.streams, id, new_dante(v, src, dst, dst_port, now));
        assert(self.streams@[i as int] == (id, base));
        let d: Option<Datagram> = read_datagram(l2_payload);
        let s: &mut StreamStats = self.streams.value_mut(i);
        dante_flow_step(s, &d, control, now);
        assert(self.streams@ =~= put(
            v.streams,
            id,
            dante_flow_after(
                base,
                datagram(l2_payload@),
                lookup(v.dante.transmitter_class, src),
                now,
            ),
        ));
        self.see_ecn(&d);
    }

    fn handle_dante_discovery(&mut self, src: Ipv4Addr, name: Option<String>) -> (r: Vec<Alert>)
        ensures
            final(self)@ == dante_found_state(old(self)@, src, opt_text(name)),
            views(r@) == dante_found_alerts(old(self)@, src, opt_text(name)),
    {
        if self.local_ips.contains(&src) {
            return quiet();
        }
        let new: bool = self.dante.record_source(src, &name);
        if let Some(n) = &name {
            name_flows(&mut self.streams, src, n.as_str());
        }
        if !new {
            return quiet();
        }
        let mut s: String = String::from_str("🔍 Dante discovered: ");
        push_ip(&mut s, src);
        s.append("  \"");
        match &name {
            Some(n) => {
                s.append(n.as_str());
            },
            None => {
                s.append("unknown device");
            },
        }
        s.append("\"");
        only(Alert::info(s))
    }

    fn handle_conmon(&mut self, src: Ipv4Addr, mac: [u8; 6], channels: Option<u8>, now: u64)
        ensures
            final(self)@ == conmon_state(old(self)@, src, mac, channels, now),
    {
        if self.local_ips.contains(&src) {
            return;
        }
        let (packets, known) = match self.dante.conmon.get(&src) {
            Some(d) => (d.packets, d.channels),
            None => (0, None),
        };
        self.dante.conmon.insert(
            src,
            ConmonDevice {
                mac,
                channels: if channels.is_some() {
                    channels
                } else {
                    known
                },
                packets: packets.wrapping_add(1),
                last_seen: now,
            },
        );
        self.dante.record_source(src, &None);
        self.dante.record_tx_class(src, TransmitterClass::Hardware);
    }

    /// A Dante packet: a device is found or monitored, its kind is learned, or a
    /// flow goes on.
    pub fn handle_dante(
        &mut self,
        kind: DanteKind,
        src: Ipv4Addr,
        dst: Ipv4Addr,
        dst_port: u16,
        l2_payload: &[u8],
        now: u64,
    ) -> (r: Vec<Alert>)
        ensures
            final(self)@ == dante_state(
                old(self)@,
                kind@,
                src,
                dst,
                dst_port,
                l2_payload@,
                now,
            ),
            views(r@) == dante_alerts(old(self)@, kind@, src),
    {
        match kind {
            DanteKind::Discovery { device_name } => self.handle_dante_discovery(src, device_name),
            DanteKind::Control => quiet(),
            DanteKind::ConMon { device_mac, channels } => {
                self.handle_conmon(src, device_mac, channels, now);
                quiet()
            },
            DanteKind::ControlPlane { class } => {
                if !self.local_ips.contains(&src) {
                    self.dante.record_source(src, &None);
                    self.dante.record_tx_class(src, class);
                }
                quiet()
            },
            DanteKind::AudioStream => {
                self.handle_dante_audio(src, dst, dst_port, l2_payload, now);
                quiet()
            },
        }
    }
}

} // verus!
