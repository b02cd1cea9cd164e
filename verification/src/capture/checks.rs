//! What is checked at the end of each window.

use vstd::prelude::*;

use crate::binary::{divide, lemma_over_bound, quotient, round, rounded};
use crate::capture::alert::{add_alerts, clock_kind, error, info, only, quiet, stream_clock_kind, warn, Alert, AlertView, MissingClock, MissingClockKind, MissingClockView};
use crate::capture::dante::{bridge_alerts, census_alerts, doubtful, ip_config_alerts, set_of};
use crate::capture::handlers::{in_use, session_in_use};
use crate::capture::igmp::{querier_alerts, queriers_compete, version_alerts};
use crate::capture::ptp::{conflicts, domains_checked, lost_alerts, PtpStateView};
use crate::capture::state::{CaptureState, StateView};
use crate::net::Ipv4Addr;
use crate::order::views;
use crate::parser::sdp::{lowercase, parse_ts_refclk, reference_clock};
use crate::protocols::{chosen, is_chosen, ProtocolChoice, SdpMediaView, SdpSession, SdpSessionView, PTP_VERSION_V1, PTP_VERSION_V2};
use crate::stats::health::{multicast_active, penalties, score, NetworkHealth};
use crate::stats::ptp::{gptp, PtpStats, PtpStatsView};
use crate::stats::stream::{StreamStats, StreamView};
use crate::stats::tcp::TcpStreamStats;
use crate::table::{lookup, KeySet, Table};
use crate::text::{dec, fixed, push_dec, push_fixed, same, texts};

verus! {

// ── Single checks ────────────────────────────────────────────────────────────

/// The alert on a querier that asks too seldom.
pub open spec fn interval_alerts(v: StateView) -> Seq<AlertView> {
    match v.network_health.igmp_query_interval_secs {
        Some(i) => if i > 60 {
            seq![
                info(
                    "ℹ IGMP query interval "@ + dec(i as nat)
                        + "s — Audinate recommends 30s for Dante networks; longer intervals slow multicast convergence after device join"@,
                ),
            ]
        } else {
            Seq::empty()
        },
        None => Seq::empty(),
    }
}

/// Whether any PTP message has been seen.
pub open spec fn ptp_seen(v: StateView) -> bool {
    exists|i: int| 0 <= i < v.ptp.domains.len() && (#[trigger] v.ptp.domains[i]).1.packets > 0
}

/// Whether devices are monitored but nothing else of theirs is seen.
pub open spec fn only_monitored(v: StateView) -> bool {
    v.dante.conmon.len() > 0 && v.dante.names.len() == 0 && !ptp_seen(v) && v.streams.len() == 0
        && v.avb.avtp_streams.len() == 0
}

/// For how many windows devices were only monitored.
pub open spec fn suspect_cycles(v: StateView) -> u32 {
    if only_monitored(v) {
        v.filter_unregistered_suspect_cycles.wrapping_add(1)
    } else {
        0
    }
}

/// The alert on a switch that drops multicast it does not know.
pub open spec fn filter_alerts(cycles: u32) -> Seq<AlertView> {
    if cycles >= 2 {
        seq![
            warn(
                "⚠ Dante devices detected via ConMon but no mDNS, PTP, or streams visible — check switch for \"Filter Unregistered Multicast\" or \"Block Unknown Multicast\" and disable it"@,
            ),
        ]
    } else {
        Seq::empty()
    }
}

/// The bytes of a window of five seconds in Mbps: what a second had, in millions.
pub open spec fn multicast_mbps(bytes: u64) -> Seq<char> {
    let (n, d) = quotient(rounded(bytes as nat) * 8, 5);
    let (m, e) = quotient(n, 1_000_000);
    fixed(m, d * e, 0)
}

fn push_multicast_mbps(s: &mut String, bytes: u64)
    requires
        bytes > 50_000_000,
    ensures
        final(s)@ == old(s)@ + multicast_mbps(bytes),
{
    let b: u128 = round(bytes as u128) * 8;
    let (n, d) = divide(b, 5);
    let (m, e) = divide(n, 1_000_000);
    proof {
        lemma_over_bound(n, 1_000_000, e);
        assert(d <= 0x1000_0000) by (nonlinear_arith)
            requires
                d == 1 || d * b <= 5 * 0x20_0000_0000_0000,
                b >= 300_000_000,
        ;
        assert(0 < d * e <= 0x1000_0000 * (1_000_000 * 0x20_0000_0000_0000)) by (nonlinear_arith)
            requires
                0 < d <= 0x1000_0000,
                0 < e <= 1_000_000 * 0x20_0000_0000_0000,
        ;
    }
    push_fixed(s, m, d * e, 0);
}

/// The alert on more than 80 Mbps of multicast without a querier. A window lasts
/// five seconds.
pub open spec fn bandwidth_alerts(v: StateView) -> Seq<AlertView> {
    if v.multicast_bytes_this_window > 50_000_000 && v.network_health.last_igmp_query is None {
        seq![
            warn(
                "⚠ Multicast bandwidth "@ + multicast_mbps(v.multicast_bytes_this_window)
                    + " Mbps exceeds 80 Mbps threshold — IGMP snooping required at this traffic level; enable querier on the switch"@,
            ),
        ]
    } else {
        Seq::empty()
    }
}

/// The alert on a snooping switch that keeps PTP away.
pub open spec fn snooping_alerts(v: StateView, offline: bool) -> Seq<AlertView> {
    if !offline && (v.dante.sources.len() > 0 || v.dante.conmon.len() > 0) && !ptp_seen(v)
        && v.network_health.last_igmp_query is None {
        seq![
            warn(
                "⚠ Dante devices found but no PTP clock and no IGMP querier — a snooping switch may be blocking PTP multicast (224.0.1.129); enable IGMP querier on the switch"@,
            ),
        ]
    } else {
        Seq::empty()
    }
}

/// How many streams there are.
pub open spec fn stream_count(v: StateView) -> u64 {
    (v.streams.len() as u64).wrapping_add(v.tcp_streams.len() as u64).wrapping_add(
        v.avb.avtp_streams.len() as u64,
    )
}

/// The average over the last three windows.
pub open spec fn average(h: Seq<u64>) -> nat {
    ((h[0] + h[1] + h[2]) / 3) as nat
}

/// The alert on more than twice as many streams as on average. It takes three
/// windows.
pub open spec fn count_alerts(v: StateView) -> Seq<AlertView> {
    let h = v.stream_count_history;
    if h.len() == 3 && average(h) > 0 && stream_count(v) > 2 * average(h) {
        seq![
            warn(
                "⚠ Stream count spike: "@ + dec(stream_count(v) as nat)
                    + " streams (avg last 3 windows: "@ + dec(average(h))
                    + ") — possible runaway multicast flood"@,
            ),
        ]
    } else {
        Seq::empty()
    }
}

/// The history with this window; the oldest of three leaves.
pub open spec fn counted_history(v: StateView) -> Seq<u64> {
    let h = v.stream_count_history;
    if h.len() == 3 {
        h.remove(0).push(stream_count(v))
    } else {
        h.push(stream_count(v))
    }
}

// ── Clocks ───────────────────────────────────────────────────────────────────

/// Whether any stream is of a protocol.
pub open spec fn has_protocol(t: Seq<(Seq<char>, StreamView)>, protocol: Seq<char>) -> bool {
    exists|i: int| 0 <= i < t.len() && (#[trigger] t[i]).1.protocol == protocol
}

/// Whether any stream of ST 2110 is there: one that needs version 2 and is not
/// AES67.
pub open spec fn has_st2110(t: Seq<(Seq<char>, StreamView)>) -> bool {
    exists|i: int|
        0 <= i < t.len() && clock_kind((#[trigger] t[i]).1.protocol) == Some(
            MissingClockKind::Ptpv2,
        ) && t[i].1.protocol != "AES67"@
}

/// Whether a domain over IP has a clock, of version 2 where that is asked for.
pub open spec fn has_clock(t: Seq<((u8, u8), PtpStatsView)>, v2: bool) -> bool {
    exists|i: int|
        0 <= i < t.len() && (#[trigger] t[i]).1.clock_valid && (!v2 || t[i].1.version
            == PTP_VERSION_V2) && !gptp(t[i].1)
}

/// Whether an AVB domain has a clock.
pub open spec fn has_gptp_clock(t: Seq<((u8, u8), PtpStatsView)>) -> bool {
    exists|i: int| 0 <= i < t.len() && (#[trigger] t[i]).1.clock_valid && gptp(t[i].1)
}

pub open spec fn aes67_active(v: StateView, e: Seq<ProtocolChoice>) -> bool {
    chosen(e, ProtocolChoice::AES67) && has_protocol(v.streams, "AES67"@)
}

pub open spec fn st2110_active(v: StateView, e: Seq<ProtocolChoice>) -> bool {
    chosen(e, ProtocolChoice::ST2110) && has_st2110(v.streams)
}

/// The protocols that miss a version 2 clock.
pub open spec fn v2_affected(aes67: bool, st2110: bool) -> Seq<Seq<char>> {
    if aes67 && st2110 {
        seq!["AES67"@, "ST2110"@]
    } else if aes67 {
        seq!["AES67"@]
    } else {
        seq!["ST2110"@]
    }
}

/// A missing clock, if its condition holds.
pub open spec fn missing_if(
    c: bool,
    kind: MissingClockKind,
    affected: Seq<Seq<char>>,
) -> Seq<MissingClockView> {
    if c {
        seq![MissingClockView { kind, affected }]
    } else {
        Seq::empty()
    }
}

/// The clocks that are missing: each is needed only by streams that were chosen
/// and seen.
pub open spec fn missing(v: StateView, e: Seq<ProtocolChoice>) -> Seq<MissingClockView> {
    missing_if(
        (aes67_active(v, e) || st2110_active(v, e)) && !has_clock(v.ptp.domains, true),
        MissingClockKind::Ptpv2,
        v2_affected(aes67_active(v, e), st2110_active(v, e)),
    ) + missing_if(
        chosen(e, ProtocolChoice::Dante) && has_protocol(v.streams, "Dante"@) && !has_clock(
            v.ptp.domains,
            false,
        ),
        MissingClockKind::Ptp,
        seq!["Dante"@],
    ) + missing_if(
        chosen(e, ProtocolChoice::AVB) && v.avb.avtp_streams.len() > 0 && !has_gptp_clock(
            v.ptp.domains,
        ),
        MissingClockKind::Gptp,
        seq!["AVB"@],
    )
}

/// Whether a clock over IP of a version was lost.
pub open spec fn clock_lost(t: Seq<((u8, u8), PtpStatsView)>, version: u8) -> bool {
    exists|i: int|
        0 <= i < t.len() && (#[trigger] t[i]).1.protocol_clock_lost && t[i].1.version == version
            && !gptp(t[i].1)
}

/// Whether a stream that needs a lost clock loses packets.
pub open spec fn suffers(s: StreamView, v1: bool, v2: bool) -> bool {
    s.lost_this_window > 0 && ((v1 && clock_kind(s.protocol) == Some(MissingClockKind::Ptp)) || (v2
        && clock_kind(s.protocol) == Some(MissingClockKind::Ptpv2)))
}

/// Whether a lost clock goes with lost packets.
pub open spec fn dropout(v: StateView) -> bool {
    exists|i: int|
        0 <= i < v.streams.len() && suffers(
            (#[trigger] v.streams[i]).1,
            clock_lost(v.ptp.domains, PTP_VERSION_V1),
            clock_lost(v.ptp.domains, PTP_VERSION_V2),
        )
}

/// The alert on a lost clock that goes with lost packets.
pub open spec fn dropout_alert(v: StateView) -> Option<AlertView> {
    if dropout(v) {
        Some(
            error(
                "❌ Clock sync failure — audio dropouts likely (PTP lost + stream loss detected)"@,
            ),
        )
    } else {
        None
    }
}

// ── NDI ──────────────────────────────────────────────────────────────────────

/// The bitrate of the TCP flows to or from an address.
pub open spec fn flow_rate(t: Seq<(Seq<char>, TcpStreamStats)>, ip: Ipv4Addr) -> u64
    decreases t.len(),
{
    if t.len() == 0 {
        0
    } else if t.last().1.src_ip == ip || t.last().1.dst_ip == ip {
        flow_rate(t.drop_last(), ip).wrapping_add(t.last().1.bitrate_bps)
    } else {
        flow_rate(t.drop_last(), ip)
    }
}

/// A stream with its bitrate summed, if it is NDI's.
pub open spec fn ndi_rated(s: StreamView, flows: Seq<(Seq<char>, TcpStreamStats)>) -> StreamView {
    match s.dst_ip {
        Some(ip) => if s.protocol == "NDI"@ {
            StreamView { bitrate_bps: flow_rate(flows, ip), ..s }
        } else {
            s
        },
        None => s,
    }
}

/// The streams with the bitrates of NDI's summed.
pub open spec fn all_rated(
    t: Seq<(Seq<char>, StreamView)>,
    flows: Seq<(Seq<char>, TcpStreamStats)>,
) -> Seq<(Seq<char>, StreamView)> {
    t.map_values(|e: (Seq<char>, StreamView)| (e.0, ndi_rated(e.1, flows)))
}

fn sum_flows(t: &Table<String, TcpStreamStats>, ip: Ipv4Addr) -> (r: u64)
    ensures
        r == flow_rate(t@, ip),
{
    let mut r: u64 = 0;
    let mut i: usize = 0;
    assert(t@.take(0) =~= Seq::empty());
    while i < t.len()
        invariant
            i <= t@.len(),
            r == flow_rate(t@.take(i as int), ip),
        decreases t@.len() - i,
    {
        assert(t@.take(i + 1).drop_last() =~= t@.take(i as int));
        let f: &TcpStreamStats = t.value_at(i);
        if f.src_ip == ip || f.dst_ip == ip {
            r = r.wrapping_add(f.bitrate_bps);
        }
        i += 1;
    }
    assert(t@.take(i as int) =~= t@);
    r
}

// ── Loops ────────────────────────────────────────────────────────────────────

fn any_protocol(t: &Table<String, StreamStats>, protocol: &str) -> (r: bool)
    ensures
        r == has_protocol(t@, protocol@),
{
    let mut i: usize = 0;
    while i < t.len()
        invariant
            i <= t@.len(),
            forall|j: int| 0 <= j < i ==> (#[trigger] t@[j]).1.protocol != protocol@,
        decreases t@.len() - i,
    {
        if same(t.value_at(i).protocol.as_str(), protocol) {
            assert(t@[i as int].1.protocol == protocol@);
            return true;
        }
        i += 1;
    }
    false
}

fn any_st2110(t: &Table<String, StreamStats>) -> (r: bool)
    ensures
        r == has_st2110(t@),
{
    let mut i: usize = 0;
    while i < t.len()
        invariant
            i <= t@.len(),
            forall|j: int|
                0 <= j < i ==> !(clock_kind((#[trigger] t@[j]).1.protocol) == Some(
                    MissingClockKind::Ptpv2,
                ) && t@[j].1.protocol != "AES67"@),
        decreases t@.len() - i,
    {
        let s: &StreamStats = t.value_at(i);
        if stream_clock_kind(s.protocol.as_str()) == Some(MissingClockKind::Ptpv2) && !same(
            s.protocol.as_str(),
            "AES67",
        ) {
            assert(t@[i as int].1.protocol != "AES67"@);
            return true;
        }
        i += 1;
    }
    false
}

fn any_clock(t: &Table<(u8, u8), PtpStats>, v2: bool) -> (r: bool)
    ensures
        r == has_clock(t@, v2),
{
    let mut i: usize = 0;
    while i < t.len()
        invariant
            i <= t@.len(),
            forall|j: int|
                0 <= j < i ==> !((#[trigger] t@[j]).1.clock_valid && (!v2 || t@[j].1.version
                    == PTP_VERSION_V2) && !gptp(t@[j].1)),
        decreases t@.len() - i,
    {
        let d: &PtpStats = t.value_at(i);
        if d.clock_valid && (!v2 || d.version == PTP_VERSION_V2) && d.is_ip_ptp_domain() {
            assert(t@[i as int].1.clock_valid);
            return true;
        }
        i += 1;
    }
    false
}

fn any_gptp_clock(t: &Table<(u8, u8), PtpStats>) -> (r: bool)
    ensures
        r == has_gptp_clock(t@),
{
    let mut i: usize = 0;
    while i < t.len()
        invariant
            i <= t@.len(),
            forall|j: int| 0 <= j < i ==> !((#[trigger] t@[j]).1.clock_valid && gptp(t@[j].1)),
        decreases t@.len() - i,
    {
        let d: &PtpStats = t.value_at(i);
        if d.clock_valid && d.is_gptp_domain() {
            assert(t@[i as int].1.clock_valid);
            return true;
        }
        i += 1;
    }
    false
}

fn any_lost(t: &Table<(u8, u8), PtpStats>, version: u8) -> (r: bool)
    ensures
        r == clock_lost(t@, version),
{
    let mut i: usize = 0;
    while i < t.len()
        invariant
            i <= t@.len(),
            forall|j: int|
                0 <= j < i ==> !((#[trigger] t@[j]).1.protocol_clock_lost && t@[j].1.version
                    == version && !gptp(t@[j].1)),
        decreases t@.len() - i,
    {
        let d: &PtpStats = t.value_at(i);
        if d.protocol_clock_lost && d.version == version && d.is_ip_ptp_domain() {
            assert(t@[i as int].1.protocol_clock_lost);
            return true;
        }
        i += 1;
    }
    false
}

fn push_missing(
    m: &mut Vec<MissingClock>,
    c: bool,
    kind: MissingClockKind,
    affected: Vec<String>,
)
    ensures
        views(final(m)@) == views(old(m)@) + missing_if(c, kind, texts(affected@)),
{
    if c {
        m.push(MissingClock { kind, affected });
    }
    assert(views(m@) =~= views(old(m)@) + missing_if(c, kind, texts(affected@)));
}

fn one_text(s: &str) -> (r: Vec<String>)
    ensures
        texts(r@) == seq![s@],
{
    let mut r: Vec<String> = Vec::new();
    r.push(String::from_str(s));
    assert(texts(r@) =~= seq![s@]);
    r
}

impl CaptureState {
    /// Whether multicast is in use: some multicast stream carries packets.
    pub fn has_active_multicast(&self) -> (r: bool)
        ensures
            r == multicast_active(self@.streams),
    {
        let mut i: usize = 0;
        while i < self.streams.len()
            invariant
                i <= self.streams@.len(),
                forall|j: int|
                    0 <= j < i ==> !((#[trigger] self.streams@[j]).1.is_multicast
                        && self.streams@[j].1.packets > 0),
            decreases self.streams@.len() - i,
        {
            let s: &StreamStats = self.streams.value_at(i);
            if s.is_multicast && s.packets > 0 {
                assert(self@.streams[i as int].1.is_multicast);
                return true;
            }
            i += 1;
        }
        false
    }

    /// Tells of a querier that asks too seldom, once two of its queries were seen.
    pub fn check_igmp_query_interval(&self) -> (r: Vec<Alert>)
        ensures
            views(r@) == interval_alerts(self@),
    {
        if let Some(i) = self.network_health.igmp_query_interval_secs {
            if i > 60 {
                let mut s: String = String::from_str("ℹ IGMP query interval ");
                push_dec(&mut s, i);
                s.append(
                    "s — Audinate recommends 30s for Dante networks; longer intervals slow multicast convergence after device join",
                );
                return only(Alert::info(s));
            }
        }
        quiet()
    }

    fn any_ptp(&self) -> (r: bool)
        ensures
            r == ptp_seen(self@),
    {
        let mut i: usize = 0;
        while i < self.ptp.domains.len()
            invariant
                i <= self.ptp.domains@.len(),
                forall|j: int| 0 <= j < i ==> (#[trigger] self.ptp.domains@[j]).1.packets == 0,
            decreases self.ptp.domains@.len() - i,
        {
            if self.ptp.domains.value_at(i).packets > 0 {
                assert(self@.ptp.domains[i as int].1.packets > 0);
                return true;
            }
            i += 1;
        }
        false
    }

    /// Tells of a switch that drops multicast it does not know: devices are
    /// monitored, which always gets through, and nothing else is seen for two
    /// windows.
    pub fn check_filter_unregistered_multicast(&mut self) -> (r: Vec<Alert>)
        ensures
            final(self)@ == (StateView {
                filter_unregistered_suspect_cycles: suspect_cycles(old(self)@),
                ..old(self)@
            }),
            views(r@) == filter_alerts(suspect_cycles(old(self)@)),
    {
        let suspect: bool = !self.dante.conmon.is_empty() && self.dante.names.is_empty()
            && !self.any_ptp() && self.streams.is_empty() && self.avb.avtp_streams.is_empty();
        self.filter_unregistered_suspect_cycles = if suspect {
            self.filter_unregistered_suspect_cycles.wrapping_add(1)
        } else {
            0
        };
        if self.filter_unregistered_suspect_cycles >= 2 {
            return only(
                Alert::warn(
                    String::from_str(
                        "⚠ Dante devices detected via ConMon but no mDNS, PTP, or streams visible — check switch for \"Filter Unregistered Multicast\" or \"Block Unknown Multicast\" and disable it",
                    ),
                ),
            );
        }
        quiet()
    }

    /// Tells of much multicast without a querier.
    pub fn check_high_multicast_bandwidth(&self) -> (r: Vec<Alert>)
        ensures
            views(r@) == bandwidth_alerts(self@),
    {
        let bytes: u64 = self.multicast_bytes_this_window;
        if bytes > 50_000_000 && self.network_health.last_igmp_query.is_none() {
            let mut s: String = String::from_str("⚠ Multicast bandwidth ");
            push_multicast_mbps(&mut s, bytes);
            s.append(
                " Mbps exceeds 80 Mbps threshold — IGMP snooping required at this traffic level; enable querier on the switch",
            );
            return only(Alert::warn(s));
        }
        quiet()
    }

    /// Tells of a snooping switch that keeps PTP away. A replayed file can not
    /// join groups, so it tells nothing there.
    pub fn check_igmp_snooping_blocking_ptp(&self, is_offline: bool) -> (r: Vec<Alert>)
        ensures
            views(r@) == snooping_alerts(self@, is_offline),
    {
        let devices: bool = !self.dante.sources.is_empty() || !self.dante.conmon.is_empty();
        if is_offline || !devices || self.any_ptp()
            || self.network_health.last_igmp_query.is_some() {
            return quiet();
        }
        only(
            Alert::warn(
                String::from_str(
                    "⚠ Dante devices found but no PTP clock and no IGMP querier — a snooping switch may be blocking PTP multicast (224.0.1.129); enable IGMP querier on the switch",
                ),
            ),
        )
    }

    /// Tells of a sudden growth in the number of streams, and remembers the number.
    pub fn check_stream_count_anomaly(&mut self) -> (r: Vec<Alert>)
        ensures
            final(self)@ == (StateView {
                stream_count_history: counted_history(old(self)@),
                ..old(self)@
            }),
            views(r@) == count_alerts(old(self)@),
    {
        let current: u64 = (self.streams.len() as u64).wrapping_add(
            self.tcp_streams.len() as u64,
        ).wrapping_add(self.avb.avtp_streams.len() as u64);
        let mut r: Vec<Alert> = quiet();
        if self.stream_count_history.len() == 3 {
            let total: u128 = self.stream_count_history[0] as u128 + self.stream_count_history[1]
                as u128 + self.stream_count_history[2] as u128;
            let average: u128 = total / 3;
            if average > 0 && current as u128 > 2 * average {
                let mut s: String = String::from_str("⚠ Stream count spike: ");
                push_dec(&mut s, current);
                s.append(" streams (avg last 3 windows: ");
                push_dec(&mut s, average as u64);
                s.append(") — possible runaway multicast flood");
                r = only(Alert::warn(s));
            }
            self.stream_count_history.remove(0);
        }
        self.stream_count_history.push(current);
        r
    }

    /// The clocks that streams need and that are not there.
    pub fn missing_ptp_clocks(&self, expanded: &[ProtocolChoice]) -> (r: Vec<MissingClock>)
        ensures
            views(r@) == missing(self@, expanded@),
    {
        let mut r: Vec<MissingClock> = Vec::new();
        let ghost none = views(r@);
        assert(none =~= Seq::empty());
        let aes67: bool = is_chosen(expanded, ProtocolChoice::AES67) && any_protocol(
            &self.streams,
            "AES67",
        );
        let st2110: bool = is_chosen(expanded, ProtocolChoice::ST2110) && any_st2110(
            &self.streams,
        );
        let mut affected: Vec<String> = Vec::new();
        if aes67 {
            affected.push(String::from_str("AES67"));
        }
        if st2110 || !aes67 {
            affected.push(String::from_str("ST2110"));
        }
        assert(texts(affected@) =~= v2_affected(aes67, st2110));
        push_missing(
            &mut r,
            (aes67 || st2110) && !any_clock(&self.ptp.domains, true),
            MissingClockKind::Ptpv2,
            affected,
        );
        push_missing(
            &mut r,
            is_chosen(expanded, ProtocolChoice::Dante) && any_protocol(&self.streams, "Dante")
                && !any_clock(&self.ptp.domains, false),
            MissingClockKind::Ptp,
            one_text("Dante"),
        );
        push_missing(
            &mut r,
            is_chosen(expanded, ProtocolChoice::AVB) && !self.avb.avtp_streams.is_empty()
                && !any_gptp_clock(&self.ptp.domains),
            MissingClockKind::Gptp,
            one_text("AVB"),
        );
        assert(views(r@) =~= missing(self@, expanded@));
        r
    }

    /// Tells of a lost clock that goes with lost packets of streams that need it,
    /// as one. Comes after the silence of the clocks was judged.
    pub fn check_clock_dropout_correlation(&self) -> (r: Option<Alert>)
        ensures
            match r {
                Some(a) => dropout_alert(self@) == Some(a@),
                None => dropout_alert(self@) is None,
            },
    {
        let v1: bool = any_lost(&self.ptp.domains, PTP_VERSION_V1);
        let v2: bool = any_lost(&self.ptp.domains, PTP_VERSION_V2);
        let mut i: usize = 0;
        while i < self.streams.len()
            invariant
                i <= self.streams@.len(),
                v1 == clock_lost(self@.ptp.domains, PTP_VERSION_V1),
                v2 == clock_lost(self@.ptp.domains, PTP_VERSION_V2),
                forall|j: int| 0 <= j < i ==> !suffers((#[trigger] self.streams@[j]).1, v1, v2),
            decreases self.streams@.len() - i,
        {
            let s: &StreamStats = self.streams.value_at(i);
            let kind: Option<MissingClockKind> = stream_clock_kind(s.protocol.as_str());
            if s.lost_this_window > 0 && ((v1 && kind == Some(MissingClockKind::Ptp)) || (v2 && kind
                == Some(MissingClockKind::Ptpv2))) {
                assert(suffers(self@.streams[i as int].1, v1, v2));
                return Some(
                    Alert::error(
                        String::from_str(
                            "❌ Clock sync failure — audio dropouts likely (PTP lost + stream loss detected)",
                        ),
                    ),
                );
            }
            i += 1;
        }
        None
    }

    /// Sums the bitrate of each NDI sender over its TCP flows.
    pub fn aggregate_ndi_bitrate(&mut self)
        ensures
            final(self)@ == (StateView {
                streams: all_rated(old(self)@.streams, old(self)@.tcp_streams),
                ..old(self)@
            }),
    {
        let ghost v = self@;
        let ghost want = all_rated(v.streams, v.tcp_streams);
        let mut i: usize = 0;
        while i < self.streams.len()
            invariant
                i <= v.streams.len(),
                self.streams@.len() == v.streams.len(),
                want == all_rated(v.streams, v.tcp_streams),
                self@ == (StateView { streams: self.streams@, ..v }),
                forall|j: int| 0 <= j < i ==> #[trigger] self.streams@[j] == want[j],
                forall|j: int|
                    i <= j < v.streams.len() ==> #[trigger] self.streams@[j] == v.streams[j],
            decreases v.streams.len() - i,
        {
            let mut rate: Option<u64> = None;
            let s: &StreamStats = self.streams.value_at(i);
            if let Some(ip) = s.dst_ip {
                if same(s.protocol.as_str(), "NDI") {
                    rate = Some(sum_flows(&self.tcp_streams, ip));
                }
            }
            if let Some(bps) = rate {
                let s: &mut StreamStats = self.streams.value_mut(i);
                s.bitrate_bps = bps;
            }
            i += 1;
        }
        assert(self.streams@ =~= want);
    }
}

// ── Announced clocks ─────────────────────────────────────────────────────────

/// The domain that an announcement speaks of: of version 2, else of version 1.
pub open spec fn claimed_domain(
    t: Seq<((u8, u8), PtpStatsView)>,
    domain: u8,
) -> Option<PtpStatsView> {
    match lookup(t, (domain, PTP_VERSION_V2)) {
        Some(d) => Some(d),
        None => lookup(t, (domain, PTP_VERSION_V1)),
    }
}

/// The alert on an announced clock that is not the one in use.
pub open spec fn claim_alerts(
    t: Seq<((u8, u8), PtpStatsView)>,
    name: Seq<char>,
    gm: Seq<char>,
    domain: u8,
) -> Seq<AlertView> {
    match claimed_domain(t, domain) {
        None => seq![
            warn(
                "⚠  SDP \""@ + name + "\" claims PTP domain "@ + dec(domain as nat)
                    + " but no PTP traffic detected"@,
            ),
        ],
        Some(d) => match d.last_grandmaster {
            Some(active) => if d.clock_valid && active != gm {
                seq![
                    warn(
                        "⚠  PTP grandmaster mismatch for SDP \""@ + name + "\": claims "@ + gm
                            + " (domain "@ + dec(domain as nat) + "), active is "@ + active,
                    ),
                ]
            } else {
                Seq::empty()
            },
            None => Seq::empty(),
        },
    }
}

/// The alerts on the clocks that media announce.
pub open spec fn media_claims(
    t: Seq<((u8, u8), PtpStatsView)>,
    name: Seq<char>,
    media: Seq<SdpMediaView>,
) -> Seq<AlertView>
    decreases media.len(),
{
    if media.len() == 0 {
        Seq::empty()
    } else {
        media_claims(t, name, media.drop_last()) + (match reference_clock(media.last().ts_refclk) {
            Some((id, domain)) => claim_alerts(t, name, lowercase(id), domain),
            None => Seq::empty(),
        })
    }
}

/// The alerts on the clocks that announcements in use name.
pub open spec fn refclk_alerts(
    v: StateView,
    cache: Seq<(Seq<char>, SdpSessionView)>,
) -> Seq<AlertView>
    decreases cache.len(),
{
    if cache.len() == 0 {
        Seq::empty()
    } else {
        let before = refclk_alerts(v, cache.drop_last());
        let s = cache.last().1;
        if in_use(v.streams, s) {
            before + media_claims(v.ptp.domains, s.session_name, s.media)
        } else {
            before
        }
    }
}

/// Holds an announced grandmaster against the one of its domain.
pub fn check_claim(
    domains: &Table<(u8, u8), PtpStats>,
    name: &str,
    gm: &str,
    domain: u8,
) -> (r: Vec<Alert>)
    ensures
        views(r@) == claim_alerts(domains@, name@, gm@, domain),
{
    let entry: Option<&PtpStats> = match domains.get(&(domain, PTP_VERSION_V2)) {
        Some(d) => Some(d),
        None => domains.get(&(domain, PTP_VERSION_V1)),
    };
    match entry {
        None => {
            let mut s: String = String::from_str("⚠  SDP \"");
            s.append(name);
            s.append("\" claims PTP domain ");
            push_dec(&mut s, domain as u64);
            s.append(" but no PTP traffic detected");
            only(Alert::warn(s))
        },
        Some(d) => {
            if let Some(active) = &d.last_grandmaster {
                if d.clock_valid && !same(active.as_str(), gm) {
                    let mut s: String = String::from_str("⚠  PTP grandmaster mismatch for SDP \"");
                    s.append(name);
                    s.append("\": claims ");
                    s.append(gm);
                    s.append(" (domain ");
                    push_dec(&mut s, domain as u64);
                    s.append("), active is ");
                    s.append(active.as_str());
                    return only(Alert::warn(s));
                }
            }
            quiet()
        },
    }
}

fn check_media_claims(domains: &Table<(u8, u8), PtpStats>, sdp: &SdpSession) -> (r: Vec<Alert>)
    ensures
        views(r@) == media_claims(domains@, sdp@.session_name, sdp@.media),
{
    let mut r: Vec<Alert> = quiet();
    let ghost media = sdp@.media;
    let mut i: usize = 0;
    assert(media.take(0) =~= Seq::empty());
    while i < sdp.media.len()
        invariant
            media == sdp@.media,
            media.len() == sdp.media@.len(),
            i <= media.len(),
            views(r@) == media_claims(domains@, sdp@.session_name, media.take(i as int)),
        decreases media.len() - i,
    {
        assert(media.take(i + 1).drop_last() =~= media.take(i as int));
        assert(media[i as int] == sdp.media@[i as int]@);
        match parse_ts_refclk(sdp.media[i].ts_refclk.as_str()) {
            Some((gm, domain)) => {
                add_alerts(
                    &mut r,
                    check_claim(domains, sdp.session_name.as_str(), gm.as_str(), domain),
                );
            },
            None => {
                assert(views(r@) + Seq::<AlertView>::empty() =~= views(r@));
            },
        }
        i += 1;
    }
    assert(media.take(i as int) =~= media);
    r
}

/// Holds the clocks that announcements name against those in use. Comes before
/// the window ends.
pub fn ts_refclk_alerts(state: &CaptureState) -> (r: Vec<Alert>)
    ensures
        views(r@) == refclk_alerts(state@, state@.sdp_cache),
{
    let mut r: Vec<Alert> = quiet();
    let ghost cache = state.sdp_cache@;
    let mut i: usize = 0;
    assert(cache.take(0) =~= Seq::empty());
    while i < state.sdp_cache.len()
        invariant
            cache == state.sdp_cache@,
            i <= cache.len(),
            views(r@) == refclk_alerts(state@, cache.take(i as int)),
        decreases cache.len() - i,
    {
        assert(cache.take(i + 1).drop_last() =~= cache.take(i as int));
        let sdp: &SdpSession = state.sdp_cache.value_at(i);
        if session_in_use(&state.streams, sdp) {
            add_alerts(&mut r, check_media_claims(&state.ptp.domains, sdp));
        }
        i += 1;
    }
    assert(cache.take(i as int) =~= cache);
    r
}

// ── End of a window ──────────────────────────────────────────────────────────

/// What the checks at the end of a window found.
#[derive(Debug)]
pub struct WindowChecks {
    pub missing_ptp: Vec<MissingClock>,
    pub dante_unverified: KeySet<Ipv4Addr>,
    pub ip_config_alerts: Vec<Alert>,
    pub conmon_bridge_alerts: Vec<Alert>,
    pub follower_census_alerts: Vec<Alert>,
    pub ptp_sync_alerts: Vec<Alert>,
    pub clock_dropout_alert: Option<Alert>,
    pub clock_alerts: Vec<Alert>,
    pub stream_count_alerts: Vec<Alert>,
    pub igmp_query_interval_alerts: Vec<Alert>,
    pub multiple_queriers_alerts: Vec<Alert>,
    pub version_mismatch_alerts: Vec<Alert>,
    pub filter_unregistered_alerts: Vec<Alert>,
    pub high_bandwidth_alerts: Vec<Alert>,
    pub igmp_snooping_ptp_alerts: Vec<Alert>,
}

/// What the checks found, in specifications.
pub struct ChecksView {
    pub missing_ptp: Seq<MissingClockView>,
    pub dante_unverified: Seq<Ipv4Addr>,
    pub ip_config_alerts: Seq<AlertView>,
    pub conmon_bridge_alerts: Seq<AlertView>,
    pub follower_census_alerts: Seq<AlertView>,
    pub ptp_sync_alerts: Seq<AlertView>,
    pub clock_dropout_alert: Option<AlertView>,
    pub clock_alerts: Seq<AlertView>,
    pub stream_count_alerts: Seq<AlertView>,
    pub igmp_query_interval_alerts: Seq<AlertView>,
    pub multiple_queriers_alerts: Seq<AlertView>,
    pub version_mismatch_alerts: Seq<AlertView>,
    pub filter_unregistered_alerts: Seq<AlertView>,
    pub high_bandwidth_alerts: Seq<AlertView>,
    pub igmp_snooping_ptp_alerts: Seq<AlertView>,
}

pub open spec fn opt_alert(a: Option<Alert>) -> Option<AlertView> {
    match a {
        Some(x) => Some(x@),
        None => None,
    }
}

impl View for WindowChecks {
    type V = ChecksView;

    open spec fn view(&self) -> ChecksView {
        ChecksView {
            missing_ptp: views(self.missing_ptp@),
            dante_unverified: self.dante_unverified@,
            ip_config_alerts: views(self.ip_config_alerts@),
            conmon_bridge_alerts: views(self.conmon_bridge_alerts@),
            follower_census_alerts: views(self.follower_census_alerts@),
            ptp_sync_alerts: views(self.ptp_sync_alerts@),
            clock_dropout_alert: opt_alert(self.clock_dropout_alert),
            clock_alerts: views(self.clock_alerts@),
            stream_count_alerts: views(self.stream_count_alerts@),
            igmp_query_interval_alerts: views(self.igmp_query_interval_alerts@),
            multiple_queriers_alerts: views(self.multiple_queriers_alerts@),
            version_mismatch_alerts: views(self.version_mismatch_alerts@),
            filter_unregistered_alerts: views(self.filter_unregistered_alerts@),
            high_bandwidth_alerts: views(self.high_bandwidth_alerts@),
            igmp_snooping_ptp_alerts: views(self.igmp_snooping_ptp_alerts@),
        }
    }
}

/// The state once the silence of the clocks was judged. The checks look at it.
pub open spec fn judged(v: StateView, now: u64) -> StateView {
    StateView { ptp: PtpStateView { domains: domains_checked(v.ptp.domains, now), ..v.ptp }, ..v }
}

/// The state after the checks: everything noted but the score.
pub open spec fn checked(v: StateView, now: u64) -> StateView {
    let w = judged(v, now);
    StateView {
        clock_dropout_correlated: dropout(w),
        stream_count_history: counted_history(w),
        filter_unregistered_suspect_cycles: suspect_cycles(w),
        network_health: NetworkHealth {
            multiple_queriers_this_window: w.network_health.multiple_queriers_this_window
                || queriers_compete(w.igmp, multicast_active(w.streams)),
            ..w.network_health
        },
        streams: all_rated(w.streams, w.tcp_streams),
        ..w
    }
}

/// The state at the end of a window: checked and scored.
pub open spec fn ended(v: StateView, now: u64) -> StateView {
    let w = checked(v, now);
    StateView {
        network_health: NetworkHealth {
            network_score: score(
                penalties(
                    w.network_health,
                    w.streams,
                    w.tcp_streams,
                    w.ptp.domains,
                    w.avb.msrp_state,
                    w.eee_ports.len(),
                    w.avb.avtp_streams,
                    now,
                ),
            ),
            ..w.network_health
        },
        ..w
    }
}

/// What the checks at the end of a window find.
pub open spec fn found(
    v: StateView,
    expanded: Seq<ProtocolChoice>,
    offline: bool,
    now: u64,
) -> ChecksView {
    let w = judged(v, now);
    ChecksView {
        missing_ptp: missing(w, expanded),
        dante_unverified: set_of(doubtful(w.dante)),
        ip_config_alerts: ip_config_alerts(w.dante),
        conmon_bridge_alerts: bridge_alerts(w.dante.names, w.dante.conmon, w.dante.conmon.len()),
        follower_census_alerts: census_alerts(w.dante, w.ptp),
        ptp_sync_alerts: conflicts(w.ptp.domains),
        clock_dropout_alert: dropout_alert(w),
        clock_alerts: lost_alerts(v.ptp.domains, now),
        stream_count_alerts: count_alerts(w),
        igmp_query_interval_alerts: interval_alerts(w),
        multiple_queriers_alerts: querier_alerts(w.igmp, multicast_active(w.streams)),
        version_mismatch_alerts: version_alerts(w.igmp),
        filter_unregistered_alerts: filter_alerts(suspect_cycles(w)),
        high_bandwidth_alerts: bandwidth_alerts(w),
        igmp_snooping_ptp_alerts: snooping_alerts(w, offline),
    }
}

impl CaptureState {
    /// Ends a window: judges the clocks, makes every check, and sets the score.
    /// What the checks look at is still there; [`CaptureState::reset_window`]
    /// comes after the report.
    pub fn end_of_window(&mut self, expanded: &[ProtocolChoice], is_offline: bool, now: u64) -> (r:
        WindowChecks)
        ensures
            final(self)@ == ended(old(self)@, now),
            r@ == found(old(self)@, expanded@, is_offline, now),
    {
        let ghost v = self@;
        let clock_alerts: Vec<Alert> = self.ptp.check_ptp_timeouts(now);
        let ghost w = self@;
        assert(w == judged(v, now));
        let clock_dropout_alert: Option<Alert> = self.check_clock_dropout_correlation();
        let ptp_sync_alerts: Vec<Alert> = self.ptp.check_ptp_sync_conflict();
        let igmp_query_interval_alerts: Vec<Alert> = self.check_igmp_query_interval();
        let version_mismatch_alerts: Vec<Alert> = self.igmp.check_version_mismatch();
        let high_bandwidth_alerts: Vec<Alert> = self.check_high_multicast_bandwidth();
        let igmp_snooping_ptp_alerts: Vec<Alert> = self.check_igmp_snooping_blocking_ptp(
            is_offline,
        );
        let missing_ptp: Vec<MissingClock> = self.missing_ptp_clocks(expanded);
        let dante_unverified: KeySet<Ipv4Addr> = self.dante.unverified();
        let ip_config_alerts: Vec<Alert> = self.dante.check_ip_config();
        let conmon_bridge_alerts: Vec<Alert> = self.dante.check_conmon_bridge();
        let follower_census_alerts: Vec<Alert> = self.dante.check_follower_census(&self.ptp);
        let multicast: bool = self.has_active_multicast();
        let multiple_queriers_alerts: Vec<Alert> = self.igmp.check_multiple_queriers(
            &mut self.network_health,
            multicast,
        );
        let filter_unregistered_alerts: Vec<Alert> = self.check_filter_unregistered_multicast();
        let stream_count_alerts: Vec<Alert> = self.check_stream_count_anomaly();
        self.clock_dropout_correlated = clock_dropout_alert.is_some();
        self.aggregate_ndi_bitrate();
        assert(self@ == checked(v, now));
        self.network_health.calculate_score(
            &self.streams,
            &self.tcp_streams,
            &self.ptp.domains,
            &self.avb.msrp_state,
            &self.eee_ports,
            &self.avb.avtp_streams,
            now,
        );
        WindowChecks {
            missing_ptp,
            dante_unverified,
            ip_config_alerts,
            conmon_bridge_alerts,
            follower_census_alerts,
            ptp_sync_alerts,
            clock_dropout_alert,
            clock_alerts,
            stream_count_alerts,
            igmp_query_interval_alerts,
            multiple_queriers_alerts,
            version_mismatch_alerts,
            filter_unregistered_alerts,
            high_bandwidth_alerts,
            igmp_snooping_ptp_alerts,
        }
    }
}

// ── Laws ─────────────────────────────────────────────────────────────────────

/// The history never holds more than three windows.
pub proof fn law_history_is_bounded(v: StateView)
    requires
        v.stream_count_history.len() <= 3,
    ensures
        counted_history(v).len() <= 3,
        counted_history(v).last() == stream_count(v),
{
}

/// Without any stream no clock is missing, whatever was chosen.
pub proof fn law_clocks_are_missed_only_where_needed(v: StateView, expanded: Seq<ProtocolChoice>)
    requires
        v.streams.len() == 0,
        v.avb.avtp_streams.len() == 0,
    ensures
        missing(v, expanded).len() == 0,
{
}

/// A lost clock alone, or lost packets alone, are no dropout.
pub proof fn law_dropouts_take_both(v: StateView)
    requires
        !(clock_lost(v.ptp.domains, PTP_VERSION_V1) || clock_lost(v.ptp.domains, PTP_VERSION_V2))
            || forall|i: int|
            0 <= i < v.streams.len() ==> (#[trigger] v.streams[i]).1.lost_this_window == 0,
    ensures
        dropout_alert(v) is None,
{
}

/// Ending a window drops nothing: every stream, flow, device and reservation is
/// still there for the report.
pub proof fn law_report_sees_the_window(v: StateView, now: u64)
    ensures
        ended(v, now).streams.len() == v.streams.len(),
        ended(v, now).tcp_streams == v.tcp_streams,
        ended(v, now).dante == v.dante,
        ended(v, now).avb == v.avb,
        ended(v, now).ptp.domains.len() == v.ptp.domains.len(),
        ended(v, now).bytes_this_window == v.bytes_this_window,
{
}

} // verus!
