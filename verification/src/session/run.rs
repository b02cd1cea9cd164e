//! When a session reports, what it reports, and when it ends.

use vstd::prelude::*;

use crate::capture::alert::Alert;
use crate::capture::checks::{ended, found, judged, refclk_alerts, ts_refclk_alerts, ChecksView, WindowChecks};
use crate::capture::dante::{doubtful, set_of, DanteView};
use crate::capture::dispatch::{frame_alerts, frame_state, process_packet};
use crate::capture::state::{state_reset, CaptureState, StateView};
use crate::net::Ipv4Addr;
use crate::order::views;
use crate::protocols::{ProtocolChoice, SECOND};
use crate::report::line::{alert_out, alerts_out, emit_alerts, no_output, Console, Output, OutputView};
use crate::report::print::{console_for, discovered, print_report, report_out, snapshot, ReportSession, ReportSnapshot, SnapshotView};
use crate::report::discovery::{no_flows, nothing_found};
use crate::stats::health::FULL_SCORE;
use crate::stats::stream::since;
use crate::text::prefixed;

verus! {

// ── The clock of a replay ────────────────────────────────────────────────────

/// When a replay reports: every five seconds of the capture's own time.
#[derive(Debug, Clone, Copy, PartialEq, Eq, Structural)]
pub struct OfflineReportClock {
    pub last_report_pcap: i64,
    pub initialized: bool,
}

impl Default for OfflineReportClock {
    fn default() -> (r: Self)
        ensures
            r == (OfflineReportClock { last_report_pcap: 0, initialized: false }),
    {
        OfflineReportClock { last_report_pcap: 0, initialized: false }
    }
}

/// Whether a packet of that time ends a window.
pub open spec fn window_over(c: OfflineReportClock, pkt_ts: i64) -> bool {
    c.initialized && pkt_ts - c.last_report_pcap >= 5
}

/// The clock after a packet of that time: the first packet and those that end a
/// window begin the next one.
pub open spec fn clock_after(c: OfflineReportClock, pkt_ts: i64) -> OfflineReportClock {
    if !c.initialized || window_over(c, pkt_ts) {
        OfflineReportClock { last_report_pcap: pkt_ts, initialized: true }
    } else {
        c
    }
}

impl OfflineReportClock {
    /// Whether a packet of that time, in seconds, ends a window.
    pub fn should_report(&mut self, pkt_ts: i64) -> (r: bool)
        ensures
            r == window_over(*old(self), pkt_ts),
            *final(self) == clock_after(*old(self), pkt_ts),
    {
        if !self.initialized {
            self.last_report_pcap = pkt_ts;
            self.initialized = true;
            return false;
        }
        if pkt_ts as i128 - self.last_report_pcap as i128 >= 5 {
            self.last_report_pcap = pkt_ts;
            return true;
        }
        false
    }
}

// ── A report ─────────────────────────────────────────────────────────────────

/// The alerts of a window that stand before its report. A clock lost together with
/// packets is told of once.
pub open spec fn alerts_before(
    c: Console,
    v: StateView,
    k: ChecksView,
) -> Seq<OutputView> {
    (match k.clock_dropout_alert {
        Some(a) => alert_out(c, a),
        None => alerts_out(c, k.clock_alerts),
    }) + alerts_out(c, k.stream_count_alerts) + alerts_out(c, k.igmp_query_interval_alerts)
        + alerts_out(c, k.multiple_queriers_alerts) + alerts_out(c, k.version_mismatch_alerts)
        + alerts_out(c, k.filter_unregistered_alerts) + alerts_out(c, k.high_bandwidth_alerts)
        + alerts_out(c, k.igmp_snooping_ptp_alerts) + alerts_out(
        c,
        refclk_alerts(v, v.sdp_cache),
    )
}

/// What a report at the end of a window shows.
pub open spec fn shown_at_end(
    v: StateView,
    expanded: Seq<ProtocolChoice>,
    offline: bool,
    pcap_stats: Option<(u32, u32, u32)>,
    now: u64,
) -> SnapshotView {
    snapshot(ended(v, now), found(v, expanded, offline, now), pcap_stats)
}

/// Everything that is put out at the end of a window.
pub open spec fn end_out(
    c: Console,
    v: StateView,
    expanded: Seq<ProtocolChoice>,
    offline: bool,
    pcap_stats: Option<(u32, u32, u32)>,
    session: ReportSession,
    timestamp: Seq<char>,
    now: u64,
) -> Seq<OutputView> {
    let i = shown_at_end(v, expanded, offline, pcap_stats, now);
    alerts_before(c, v, found(v, expanded, offline, now)) + report_out(
        console_for(c, i, session.quiet, now),
        i,
        session.no_flows_diagnostic_shown,
        timestamp,
        now,
    )
}

proof fn lemma_set_len(s: Seq<Ipv4Addr>)
    ensures
        set_of(s).len() <= s.len(),
    decreases s.len(),
{
    if s.len() > 0 {
        lemma_set_len(s.drop_last());
    }
}

proof fn lemma_filter_len(s: Seq<Ipv4Addr>, pred: spec_fn(Ipv4Addr) -> bool)
    ensures
        s.filter(pred).len() <= s.len(),
    decreases s.len(),
{
    reveal(Seq::filter);
    if s.len() > 0 {
        lemma_filter_len(s.drop_last(), pred);
    }
}

/// Devices in doubt are among the devices.
pub proof fn law_doubtful_are_devices(v: DanteView)
    ensures
        set_of(doubtful(v)).len() <= v.sources.len(),
{
    lemma_set_len(doubtful(v));
    lemma_filter_len(
        v.sources,
        |ip: Ipv4Addr|
            crate::capture::dante::windows_of(v.unverified_windows, ip)
                >= crate::capture::dante::UNVERIFIED_THRESHOLD,
    );
}

fn emit_before(out: &mut Vec<Output>, c: &Console, k: &WindowChecks, refclk: &Vec<Alert>, v: Ghost<
    StateView,
>)
    requires
        views(refclk@) == refclk_alerts(v@, v@.sdp_cache),
    ensures
        views(final(out)@) == views(old(out)@) + alerts_before(*c, v@, k@),
{
    let ghost before = views(out@);
    match &k.clock_dropout_alert {
        Some(a) => {
            out.push(Output::Print(crate::capture::alert::emitted(a, c.color)));
            out.push(Output::Log(a.message.clone()));
            assert(views(out@) =~= before + alert_out(*c, a@));
        },
        None => {
            emit_alerts(out, c, &k.clock_alerts);
        },
    }
    emit_alerts(out, c, &k.stream_count_alerts);
    emit_alerts(out, c, &k.igmp_query_interval_alerts);
    emit_alerts(out, c, &k.multiple_queriers_alerts);
    emit_alerts(out, c, &k.version_mismatch_alerts);
    emit_alerts(out, c, &k.filter_unregistered_alerts);
    emit_alerts(out, c, &k.high_bandwidth_alerts);
    emit_alerts(out, c, &k.igmp_snooping_ptp_alerts);
    emit_alerts(out, c, refclk);
    assert(views(out@) =~= before + alerts_before(*c, v@, k@));
}

/// Ends a window: makes its checks, sets its score, lays out its alerts and its
/// report, and starts the next window.
pub fn do_report(
    state: &mut CaptureState,
    expanded_protocols: &[ProtocolChoice],
    is_offline: bool,
    pcap_stats: Option<(u32, u32, u32)>,
    session: &mut ReportSession,
    console: &mut Console,
    timestamp: &str,
    now: u64,
) -> (out: Vec<Output>)
    ensures
        views(out@) == end_out(
            *old(console),
            old(state)@,
            expanded_protocols@,
            is_offline,
            pcap_stats,
            *old(session),
            timestamp@,
            now,
        ),
        final(state)@ == state_reset(ended(old(state)@, now), now),
        *final(session) == (ReportSession {
            no_flows_diagnostic_shown: old(session).no_flows_diagnostic_shown || {
                let d = discovered(
                    shown_at_end(old(state)@, expanded_protocols@, is_offline, pcap_stats, now),
                );
                !nothing_found(d) && no_flows(d)
            },
            ..*old(session)
        }),
        *final(console) == (Console { stdout: true, ..*old(console) }),
{
    let ghost v = state@;
    let refclk: Vec<Alert> = ts_refclk_alerts(state);
    let checks: WindowChecks = state.end_of_window(expanded_protocols, is_offline, now);
    let mut out: Vec<Output> = no_output();
    emit_before(&mut out, console, &checks, &refclk, Ghost(v));
    assert(views(out@) =~= alerts_before(*old(console), v, checks@));
    let ghost front = views(out@);
    {
        let snap: ReportSnapshot = ReportSnapshot::from_state(state, &checks, pcap_stats);
        proof {
            law_doubtful_are_devices(judged(v, now).dante);
        }
        let mut report: Vec<Output> = print_report(&snap, session, console, timestamp, now);
        let ghost added = report@;
        out.append(&mut report);
        assert(views(out@) =~= front + views(added));
    }
    state.reset_window(now);
    out
}

/// What the program exits with: a full score is success.
pub fn exit_code(network_score: u64) -> (r: i32)
    ensures
        r == if network_score >= FULL_SCORE {
            0i32
        } else {
            1i32
        },
{
    if network_score >= FULL_SCORE {
        0
    } else {
        1
    }
}

/// Tells of a capture that failed.
pub fn capture_error_text(error: &str) -> (s: String)
    ensures
        s@ == "❌ Capture error: "@ + error@ + " — exiting"@,
{
    let mut s: String = prefixed("❌ Capture error: ", error);
    s.append(" — exiting");
    s
}

// ── The session ──────────────────────────────────────────────────────────────

/// A session that runs. Times are in nanoseconds.
#[derive(Debug, Clone, Copy, PartialEq, Eq, Structural)]
pub struct Run {
    pub is_offline: bool,
    pub run_start: u64,
    pub last_report: u64,
    /// After how many seconds a live session stops.
    pub duration_secs: Option<u64>,
    pub offline_clock: OfflineReportClock,
}

/// Whether a live session has reported long enough ago.
pub open spec fn report_due(r: Run, now: u64) -> bool {
    !r.is_offline && since(now, r.last_report) > 5_000_000_000
}

/// Whether a live session has run its time.
pub open spec fn time_up(r: Run, now: u64) -> bool {
    !r.is_offline && match r.duration_secs {
        Some(secs) => since(now, r.run_start) / SECOND >= secs,
        None => false,
    }
}

impl Run {
    /// A session that starts now.
    pub fn start(is_offline: bool, duration_secs: Option<u64>, now: u64) -> (r: Self)
        ensures
            r == (Run {
                is_offline,
                run_start: now,
                last_report: now,
                duration_secs,
                offline_clock: OfflineReportClock { last_report_pcap: 0, initialized: false },
            }),
    {
        Run {
            is_offline,
            run_start: now,
            last_report: now,
            duration_secs,
            offline_clock: OfflineReportClock { last_report_pcap: 0, initialized: false },
        }
    }

    /// Whether a live session is to report before it waits for the next packet.
    pub fn is_report_due(&self, now: u64) -> (r: bool)
        ensures
            r == report_due(*self, now),
    {
        !self.is_offline && now.saturating_sub(self.last_report) > 5_000_000_000
    }

    /// Notes that a live session has reported. Where its time is up, the score
    /// decides what it exits with.
    pub fn reported(&mut self, network_score: u64, now: u64) -> (r: Option<i32>)
        ensures
            *final(self) == (Run { last_report: now, ..*old(self) }),
            r == if time_up(*old(self), now) {
                Some(
                    if network_score >= FULL_SCORE {
                        0i32
                    } else {
                        1i32
                    },
                )
            } else {
                None
            },
    {
        self.last_report = now;
        if self.is_offline {
            return None;
        }
        match self.duration_secs {
            Some(secs) => {
                if now.saturating_sub(self.run_start) / SECOND >= secs {
                    Some(exit_code(network_score))
                } else {
                    None
                }
            },
            None => None,
        }
    }

    /// Takes in a packet. What is too short for a frame is passed over. In a
    /// replay the packet's own time, in seconds, tells whether to report.
    pub fn on_packet(
        &mut self,
        state: &mut CaptureState,
        data: &[u8],
        pkt_ts: i64,
        expanded_protocols: &[ProtocolChoice],
        now: u64,
    ) -> (r: (Vec<Alert>, bool))
        ensures
            data@.len() < 14 ==> *final(self) == *old(self) && final(state)@ == old(state)@
                && r.0@.len() == 0 && !r.1,
            data@.len() >= 14 ==> {
                &&& final(state)@ == frame_state(old(state)@, data@, expanded_protocols@, now)
                &&& views(r.0@) == frame_alerts(old(state)@, data@, expanded_protocols@, now)
                &&& r.1 == (old(self).is_offline && window_over(old(self).offline_clock, pkt_ts))
                &&& *final(self) == (Run {
                    offline_clock: if old(self).is_offline {
                        clock_after(old(self).offline_clock, pkt_ts)
                    } else {
                        old(self).offline_clock
                    },
                    ..*old(self)
                })
            },
    {
        if data.len() < 14 {
            return (Vec::new(), false);
        }
        let alerts: Vec<Alert> = process_packet(state, data, expanded_protocols, now);
        let report: bool = if self.is_offline {
            self.offline_clock.should_report(pkt_ts)
        } else {
            false
        };
        (alerts, report)
    }
}

// ── Laws ─────────────────────────────────────────────────────────────────────

/// The first packet of a replay ends no window.
pub proof fn law_first_packet_reports_nothing(pkt_ts: i64)
    ensures
        !window_over(OfflineReportClock { last_report_pcap: 0, initialized: false }, pkt_ts),
{
}

/// Two reports of a replay are five seconds of capture time apart at least.
pub proof fn law_replay_windows_are_long(c: OfflineReportClock, first: i64, next: i64)
    requires
        window_over(c, first),
        window_over(clock_after(c, first), next),
    ensures
        next - first >= 5,
{
}

/// A live session that has just reported is not due again.
pub proof fn law_no_report_twice(r: Run, now: u64)
    ensures
        !report_due(Run { last_report: now, ..r }, now),
{
}

/// A lost clock that took packets with it is told of as one: no alert of its own
/// stands beside the common one.
pub proof fn law_dropout_is_told_once(c: Console, v: StateView, k: ChecksView)
    requires
        k.clock_dropout_alert is Some,
    ensures
        alerts_before(c, v, k) == alerts_before(
            c,
            v,
            ChecksView { clock_alerts: Seq::empty(), ..k },
        ),
{
}

} // verus!
