//! All that a capture has gathered.

use vstd::prelude::*;

use crate::capture::avb::{avb_reset, fresh_avb, within, AvbState, AvbView, STREAM_PRUNE_SECS};
use crate::capture::dante::{dante_reset, fresh_dante, DanteState, DanteView};
use crate::capture::igmp::{fresh_igmp, igmp_reset, IgmpState, IgmpStateView};
use crate::capture::ndi::{NdiState, NdiView};
use crate::capture::ptp::{fresh_ptp, ptp_reset, PtpState, PtpStateView};
use crate::net::Ipv4Addr;
use crate::protocols::{SdpSession, SdpSessionView, SECOND};
use crate::stats::health::{NetworkHealth, FULL_SCORE};
use crate::stats::stream::{StreamStats, StreamView};
use crate::stats::tcp::{StreamQuality, TcpStreamStats};
use crate::table::{lemma_picked_filter, KeySet, Table};

verus! {

/// All that a capture has gathered.
#[derive(Debug)]
pub struct CaptureState {
    pub streams: Table<String, StreamStats>,
    pub tcp_streams: Table<String, TcpStreamStats>,
    pub sdp_cache: Table<String, SdpSession>,
    pub network_health: NetworkHealth,
    pub dante: DanteState,
    pub ndi: NdiState,
    pub igmp: IgmpState,
    pub avb: AvbState,
    pub ptp: PtpState,
    /// Switch ports that save energy, by chassis and port, with their wake times.
    pub eee_ports: Table<(String, String), (u16, u16)>,
    pub bytes_this_window: u64,
    pub pause_frames_this_window: u64,
    pub pfc_frames_this_window: u64,
    pub packets_dispatched: u64,
    /// Groups that the caller is to join.
    pub pending_join_groups: Vec<Ipv4Addr>,
    /// Groups that the caller has joined.
    pub joined_multicast: KeySet<Ipv4Addr>,
    /// For how many windows devices were monitored but nothing else was seen.
    pub filter_unregistered_suspect_cycles: u32,
    pub multicast_bytes_this_window: u64,
    /// How many streams there were in the last three windows.
    pub stream_count_history: Vec<u64>,
    /// Our own addresses, which are no devices.
    pub local_ips: KeySet<Ipv4Addr>,
    /// Whether a lost clock and lost packets were told of as one in this window.
    pub clock_dropout_correlated: bool,
}

/// All that a capture has gathered, in specifications.
pub struct StateView {
    pub streams: Seq<(Seq<char>, StreamView)>,
    pub tcp_streams: Seq<(Seq<char>, TcpStreamStats)>,
    pub sdp_cache: Seq<(Seq<char>, SdpSessionView)>,
    pub network_health: NetworkHealth,
    pub dante: DanteView,
    pub ndi: NdiView,
    pub igmp: IgmpStateView,
    pub avb: AvbView,
    pub ptp: PtpStateView,
    pub eee_ports: Seq<((Seq<char>, Seq<char>), (u16, u16))>,
    pub bytes_this_window: u64,
    pub pause_frames_this_window: u64,
    pub pfc_frames_this_window: u64,
    pub packets_dispatched: u64,
    pub pending_join_groups: Seq<Ipv4Addr>,
    pub joined_multicast: Seq<Ipv4Addr>,
    pub filter_unregistered_suspect_cycles: u32,
    pub multicast_bytes_this_window: u64,
    pub stream_count_history: Seq<u64>,
    pub local_ips: Seq<Ipv4Addr>,
    pub clock_dropout_correlated: bool,
}

impl View for CaptureState {
    type V = StateView;

    open spec fn view(&self) -> StateView {
        StateView {
            streams: self.streams@,
            tcp_streams: self.tcp_streams@,
            sdp_cache: self.sdp_cache@,
            network_health: self.network_health,
            dante: self.dante@,
            ndi: self.ndi@,
            igmp: self.igmp@,
            avb: self.avb@,
            ptp: self.ptp@,
            eee_ports: self.eee_ports@,
            bytes_this_window: self.bytes_this_window,
            pause_frames_this_window: self.pause_frames_this_window,
            pfc_frames_this_window: self.pfc_frames_this_window,
            packets_dispatched: self.packets_dispatched,
            pending_join_groups: self.pending_join_groups@,
            joined_multicast: self.joined_multicast@,
            filter_unregistered_suspect_cycles: self.filter_unregistered_suspect_cycles,
            multicast_bytes_this_window: self.multicast_bytes_this_window,
            stream_count_history: self.stream_count_history@,
            local_ips: self.local_ips@,
            clock_dropout_correlated: self.clock_dropout_correlated,
        }
    }
}

/// Nothing gathered yet.
pub open spec fn fresh_state() -> StateView {
    StateView {
        streams: Seq::empty(),
        tcp_streams: Seq::empty(),
        sdp_cache: Seq::empty(),
        network_health: NetworkHealth {
            total_packets: 0,
            multicast_packets: 0,
            unicast_packets: 0,
            tcp_retransmissions: 0,
            network_score: FULL_SCORE,
            ecn_congestion_marks: 0,
            last_igmp_query: None,
            igmp_querier_ip: None,
            igmp_querier_mac: None,
            igmp_query_interval_secs: None,
            multiple_queriers_this_window: false,
        },
        dante: fresh_dante(),
        ndi: NdiView { sources: Seq::empty(), names: Seq::empty() },
        igmp: fresh_igmp(),
        avb: fresh_avb(),
        ptp: fresh_ptp(),
        eee_ports: Seq::empty(),
        bytes_this_window: 0,
        pause_frames_this_window: 0,
        pfc_frames_this_window: 0,
        packets_dispatched: 0,
        pending_join_groups: Seq::empty(),
        joined_multicast: Seq::empty(),
        filter_unregistered_suspect_cycles: 0,
        multicast_bytes_this_window: 0,
        stream_count_history: Seq::empty(),
        local_ips: Seq::empty(),
        clock_dropout_correlated: false,
    }
}

// ── Windows ──────────────────────────────────────────────────────────────────

/// A stream at the start of the next window.
pub open spec fn stream_reset(s: StreamView) -> StreamView {
    StreamView {
        gap_events: 0,
        max_iat_ns: 0,
        pt_mismatches: 0,
        dscp_violations: 0,
        pcp_violations: 0,
        ssrc_changes: 0,
        lost_this_window: 0,
        ts_discontinuities_this_window: 0,
        reorders_this_window: 0,
        packets_this_window: 0,
        ..s
    }
}

/// Whether a stream is kept: it never carried a packet, or not too long ago.
pub open spec fn stream_kept(s: StreamView, now: u64) -> bool {
    match s.last_packet_time {
        Some(t) => within(now, t, STREAM_PRUNE_SECS as nat),
        None => true,
    }
}

/// The streams, each at the start of the next window.
pub open spec fn all_reset(t: Seq<(Seq<char>, StreamView)>) -> Seq<(Seq<char>, StreamView)> {
    t.map_values(|e: (Seq<char>, StreamView)| (e.0, stream_reset(e.1)))
}

/// The streams that are kept.
pub open spec fn live_streams(
    t: Seq<(Seq<char>, StreamView)>,
    now: u64,
) -> Seq<(Seq<char>, StreamView)> {
    t.filter(|e: (Seq<char>, StreamView)| stream_kept(e.1, now))
}

/// Whether a TCP flow is kept: it has not ended, and was seen not too long ago.
pub open spec fn flow_kept(t: TcpStreamStats, now: u64) -> bool {
    within(now, t.last_seen, STREAM_PRUNE_SECS as nat) && !(t.stream_quality is Terminated)
}

/// The TCP flows that are kept.
pub open spec fn live_flows(
    t: Seq<(Seq<char>, TcpStreamStats)>,
    now: u64,
) -> Seq<(Seq<char>, TcpStreamStats)> {
    t.filter(|e: (Seq<char>, TcpStreamStats)| flow_kept(e.1, now))
}

/// The state at the start of the next window.
pub open spec fn state_reset(v: StateView, now: u64) -> StateView {
    let streams = live_streams(all_reset(v.streams), now);
    StateView {
        bytes_this_window: 0,
        pause_frames_this_window: 0,
        pfc_frames_this_window: 0,
        packets_dispatched: 0,
        network_health: NetworkHealth {
            ecn_congestion_marks: 0,
            tcp_retransmissions: 0,
            multiple_queriers_this_window: false,
            ..v.network_health
        },
        streams,
        tcp_streams: live_flows(v.tcp_streams, now),
        avb: avb_reset(v.avb, now),
        ptp: ptp_reset(v.ptp, now),
        dante: dante_reset(v.dante, streams, now),
        igmp: igmp_reset(v.igmp, now),
        multicast_bytes_this_window: 0,
        clock_dropout_correlated: false,
        ..v
    }
}

fn reset_streams(t: &mut Table<String, StreamStats>, now: u64)
    ensures
        final(t)@ == live_streams(all_reset(old(t)@), now),
{
    let ghost all = t@;
    let mut keep: Vec<bool> = Vec::new();
    let mut i: usize = 0;
    while i < t.len()
        invariant
            i <= all.len(),
            t@.len() == all.len(),
            keep@.len() == i,
            forall|j: int|
                0 <= j < i ==> #[trigger] t@[j] == (all[j].0, stream_reset(all[j].1)),
            forall|j: int| i <= j < all.len() ==> #[trigger] t@[j] == all[j],
            forall|j: int|
                0 <= j < i ==> #[trigger] keep@[j] == stream_kept(stream_reset(all[j].1), now),
        decreases all.len() - i,
    {
        let s: &mut StreamStats = t.value_mut(i);
        s.gap_events = 0;
        s.max_iat_ns = 0;
        s.pt_mismatches = 0;
        s.dscp_violations = 0;
        s.pcp_violations = 0;
        s.ssrc_changes = 0;
        s.lost_this_window = 0;
        s.ts_discontinuities_this_window = 0;
        s.reorders_this_window = 0;
        s.packets_this_window = 0;
        keep.push(
            match s.last_packet_time {
                Some(p) => now.saturating_sub(p) / SECOND < STREAM_PRUNE_SECS,
                None => true,
            },
        );
        i += 1;
    }
    assert(t@ =~= all_reset(all));
    t.retain(&keep);
    proof {
        lemma_picked_filter(
            all_reset(all),
            keep@,
            |e: (Seq<char>, StreamView)| stream_kept(e.1, now),
        );
    }
}

fn prune_flows(t: &mut Table<String, TcpStreamStats>, now: u64)
    ensures
        final(t)@ == live_flows(old(t)@, now),
{
    let ghost all = t@;
    let mut keep: Vec<bool> = Vec::new();
    let mut i: usize = 0;
    while i < t.len()
        invariant
            t@ == all,
            i <= all.len(),
            keep@.len() == i,
            forall|j: int| 0 <= j < i ==> #[trigger] keep@[j] == flow_kept(all[j].1, now),
        decreases all.len() - i,
    {
        let s: &TcpStreamStats = t.value_at(i);
        keep.push(
            now.saturating_sub(s.last_seen) / SECOND < STREAM_PRUNE_SECS && s.stream_quality
                != StreamQuality::Terminated,
        );
        i += 1;
    }
    t.retain(&keep);
    proof {
        lemma_picked_filter(
            all,
            keep@,
            |e: (Seq<char>, TcpStreamStats)| flow_kept(e.1, now),
        );
    }
}

impl CaptureState {
    /// Nothing gathered yet.
    pub fn new() -> (r: Self)
        ensures
            r@ == fresh_state(),
    {
        let r: Self = CaptureState {
            streams: Table::new(),
            tcp_streams: Table::new(),
            sdp_cache: Table::new(),
            network_health: NetworkHealth::new(),
            dante: DanteState::new(),
            ndi: NdiState::new(),
            igmp: IgmpState::new(),
            avb: AvbState::new(),
            ptp: PtpState::new(),
            eee_ports: Table::new(),
            bytes_this_window: 0,
            pause_frames_this_window: 0,
            pfc_frames_this_window: 0,
            packets_dispatched: 0,
            pending_join_groups: Vec::new(),
            joined_multicast: KeySet::new(),
            filter_unregistered_suspect_cycles: 0,
            multicast_bytes_this_window: 0,
            stream_count_history: Vec::new(),
            local_ips: KeySet::new(),
            clock_dropout_correlated: false,
        };
        assert(r@.pending_join_groups =~= Seq::empty());
        assert(r@.stream_count_history =~= Seq::empty());
        r
    }

    /// Starts the next window: counts of a window begin anew, and what has been
    /// silent for too long is dropped. Comes after the report.
    pub fn reset_window(&mut self, now: u64)
        ensures
            final(self)@ == state_reset(old(self)@, now),
    {
        self.bytes_this_window = 0;
        self.pause_frames_this_window = 0;
        self.pfc_frames_this_window = 0;
        self.packets_dispatched = 0;
        self.network_health.ecn_congestion_marks = 0;
        self.network_health.tcp_retransmissions = 0;
        reset_streams(&mut self.streams, now);
        prune_flows(&mut self.tcp_streams, now);
        self.avb.reset_window(now);
        self.ptp.reset_window(now);
        self.dante.reset_window(&self.streams, now);
        self.igmp.reset_window(now);
        self.network_health.multiple_queriers_this_window = false;
        self.multicast_bytes_this_window = 0;
        self.clock_dropout_correlated = false;
    }
}

impl Default for CaptureState {
    fn default() -> (r: Self)
        ensures
            r@ == fresh_state(),
    {
        Self::new()
    }
}

// ── Laws ─────────────────────────────────────────────────────────────────────

/// A window starts with all its counts at zero.
pub proof fn law_window_starts_clean(v: StateView, now: u64)
    ensures
        ({
            let w = state_reset(v, now);
            w.bytes_this_window == 0 && w.multicast_bytes_this_window == 0
                && w.pause_frames_this_window == 0 && w.pfc_frames_this_window == 0
                && w.packets_dispatched == 0 && w.network_health.ecn_congestion_marks == 0
                && w.network_health.tcp_retransmissions == 0
                && !w.network_health.multiple_queriers_this_window && !w.clock_dropout_correlated
                && w.igmp.querier_ips_this_window.len() == 0 && !w.igmp.v3_report_seen_this_window
        }),
        forall|i: int|
            0 <= i < state_reset(v, now).streams.len() ==> {
                let s = (#[trigger] state_reset(v, now).streams[i]).1;
                s.lost_this_window == 0 && s.ts_discontinuities_this_window == 0
                    && s.reorders_this_window == 0 && s.packets_this_window == 0
                    && s.dscp_violations == 0 && s.pcp_violations == 0 && s.gap_events == 0
                    && s.ssrc_changes == 0 && s.pt_mismatches == 0
            },
        forall|i: int|
            0 <= i < state_reset(v, now).ptp.domains.len() ==> (#[trigger] state_reset(
                v,
                now,
            ).ptp.domains[i]).1.sync_senders_this_window.len() == 0,
{
    let kept = |e: (Seq<char>, StreamView)| stream_kept(e.1, now);
    let all = all_reset(v.streams);
    let w = state_reset(v, now);
    assert forall|i: int| 0 <= i < w.streams.len() implies {
        let s = (#[trigger] w.streams[i]).1;
        s.lost_this_window == 0 && s.ts_discontinuities_this_window == 0 && s.reorders_this_window
            == 0 && s.packets_this_window == 0 && s.dscp_violations == 0 && s.pcp_violations == 0
            && s.gap_events == 0 && s.ssrc_changes == 0 && s.pt_mismatches == 0
    } by {
        assert(w.streams.contains(w.streams[i]));
        all.lemma_filter_contains_rev(kept, w.streams[i]);
        let j = choose|j: int| 0 <= j < all.len() && all[j] == w.streams[i];
        assert(all[j] == (v.streams[j].0, stream_reset(v.streams[j].1)));
    }
}

/// Totals outlive the window: a stream that is kept keeps its counts of packets
/// and losses, its name and its clock.
pub proof fn law_totals_outlive_windows(s: StreamView)
    ensures
        stream_reset(s).packets == s.packets,
        stream_reset(s).lost_packets == s.lost_packets,
        stream_reset(s).sdp_name == s.sdp_name,
        stream_reset(s).clock_uhz == s.clock_uhz,
        stream_reset(s).clock_hz_confirmed == s.clock_hz_confirmed,
{
}

} // verus!
