//! What a new window keeps, and what it starts over.

use vstd::prelude::*;

use crate::capture::dante::{active, aged, doubtful, known_only, live_conmon, windows_of};
use crate::capture::state::{all_reset, fresh_state, state_reset, stream_kept, StateView};
use crate::net::Ipv4Addr;
use crate::protocols::MsrpDeclaration;
use crate::stats::avtp::{AvdeccEntity, AvtpStreamStats, ConmonDevice};
use crate::stats::health::NetworkHealth;
use crate::stats::ptp::PtpStatsView;
use crate::stats::stream::StreamView;
use crate::stats::tcp::TcpStreamStats;
use crate::table::{distinct, holds, lemma_filter_distinct, lemma_put_lookup, lemma_slot, lemma_slot_from, lemma_without_distinct, lookup, slot, without};

verus! {

proof fn lemma_filter_keeps<A>(s: Seq<A>, f: spec_fn(A) -> bool, x: A)
    ensures
        s.filter(f).contains(x) <==> s.contains(x) && f(x),
    decreases s.len(),
{
    reveal(Seq::filter);
    if s.len() > 0 {
        let front = s.drop_last();
        lemma_filter_keeps(front, f, x);
        let a = front.filter(f);
        let b = s.filter(f);
        if s.contains(x) {
            let i = choose|i: int| 0 <= i < s.len() && s[i] == x;
            if i < front.len() {
                assert(front[i] == x);
            }
        }
        if front.contains(x) {
            let i = choose|i: int| 0 <= i < front.len() && front[i] == x;
            assert(s[i] == x);
        }
        assert(s[s.len() - 1] == s.last());
        if f(s.last()) {
            assert(b == a.push(s.last()));
            assert(b[a.len() as int] == s.last());
            if a.contains(x) {
                let i = choose|i: int| 0 <= i < a.len() && a[i] == x;
                assert(b[i] == x);
            }
            if b.contains(x) {
                let i = choose|i: int| 0 <= i < b.len() && b[i] == x;
                if i < a.len() {
                    assert(a[i] == x);
                }
            }
        }
    }
}

/// A stream goes on in the next window unless its last packet was twenty seconds ago. Its
/// counts of the window start over, and the rest of it stays.
pub proof fn law_streams_go_on(v: StateView, now: u64, i: int)
    requires
        0 <= i < v.streams.len(),
    ensures
        ({
            let (k, s) = v.streams[i];
            let again = StreamView {
                gap_events: 0,
                max_iat_ns: 0,
                pt_mismatches: 0,
                dscp_violations: 0,
                pcp_violations: 0,
                ssrc_changes: 0,
                lost_this_window: 0,
                ts_discontinuities_this_window: 0,
                reorders_this_window: 0,
                packets_this_window: 0,
                ..s
            };
            let late = s.last_packet_time matches Some(t) && now - t >= 20_000_000_000;
            &&& !late ==> state_reset(v, now).streams.contains((k, again))
            &&& distinct(v.streams) && late ==> !holds(state_reset(v, now).streams, k)
        }),
{
    let all = all_reset(v.streams);
    let f = |e: (Seq<char>, StreamView)| stream_kept(e.1, now);
    let x = all[i];
    assert(all.contains(x));
    lemma_filter_keeps(all, f, x);
    let (k, s) = v.streams[i];
    let kept = state_reset(v, now).streams;
    if distinct(v.streams) && !f(x) && holds(kept, k) {
        lemma_slot(kept, k, 0);
        let j = slot(kept, k).unwrap();
        let y = kept[j];
        assert(kept.contains(y));
        lemma_filter_keeps(all, f, y);
        let m = choose|m: int| 0 <= m < all.len() && all[m] == y;
        assert(v.streams[m].0 == k);
        if m < i {
            assert(v.streams[m].0 != v.streams[i].0);
        } else if m > i {
            assert(v.streams[i].0 != v.streams[m].0);
        }
    }
}

/// A flow goes on unless it was silent for twenty seconds or has ended.
pub proof fn law_flows_go_on(v: StateView, now: u64, e: (Seq<char>, TcpStreamStats))
    ensures
        state_reset(v, now).tcp_streams.contains(e) <==> v.tcp_streams.contains(e) && now
            - e.1.last_seen < 20_000_000_000 && !(e.1.stream_quality is Terminated),
{
    lemma_filter_keeps(
        v.tcp_streams,
        |x: (Seq<char>, TcpStreamStats)| crate::capture::state::flow_kept(x.1, now),
        e,
    );
}

/// An AVB stream goes on unless it was silent for twenty seconds, its reservation as long
/// as it does, and the VLANs as long as any stream does.
pub proof fn law_avb_goes_on(
    v: StateView,
    now: u64,
    e: (Seq<u8>, AvtpStreamStats),
    d: (Seq<u8>, MsrpDeclaration),
)
    ensures
        ({
            let w = state_reset(v, now).avb;
            &&& w.avtp_streams.contains(e) <==> v.avb.avtp_streams.contains(e) && now - e.1.last_seen
                < 20_000_000_000
            &&& w.msrp_state.contains(d) <==> v.avb.msrp_state.contains(d) && holds(w.avtp_streams, d.0)
            &&& w.avtp_streams.len() == 0 ==> w.mvrp_vlans.len() == 0
            &&& w.avtp_streams.len() > 0 ==> w.mvrp_vlans == v.avb.mvrp_vlans
        }),
{
    lemma_filter_keeps(
        v.avb.avtp_streams,
        |x: (Seq<u8>, AvtpStreamStats)|
            crate::capture::avb::within(
                now,
                x.1.last_seen,
                crate::capture::avb::STREAM_PRUNE_SECS as nat,
            ),
        e,
    );
    let streams = crate::capture::avb::live_avtp(v.avb.avtp_streams, now);
    lemma_filter_keeps(
        v.avb.msrp_state,
        |x: (Seq<u8>, MsrpDeclaration)| holds(streams, x.0),
        d,
    );
}

/// An entity is known for as long as it said, and ten seconds more.
pub proof fn law_entities_expire(v: StateView, now: u64, e: (Seq<u8>, AvdeccEntity))
    ensures
        state_reset(v, now).avb.avdecc_entities.contains(e) <==> v.avb.avdecc_entities.contains(e) && now
            - e.1.last_seen < (e.1.valid_time_secs + 10) * 1_000_000_000,
{
    lemma_filter_keeps(
        v.avb.avdecc_entities,
        |x: (Seq<u8>, AvdeccEntity)|
            crate::capture::avb::within(now, x.1.last_seen, (x.1.valid_time_secs + 10) as nat),
        e,
    );
    let ago = crate::stats::stream::since(now, e.1.last_seen) as int;
    let n = e.1.valid_time_secs + 10;
    assert(ago / 1_000_000_000 < n <==> ago < n * 1_000_000_000) by (nonlinear_arith);
}

/// A follower is one for fifteen seconds after it asked, and a domain forgets who sent
/// Syncs, and nothing else.
pub proof fn law_clocks_go_on(v: StateView, now: u64, e: (Ipv4Addr, u64), i: int)
    requires
        0 <= i < v.ptp.domains.len(),
    ensures
        ({
            let w = state_reset(v, now).ptp;
            &&& w.v1_followers.contains(e) <==> v.ptp.v1_followers.contains(e) && now - e.1
                < 15_000_000_000
            &&& w.domains.len() == v.ptp.domains.len()
            &&& w.domains[i] == (
                v.ptp.domains[i].0,
                PtpStatsView { sync_senders_this_window: Seq::empty(), ..v.ptp.domains[i].1 },
            )
        }),
{
    lemma_filter_keeps(
        v.ptp.v1_followers,
        |x: (Ipv4Addr, u64)|
            crate::capture::avb::within(now, x.1, crate::capture::ptp::FOLLOWER_SECS as nat),
        e,
    );
}

/// A device counts as monitored for a minute after its last frame.
pub proof fn law_monitored_devices_go_on(v: StateView, now: u64, e: (Ipv4Addr, ConmonDevice))
    ensures
        state_reset(v, now).dante.conmon.contains(e) <==> v.dante.conmon.contains(e) && now
            - e.1.last_seen < 60_000_000_000,
        state_reset(v, now).dante.sources == v.dante.sources,
        state_reset(v, now).dante.names == v.dante.names,
        state_reset(v, now).dante.transmitter_class == v.dante.transmitter_class,
{
    lemma_filter_keeps(
        v.dante.conmon,
        |x: (Ipv4Addr, ConmonDevice)|
            crate::capture::avb::within(
                now,
                x.1.last_seen,
                crate::capture::dante::CONMON_PRUNE_SECS as nat,
            ),
        e,
    );
}

/// A join is remembered for five minutes, the querier's version for good, and who asked
/// and whether a report came only for the window.
pub proof fn law_joins_are_forgotten(v: StateView, now: u64, e: ((Ipv4Addr, Ipv4Addr), u64))
    ensures
        ({
            let w = state_reset(v, now).igmp;
            &&& w.joins_seen.contains(e) <==> v.igmp.joins_seen.contains(e) && now - e.1
                < 300_000_000_000
            &&& w.querier_version == v.igmp.querier_version
            &&& w.querier_ips_this_window.len() == 0 && !w.v3_report_seen_this_window
        }),
{
    lemma_filter_keeps(
        v.igmp.joins_seen,
        |x: ((Ipv4Addr, Ipv4Addr), u64)|
            crate::stats::stream::since(now, x.1) < crate::capture::igmp::IGMP_JOIN_DEDUP_TTL_SECS
                * crate::protocols::SECOND,
        e,
    );
}

/// What no window concerns stays: sessions, sources, ports, groups and addresses, and the
/// network's totals and querier.
pub proof fn law_the_rest_stays(v: StateView, now: u64)
    ensures
        ({
            let w = state_reset(v, now);
            &&& w.sdp_cache == v.sdp_cache && w.ndi == v.ndi && w.eee_ports == v.eee_ports
            &&& w.pending_join_groups == v.pending_join_groups && w.joined_multicast
                == v.joined_multicast && w.local_ips == v.local_ips
            &&& w.stream_count_history == v.stream_count_history
                && w.filter_unregistered_suspect_cycles == v.filter_unregistered_suspect_cycles
            &&& w.network_health == (NetworkHealth {
                ecn_congestion_marks: 0,
                tcp_retransmissions: 0,
                multiple_queriers_this_window: false,
                ..v.network_health
            })
        }),
{
}

/// At first nothing is known, and the score is full.
pub proof fn law_start_is_empty()
    ensures
        ({
            let v = fresh_state();
            &&& v.streams.len() == 0 && v.tcp_streams.len() == 0 && v.sdp_cache.len() == 0
                && v.eee_ports.len() == 0
            &&& v.dante.sources.len() == 0 && v.dante.conmon.len() == 0 && v.ndi.sources.len() == 0
            &&& v.avb.avtp_streams.len() == 0 && v.avb.msrp_state.len() == 0 && v.ptp.domains.len() == 0
            &&& v.network_health.network_score == 100_000_000 && v.network_health.total_packets == 0
                && v.network_health.last_igmp_query is None
            &&& v.bytes_this_window == 0 && v.multicast_bytes_this_window == 0 && v.packets_dispatched == 0
            &&& v.pending_join_groups.len() == 0 && v.joined_multicast.len() == 0
            &&& v.stream_count_history.len() == 0 && v.filter_unregistered_suspect_cycles == 0
        }),
{
}

// ── Unverified devices ───────────────────────────────────────────────────────

proof fn lemma_without_other(t: Seq<(Ipv4Addr, u32)>, id: Ipv4Addr, other: Ipv4Addr)
    requires
        distinct(t),
        other != id,
    ensures
        lookup(without(t, id), other) == lookup(t, other),
{
    let u = without(t, id);
    lemma_slot(t, id, 0);
    lemma_slot(t, other, 0);
    lemma_slot(u, other, 0);
    lemma_without_distinct(t, id);
    if let Some(k) = slot(t, id) {
        if let Some(j) = slot(t, other) {
            let at = if j < k {
                j
            } else {
                j - 1
            };
            assert(u[at] == t[j]);
            lemma_slot_from(u, other, 0, at);
        } else if let Some(j) = slot(u, other) {
            let at = if j < k {
                j
            } else {
                j + 1
            };
            assert(u[j] == t[at]);
        }
    }
}

proof fn lemma_aged_windows(
    t: Seq<(Ipv4Addr, u32)>,
    sources: Seq<Ipv4Addr>,
    streams: Seq<(Seq<char>, StreamView)>,
    conmon: Seq<(Ipv4Addr, ConmonDevice)>,
    ip: Ipv4Addr,
)
    requires
        distinct(t),
        sources.no_duplicates(),
        windows_of(t, ip) < u32::MAX,
    ensures
        distinct(aged(t, sources, streams, conmon)),
        !sources.contains(ip) ==> lookup(aged(t, sources, streams, conmon), ip) == lookup(t, ip),
        sources.contains(ip) && active(streams, conmon, ip) ==> windows_of(
            aged(t, sources, streams, conmon),
            ip,
        ) == 0,
        sources.contains(ip) && !active(streams, conmon, ip) ==> windows_of(
            aged(t, sources, streams, conmon),
            ip,
        ) == windows_of(t, ip) + 1,
    decreases sources.len(),
{
    if sources.len() > 0 {
        let rest = sources.drop_last();
        let x = sources.last();
        assert forall|i: int, j: int| 0 <= i < j < rest.len() implies rest[i] != rest[j] by {
            assert(sources[i] != sources[j]);
        }
        assert(!rest.contains(x)) by {
            if rest.contains(x) {
                let i = choose|i: int| 0 <= i < rest.len() && rest[i] == x;
                assert(sources[i] == sources[sources.len() - 1]);
            }
        }
        lemma_aged_windows(t, rest, streams, conmon, ip);
        let u = aged(t, rest, streams, conmon);
        assert(sources[sources.len() - 1] == x);
        if sources.contains(ip) && ip != x {
            let i = choose|i: int| 0 <= i < sources.len() && sources[i] == ip;
            assert(rest[i] == ip);
        }
        if rest.contains(ip) {
            let i = choose|i: int| 0 <= i < rest.len() && rest[i] == ip;
            assert(sources[i] == ip);
        }
        if active(streams, conmon, x) {
            lemma_without_distinct(u, x);
            lemma_slot(without(u, x), x, 0);
            if ip != x {
                lemma_without_other(u, x, ip);
            }
        } else {
            crate::table::lemma_put_distinct(u, x, windows_of(u, x).wrapping_add(1));
            lemma_put_lookup(u, x, windows_of(u, x).wrapping_add(1), ip);
        }
    }
}

proof fn lemma_known_windows(t: Seq<(Ipv4Addr, u32)>, sources: Seq<Ipv4Addr>, ip: Ipv4Addr)
    requires
        distinct(t),
        sources.contains(ip),
    ensures
        windows_of(known_only(t, sources), ip) == windows_of(t, ip),
{
    let f = |e: (Ipv4Addr, u32)| sources.contains(e.0);
    let u = known_only(t, sources);
    lemma_filter_distinct(t, f);
    lemma_slot(t, ip, 0);
    lemma_slot(u, ip, 0);
    if let Some(i) = slot(t, ip) {
        assert(t.contains(t[i]));
        lemma_filter_keeps(t, f, t[i]);
        let j = choose|j: int| 0 <= j < u.len() && u[j] == t[i];
        lemma_slot_from(u, ip, 0, j);
    } else if let Some(j) = slot(u, ip) {
        assert(u.contains(u[j]));
        lemma_filter_keeps(t, f, u[j]);
    }
}

/// A known device is in doubt from the third window in a row in which it neither sends nor
/// is monitored, and no longer once it does.
pub proof fn law_silent_devices_come_into_doubt(v: StateView, now: u64, ip: Ipv4Addr)
    requires
        v.dante.sources.no_duplicates(),
        v.dante.sources.contains(ip),
        distinct(v.dante.unverified_windows),
        windows_of(v.dante.unverified_windows, ip) < u32::MAX,
    ensures
        ({
            let w = state_reset(v, now);
            let sending = exists|i: int|
                0 <= i < w.streams.len() && (#[trigger] w.streams[i]).1.src_ip == Some(ip);
            let monitored = holds(w.dante.conmon, ip);
            let before = match lookup(v.dante.unverified_windows, ip) {
                Some(n) => n as int,
                None => 0,
            };
            &&& sending || monitored ==> !doubtful(w.dante).contains(ip)
            &&& !sending && !monitored ==> (doubtful(w.dante).contains(ip) <==> before + 1 >= 3)
        }),
{
    let w = state_reset(v, now);
    let conmon = live_conmon(v.dante.conmon, now);
    lemma_aged_windows(v.dante.unverified_windows, v.dante.sources, w.streams, conmon, ip);
    lemma_known_windows(
        aged(v.dante.unverified_windows, v.dante.sources, w.streams, conmon),
        v.dante.sources,
        ip,
    );
    lemma_filter_keeps(
        w.dante.sources,
        |x: Ipv4Addr|
            windows_of(w.dante.unverified_windows, x)
                >= crate::capture::dante::UNVERIFIED_THRESHOLD,
        ip,
    );
}

} // verus!
