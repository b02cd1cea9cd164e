//! What is told at the end of a window, and when.

use vstd::prelude::*;

use crate::capture::alert::{clock_kind, error, good, info, shown, warn, AlertView, MissingClockKind, MissingClockView};
use crate::capture::checks::{checked, claim_alerts, clock_lost, ended, flow_rate, found, has_clock, has_gptp_clock, judged, media_claims, missing, multicast_mbps, ptp_seen, refclk_alerts, stream_count};
use crate::capture::dante::{bridge_alerts, census_alerts, device_text, device_texts, doubtful, first_name, ip_config_alerts, not_following, quoted_name, routable, self_assigned, set_of, sharing, silent_devices, subnet, subnets, unassigned, v1_grandmaster, DanteView};
use crate::capture::handlers::in_use;
use crate::capture::igmp::addresses;
use crate::capture::ptp::{conflict, conflicts, lost_alerts, preferred, PtpStateView};
use crate::capture::state::StateView;
use crate::net::{dotted, Ipv4Addr};
use crate::order::{law_sorted_keeps_all, sorted};
use crate::parser::sdp::{lowercase, reference_clock};
use crate::protocols::{ProtocolChoice, SdpMediaView, SdpSessionView};
use crate::scan::begins;
use crate::stats::avtp::ConmonDevice;
use crate::stats::health::{penalties, score, NetworkHealth};
use crate::stats::ptp::PtpStatsView;
use crate::stats::stream::StreamView;
use crate::stats::tcp::TcpStreamStats;
use crate::table::{holds, keys, lookup};
use crate::text::{dec, hex_colons, joined};

verus! {

// ── Alerts ───────────────────────────────────────────────────────────────────

/// Each kind of alert has its level, and each level above information its color.
pub proof fn law_alerts_have_levels(m: Seq<char>)
    ensures
        info(m).level is Info && info(m).message == m,
        good(m).level is Good && good(m).message == m,
        warn(m).level is Warn && warn(m).message == m,
        error(m).level is Error && error(m).message == m,
        shown(info(m), true) == m,
        shown(good(m), true) == "\x1b["@ + "32"@ + "m"@ + m + "\x1b[0m"@,
        shown(warn(m), true) == "\x1b["@ + "33"@ + "m"@ + m + "\x1b[0m"@,
        shown(error(m), true) == "\x1b["@ + "31"@ + "m"@ + m + "\x1b[0m"@,
{
}

/// Without color an alert is its message.
pub proof fn law_plain_alerts(a: AlertView)
    ensures
        shown(a, false) == a.message,
{
}

/// AES67 and ST 2110 take a clock of version 2, Dante one of either, and no other
/// protocol one over IP.
pub proof fn law_protocols_take_clocks(p: Seq<char>)
    ensures
        clock_kind(p) == Some(MissingClockKind::Ptpv2) <==> p == "AES67"@ || begins(p, "2110-"@),
        clock_kind(p) == Some(MissingClockKind::Ptp) <==> p == "Dante"@,
        clock_kind(p) != Some(MissingClockKind::Gptp),
{
    reveal_strlit("AES67");
    reveal_strlit("2110-");
    reveal_strlit("Dante");
    if begins(p, "2110-"@) {
        assert(p.subrange(0, 5)[0] == '2');
    }
    assert("AES67"@[0] == 'A' && "Dante"@[0] == 'D' && "2110-"@[0] == '2');
}

// ── Groups ───────────────────────────────────────────────────────────────────

/// Queries more than a minute apart are told of.
pub proof fn law_slow_queries_are_told_of(v: StateView, e: Seq<ProtocolChoice>, offline: bool, now: u64)
    ensures
        ({
            let a = found(v, e, offline, now).igmp_query_interval_alerts;
            let i = v.network_health.igmp_query_interval_secs;
            &&& i is None || i.unwrap() <= 60 ==> a.len() == 0
            &&& i is Some && i.unwrap() > 60 ==> a == seq![
                info(
                    "ℹ IGMP query interval "@ + dec(i.unwrap() as nat)
                        + "s — Audinate recommends 30s for Dante networks; longer intervals slow multicast convergence after device join"@,
                ),
            ]
        }),
{
}

/// Two queriers in a window are an error where a multicast stream carries packets, and
/// then lower the score; one is none.
pub proof fn law_competing_queriers(v: StateView, e: Seq<ProtocolChoice>, offline: bool, now: u64)
    ensures
        ({
            let a = found(v, e, offline, now).multiple_queriers_alerts;
            let q = v.igmp.querier_ips_this_window;
            let active = exists|i: int|
                0 <= i < v.streams.len() && (#[trigger] v.streams[i]).1.is_multicast
                    && v.streams[i].1.packets > 0;
            &&& !(active && q.len() >= 2) ==> a.len() == 0
            &&& active && q.len() >= 2 ==> a == seq![
                error(
                    "❌ Multiple IGMP queriers detected: "@ + joined(
                        sorted::<String>(addresses(q)),
                        ", "@,
                    )
                        + " — querier conflict causes multicast group desync; disable querier on all but one switch"@,
                ),
            ]
            &&& checked(v, now).network_health.multiple_queriers_this_window == (
            v.network_health.multiple_queriers_this_window || active && q.len() >= 2)
        }),
{
}

/// A querier of version 2 is warned of where a report of version 3 was seen.
pub proof fn law_mixed_versions(v: StateView, e: Seq<ProtocolChoice>, offline: bool, now: u64)
    ensures
        ({
            let a = found(v, e, offline, now).version_mismatch_alerts;
            &&& v.igmp.querier_version == Some(2u8) && v.igmp.v3_report_seen_this_window ==> a.len() == 1
                && a[0].level is Warn
            &&& v.igmp.querier_version != Some(2u8) || !v.igmp.v3_report_seen_this_window ==> a.len() == 0
        }),
{
}

/// Devices that are only monitored, while nothing else is heard of, are warned of from the
/// second window in a row on.
pub proof fn law_filtered_multicast(v: StateView, e: Seq<ProtocolChoice>, offline: bool, now: u64)
    requires
        v.filter_unregistered_suspect_cycles < u32::MAX,
    ensures
        ({
            let a = found(v, e, offline, now).filter_unregistered_alerts;
            let w = checked(v, now).filter_unregistered_suspect_cycles;
            let heard = exists|i: int|
                0 <= i < v.ptp.domains.len() && (#[trigger] v.ptp.domains[i]).1.packets > 0;
            let only = v.dante.conmon.len() > 0 && v.dante.names.len() == 0 && !heard && v.streams.len()
                == 0 && v.avb.avtp_streams.len() == 0;
            &&& only ==> w == v.filter_unregistered_suspect_cycles + 1
            &&& !only ==> w == 0
            &&& w >= 2 ==> a.len() == 1 && a[0].level is Warn
            &&& w < 2 ==> a.len() == 0
        }),
{
    lemma_judged_packets(v, now);
}

proof fn lemma_judged_packets(v: StateView, now: u64)
    ensures
        ptp_seen(judged(v, now)) <==> exists|i: int|
            0 <= i < v.ptp.domains.len() && (#[trigger] v.ptp.domains[i]).1.packets > 0,
{
    let w = judged(v, now);
    assert(w.ptp.domains.len() == v.ptp.domains.len());
    if ptp_seen(w) {
        let i = choose|i: int| 0 <= i < w.ptp.domains.len() && (#[trigger] w.ptp.domains[i]).1.packets > 0;
        assert(v.ptp.domains[i].1.packets == w.ptp.domains[i].1.packets);
    }
    if exists|i: int| 0 <= i < v.ptp.domains.len() && (#[trigger] v.ptp.domains[i]).1.packets > 0 {
        let i = choose|i: int| 0 <= i < v.ptp.domains.len() && (#[trigger] v.ptp.domains[i]).1.packets > 0;
        assert(w.ptp.domains[i].1.packets > 0);
    }
}

/// More than fifty million bytes of multicast in a window are warned of where no querier
/// was ever heard.
pub proof fn law_multicast_without_a_querier(v: StateView, e: Seq<ProtocolChoice>, offline: bool, now: u64)
    ensures
        ({
            let a = found(v, e, offline, now).high_bandwidth_alerts;
            let much = v.multicast_bytes_this_window > 50_000_000
                && v.network_health.last_igmp_query is None;
            &&& !much ==> a.len() == 0
            &&& much ==> a == seq![
                warn(
                    "⚠ Multicast bandwidth "@ + multicast_mbps(v.multicast_bytes_this_window)
                        + " Mbps exceeds 80 Mbps threshold — IGMP snooping required at this traffic level; enable querier on the switch"@,
                ),
            ]
        }),
{
}

/// Devices without a clock and without a querier are warned of, but not of a recording.
pub proof fn law_blocked_clocks(v: StateView, e: Seq<ProtocolChoice>, offline: bool, now: u64)
    ensures
        ({
            let a = found(v, e, offline, now).igmp_snooping_ptp_alerts;
            let heard = exists|i: int|
                0 <= i < v.ptp.domains.len() && (#[trigger] v.ptp.domains[i]).1.packets > 0;
            let blocked = !offline && (v.dante.sources.len() > 0 || v.dante.conmon.len() > 0) && !heard
                && v.network_health.last_igmp_query is None;
            &&& blocked ==> a.len() == 1 && a[0].level is Warn
            &&& !blocked ==> a.len() == 0
        }),
{
    lemma_judged_packets(v, now);
}

/// All streams are counted, of whatever kind; more than twice the average of the last three
/// windows is warned of. The last three counts are kept.
pub proof fn law_stream_counts(v: StateView, e: Seq<ProtocolChoice>, offline: bool, now: u64)
    requires
        v.streams.len() + v.tcp_streams.len() + v.avb.avtp_streams.len() <= u64::MAX,
    ensures
        ({
            let a = found(v, e, offline, now).stream_count_alerts;
            let h = v.stream_count_history;
            let n = (v.streams.len() + v.tcp_streams.len() + v.avb.avtp_streams.len()) as nat;
            let next = checked(v, now).stream_count_history;
            let mean = ((h[0] + h[1] + h[2]) / 3) as nat;
            &&& h.len() == 3 && mean > 0 && n > 2 * mean ==> a == seq![
                warn(
                    "⚠ Stream count spike: "@ + dec(n) + " streams (avg last 3 windows: "@ + dec(mean)
                        + ") — possible runaway multicast flood"@,
                ),
            ]
            &&& h.len() != 3 || mean == 0 || n <= 2 * mean ==> a.len() == 0
            &&& h.len() == 3 ==> next == seq![h[1], h[2], n as u64]
            &&& h.len() < 3 ==> next == h.push(n as u64)
        }),
{
    let h = v.stream_count_history;
    if h.len() == 3 {
        let w = judged(v, now);
        assert(h.remove(0).push(stream_count(w)) =~= seq![h[1], h[2], stream_count(w)]);
    }
}

// ── Clocks ───────────────────────────────────────────────────────────────────

/// A domain whose valid clock has been silent for longer than its timeout is told of as
/// lost, and no other domain.
pub proof fn law_lost_clocks_are_told_of(t: Seq<((u8, u8), PtpStatsView)>, k: (u8, u8), d: PtpStatsView, now: u64)
    ensures
        ({
            let lost = d.clock_valid && now - d.last_seen > d.timeout_secs * 1_000_000_000;
            let kind = match d.protocol_kind {
                Some(x) => x,
                None => "?"@,
            };
            &&& lost ==> lost_alerts(t.push((k, d)), now) == lost_alerts(t, now).push(
                error(
                    "❌ PTP Clock LOST (Domain "@ + dec(d.domain as nat) + " v"@ + dec(d.version as nat)
                        + ") ["@ + kind + "]"@,
                ),
            )
            &&& !lost ==> lost_alerts(t.push((k, d)), now) == lost_alerts(t, now)
            &&& lost_alerts(Seq::empty(), now).len() == 0
        }),
{
    assert(t.push((k, d)).drop_last() =~= t);
}

/// The alerts of lost clocks are of the window as it was, and every domain is judged.
pub proof fn law_every_domain_is_judged(v: StateView, e: Seq<ProtocolChoice>, offline: bool, now: u64, i: int)
    requires
        0 <= i < v.ptp.domains.len(),
    ensures
        found(v, e, offline, now).clock_alerts == lost_alerts(v.ptp.domains, now),
        ({
            let d = v.ptp.domains[i].1;
            let after = ended(v, now).ptp.domains[i];
            &&& after.0 == v.ptp.domains[i].0
            &&& d.clock_valid && now - d.last_seen > d.timeout_secs * 1_000_000_000
                ==> !after.1.clock_valid && after.1.protocol_clock_lost && after.1.last_grandmaster is None
            &&& !d.clock_valid || now - d.last_seen <= d.timeout_secs * 1_000_000_000 ==> after.1 == d
        }),
        ended(v, now).ptp.v1_followers == v.ptp.v1_followers,
{
}

/// Two senders of version 1 Syncs in a domain are warned of, and are an error where two of
/// them are preferred, of stratum 0.
pub proof fn law_clock_conflicts(t: Seq<((u8, u8), PtpStatsView)>, k: (u8, u8), d: PtpStatsView)
    ensures
        ({
            let s = d.sync_senders_this_window;
            let a = conflicts(t.push((k, d)));
            let leaders = s.filter(|x: (Ipv4Addr, u8)| x.1 == 0).len();
            &&& d.version != 1 || s.len() < 2 ==> a == conflicts(t)
            &&& d.version == 1 && s.len() >= 2 ==> a.len() == conflicts(t).len() + 1 && a.drop_last()
                == conflicts(t)
            &&& d.version == 1 && s.len() >= 2 && leaders >= 2 ==> a.last().level is Error
            &&& d.version == 1 && s.len() >= 2 && leaders < 2 ==> a.last() == warn(
                "⚠ Multiple PTP Sync senders in domain "@ + dec(d.domain as nat) + " ("@ + joined(
                    addresses(keys(s)),
                    ", "@,
                )
                    + ") — possible IGMP snooping partition or 'Sync to External' mismatch; check that only one device is the clock leader"@,
            )
            &&& conflicts(Seq::empty()).len() == 0
        }),
{
    assert(t.push((k, d)).drop_last() =~= t);
    lemma_preferred(d.sync_senders_this_window);
    let a = conflicts(t.push((k, d)));
    if conflict(d).len() == 0 {
        assert(conflicts(t) + conflict(d) =~= conflicts(t));
    } else {
        assert(a.drop_last() =~= conflicts(t));
        assert(a.last() == conflict(d)[0]);
    }
}

proof fn lemma_preferred(s: Seq<(Ipv4Addr, u8)>)
    ensures
        preferred(s).len() == s.filter(|x: (Ipv4Addr, u8)| x.1 == 0).len(),
    decreases s.len(),
{
    reveal(Seq::filter);
    if s.len() > 0 {
        lemma_preferred(s.drop_last());
    }
}

/// The preferred leaders of a domain are told by their addresses.
pub proof fn law_preferred_leaders(s: Seq<(Ipv4Addr, u8)>, ip: Ipv4Addr, stratum: u8)
    ensures
        stratum == 0 ==> preferred(s.push((ip, stratum))) == preferred(s).push(ip),
        stratum != 0 ==> preferred(s.push((ip, stratum))) == preferred(s),
        preferred(Seq::empty()).len() == 0,
{
    assert(s.push((ip, stratum)).drop_last() =~= s);
}

/// A clock is missed by the protocols that were chosen and that have streams: one of
/// version 2 by AES67 and ST 2110, one of either version by Dante, and one over Ethernet
/// by AVB.
pub proof fn law_missed_clocks(v: StateView, e: Seq<ProtocolChoice>)
    ensures
        ({
            let r = missing(v, e);
            let aes67 = e.contains(ProtocolChoice::AES67) && exists|i: int|
                0 <= i < v.streams.len() && (#[trigger] v.streams[i]).1.protocol == "AES67"@;
            let st2110 = e.contains(ProtocolChoice::ST2110) && exists|i: int|
                0 <= i < v.streams.len() && begins((#[trigger] v.streams[i]).1.protocol, "2110-"@);
            let dante = e.contains(ProtocolChoice::Dante) && exists|i: int|
                0 <= i < v.streams.len() && (#[trigger] v.streams[i]).1.protocol == "Dante"@;
            let avb = e.contains(ProtocolChoice::AVB) && v.avb.avtp_streams.len() > 0;
            let v2 = exists|i: int|
                0 <= i < v.ptp.domains.len() && (#[trigger] v.ptp.domains[i]).1.clock_valid
                    && v.ptp.domains[i].1.version == 2 && v.ptp.domains[i].1.protocol_kind != Some(
                    "AVB"@,
                );
            let any = exists|i: int|
                0 <= i < v.ptp.domains.len() && (#[trigger] v.ptp.domains[i]).1.clock_valid
                    && v.ptp.domains[i].1.protocol_kind != Some("AVB"@);
            let gptp = exists|i: int|
                0 <= i < v.ptp.domains.len() && (#[trigger] v.ptp.domains[i]).1.clock_valid
                    && v.ptp.domains[i].1.protocol_kind == Some("AVB"@);
            let of_v2 = if aes67 && st2110 {
                seq!["AES67"@, "ST2110"@]
            } else if aes67 {
                seq!["AES67"@]
            } else {
                seq!["ST2110"@]
            };
            &&& (aes67 || st2110) && !v2 <==> r.contains(
                (MissingClockView { kind: MissingClockKind::Ptpv2, affected: of_v2 }),
            )
            &&& dante && !any <==> r.contains(
                (MissingClockView { kind: MissingClockKind::Ptp, affected: seq!["Dante"@] }),
            )
            &&& avb && !gptp <==> r.contains(
                (MissingClockView { kind: MissingClockKind::Gptp, affected: seq!["AVB"@] }),
            )
            &&& r.len() <= 3
        }),
{
    lemma_chosen(e, ProtocolChoice::AES67);
    lemma_chosen(e, ProtocolChoice::ST2110);
    lemma_chosen(e, ProtocolChoice::Dante);
    lemma_chosen(e, ProtocolChoice::AVB);
    lemma_has_st2110(v.streams);
    let a = crate::capture::checks::aes67_active(v, e);
    let b = crate::capture::checks::st2110_active(v, e);
    let x = crate::capture::checks::missing_if(
        (a || b) && !has_clock(v.ptp.domains, true),
        MissingClockKind::Ptpv2,
        crate::capture::checks::v2_affected(a, b),
    );
    let y = crate::capture::checks::missing_if(
        crate::protocols::chosen(e, ProtocolChoice::Dante) && crate::capture::checks::has_protocol(
            v.streams,
            "Dante"@,
        ) && !has_clock(v.ptp.domains, false),
        MissingClockKind::Ptp,
        seq!["Dante"@],
    );
    let z = crate::capture::checks::missing_if(
        crate::protocols::chosen(e, ProtocolChoice::AVB) && v.avb.avtp_streams.len() > 0
            && !has_gptp_clock(v.ptp.domains),
        MissingClockKind::Gptp,
        seq!["AVB"@],
    );
    let r = missing(v, e);
    assert(r == x + y + z);
    if x.len() > 0 {
        assert(r[0] == x[0]);
    }
    if y.len() > 0 {
        assert(r[x.len() as int] == y[0]);
    }
    if z.len() > 0 {
        assert(r[(x.len() + y.len()) as int] == z[0]);
    }
}

proof fn lemma_chosen(e: Seq<ProtocolChoice>, c: ProtocolChoice)
    ensures
        crate::protocols::chosen(e, c) <==> e.contains(c),
{
}

proof fn lemma_has_st2110(t: Seq<(Seq<char>, StreamView)>)
    ensures
        crate::capture::checks::has_st2110(t) <==> exists|i: int|
            0 <= i < t.len() && begins((#[trigger] t[i]).1.protocol, "2110-"@),
{
    assert forall|p: Seq<char>| #[trigger] begins(p, "2110-"@) implies p != "AES67"@ by {
        reveal_strlit("AES67");
        reveal_strlit("2110-");
        assert(p.subrange(0, 5)[0] == '2');
        assert("AES67"@[0] == 'A');
    }
    if crate::capture::checks::has_st2110(t) {
        let i = choose|i: int|
            0 <= i < t.len() && clock_kind((#[trigger] t[i]).1.protocol) == Some(
                MissingClockKind::Ptpv2,
            ) && t[i].1.protocol != "AES67"@;
        assert(begins(t[i].1.protocol, "2110-"@));
    }
}

/// A lost clock and lost packets of a stream that it serves are told of as one: version 1
/// serves Dante, and version 2 AES67 and ST 2110. Either alone is no dropout.
pub proof fn law_clock_dropouts(v: StateView, e: Seq<ProtocolChoice>, offline: bool, now: u64)
    ensures
        ({
            let w = judged(v, now);
            let lost = |n: u8|
                exists|i: int|
                    0 <= i < w.ptp.domains.len() && (#[trigger] w.ptp.domains[i]).1.protocol_clock_lost
                        && w.ptp.domains[i].1.version == n && w.ptp.domains[i].1.protocol_kind != Some(
                        "AVB"@,
                    );
            let dropped = exists|i: int|
                0 <= i < v.streams.len() && (#[trigger] v.streams[i]).1.lost_this_window > 0 && (
                v.streams[i].1.protocol == "Dante"@ && lost(1) || (v.streams[i].1.protocol == "AES67"@
                    || begins(v.streams[i].1.protocol, "2110-"@)) && lost(2));
            let a = found(v, e, offline, now).clock_dropout_alert;
            &&& dropped <==> a is Some
            &&& a is Some ==> a.unwrap().level is Error
            &&& checked(v, now).clock_dropout_correlated <==> dropped
        }),
{
    let w = judged(v, now);
    let one = clock_lost(w.ptp.domains, 1);
    let two = clock_lost(w.ptp.domains, 2);
    assert forall|i: int| 0 <= i < v.streams.len() implies crate::capture::checks::suffers(
        (#[trigger] v.streams[i]).1,
        one,
        two,
    ) == (v.streams[i].1.lost_this_window > 0 && (v.streams[i].1.protocol == "Dante"@ && one || (
    v.streams[i].1.protocol == "AES67"@ || begins(v.streams[i].1.protocol, "2110-"@)) && two)) by {
        law_protocols_take_clocks(v.streams[i].1.protocol);
    }
}

// ── Rates ────────────────────────────────────────────────────────────────────

/// An NDI stream runs at the rates of all flows from and to its source together; other
/// streams keep their own.
pub proof fn law_ndi_rates(v: StateView, now: u64, i: int)
    requires
        0 <= i < v.streams.len(),
    ensures
        ({
            let s = v.streams[i].1;
            let w = ended(v, now).streams;
            &&& w.len() == v.streams.len() && w[i].0 == v.streams[i].0
            &&& s.protocol == "NDI"@ && s.dst_ip is Some ==> w[i].1 == (StreamView {
                bitrate_bps: flow_rate(v.tcp_streams, s.dst_ip.unwrap()),
                ..s
            })
            &&& s.protocol != "NDI"@ || s.dst_ip is None ==> w[i].1 == s
        }),
{
}

/// A flow adds its rate to that of either of its ends, once.
pub proof fn law_flow_rates_add_up(t: Seq<(Seq<char>, TcpStreamStats)>, k: Seq<char>, f: TcpStreamStats, ip: Ipv4Addr)
    requires
        flow_rate(t, ip) + f.bitrate_bps <= u64::MAX,
    ensures
        f.src_ip == ip || f.dst_ip == ip ==> flow_rate(t.push((k, f)), ip) == flow_rate(t, ip)
            + f.bitrate_bps,
        f.src_ip != ip && f.dst_ip != ip ==> flow_rate(t.push((k, f)), ip) == flow_rate(t, ip),
        flow_rate(Seq::empty(), ip) == 0,
{
    assert(t.push((k, f)).drop_last() =~= t);
}

/// The score at the end of a window is that of what the checks left.
pub proof fn law_score_is_of_the_window(v: StateView, now: u64)
    ensures
        ({
            let w = checked(v, now);
            &&& ended(v, now) == (StateView {
                network_health: NetworkHealth {
                    network_score: ended(v, now).network_health.network_score,
                    ..w.network_health
                },
                ..w
            })
            &&& ended(v, now).network_health.network_score == score(
                penalties(
                    w.network_health,
                    w.streams,
                    v.tcp_streams,
                    w.ptp.domains,
                    v.avb.msrp_state,
                    v.eee_ports.len(),
                    v.avb.avtp_streams,
                    now,
                ),
            )
        }),
{
}

// ── Reference clocks ─────────────────────────────────────────────────────────

/// The domain that an announcement claims is that of version 2, or else of version 1. Where
/// nothing was heard of either, that is warned of, and where its valid clock has another
/// grandmaster.
pub proof fn law_claimed_clocks(t: Seq<((u8, u8), PtpStatsView)>, name: Seq<char>, gm: Seq<char>, domain: u8)
    ensures
        ({
            let a = claim_alerts(t, name, gm, domain);
            let new = lookup(t, (domain, 2u8));
            let before = lookup(t, (domain, 1u8));
            let d = if new is Some {
                new
            } else {
                before
            };
            &&& d is None ==> a == seq![
                warn(
                    "⚠  SDP \""@ + name + "\" claims PTP domain "@ + dec(domain as nat)
                        + " but no PTP traffic detected"@,
                ),
            ]
            &&& d matches Some(x) ==> {
                &&& !x.clock_valid || x.last_grandmaster is None || x.last_grandmaster == Some(gm)
                    ==> a.len() == 0
                &&& x.clock_valid && x.last_grandmaster is Some && x.last_grandmaster != Some(gm) ==> a
                    == seq![
                    warn(
                        "⚠  PTP grandmaster mismatch for SDP \""@ + name + "\": claims "@ + gm
                            + " (domain "@ + dec(domain as nat) + "), active is "@
                            + x.last_grandmaster.unwrap(),
                    ),
                ]
            }
        }),
{
}

/// Only the sections of sessions in use that name a clock claim one, each of them.
pub proof fn law_claims_of_sessions(
    v: StateView,
    cache: Seq<(Seq<char>, SdpSessionView)>,
    id: Seq<char>,
    s: SdpSessionView,
    media: Seq<SdpMediaView>,
    m: SdpMediaView,
    name: Seq<char>,
)
    ensures
        in_use(v.streams, s) ==> refclk_alerts(v, cache.push((id, s))) == refclk_alerts(v, cache)
            + media_claims(v.ptp.domains, s.session_name, s.media),
        !in_use(v.streams, s) ==> refclk_alerts(v, cache.push((id, s))) == refclk_alerts(v, cache),
        refclk_alerts(v, Seq::empty()).len() == 0,
        reference_clock(m.ts_refclk) matches Some((gm, domain)) ==> media_claims(
            v.ptp.domains,
            name,
            media.push(m),
        ) == media_claims(v.ptp.domains, name, media) + claim_alerts(
            v.ptp.domains,
            name,
            lowercase(gm),
            domain,
        ),
        reference_clock(m.ts_refclk) is None ==> media_claims(v.ptp.domains, name, media.push(m))
            == media_claims(v.ptp.domains, name, media),
        media_claims(v.ptp.domains, name, Seq::empty()).len() == 0,
{
    assert(cache.push((id, s)).drop_last() =~= cache);
    assert(media.push(m).drop_last() =~= media);
    assert(media_claims(v.ptp.domains, name, media) + Seq::empty() =~= media_claims(
        v.ptp.domains,
        name,
        media,
    ));
}

// ── Dante devices ────────────────────────────────────────────────────────────

/// Addresses in 169.254.0.0/16 and 172.31.0.0/16 are self-assigned.
pub proof fn law_self_assigned_addresses(ip: Ipv4Addr)
    ensures
        self_assigned(ip) <==> ip.a == 169 && ip.b == 254 || ip.a == 172 && ip.b == 31,
{
}

/// A device with an address of its own making is an error where another has an assigned
/// one; where none has, or there is but one device, it is not.
pub proof fn law_unassigned_devices(v: DanteView)
    ensures
        ({
            let a = ip_config_alerts(v);
            let own = v.sources.filter(
                |ip: Ipv4Addr| ip.a == 169 && ip.b == 254 || ip.a == 172 && ip.b == 31,
            );
            let assigned = v.sources.filter(
                |ip: Ipv4Addr| !(ip.a == 169 && ip.b == 254 || ip.a == 172 && ip.b == 31),
            );
            &&& v.sources.len() < 2 ==> a.len() == 0
            &&& v.sources.len() >= 2 && own.len() > 0 && assigned.len() > 0 ==> a.len() >= own.len() && (
            forall|i: int|
                0 <= i < own.len() ==> (#[trigger] a[i]) == error(
                    "❌ Dante device "@ + quoted_name(v.names, sorted::<Ipv4Addr>(own)[i]) + "("@ + dotted(
                        sorted::<Ipv4Addr>(own)[i],
                    ) + ") has no DHCP address — subscriptions to/from this device will fail"@,
                ))
            &&& own.len() == 0 || assigned.len() == 0 ==> a.len() <= 1 && (a.len() == 1 ==> a[0].level
                is Warn)
        }),
{
    lemma_filter_alike(
        v.sources,
        |ip: Ipv4Addr| self_assigned(ip),
        |ip: Ipv4Addr| ip.a == 169 && ip.b == 254 || ip.a == 172 && ip.b == 31,
    );
    lemma_filter_alike(
        v.sources,
        |ip: Ipv4Addr| !self_assigned(ip),
        |ip: Ipv4Addr| !(ip.a == 169 && ip.b == 254 || ip.a == 172 && ip.b == 31),
    );
    let own = unassigned(v.sources);
    law_sorted_keeps_all::<Ipv4Addr>(own);
    sorted::<Ipv4Addr>(own).to_multiset_ensures();
    own.to_multiset_ensures();
}

proof fn lemma_filter_alike(
    s: Seq<Ipv4Addr>,
    f: spec_fn(Ipv4Addr) -> bool,
    g: spec_fn(Ipv4Addr) -> bool,
)
    requires
        forall|x: Ipv4Addr| #[trigger] f(x) == g(x),
    ensures
        s.filter(f) == s.filter(g),
    decreases s.len(),
{
    reveal(Seq::filter);
    if s.len() > 0 {
        lemma_filter_alike(s.drop_last(), f, g);
    }
}

/// Devices with assigned addresses of more than one subnet of 256 are warned of, with how
/// many subnets there are.
pub proof fn law_devices_in_subnets(v: DanteView)
    requires
        v.sources.len() >= 2,
        unassigned(v.sources).len() == 0,
    ensures
        ({
            let a = ip_config_alerts(v);
            let r = routable(v.sources);
            let n = subnets(r).len();
            &&& n <= 1 ==> a.len() == 0
            &&& r.len() >= 2 && n > 1 ==> a == seq![
                warn(
                    "⚠ Dante devices span "@ + dec(n) + " subnets ("@ + joined(
                        sorted::<String>(subnets(r)),
                        ", "@,
                    )
                        + ") — mDNS discovery and PTP sync are multicast-only and cannot cross subnet boundaries; use Dante Domain Manager (DDM) or Dante Director for cross-subnet operation"@,
                ),
            ]
        }),
{
    let a = ip_config_alerts(v);
    let b = crate::capture::dante::subnet_alerts(routable(v.sources));
    assert(Seq::<AlertView>::empty() + b =~= b);
}

/// Every subnet of the devices is listed once.
pub proof fn law_subnets_are_listed_once(ips: Seq<Ipv4Addr>, ip: Ipv4Addr)
    ensures
        ({
            let text = dec(ip.a as nat) + "."@ + dec(ip.b as nat) + "."@ + dec(ip.c as nat) + ".0/24"@;
            &&& subnets(ips).contains(text) ==> subnets(ips.push(ip)) == subnets(ips)
            &&& !subnets(ips).contains(text) ==> subnets(ips.push(ip)) == subnets(ips).push(text)
            &&& subnets(Seq::empty()).len() == 0
        }),
{
    assert(ips.push(ip).drop_last() =~= ips);
}

/// Addresses share a subnet where they differ in the last number alone.
pub proof fn law_one_subnet(a: Ipv4Addr, d: u8)
    ensures
        subnet(a) == subnet(Ipv4Addr { d, ..a }),
{
}

/// An address of the hardware that is monitored at two addresses or more is an error, which
/// is told once.
pub proof fn law_bridged_networks(names: Seq<(Ipv4Addr, Seq<char>)>, conmon: Seq<(Ipv4Addr, ConmonDevice)>, n: nat)
    requires
        n < conmon.len(),
    ensures
        ({
            let mac = conmon[n as int].1.mac@;
            let at = sharing(conmon, mac);
            let before = bridge_alerts(names, conmon, n);
            let after = bridge_alerts(names, conmon, n + 1);
            let first = sharing(conmon.take(n as int), mac).len() == 0;
            &&& at.len() >= 2 && first ==> after == before.push(
                error(
                    "❌ Dante redundancy bridged: MAC "@ + hex_colons(mac) + first_name(names, at)
                        + "  seen from "@ + dec(at.len()) + " IPs ("@ + joined(
                        sorted::<String>(addresses(at)),
                        ", "@,
                    ) + ") — primary and secondary networks are connected"@,
                ),
            )
            &&& at.len() < 2 || !first ==> after == before
            &&& bridge_alerts(names, conmon, 0).len() == 0
        }),
{
}

/// The addresses that share a piece of hardware are all of those that it is monitored at.
pub proof fn law_shared_hardware(t: Seq<(Ipv4Addr, ConmonDevice)>, ip: Ipv4Addr, d: ConmonDevice, mac: Seq<u8>)
    ensures
        d.mac@ == mac ==> sharing(t.push((ip, d)), mac) == sharing(t, mac).push(ip),
        d.mac@ != mac ==> sharing(t.push((ip, d)), mac) == sharing(t, mac),
        sharing(Seq::empty(), mac).len() == 0,
{
    assert(t.push((ip, d)).drop_last() =~= t);
}

/// A shared piece of hardware is told by the first name that one of its addresses has.
pub proof fn law_shared_hardware_is_named(names: Seq<(Ipv4Addr, Seq<char>)>, ip: Ipv4Addr, rest: Seq<Ipv4Addr>)
    ensures
        lookup(names, ip) matches Some(n) ==> first_name(names, seq![ip] + rest) == "  \""@ + n + "\""@,
        lookup(names, ip) is None ==> first_name(names, seq![ip] + rest) == first_name(names, rest),
        first_name(names, Seq::empty()).len() == 0,
{
    assert((seq![ip] + rest)[0] == ip);
    assert((seq![ip] + rest).skip(1) =~= rest);
}

/// Known devices that do not follow the version 1 clock are warned of, where there are two
/// devices, such a clock and a follower at least.
pub proof fn law_devices_that_do_not_follow(v: DanteView, ptp: PtpStateView)
    ensures
        ({
            let a = census_alerts(v, ptp);
            let out = not_following(v, ptp);
            let v1 = exists|i: int|
                0 <= i < ptp.domains.len() && (#[trigger] ptp.domains[i]).0.1 == 1u8;
            let due = v1 && v.sources.len() >= 2 && ptp.v1_followers.len() > 0 && out.len() > 0;
            &&& !due ==> a.len() == 0
            &&& due ==> a == seq![
                warn(
                    "⚠ "@ + dec(out.len()) + " Dante device"@ + (if out.len() == 1 {
                        ""@
                    } else {
                        "s"@
                    }) + " not syncing to clock: "@ + joined(device_texts(v.names, out), ", "@),
                ),
            ]
        }),
{
}

/// Those that do not follow are the known devices without a recent request, but for the
/// grandmaster. Where the grandmaster's address is not known, one of them may be it.
pub proof fn law_who_does_not_follow(v: DanteView, ptp: PtpStateView, ip: Ipv4Addr)
    ensures
        ({
            let silent = v.sources.contains(ip) && !holds(ptp.v1_followers, ip);
            let gm = v1_grandmaster(ptp.domains, 0);
            let out = not_following(v, ptp);
            &&& gm is Some ==> (out.contains(ip) <==> silent && gm != Some(ip))
            &&& gm is None && silent_devices(v, ptp).len() >= 2 ==> (out.contains(ip) <==> silent)
            &&& gm is None && silent_devices(v, ptp).len() <= 1 ==> out.len() == 0
        }),
{
    let f = |x: Ipv4Addr| !holds(ptp.v1_followers, x);
    let s = v.sources.filter(f);
    lemma_filter_has(v.sources, f, ip);
    law_sorted_keeps_all::<Ipv4Addr>(s);
    let t = sorted::<Ipv4Addr>(s);
    s.to_multiset_ensures();
    t.to_multiset_ensures();
    assert(s.contains(ip) <==> s.to_multiset().count(ip) > 0);
    assert(t.contains(ip) <==> t.to_multiset().count(ip) > 0);
    if let Some(gm) = v1_grandmaster(ptp.domains, 0) {
        lemma_filter_has(t, |x: Ipv4Addr| x != gm, ip);
    }
}

proof fn lemma_filter_has(s: Seq<Ipv4Addr>, f: spec_fn(Ipv4Addr) -> bool, x: Ipv4Addr)
    ensures
        s.filter(f).contains(x) <==> s.contains(x) && f(x),
    decreases s.len(),
{
    reveal(Seq::filter);
    if s.len() > 0 {
        let front = s.drop_last();
        lemma_filter_has(front, f, x);
        let a = front.filter(f);
        let b = s.filter(f);
        assert(s[s.len() - 1] == s.last());
        if s.contains(x) {
            let i = choose|i: int| 0 <= i < s.len() && s[i] == x;
            if i < front.len() {
                assert(front[i] == x);
            }
        }
        if front.contains(x) {
            let i = choose|i: int| 0 <= i < front.len() && front[i] == x;
            assert(s[i] == x);
        }
        if f(s.last()) {
            assert(b == a.push(s.last()));
            assert(b[a.len() as int] == s.last());
            if a.contains(x) {
                let i = choose|i: int| 0 <= i < a.len() && a[i] == x;
                assert(b[i] == x);
            }
            if b.contains(x) {
                let i = choose|i: int| 0 <= i < b.len() && b[i] == x;
                if i < a.len() {
                    assert(a[i] == x);
                }
            }
        }
    }
}

/// The grandmaster of version 1 is the sender of the first of its domains that has one.
pub proof fn law_version_one_grandmaster(t: Seq<((u8, u8), PtpStatsView)>, i: int)
    requires
        0 <= i < t.len(),
    ensures
        t[i].0.1 == 1 && t[i].1.grandmaster_src_ip is Some ==> v1_grandmaster(t, i)
            == t[i].1.grandmaster_src_ip,
        t[i].0.1 != 1 || t[i].1.grandmaster_src_ip is None ==> v1_grandmaster(t, i) == v1_grandmaster(
            t,
            i + 1,
        ),
        v1_grandmaster(t, t.len() as int) is None,
{
}

/// A device is told by its name, where it has one, and its address.
pub proof fn law_device_texts(names: Seq<(Ipv4Addr, Seq<char>)>, ip: Ipv4Addr)
    ensures
        lookup(names, ip) matches Some(n) ==> device_text(names, ip) == "\""@ + n + "\" ("@ + dotted(ip)
            + ")"@ && quoted_name(names, ip) == "\""@ + n + "\" "@,
        lookup(names, ip) is None ==> device_text(names, ip) == dotted(ip) && quoted_name(names, ip).len()
            == 0,
{
}

/// The devices told to be in doubt are those that are.
pub proof fn law_doubts_are_told(v: StateView, e: Seq<ProtocolChoice>, offline: bool, now: u64, ip: Ipv4Addr)
    ensures
        found(v, e, offline, now).dante_unverified.contains(ip) <==> doubtful(v.dante).contains(ip),
{
    lemma_set_of(doubtful(v.dante), ip);
}

proof fn lemma_set_of(s: Seq<Ipv4Addr>, x: Ipv4Addr)
    ensures
        set_of(s).contains(x) <==> s.contains(x),
    decreases s.len(),
{
    if s.len() > 0 {
        let front = s.drop_last();
        lemma_set_of(front, x);
        let a = set_of(front);
        let b = set_of(s);
        assert(s[s.len() - 1] == s.last());
        if s.contains(x) {
            let i = choose|i: int| 0 <= i < s.len() && s[i] == x;
            if i < front.len() {
                assert(front[i] == x);
            }
        }
        if front.contains(x) {
            let i = choose|i: int| 0 <= i < front.len() && front[i] == x;
            assert(s[i] == x);
        }
        if !a.contains(s.last()) {
            assert(b[a.len() as int] == s.last());
            if a.contains(x) {
                let i = choose|i: int| 0 <= i < a.len() && a[i] == x;
                assert(b[i] == x);
            }
            if b.contains(x) {
                let i = choose|i: int| 0 <= i < b.len() && b[i] == x;
                if i < a.len() {
                    assert(a[i] == x);
                }
            }
        }
    }
}

} // verus!
