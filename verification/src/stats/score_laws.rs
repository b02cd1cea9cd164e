//! What takes points off, and how many.

use vstd::prelude::*;

use crate::order::{law_sorted_keeps_all, sorted};
use crate::protocols::MsrpDeclaration;
use crate::stats::avtp::AvtpStreamStats;
use crate::stats::diagnostic::{cost, StreamDiagnostic};
use crate::stats::health::{affected, all_diagnosed, bullet_of, bullets, category_penalty, clock_penalties, costs, counts_as, degraded, domain_penalties, failed, flow_costs, flow_penalties, infrastructure, link_penalties, mismatched, multicast_active, penalties, per_stream, querier_absent, querier_penalties, score, silent_after, stream_penalties, total_taken, with_ecn, Category, NetworkHealth, PenaltyView};
use crate::stats::ptp::PtpStatsView;
use crate::stats::stream::{diagnosed, StreamView};
use crate::stats::tcp::{StreamQuality, TcpStreamStats};
use crate::table::{distinct, keys, lemma_slot, lemma_slot_from, lookup, slot};
use crate::text::dec;

verus! {

/// All that a network loses, in millionths of a point.
pub open spec fn deducted(
    h: NetworkHealth,
    streams: Seq<(Seq<char>, StreamView)>,
    tcp: Seq<(Seq<char>, TcpStreamStats)>,
    ptp: Seq<((u8, u8), PtpStatsView)>,
    msrp: Seq<(Seq<u8>, MsrpDeclaration)>,
    ports: nat,
    avtp: Seq<(Seq<u8>, AvtpStreamStats)>,
    now: u64,
) -> nat {
    total_taken(penalties(h, streams, tcp, ptp, msrp, ports, avtp, now))
}

// ── Sums ─────────────────────────────────────────────────────────────────────

proof fn lemma_total_cat(a: Seq<PenaltyView>, b: Seq<PenaltyView>)
    ensures
        total_taken(a + b) == total_taken(a) + total_taken(b),
    decreases b.len(),
{
    if b.len() == 0 {
        assert(a + b =~= a);
    } else {
        lemma_total_cat(a, b.drop_last());
        assert((a + b).drop_last() =~= a + b.drop_last());
    }
}

proof fn lemma_infrastructure_total(c: bool, deduction: nat, bullet: Seq<char>)
    ensures
        total_taken(infrastructure(c, deduction, bullet)) == (if c {
            deduction
        } else {
            0
        }),
{
    reveal_with_fuel(total_taken, 2);
    if c {
        assert(infrastructure(c, deduction, bullet).drop_last() =~= Seq::empty());
    }
}

proof fn lemma_per_stream_total(n: nat, total: nat, bullet: Seq<char>)
    ensures
        total_taken(per_stream(n, total, bullet)) == (if n > 0 {
            total
        } else {
            0
        }),
{
    reveal_with_fuel(total_taken, 2);
    if n > 0 {
        assert(per_stream(n, total, bullet).drop_last() =~= Seq::empty());
    }
}

proof fn lemma_deducted(
    h: NetworkHealth,
    streams: Seq<(Seq<char>, StreamView)>,
    tcp: Seq<(Seq<char>, TcpStreamStats)>,
    ptp: Seq<((u8, u8), PtpStatsView)>,
    msrp: Seq<(Seq<u8>, MsrpDeclaration)>,
    ports: nat,
    avtp: Seq<(Seq<u8>, AvtpStreamStats)>,
    now: u64,
)
    ensures
        deducted(h, streams, tcp, ptp, msrp, ports, avtp, now) == total_taken(stream_penalties(all_diagnosed(streams, now))) + total_taken(
            flow_penalties(h, avtp, tcp),
        ) + total_taken(querier_penalties(h, multicast_active(streams), now)) + total_taken(
            clock_penalties(sorted::<(u8, u8)>(keys(ptp)), ptp),
        ) + total_taken(link_penalties(msrp, ports)),
{
    let a = stream_penalties(all_diagnosed(streams, now));
    let b = flow_penalties(h, avtp, tcp);
    let c = querier_penalties(h, multicast_active(streams), now);
    let d = clock_penalties(sorted::<(u8, u8)>(keys(ptp)), ptp);
    let e = link_penalties(msrp, ports);
    lemma_total_cat(a, b);
    lemma_total_cat(a + b, c);
    lemma_total_cat(a + b + c, d);
    lemma_total_cat(a + b + c + d, e);
}

proof fn lemma_link_total<I>(msrp: Seq<(I, MsrpDeclaration)>, ports: nat)
    ensures
        total_taken(link_penalties(msrp, ports)) == failed(msrp) * 20_000_000 + (if ports >= 2 {
            30_000_000
        } else {
            ports * 15_000_000
        }),
{
    reveal(link_penalties);
    let a = Seq::<PenaltyView>::empty();
    let n = failed(msrp);
    let b = infrastructure(
        n > 0,
        n * 20_000_000,
        "⚠  "@ + dec(n) + " AVB reservation failure(s)"@,
    );
    let t = if ports * 15_000_000 <= 30_000_000 {
        ports * 15_000_000
    } else {
        30_000_000nat
    };
    let c = infrastructure(ports > 0, t, "⚠  EEE active on "@ + dec(ports) + " switch port(s)"@);
    assert(link_penalties(msrp, ports) =~= a + b + c);
    lemma_total_cat(a, b);
    lemma_total_cat(a + b, c);
    lemma_infrastructure_total(n > 0, n * 20_000_000, "⚠  "@ + dec(n) + " AVB reservation failure(s)"@);
    lemma_infrastructure_total(ports > 0, t, "⚠  EEE active on "@ + dec(ports) + " switch port(s)"@);
}

/// What a number of things costs at a price each, up to a bound.
spec fn at_most(n: nat, price: nat, bound: nat) -> nat {
    if n * price <= bound {
        n * price
    } else {
        bound
    }
}

proof fn lemma_flow_total<I, J>(
    h: NetworkHealth,
    avtp: Seq<(I, AvtpStreamStats)>,
    tcp: Seq<(J, TcpStreamStats)>,
)
    ensures
        total_taken(flow_penalties(h, avtp, tcp)) == mismatched(avtp) * 15_000_000 + flow_costs(tcp)
            + at_most(h.tcp_retransmissions as nat, 500_000, 10_000_000) + at_most(
            h.ecn_congestion_marks as nat,
            2_000_000,
            20_000_000,
        ),
{
    reveal(flow_penalties);
    let e = Seq::<PenaltyView>::empty();
    let n = mismatched(avtp);
    let m = degraded(tcp);
    let r = h.tcp_retransmissions as nat;
    let k = h.ecn_congestion_marks as nat;
    let at = "⚠  "@ + dec(n) + " AVB stream(s) with PCP mismatch"@;
    let bt = "⚠  "@ + dec(m) + " TCP stream(s) with degraded quality"@;
    let ct = "⚠  TCP retransmissions ("@ + dec(r) + ")"@;
    let dt = "⚠  "@ + dec(k) + " ECN congestion mark(s)"@;
    let a = per_stream(n, n * 15_000_000, at);
    let b = per_stream(m, flow_costs(tcp), bt);
    let c = infrastructure(r > 0, at_most(r, 500_000, 10_000_000), ct);
    let d = infrastructure(k > 0, at_most(k, 2_000_000, 20_000_000), dt);
    assert(flow_penalties(h, avtp, tcp) =~= e + a + b + c + d);
    lemma_total_cat(e, a);
    lemma_total_cat(e + a, b);
    lemma_total_cat(e + a + b, c);
    lemma_total_cat(e + a + b + c, d);
    lemma_per_stream_total(n, n * 15_000_000, at);
    lemma_per_stream_total(m, flow_costs(tcp), bt);
    lemma_infrastructure_total(r > 0, at_most(r, 500_000, 10_000_000), ct);
    lemma_infrastructure_total(k > 0, at_most(k, 2_000_000, 20_000_000), dt);
    lemma_no_degraded(tcp);
}

proof fn lemma_no_degraded<I>(s: Seq<(I, TcpStreamStats)>)
    ensures
        degraded(s) == 0 ==> flow_costs(s) == 0,
    decreases s.len(),
{
    if s.len() > 0 {
        lemma_no_degraded(s.drop_last());
    }
}

proof fn lemma_querier_total(h: NetworkHealth, multicast: bool, now: u64)
    ensures
        total_taken(querier_penalties(h, multicast, now)) == (if multicast && querier_absent(h, now) {
            10_000_000nat
        } else {
            0
        }) + (if h.multiple_queriers_this_window {
            15_000_000nat
        } else {
            0
        }),
{
    reveal(querier_penalties);
    let e = Seq::<PenaltyView>::empty();
    let a = infrastructure(
        multicast && querier_absent(h, now),
        10_000_000,
        "⚠  IGMP querier absent — multicast may flood"@,
    );
    let b = infrastructure(
        h.multiple_queriers_this_window,
        15_000_000,
        "⚠  Multiple IGMP queriers on segment"@,
    );
    assert(querier_penalties(h, multicast, now) =~= e + a + b);
    lemma_total_cat(e, a);
    lemma_total_cat(e + a, b);
    lemma_infrastructure_total(
        multicast && querier_absent(h, now),
        10_000_000,
        "⚠  IGMP querier absent — multicast may flood"@,
    );
    lemma_infrastructure_total(
        h.multiple_queriers_this_window,
        15_000_000,
        "⚠  Multiple IGMP queriers on segment"@,
    );
}

// ── Score ────────────────────────────────────────────────────────────────────

/// A network starts at a hundred points and keeps what is not deducted.
pub proof fn law_score_is_what_is_left(p: Seq<PenaltyView>)
    ensures
        total_taken(p) <= 100_000_000 ==> score(p) + total_taken(p) == 100_000_000,
        total_taken(p) > 100_000_000 ==> score(p) == 0,
{
}

/// Each deduction counts in full, wherever it stands.
pub proof fn law_deductions_add_up(p: Seq<PenaltyView>, q: Seq<PenaltyView>, total: nat, text: Seq<char>)
    ensures
        total_taken(Seq::empty()) == 0,
        total_taken(p + q) == total_taken(p) + total_taken(q),
        total_taken(p.push(PenaltyView::PerStream { total_deduction: total, bullet: text }))
            == total_taken(p) + total,
        total_taken(p.push(PenaltyView::Infrastructure { deduction: total, bullet: text }))
            == total_taken(p) + total,
        bullets(p.push(PenaltyView::PerStream { total_deduction: total, bullet: text })) == bullets(
            p,
        ).push(text),
        bullets(p.push(PenaltyView::Infrastructure { deduction: total, bullet: text })) == bullets(
            p,
        ).push(text),
{
    lemma_total_cat(p, q);
    let a = PenaltyView::PerStream { total_deduction: total, bullet: text };
    let b = PenaltyView::Infrastructure { deduction: total, bullet: text };
    assert(p.push(a).drop_last() =~= p);
    assert(p.push(b).drop_last() =~= p);
    assert(bullets(p.push(a)) =~= bullets(p).push(text));
    assert(bullets(p.push(b)) =~= bullets(p).push(text));
}

/// Congestion is marked by both bits of the ECN field, and by nothing less.
pub proof fn law_congestion_is_counted(h: NetworkHealth, ecn: u8)
    requires
        h.ecn_congestion_marks < u64::MAX,
    ensures
        with_ecn(h, 3) == (NetworkHealth {
            ecn_congestion_marks: (h.ecn_congestion_marks + 1) as u64,
            ..h
        }),
        ecn != 3 ==> with_ecn(h, ecn) == h,
{
}

// ── Reservations and ports ───────────────────────────────────────────────────

proof fn lemma_none_failed<I>(s: Seq<(I, MsrpDeclaration)>)
    requires
        forall|i: int| 0 <= i < s.len() ==> !((#[trigger] s[i]).1.decl_type is TalkerFailed),
    ensures
        failed(s) == 0,
    decreases s.len(),
{
    if s.len() > 0 {
        assert(!(s[s.len() - 1].1.decl_type is TalkerFailed));
        assert forall|i: int| 0 <= i < s.drop_last().len() implies !((
        #[trigger] s.drop_last()[i]).1.decl_type is TalkerFailed) by {
            assert(!(s[i].1.decl_type is TalkerFailed));
        }
        lemma_none_failed(s.drop_last());
    }
}

proof fn lemma_failed_count<I>(s: Seq<(I, MsrpDeclaration)>)
    ensures
        failed(s) == s.filter(|e: (I, MsrpDeclaration)| e.1.decl_type is TalkerFailed).len(),
    decreases s.len(),
{
    reveal(Seq::filter);
    if s.len() > 0 {
        lemma_failed_count(s.drop_last());
    }
}

/// Each failed talker takes twenty points off, and no other declaration any.
pub proof fn law_failed_reservations_cost(
    h: NetworkHealth,
    streams: Seq<(Seq<char>, StreamView)>,
    tcp: Seq<(Seq<char>, TcpStreamStats)>,
    ptp: Seq<((u8, u8), PtpStatsView)>,
    msrp: Seq<(Seq<u8>, MsrpDeclaration)>,
    ports: nat,
    avtp: Seq<(Seq<u8>, AvtpStreamStats)>,
    now: u64,
    id: Seq<u8>,
    d: MsrpDeclaration,
)
    ensures
        d.decl_type is TalkerFailed ==> deducted(
            h, streams, tcp, ptp, msrp.push((id, d)), ports, avtp, now,
        ) == deducted(h, streams, tcp, ptp, msrp, ports, avtp, now) + 20_000_000,
        !(d.decl_type is TalkerFailed) ==> penalties(
            h, streams, tcp, ptp, msrp.push((id, d)), ports, avtp, now,
        ) == penalties(h, streams, tcp, ptp, msrp, ports, avtp, now),
{
    let more = msrp.push((id, d));
    assert(more.drop_last() =~= msrp);
    lemma_deducted(h, streams, tcp, ptp, msrp, ports, avtp, now);
    lemma_deducted(h, streams, tcp, ptp, more, ports, avtp, now);
    lemma_link_total(msrp, ports);
    lemma_link_total(more, ports);
    reveal(link_penalties);
}

/// The reservations take off twenty points for each failed talker among them, which the
/// summary counts; where there is none, nothing is said of reservations.
pub proof fn law_failed_reservations_are_told(
    h: NetworkHealth,
    streams: Seq<(Seq<char>, StreamView)>,
    tcp: Seq<(Seq<char>, TcpStreamStats)>,
    ptp: Seq<((u8, u8), PtpStatsView)>,
    msrp: Seq<(Seq<u8>, MsrpDeclaration)>,
    ports: nat,
    avtp: Seq<(Seq<u8>, AvtpStreamStats)>,
    now: u64,
)
    ensures
        ({
            let n = msrp.filter(
                |e: (Seq<u8>, MsrpDeclaration)| e.1.decl_type is TalkerFailed,
            ).len();
            let p = penalties(h, streams, tcp, ptp, msrp, ports, avtp, now);
            &&& deducted(h, streams, tcp, ptp, msrp, ports, avtp, now) == deducted(h, streams, tcp, ptp, Seq::empty(), ports, avtp, now) + 20_000_000
                * n
            &&& n > 0 ==> p.contains(
                (PenaltyView::Infrastructure {
                    deduction: 20_000_000 * n,
                    bullet: "⚠  "@ + dec(n) + " AVB reservation failure(s)"@,
                }),
            )
        }),
        (forall|i: int| 0 <= i < msrp.len() ==> !((#[trigger] msrp[i]).1.decl_type is TalkerFailed))
            ==> penalties(h, streams, tcp, ptp, msrp, ports, avtp, now) == penalties(h, streams, tcp, ptp, Seq::empty(), ports, avtp, now),
{
    lemma_failed_count(msrp);
    lemma_deducted(h, streams, tcp, ptp, msrp, ports, avtp, now);
    lemma_deducted(h, streams, tcp, ptp, Seq::empty(), ports, avtp, now);
    lemma_link_total(msrp, ports);
    lemma_link_total(Seq::<(Seq<u8>, MsrpDeclaration)>::empty(), ports);
    if forall|i: int| 0 <= i < msrp.len() ==> !((#[trigger] msrp[i]).1.decl_type is TalkerFailed) {
        lemma_none_failed(msrp);
    }
    reveal(link_penalties);
    let p = penalties(h, streams, tcp, ptp, msrp, ports, avtp, now);
    let n = failed(msrp);
    if n > 0 {
        let k = (p.len() - link_penalties(msrp, ports).len()) as int;
        assert(p[k] == link_penalties(msrp, ports)[0]);
    }
}

/// Each switch port that saves energy takes fifteen points off, and all of them
/// together no more than thirty. The summary counts them.
pub proof fn law_saving_ports_cost(
    h: NetworkHealth,
    streams: Seq<(Seq<char>, StreamView)>,
    tcp: Seq<(Seq<char>, TcpStreamStats)>,
    ptp: Seq<((u8, u8), PtpStatsView)>,
    msrp: Seq<(Seq<u8>, MsrpDeclaration)>,
    ports: nat,
    avtp: Seq<(Seq<u8>, AvtpStreamStats)>,
    now: u64,
)
    ensures
        ports >= 2 ==> deducted(h, streams, tcp, ptp, msrp, ports, avtp, now) == deducted(h, streams, tcp, ptp, msrp, 0, avtp, now) + 30_000_000,
        ports == 1 ==> deducted(h, streams, tcp, ptp, msrp, ports, avtp, now) == deducted(h, streams, tcp, ptp, msrp, 0, avtp, now) + 15_000_000,
        ports > 0 ==> bullets(penalties(h, streams, tcp, ptp, msrp, ports, avtp, now)).last() == "⚠  EEE active on "@ + dec(ports)
            + " switch port(s)"@,
{
    lemma_deducted(h, streams, tcp, ptp, msrp, ports, avtp, now);
    lemma_deducted(h, streams, tcp, ptp, msrp, 0, avtp, now);
    lemma_link_total(msrp, ports);
    lemma_link_total(msrp, 0);
    reveal(link_penalties);
}

// ── AVB streams and TCP flows ────────────────────────────────────────────────

/// Each AVB stream with a frame of another priority than reserved takes fifteen points
/// off, and no other any.
pub proof fn law_mismatched_priorities_cost(
    h: NetworkHealth,
    streams: Seq<(Seq<char>, StreamView)>,
    tcp: Seq<(Seq<char>, TcpStreamStats)>,
    ptp: Seq<((u8, u8), PtpStatsView)>,
    msrp: Seq<(Seq<u8>, MsrpDeclaration)>,
    ports: nat,
    avtp: Seq<(Seq<u8>, AvtpStreamStats)>,
    now: u64,
    id: Seq<u8>,
    s: AvtpStreamStats,
)
    ensures
        s.pcp_violations > 0 ==> deducted(
            h, streams, tcp, ptp, msrp, ports, avtp.push((id, s)), now,
        ) == deducted(h, streams, tcp, ptp, msrp, ports, avtp, now) + 15_000_000,
        s.pcp_violations == 0 ==> penalties(
            h, streams, tcp, ptp, msrp, ports, avtp.push((id, s)), now,
        ) == penalties(h, streams, tcp, ptp, msrp, ports, avtp, now),
{
    let more = avtp.push((id, s));
    assert(more.drop_last() =~= avtp);
    lemma_deducted(h, streams, tcp, ptp, msrp, ports, avtp, now);
    lemma_deducted(h, streams, tcp, ptp, msrp, ports, more, now);
    lemma_flow_total(h, avtp, tcp);
    lemma_flow_total(h, more, tcp);
    reveal(flow_penalties);
}

/// A TCP flow that degrades takes five points off, a critical one fifteen and one that
/// ended twenty-five. A healthy one takes none and is not told of.
pub proof fn law_flows_cost_by_quality(
    h: NetworkHealth,
    streams: Seq<(Seq<char>, StreamView)>,
    tcp: Seq<(Seq<char>, TcpStreamStats)>,
    ptp: Seq<((u8, u8), PtpStatsView)>,
    msrp: Seq<(Seq<u8>, MsrpDeclaration)>,
    ports: nat,
    avtp: Seq<(Seq<u8>, AvtpStreamStats)>,
    now: u64,
    id: Seq<char>,
    t: TcpStreamStats,
)
    ensures
        deducted(h, streams, tcp.push((id, t)), ptp, msrp, ports, avtp, now) == deducted(h, streams, tcp, ptp, msrp, ports, avtp, now) + (
        match t.stream_quality {
            StreamQuality::Healthy => 0nat,
            StreamQuality::Degrading => 5_000_000,
            StreamQuality::Critical => 15_000_000,
            StreamQuality::Terminated => 25_000_000,
        }),
        t.stream_quality is Healthy ==> penalties(
            h, streams, tcp.push((id, t)), ptp, msrp, ports, avtp, now,
        ) == penalties(h, streams, tcp, ptp, msrp, ports, avtp, now),
{
    let more = tcp.push((id, t));
    assert(more.drop_last() =~= tcp);
    lemma_deducted(h, streams, tcp, ptp, msrp, ports, avtp, now);
    lemma_deducted(h, streams, more, ptp, msrp, ports, avtp, now);
    lemma_flow_total(h, avtp, tcp);
    lemma_flow_total(h, avtp, more);
    reveal(flow_penalties);
}

proof fn lemma_mismatched_count<I>(s: Seq<(I, AvtpStreamStats)>)
    ensures
        mismatched(s) == s.filter(|e: (I, AvtpStreamStats)| e.1.pcp_violations > 0).len(),
    decreases s.len(),
{
    reveal(Seq::filter);
    if s.len() > 0 {
        lemma_mismatched_count(s.drop_last());
    }
}

proof fn lemma_degraded_count<I>(s: Seq<(I, TcpStreamStats)>)
    ensures
        degraded(s) == s.filter(|e: (I, TcpStreamStats)| !(e.1.stream_quality is Healthy)).len(),
    decreases s.len(),
{
    reveal(Seq::filter);
    if s.len() > 0 {
        lemma_degraded_count(s.drop_last());
    }
}

/// The summary counts the AVB streams with another priority and the TCP flows that are
/// not healthy.
pub proof fn law_flows_are_told(
    h: NetworkHealth,
    streams: Seq<(Seq<char>, StreamView)>,
    tcp: Seq<(Seq<char>, TcpStreamStats)>,
    ptp: Seq<((u8, u8), PtpStatsView)>,
    msrp: Seq<(Seq<u8>, MsrpDeclaration)>,
    ports: nat,
    avtp: Seq<(Seq<u8>, AvtpStreamStats)>,
    now: u64,
)
    ensures
        ({
            let n = avtp.filter(|e: (Seq<u8>, AvtpStreamStats)| e.1.pcp_violations > 0).len();
            let m = tcp.filter(
                |e: (Seq<char>, TcpStreamStats)| !(e.1.stream_quality is Healthy),
            ).len();
            let b = bullets(penalties(h, streams, tcp, ptp, msrp, ports, avtp, now));
            &&& n > 0 ==> b.contains("⚠  "@ + dec(n) + " AVB stream(s) with PCP mismatch"@)
            &&& m > 0 ==> b.contains("⚠  "@ + dec(m) + " TCP stream(s) with degraded quality"@)
        }),
{
    lemma_mismatched_count(avtp);
    lemma_degraded_count(tcp);
    reveal(flow_penalties);
    let p = penalties(h, streams, tcp, ptp, msrp, ports, avtp, now);
    let f = flow_penalties(h, avtp, tcp);
    let k = stream_penalties(all_diagnosed(streams, now)).len() as int;
    let n = mismatched(avtp);
    let m = degraded(tcp);
    assert forall|i: int| 0 <= i < f.len() implies bullets(p).contains(bullet_of(#[trigger] f[i])) by {
        assert(p[k + i] == f[i]);
        assert(bullets(p)[k + i] == bullet_of(f[i]));
    }
    if n > 0 {
        assert(bullet_of(f[0]) == "⚠  "@ + dec(n) + " AVB stream(s) with PCP mismatch"@);
    }
    if m > 0 {
        let i = if n > 0 {
            1int
        } else {
            0
        };
        assert(bullet_of(f[i]) == "⚠  "@ + dec(m) + " TCP stream(s) with degraded quality"@);
    }
}

/// Each retransmission takes half a point off, up to ten points, and each mark of
/// congestion two, up to twenty.
pub proof fn law_retransmissions_and_marks_cost(
    h: NetworkHealth,
    streams: Seq<(Seq<char>, StreamView)>,
    tcp: Seq<(Seq<char>, TcpStreamStats)>,
    ptp: Seq<((u8, u8), PtpStatsView)>,
    msrp: Seq<(Seq<u8>, MsrpDeclaration)>,
    ports: nat,
    avtp: Seq<(Seq<u8>, AvtpStreamStats)>,
    now: u64,
)
    ensures
        ({
            let quiet = NetworkHealth { tcp_retransmissions: 0, ecn_congestion_marks: 0, ..h };
            let r = h.tcp_retransmissions;
            let k = h.ecn_congestion_marks;
            deducted(h, streams, tcp, ptp, msrp, ports, avtp, now) == deducted(quiet, streams, tcp, ptp, msrp, ports, avtp, now) + (if r >= 20 {
                10_000_000
            } else {
                500_000 * r
            }) + (if k >= 10 {
                20_000_000
            } else {
                2_000_000 * k
            })
        }),
{
    let quiet = NetworkHealth { tcp_retransmissions: 0, ecn_congestion_marks: 0, ..h };
    lemma_deducted(h, streams, tcp, ptp, msrp, ports, avtp, now);
    lemma_deducted(quiet, streams, tcp, ptp, msrp, ports, avtp, now);
    lemma_flow_total(h, avtp, tcp);
    lemma_flow_total(quiet, avtp, tcp);
    reveal(querier_penalties);
}

// ── Queriers ─────────────────────────────────────────────────────────────────

/// A querier is gone once it has been silent for more whole seconds than twice the time
/// between its queries and ten more, or than 260 where that time is not known. One that
/// was never heard is gone.
pub proof fn law_silent_queriers_are_gone(h: NetworkHealth, now: u64)
    ensures
        h.last_igmp_query is None ==> querier_absent(h, now),
        h.last_igmp_query is Some && h.igmp_query_interval_secs is Some ==> (querier_absent(h, now)
            <==> now - h.last_igmp_query.unwrap() >= (2 * h.igmp_query_interval_secs.unwrap() + 11)
            * 1_000_000_000),
        h.last_igmp_query is Some && h.igmp_query_interval_secs is None ==> (querier_absent(h, now)
            <==> now - h.last_igmp_query.unwrap() >= 261_000_000_000),
        h.igmp_query_interval_secs is Some ==> silent_after(h) == 2 * h.igmp_query_interval_secs.unwrap() + 10,
        h.igmp_query_interval_secs is None ==> silent_after(h) == 260,
{
}

/// An absent querier takes ten points off where a multicast stream carries packets, and
/// none elsewhere; more than one querier takes fifteen.
pub proof fn law_queriers_cost(
    h: NetworkHealth,
    streams: Seq<(Seq<char>, StreamView)>,
    tcp: Seq<(Seq<char>, TcpStreamStats)>,
    ptp: Seq<((u8, u8), PtpStatsView)>,
    msrp: Seq<(Seq<u8>, MsrpDeclaration)>,
    ports: nat,
    avtp: Seq<(Seq<u8>, AvtpStreamStats)>,
    now: u64,
)
    ensures
        ({
            let fine = NetworkHealth {
                last_igmp_query: Some(now),
                multiple_queriers_this_window: false,
                ..h
            };
            let flooding = exists|i: int|
                0 <= i < streams.len() && (#[trigger] streams[i]).1.is_multicast
                    && streams[i].1.packets > 0;
            deducted(h, streams, tcp, ptp, msrp, ports, avtp, now) == deducted(fine, streams, tcp, ptp, msrp, ports, avtp, now) + (
            if flooding && querier_absent(h, now) {
                10_000_000nat
            } else {
                0
            }) + (if h.multiple_queriers_this_window {
                15_000_000nat
            } else {
                0
            })
        }),
{
    let fine = NetworkHealth {
        last_igmp_query: Some(now),
        multiple_queriers_this_window: false,
        ..h
    };
    lemma_deducted(h, streams, tcp, ptp, msrp, ports, avtp, now);
    lemma_deducted(fine, streams, tcp, ptp, msrp, ports, avtp, now);
    lemma_querier_total(h, multicast_active(streams), now);
    lemma_querier_total(fine, multicast_active(streams), now);
    reveal(flow_penalties);
}

// ── Clocks ───────────────────────────────────────────────────────────────────

/// What one domain takes off: twenty-five points for a lost clock, fifteen for traffic
/// without a grandmaster, and ten for each change of the first three.
pub open spec fn clock_price(d: PtpStatsView) -> nat {
    (if d.clock_valid {
        0nat
    } else if d.protocol_clock_lost {
        25_000_000
    } else if d.packets > 0 {
        15_000_000
    } else {
        0
    }) + (if d.grandmaster_changes >= 3 {
        30_000_000nat
    } else {
        (10_000_000 * d.grandmaster_changes) as nat
    })
}

proof fn lemma_domain_total(k: u8, d: PtpStatsView)
    ensures
        total_taken(domain_penalties(k, d)) == clock_price(d),
{
    reveal(domain_penalties);
    let e = Seq::<PenaltyView>::empty();
    let at = "⚠  Clock Source lost (PTP domain "@ + dec(k as nat) + ")"@;
    let bt = "⚠  PTP traffic but no grandmaster (domain "@ + dec(k as nat) + ")"@;
    let ct = "⚠  Grandmaster changed (PTP domain "@ + dec(k as nat) + ")"@;
    let n = if d.grandmaster_changes <= 3 {
        d.grandmaster_changes as nat
    } else {
        3
    };
    let a = infrastructure(!d.clock_valid && d.protocol_clock_lost, 25_000_000, at);
    let b = infrastructure(
        !d.clock_valid && !d.protocol_clock_lost && d.packets > 0,
        15_000_000,
        bt,
    );
    let c = infrastructure(d.grandmaster_changes > 0, 10_000_000 * n, ct);
    assert(domain_penalties(k, d) =~= e + a + b + c);
    lemma_total_cat(e, a);
    lemma_total_cat(e + a, b);
    lemma_total_cat(e + a + b, c);
    lemma_infrastructure_total(!d.clock_valid && d.protocol_clock_lost, 25_000_000, at);
    lemma_infrastructure_total(
        !d.clock_valid && !d.protocol_clock_lost && d.packets > 0,
        15_000_000,
        bt,
    );
    lemma_infrastructure_total(d.grandmaster_changes > 0, 10_000_000 * n, ct);
}

/// The sum of what domains take off.
pub open spec fn clock_prices(ptp: Seq<((u8, u8), PtpStatsView)>) -> nat
    decreases ptp.len(),
{
    if ptp.len() == 0 {
        0
    } else {
        clock_prices(ptp.drop_last()) + clock_price(ptp.last().1)
    }
}

/// The prices of the domains with the given keys.
spec fn prices_at(order: Seq<(u8, u8)>, ptp: Seq<((u8, u8), PtpStatsView)>) -> nat
    decreases order.len(),
{
    if order.len() == 0 {
        0
    } else {
        prices_at(order.drop_last(), ptp) + price_at(order.last(), ptp)
    }
}

spec fn price_at(k: (u8, u8), ptp: Seq<((u8, u8), PtpStatsView)>) -> nat {
    match lookup(ptp, k) {
        Some(d) => clock_price(d),
        None => 0,
    }
}

proof fn lemma_clock_total(order: Seq<(u8, u8)>, ptp: Seq<((u8, u8), PtpStatsView)>)
    ensures
        total_taken(clock_penalties(order, ptp)) == prices_at(order, ptp),
    decreases order.len(),
{
    if order.len() > 0 {
        lemma_clock_total(order.drop_last(), ptp);
        let a = clock_penalties(order.drop_last(), ptp);
        match lookup(ptp, order.last()) {
            Some(d) => {
                lemma_total_cat(a, domain_penalties(order.last().0, d));
                lemma_domain_total(order.last().0, d);
            },
            None => {
                lemma_total_cat(a, Seq::empty());
            },
        }
    }
}

proof fn lemma_prices_without(order: Seq<(u8, u8)>, ptp: Seq<((u8, u8), PtpStatsView)>, i: int)
    requires
        0 <= i < order.len(),
    ensures
        prices_at(order, ptp) == prices_at(order.remove(i), ptp) + price_at(order[i], ptp),
    decreases order.len(),
{
    if i == order.len() - 1 {
        assert(order.remove(i) =~= order.drop_last());
    } else {
        lemma_prices_without(order.drop_last(), ptp, i);
        assert(order.remove(i).drop_last() =~= order.drop_last().remove(i));
        assert(order.remove(i).last() == order.last());
    }
}

proof fn lemma_prices_any_order(a: Seq<(u8, u8)>, b: Seq<(u8, u8)>, ptp: Seq<((u8, u8), PtpStatsView)>)
    requires
        a.to_multiset() == b.to_multiset(),
    ensures
        prices_at(a, ptp) == prices_at(b, ptp),
    decreases b.len(),
{
    a.to_multiset_ensures();
    b.to_multiset_ensures();
    assert(a.len() == b.len());
    if b.len() > 0 {
        let x = b.last();
        assert(b[b.len() - 1] == x);
        assert(b.contains(x));
        assert(b.to_multiset().count(x) > 0);
        assert(a.contains(x));
        let i = choose|i: int| 0 <= i < a.len() && a[i] == x;
        lemma_prices_without(a, ptp, i);
        assert(b.remove(b.len() - 1) =~= b.drop_last());
        a.remove(i).to_multiset_ensures();
        assert(a.remove(i).to_multiset() =~= b.drop_last().to_multiset());
        lemma_prices_any_order(a.remove(i), b.drop_last(), ptp);
    }
}

proof fn lemma_prices_by_entry(ptp: Seq<((u8, u8), PtpStatsView)>, n: int)
    requires
        distinct(ptp),
        0 <= n <= ptp.len(),
    ensures
        prices_at(keys(ptp).take(n), ptp) == clock_prices(ptp.take(n)),
    decreases n,
{
    if n > 0 {
        lemma_prices_by_entry(ptp, n - 1);
        assert(keys(ptp).take(n).drop_last() =~= keys(ptp).take(n - 1));
        assert(ptp.take(n).drop_last() =~= ptp.take(n - 1));
        lemma_slot(ptp, ptp[n - 1].0, 0);
        lemma_slot_from(ptp, ptp[n - 1].0, 0, n - 1);
    }
}

/// Each clock domain takes off its own price, whatever the others do.
pub proof fn law_clock_domains_cost(
    h: NetworkHealth,
    streams: Seq<(Seq<char>, StreamView)>,
    tcp: Seq<(Seq<char>, TcpStreamStats)>,
    ptp: Seq<((u8, u8), PtpStatsView)>,
    msrp: Seq<(Seq<u8>, MsrpDeclaration)>,
    ports: nat,
    avtp: Seq<(Seq<u8>, AvtpStreamStats)>,
    now: u64,
)
    requires
        distinct(ptp),
    ensures
        deducted(h, streams, tcp, ptp, msrp, ports, avtp, now) == deducted(h, streams, tcp, Seq::empty(), msrp, ports, avtp, now) + clock_prices(
            ptp,
        ),
{
    lemma_deducted(h, streams, tcp, ptp, msrp, ports, avtp, now);
    lemma_deducted(h, streams, tcp, Seq::empty(), msrp, ports, avtp, now);
    let none = Seq::<((u8, u8), PtpStatsView)>::empty();
    lemma_clock_total(sorted::<(u8, u8)>(keys(ptp)), ptp);
    lemma_clock_total(sorted::<(u8, u8)>(keys(none)), none);
    law_sorted_keeps_all::<(u8, u8)>(keys(ptp));
    lemma_prices_any_order(sorted::<(u8, u8)>(keys(ptp)), keys(ptp), ptp);
    lemma_prices_by_entry(ptp, ptp.len() as int);
    assert(keys(ptp).take(ptp.len() as int) =~= keys(ptp));
    assert(ptp.take(ptp.len() as int) =~= ptp);
}

proof fn lemma_clock_contains(
    order: Seq<(u8, u8)>,
    ptp: Seq<((u8, u8), PtpStatsView)>,
    k: (u8, u8),
    d: PtpStatsView,
    x: PenaltyView,
)
    requires
        order.contains(k),
        lookup(ptp, k) == Some(d),
        domain_penalties(k.0, d).contains(x),
    ensures
        clock_penalties(order, ptp).contains(x),
    decreases order.len(),
{
    let i = choose|i: int| 0 <= i < order.len() && order[i] == k;
    let a = clock_penalties(order.drop_last(), ptp);
    let all = clock_penalties(order, ptp);
    if i == order.len() - 1 {
        let j = choose|j: int|
            0 <= j < domain_penalties(k.0, d).len() && domain_penalties(k.0, d)[j] == x;
        assert(all[a.len() + j] == x);
    } else {
        assert(order.drop_last()[i] == k);
        lemma_clock_contains(order.drop_last(), ptp, k, d, x);
        let j = choose|j: int| 0 <= j < a.len() && a[j] == x;
        assert(all[j] == x);
    }
}

/// The summary tells of each domain that lost its clock, has traffic without a
/// grandmaster, or changed its grandmaster.
pub proof fn law_clock_domains_are_told(
    h: NetworkHealth,
    streams: Seq<(Seq<char>, StreamView)>,
    tcp: Seq<(Seq<char>, TcpStreamStats)>,
    ptp: Seq<((u8, u8), PtpStatsView)>,
    msrp: Seq<(Seq<u8>, MsrpDeclaration)>,
    ports: nat,
    avtp: Seq<(Seq<u8>, AvtpStreamStats)>,
    now: u64,
    k: (u8, u8),
    d: PtpStatsView,
)
    requires
        lookup(ptp, k) == Some(d),
    ensures
        ({
            let p = penalties(h, streams, tcp, ptp, msrp, ports, avtp, now);
            &&& !d.clock_valid && d.protocol_clock_lost ==> p.contains(
                (PenaltyView::Infrastructure {
                    deduction: 25_000_000,
                    bullet: "⚠  Clock Source lost (PTP domain "@ + dec(k.0 as nat) + ")"@,
                }),
            )
            &&& !d.clock_valid && !d.protocol_clock_lost && d.packets > 0 ==> p.contains(
                (PenaltyView::Infrastructure {
                    deduction: 15_000_000,
                    bullet: "⚠  PTP traffic but no grandmaster (domain "@ + dec(k.0 as nat) + ")"@,
                }),
            )
            &&& d.grandmaster_changes > 0 ==> p.contains(
                (PenaltyView::Infrastructure {
                    deduction: if d.grandmaster_changes >= 3 {
                        30_000_000
                    } else {
                        (10_000_000 * d.grandmaster_changes) as nat
                    },
                    bullet: "⚠  Grandmaster changed (PTP domain "@ + dec(k.0 as nat) + ")"@,
                }),
            )
        }),
{
    let p = penalties(h, streams, tcp, ptp, msrp, ports, avtp, now);
    let order = sorted::<(u8, u8)>(keys(ptp));
    law_sorted_keeps_all::<(u8, u8)>(keys(ptp));
    lemma_slot(ptp, k, 0);
    let i = slot(ptp, k).unwrap();
    assert(keys(ptp)[i] == k);
    keys(ptp).to_multiset_ensures();
    order.to_multiset_ensures();
    assert(keys(ptp).contains(k));
    assert(order.to_multiset().count(k) > 0);
    assert(order.contains(k));
    reveal(domain_penalties);
    let f = domain_penalties(k.0, d);
    let c = clock_penalties(order, ptp);
    let front = (stream_penalties(all_diagnosed(streams, now)) + flow_penalties(h, avtp, tcp)
        + querier_penalties(h, multicast_active(streams), now)).len();
    assert forall|j: int| 0 <= j < f.len() implies p.contains(#[trigger] f[j]) by {
        lemma_clock_contains(order, ptp, k, d, f[j]);
        let m = choose|m: int| 0 <= m < c.len() && c[m] == f[j];
        assert(p[front + m] == f[j]);
    }
    if !d.clock_valid && (d.protocol_clock_lost || d.packets > 0) {
        assert(p.contains(f[0]));
        if d.grandmaster_changes > 0 {
            assert(p.contains(f[1]));
        }
    } else if d.grandmaster_changes > 0 {
        assert(p.contains(f[0]));
    }
}

// ── Streams ──────────────────────────────────────────────────────────────────

/// The sum of what diagnostics take off, but for wrong markings.
pub open spec fn unmarked_costs(ds: Seq<StreamDiagnostic>) -> nat
    decreases ds.len(),
{
    if ds.len() == 0 {
        0
    } else {
        unmarked_costs(ds.drop_last()) + (if ds.last() is DscpViolation {
            0
        } else {
            cost(ds.last())
        })
    }
}

proof fn lemma_unmarked_cat(a: Seq<StreamDiagnostic>, b: Seq<StreamDiagnostic>)
    ensures
        unmarked_costs(a + b) == unmarked_costs(a) + unmarked_costs(b),
    decreases b.len(),
{
    if b.len() == 0 {
        assert(a + b =~= a);
    } else {
        lemma_unmarked_cat(a, b.drop_last());
        assert((a + b).drop_last() =~= a + b.drop_last());
    }
}

proof fn lemma_unmarked(ds: Seq<StreamDiagnostic>)
    ensures
        unmarked_costs(ds) == costs(ds, Category::Loss) + costs(ds, Category::Jitter) + costs(
            ds,
            Category::Discontinuity,
        ) + costs(ds, Category::Source) + costs(ds, Category::Dead) + costs(ds, Category::Gap),
        costs(ds, Category::Dscp) == affected(ds, Category::Dscp) * 5_000_000,
        affected(ds, Category::Dscp) == ds.filter(|d: StreamDiagnostic| d is DscpViolation).len(),
    decreases ds.len(),
{
    reveal(Seq::filter);
    if ds.len() > 0 {
        lemma_unmarked(ds.drop_last());
    }
}

proof fn lemma_unaffected(ds: Seq<StreamDiagnostic>, c: Category)
    ensures
        affected(ds, c) == 0 ==> costs(ds, c) == 0,
    decreases ds.len(),
{
    if ds.len() > 0 {
        lemma_unaffected(ds.drop_last(), c);
    }
}

proof fn lemma_category_total(ds: Seq<StreamDiagnostic>, c: Category)
    ensures
        total_taken(category_penalty(ds, c)) == (if c is Dscp && costs(ds, c) > 20_000_000 {
            20_000_000
        } else {
            costs(ds, c)
        }),
{
    reveal(category_penalty);
    reveal_with_fuel(total_taken, 2);
    lemma_unaffected(ds, c);
    let p = category_penalty(ds, c);
    if affected(ds, c) > 0 {
        assert(p.drop_last() =~= Seq::empty());
    }
}

proof fn lemma_stream_total(ds: Seq<StreamDiagnostic>)
    ensures
        total_taken(stream_penalties(ds)) == unmarked_costs(ds) + at_most(
            ds.filter(|d: StreamDiagnostic| d is DscpViolation).len(),
            5_000_000,
            20_000_000,
        ),
{
    lemma_unmarked(ds);
    let e = Seq::<PenaltyView>::empty();
    let a = category_penalty(ds, Category::Loss);
    let b = category_penalty(ds, Category::Jitter);
    let c = category_penalty(ds, Category::Discontinuity);
    let d = category_penalty(ds, Category::Source);
    let f = category_penalty(ds, Category::Dead);
    let g = category_penalty(ds, Category::Gap);
    let k = category_penalty(ds, Category::Dscp);
    lemma_total_cat(e, a);
    lemma_total_cat(e + a, b);
    lemma_total_cat(e + a + b, c);
    lemma_total_cat(e + a + b + c, d);
    lemma_total_cat(e + a + b + c + d, f);
    lemma_total_cat(e + a + b + c + d + f, g);
    lemma_total_cat(e + a + b + c + d + f + g, k);
    lemma_category_total(ds, Category::Loss);
    lemma_category_total(ds, Category::Jitter);
    lemma_category_total(ds, Category::Discontinuity);
    lemma_category_total(ds, Category::Source);
    lemma_category_total(ds, Category::Dead);
    lemma_category_total(ds, Category::Gap);
    lemma_category_total(ds, Category::Dscp);
}

/// A stream of which no wrong marking is known takes off what its diagnostics do, each
/// of them, and a stream without any takes nothing off. Only a multicast stream with
/// packets asks for a querier.
pub proof fn law_streams_cost_what_they_have(
    h: NetworkHealth,
    streams: Seq<(Seq<char>, StreamView)>,
    tcp: Seq<(Seq<char>, TcpStreamStats)>,
    ptp: Seq<((u8, u8), PtpStatsView)>,
    msrp: Seq<(Seq<u8>, MsrpDeclaration)>,
    ports: nat,
    avtp: Seq<(Seq<u8>, AvtpStreamStats)>,
    now: u64,
    id: Seq<char>,
    v: StreamView,
)
    requires
        !v.is_multicast || v.packets == 0,
        forall|i: int|
            0 <= i < diagnosed(v, now).len() ==> !(#[trigger] diagnosed(v, now)[i] is DscpViolation),
    ensures
        deducted(h, streams.push((id, v)), tcp, ptp, msrp, ports, avtp, now) == deducted(h, streams, tcp, ptp, msrp, ports, avtp, now)
            + unmarked_costs(diagnosed(v, now)),
{
    let more = streams.push((id, v));
    let ds = all_diagnosed(streams, now);
    let new = diagnosed(v, now);
    assert(more.drop_last() =~= streams);
    assert(all_diagnosed(more, now) == ds + new);
    lemma_deducted(h, streams, tcp, ptp, msrp, ports, avtp, now);
    lemma_deducted(h, more, tcp, ptp, msrp, ports, avtp, now);
    lemma_stream_total(ds);
    lemma_stream_total(ds + new);
    lemma_unmarked_cat(ds, new);
    let wrong = |d: StreamDiagnostic| d is DscpViolation;
    Seq::filter_distributes_over_add(ds, new, wrong);
    lemma_none_kept(new, wrong);
    assert(multicast_active(more) == multicast_active(streams)) by {
        if multicast_active(streams) {
            let i = choose|i: int|
                0 <= i < streams.len() && (#[trigger] streams[i]).1.is_multicast && streams[i].1.packets
                    > 0;
            assert(more[i] == streams[i]);
        }
        if multicast_active(more) {
            let i = choose|i: int|
                0 <= i < more.len() && (#[trigger] more[i]).1.is_multicast && more[i].1.packets > 0;
            assert(more[i] == streams[i]);
        }
    }
}

proof fn lemma_none_kept(s: Seq<StreamDiagnostic>, f: spec_fn(StreamDiagnostic) -> bool)
    requires
        forall|i: int| 0 <= i < s.len() ==> !f(#[trigger] s[i]),
    ensures
        s.filter(f).len() == 0,
    decreases s.len(),
{
    reveal(Seq::filter);
    if s.len() > 0 {
        assert(!f(s[s.len() - 1]));
        assert forall|i: int| 0 <= i < s.drop_last().len() implies !f(
            #[trigger] s.drop_last()[i],
        ) by {
            assert(!f(s[i]));
        }
        lemma_none_kept(s.drop_last(), f);
    }
}

/// Whether a stream is marked wrongly is told once for it, and wrong markings take five
/// points off for each stream, up to twenty in all.
pub proof fn law_wrong_markings_cost(
    h: NetworkHealth,
    streams: Seq<(Seq<char>, StreamView)>,
    tcp: Seq<(Seq<char>, TcpStreamStats)>,
    ptp: Seq<((u8, u8), PtpStatsView)>,
    msrp: Seq<(Seq<u8>, MsrpDeclaration)>,
    ports: nat,
    avtp: Seq<(Seq<u8>, AvtpStreamStats)>,
    now: u64,
)
    ensures
        ({
            let ds = all_diagnosed(streams, now);
            let n = ds.filter(|d: StreamDiagnostic| d is DscpViolation).len();
            let others = total_taken(flow_penalties(h, avtp, tcp)) + total_taken(
                querier_penalties(h, multicast_active(streams), now),
            ) + total_taken(clock_penalties(sorted::<(u8, u8)>(keys(ptp)), ptp)) + total_taken(
                link_penalties(msrp, ports),
            );
            deducted(h, streams, tcp, ptp, msrp, ports, avtp, now) == others + unmarked_costs(ds) + (if n >= 4 {
                20_000_000
            } else {
                5_000_000 * n
            })
        }),
{
    lemma_deducted(h, streams, tcp, ptp, msrp, ports, avtp, now);
    lemma_stream_total(all_diagnosed(streams, now));
}

proof fn lemma_affected_count(ds: Seq<StreamDiagnostic>, c: Category)
    ensures
        affected(ds, c) == ds.filter(|d: StreamDiagnostic| counts_as(d, c)).len(),
    decreases ds.len(),
{
    reveal(Seq::filter);
    if ds.len() > 0 {
        lemma_affected_count(ds.drop_last(), c);
    }
}

proof fn lemma_filter_same(
    ds: Seq<StreamDiagnostic>,
    f: spec_fn(StreamDiagnostic) -> bool,
    g: spec_fn(StreamDiagnostic) -> bool,
)
    requires
        forall|d: StreamDiagnostic| #[trigger] f(d) == g(d),
    ensures
        ds.filter(f) == ds.filter(g),
    decreases ds.len(),
{
    reveal(Seq::filter);
    if ds.len() > 0 {
        lemma_filter_same(ds.drop_last(), f, g);
    }
}

proof fn lemma_category_told(
    h: NetworkHealth,
    streams: Seq<(Seq<char>, StreamView)>,
    tcp: Seq<(Seq<char>, TcpStreamStats)>,
    ptp: Seq<((u8, u8), PtpStatsView)>,
    msrp: Seq<(Seq<u8>, MsrpDeclaration)>,
    ports: nat,
    avtp: Seq<(Seq<u8>, AvtpStreamStats)>,
    now: u64,
    c: Category,
)
    ensures
        ({
            let ds = all_diagnosed(streams, now);
            let n = ds.filter(|d: StreamDiagnostic| counts_as(d, c)).len();
            n > 0 ==> category_penalty(ds, c).len() == 1 && bullets(penalties(h, streams, tcp, ptp, msrp, ports, avtp, now)).contains(
                bullet_of(category_penalty(ds, c)[0]),
            )
        }),
{
    let ds = all_diagnosed(streams, now);
    let p = penalties(h, streams, tcp, ptp, msrp, ports, avtp, now);
    lemma_affected_count(ds, c);
    reveal(category_penalty);
    if affected(ds, c) > 0 {
        let x = category_penalty(ds, c)[0];
        let a = category_penalty(ds, Category::Loss);
        let b = category_penalty(ds, Category::Jitter);
        let e = category_penalty(ds, Category::Discontinuity);
        let d = category_penalty(ds, Category::Source);
        let f = category_penalty(ds, Category::Dead);
        let g = category_penalty(ds, Category::Gap);
        let at = match c {
            Category::Loss => 0nat,
            Category::Jitter => a.len(),
            Category::Discontinuity => a.len() + b.len(),
            Category::Source => a.len() + b.len() + e.len(),
            Category::Dead => a.len() + b.len() + e.len() + d.len(),
            Category::Gap => a.len() + b.len() + e.len() + d.len() + f.len(),
            Category::Dscp => a.len() + b.len() + e.len() + d.len() + f.len() + g.len(),
        };
        assert(stream_penalties(ds)[at as int] == x);
        assert(p[at as int] == x);
        assert(bullets(p)[at as int] == bullet_of(x));
    }
}

/// The summary says how many streams have each condition.
pub proof fn law_conditions_are_summed_up(
    h: NetworkHealth,
    streams: Seq<(Seq<char>, StreamView)>,
    tcp: Seq<(Seq<char>, TcpStreamStats)>,
    ptp: Seq<((u8, u8), PtpStatsView)>,
    msrp: Seq<(Seq<u8>, MsrpDeclaration)>,
    ports: nat,
    avtp: Seq<(Seq<u8>, AvtpStreamStats)>,
    now: u64,
)
    ensures
        ({
            let ds = all_diagnosed(streams, now);
            let b = bullets(penalties(h, streams, tcp, ptp, msrp, ports, avtp, now));
            &&& ds.filter(|d: StreamDiagnostic| d is PacketLoss).len() > 0 ==> b.contains(
                "⚠  "@ + dec(ds.filter(|d: StreamDiagnostic| d is PacketLoss).len()) + " stream(s) with packet loss"@,
            )
            &&& ds.filter(|d: StreamDiagnostic| d is HighJitter).len() > 0 ==> b.contains(
                "⚠  "@ + dec(ds.filter(|d: StreamDiagnostic| d is HighJitter).len()) + " stream(s) with high jitter"@,
            )
            &&& ds.filter(|d: StreamDiagnostic| d is TsDiscontinuity).len() > 0 ==> b.contains(
                "⚠  "@ + dec(ds.filter(|d: StreamDiagnostic| d is TsDiscontinuity).len()) + " stream(s) with timestamp discontinuities"@,
            )
            &&& ds.filter(|d: StreamDiagnostic| d is SsrcChange).len() > 0 ==> b.contains(
                "⚠  "@ + dec(ds.filter(|d: StreamDiagnostic| d is SsrcChange).len()) + " stream(s) with SSRC changes"@,
            )
            &&& ds.filter(|d: StreamDiagnostic| d is Dead).len() > 0 ==> b.contains(
                "⚠  "@ + dec(ds.filter(|d: StreamDiagnostic| d is Dead).len()) + " dead stream(s) (silent)"@,
            )
            &&& ds.filter(|d: StreamDiagnostic| d is SignalGap).len() > 0 ==> b.contains(
                "⚠  "@ + dec(ds.filter(|d: StreamDiagnostic| d is SignalGap).len()) + " stream(s) with signal gaps"@,
            )
            &&& ds.filter(|d: StreamDiagnostic| d is DscpViolation).len() > 0 ==> b.contains(
                "⚠  "@ + dec(ds.filter(|d: StreamDiagnostic| d is DscpViolation).len()) + " stream(s) with incorrect DSCP"@,
            )
        }),
{
    let ds = all_diagnosed(streams, now);
    lemma_told_loss(h, streams, tcp, ptp, msrp, ports, avtp, now);
    lemma_told_jitter(h, streams, tcp, ptp, msrp, ports, avtp, now);
    lemma_told_discontinuity(h, streams, tcp, ptp, msrp, ports, avtp, now);
    lemma_told_source(h, streams, tcp, ptp, msrp, ports, avtp, now);
    lemma_told_dead(h, streams, tcp, ptp, msrp, ports, avtp, now);
    lemma_told_gap(h, streams, tcp, ptp, msrp, ports, avtp, now);
    lemma_told_dscp(h, streams, tcp, ptp, msrp, ports, avtp, now);
}

proof fn lemma_told_loss(
    h: NetworkHealth,
    streams: Seq<(Seq<char>, StreamView)>,
    tcp: Seq<(Seq<char>, TcpStreamStats)>,
    ptp: Seq<((u8, u8), PtpStatsView)>,
    msrp: Seq<(Seq<u8>, MsrpDeclaration)>,
    ports: nat,
    avtp: Seq<(Seq<u8>, AvtpStreamStats)>,
    now: u64,
)
    ensures
        ({
            let n = all_diagnosed(streams, now).filter(|d: StreamDiagnostic| d is PacketLoss).len();
            n > 0 ==> bullets(penalties(h, streams, tcp, ptp, msrp, ports, avtp, now)).contains("⚠  "@ + dec(n) + " stream(s) with packet loss"@)
        }),
{
    let ds = all_diagnosed(streams, now);
    let n = ds.filter(|d: StreamDiagnostic| d is PacketLoss).len();
    lemma_filter_same(
        ds,
        |d: StreamDiagnostic| d is PacketLoss,
        |d: StreamDiagnostic| counts_as(d, Category::Loss),
    );
    lemma_affected_count(ds, Category::Loss);
    lemma_category_told(h, streams, tcp, ptp, msrp, ports, avtp, now, Category::Loss);
    reveal(category_penalty);
    assert("⚠  "@ + dec(n) + " stream(s) with packet loss"@ =~= "⚠  "@ + dec(n) + " stream(s) with "@ + "packet loss"@) by {
        reveal_strlit(" stream(s) with packet loss");
        reveal_strlit(" stream(s) with ");
        reveal_strlit("packet loss");
    }
}

proof fn lemma_told_jitter(
    h: NetworkHealth,
    streams: Seq<(Seq<char>, StreamView)>,
    tcp: Seq<(Seq<char>, TcpStreamStats)>,
    ptp: Seq<((u8, u8), PtpStatsView)>,
    msrp: Seq<(Seq<u8>, MsrpDeclaration)>,
    ports: nat,
    avtp: Seq<(Seq<u8>, AvtpStreamStats)>,
    now: u64,
)
    ensures
        ({
            let n = all_diagnosed(streams, now).filter(|d: StreamDiagnostic| d is HighJitter).len();
            n > 0 ==> bullets(penalties(h, streams, tcp, ptp, msrp, ports, avtp, now)).contains("⚠  "@ + dec(n) + " stream(s) with high jitter"@)
        }),
{
    let ds = all_diagnosed(streams, now);
    let n = ds.filter(|d: StreamDiagnostic| d is HighJitter).len();
    lemma_filter_same(
        ds,
        |d: StreamDiagnostic| d is HighJitter,
        |d: StreamDiagnostic| counts_as(d, Category::Jitter),
    );
    lemma_affected_count(ds, Category::Jitter);
    lemma_category_told(h, streams, tcp, ptp, msrp, ports, avtp, now, Category::Jitter);
    reveal(category_penalty);
    assert("⚠  "@ + dec(n) + " stream(s) with high jitter"@ =~= "⚠  "@ + dec(n) + " stream(s) with "@ + "high jitter"@) by {
        reveal_strlit(" stream(s) with high jitter");
        reveal_strlit(" stream(s) with ");
        reveal_strlit("high jitter");
    }
}

proof fn lemma_told_discontinuity(
    h: NetworkHealth,
    streams: Seq<(Seq<char>, StreamView)>,
    tcp: Seq<(Seq<char>, TcpStreamStats)>,
    ptp: Seq<((u8, u8), PtpStatsView)>,
    msrp: Seq<(Seq<u8>, MsrpDeclaration)>,
    ports: nat,
    avtp: Seq<(Seq<u8>, AvtpStreamStats)>,
    now: u64,
)
    ensures
        ({
            let n = all_diagnosed(streams, now).filter(|d: StreamDiagnostic| d is TsDiscontinuity).len();
            n > 0 ==> bullets(penalties(h, streams, tcp, ptp, msrp, ports, avtp, now)).contains("⚠  "@ + dec(n) + " stream(s) with timestamp discontinuities"@)
        }),
{
    let ds = all_diagnosed(streams, now);
    let n = ds.filter(|d: StreamDiagnostic| d is TsDiscontinuity).len();
    lemma_filter_same(
        ds,
        |d: StreamDiagnostic| d is TsDiscontinuity,
        |d: StreamDiagnostic| counts_as(d, Category::Discontinuity),
    );
    lemma_affected_count(ds, Category::Discontinuity);
    lemma_category_told(h, streams, tcp, ptp, msrp, ports, avtp, now, Category::Discontinuity);
    reveal(category_penalty);
    assert("⚠  "@ + dec(n) + " stream(s) with timestamp discontinuities"@ =~= "⚠  "@ + dec(n) + " stream(s) with "@ + "timestamp discontinuities"@) by {
        reveal_strlit(" stream(s) with timestamp discontinuities");
        reveal_strlit(" stream(s) with ");
        reveal_strlit("timestamp discontinuities");
    }
}

proof fn lemma_told_source(
    h: NetworkHealth,
    streams: Seq<(Seq<char>, StreamView)>,
    tcp: Seq<(Seq<char>, TcpStreamStats)>,
    ptp: Seq<((u8, u8), PtpStatsView)>,
    msrp: Seq<(Seq<u8>, MsrpDeclaration)>,
    ports: nat,
    avtp: Seq<(Seq<u8>, AvtpStreamStats)>,
    now: u64,
)
    ensures
        ({
            let n = all_diagnosed(streams, now).filter(|d: StreamDiagnostic| d is SsrcChange).len();
            n > 0 ==> bullets(penalties(h, streams, tcp, ptp, msrp, ports, avtp, now)).contains("⚠  "@ + dec(n) + " stream(s) with SSRC changes"@)
        }),
{
    let ds = all_diagnosed(streams, now);
    let n = ds.filter(|d: StreamDiagnostic| d is SsrcChange).len();
    lemma_filter_same(
        ds,
        |d: StreamDiagnostic| d is SsrcChange,
        |d: StreamDiagnostic| counts_as(d, Category::Source),
    );
    lemma_affected_count(ds, Category::Source);
    lemma_category_told(h, streams, tcp, ptp, msrp, ports, avtp, now, Category::Source);
    reveal(category_penalty);
    assert("⚠  "@ + dec(n) + " stream(s) with SSRC changes"@ =~= "⚠  "@ + dec(n) + " stream(s) with "@ + "SSRC changes"@) by {
        reveal_strlit(" stream(s) with SSRC changes");
        reveal_strlit(" stream(s) with ");
        reveal_strlit("SSRC changes");
    }
}

proof fn lemma_told_dead(
    h: NetworkHealth,
    streams: Seq<(Seq<char>, StreamView)>,
    tcp: Seq<(Seq<char>, TcpStreamStats)>,
    ptp: Seq<((u8, u8), PtpStatsView)>,
    msrp: Seq<(Seq<u8>, MsrpDeclaration)>,
    ports: nat,
    avtp: Seq<(Seq<u8>, AvtpStreamStats)>,
    now: u64,
)
    ensures
        ({
            let n = all_diagnosed(streams, now).filter(|d: StreamDiagnostic| d is Dead).len();
            n > 0 ==> bullets(penalties(h, streams, tcp, ptp, msrp, ports, avtp, now)).contains("⚠  "@ + dec(n) + " dead stream(s) (silent)"@)
        }),
{
    let ds = all_diagnosed(streams, now);
    let n = ds.filter(|d: StreamDiagnostic| d is Dead).len();
    lemma_filter_same(
        ds,
        |d: StreamDiagnostic| d is Dead,
        |d: StreamDiagnostic| counts_as(d, Category::Dead),
    );
    lemma_affected_count(ds, Category::Dead);
    lemma_category_told(h, streams, tcp, ptp, msrp, ports, avtp, now, Category::Dead);
    reveal(category_penalty);
    assert("⚠  "@ + dec(n) + " dead stream(s) (silent)"@ =~= "⚠  "@ + dec(n) + " dead stream(s) ("@ + "silent"@ + ")"@) by {
        reveal_strlit(" dead stream(s) (silent)");
        reveal_strlit(" dead stream(s) (");
        reveal_strlit("silent");
        reveal_strlit(")");
    }
}

proof fn lemma_told_gap(
    h: NetworkHealth,
    streams: Seq<(Seq<char>, StreamView)>,
    tcp: Seq<(Seq<char>, TcpStreamStats)>,
    ptp: Seq<((u8, u8), PtpStatsView)>,
    msrp: Seq<(Seq<u8>, MsrpDeclaration)>,
    ports: nat,
    avtp: Seq<(Seq<u8>, AvtpStreamStats)>,
    now: u64,
)
    ensures
        ({
            let n = all_diagnosed(streams, now).filter(|d: StreamDiagnostic| d is SignalGap).len();
            n > 0 ==> bullets(penalties(h, streams, tcp, ptp, msrp, ports, avtp, now)).contains("⚠  "@ + dec(n) + " stream(s) with signal gaps"@)
        }),
{
    let ds = all_diagnosed(streams, now);
    let n = ds.filter(|d: StreamDiagnostic| d is SignalGap).len();
    lemma_filter_same(
        ds,
        |d: StreamDiagnostic| d is SignalGap,
        |d: StreamDiagnostic| counts_as(d, Category::Gap),
    );
    lemma_affected_count(ds, Category::Gap);
    lemma_category_told(h, streams, tcp, ptp, msrp, ports, avtp, now, Category::Gap);
    reveal(category_penalty);
    assert("⚠  "@ + dec(n) + " stream(s) with signal gaps"@ =~= "⚠  "@ + dec(n) + " stream(s) with "@ + "signal gaps"@) by {
        reveal_strlit(" stream(s) with signal gaps");
        reveal_strlit(" stream(s) with ");
        reveal_strlit("signal gaps");
    }
}

proof fn lemma_told_dscp(
    h: NetworkHealth,
    streams: Seq<(Seq<char>, StreamView)>,
    tcp: Seq<(Seq<char>, TcpStreamStats)>,
    ptp: Seq<((u8, u8), PtpStatsView)>,
    msrp: Seq<(Seq<u8>, MsrpDeclaration)>,
    ports: nat,
    avtp: Seq<(Seq<u8>, AvtpStreamStats)>,
    now: u64,
)
    ensures
        ({
            let n = all_diagnosed(streams, now).filter(|d: StreamDiagnostic| d is DscpViolation).len();
            n > 0 ==> bullets(penalties(h, streams, tcp, ptp, msrp, ports, avtp, now)).contains("⚠  "@ + dec(n) + " stream(s) with incorrect DSCP"@)
        }),
{
    let ds = all_diagnosed(streams, now);
    let n = ds.filter(|d: StreamDiagnostic| d is DscpViolation).len();
    lemma_filter_same(
        ds,
        |d: StreamDiagnostic| d is DscpViolation,
        |d: StreamDiagnostic| counts_as(d, Category::Dscp),
    );
    lemma_affected_count(ds, Category::Dscp);
    lemma_category_told(h, streams, tcp, ptp, msrp, ports, avtp, now, Category::Dscp);
    reveal(category_penalty);
    assert("⚠  "@ + dec(n) + " stream(s) with incorrect DSCP"@ =~= "⚠  "@ + dec(n) + " stream(s) with "@ + "incorrect DSCP"@) by {
        reveal_strlit(" stream(s) with incorrect DSCP");
        reveal_strlit(" stream(s) with ");
        reveal_strlit("incorrect DSCP");
    }
}

/// Every stream is looked at: a diagnostic of any of them is among those of all, and
/// there are no others.
pub proof fn law_every_stream_is_looked_at(
    streams: Seq<(Seq<char>, StreamView)>,
    id: Seq<char>,
    v: StreamView,
    now: u64,
)
    ensures
        all_diagnosed(Seq::<(Seq<char>, StreamView)>::empty(), now).len() == 0,
        all_diagnosed(streams.push((id, v)), now) == all_diagnosed(streams, now) + diagnosed(v, now),
{
    assert(streams.push((id, v)).drop_last() =~= streams);
}

} // verus!
