//! The health of the network: one score, and one bullet for each deduction.

use vstd::prelude::*;

use crate::net::Ipv4Addr;
use crate::order::{sort, sorted, views};
use crate::protocols::{MsrpDeclType, MsrpDeclaration, SECOND};
use crate::stats::avtp::AvtpStreamStats;
use crate::stats::diagnostic::{cost, category_text, law_loss_costs, least, StreamDiagnostic, POINT};
use crate::stats::ptp::{PtpStats, PtpStatsView};
use crate::stats::stream::{diagnosed, marking_conditions, path_conditions, presence_conditions, since, source_conditions, timing_conditions, StreamStats, StreamView};
use crate::stats::tcp::{StreamQuality, TcpStreamStats};
use crate::table::{keys, lookup, Table};
use crate::text::{dec, push_dec, texts};

verus! {

/// The full score, in millionths of a point.
pub const FULL_SCORE: u64 = 100_000_000;

/// What is known of the network as a whole.
#[derive(Debug, Clone, Copy)]
pub struct NetworkHealth {
    pub total_packets: u64,
    pub multicast_packets: u64,
    pub unicast_packets: u64,
    pub tcp_retransmissions: u64,
    /// The health score in millionths of a point, at most a hundred points.
    pub network_score: u64,
    pub ecn_congestion_marks: u64,
    pub last_igmp_query: Option<u64>,
    pub igmp_querier_ip: Option<Ipv4Addr>,
    pub igmp_querier_mac: Option<[u8; 6]>,
    /// The time between the last two queries.
    pub igmp_query_interval_secs: Option<u64>,
    pub multiple_queriers_this_window: bool,
}

impl View for NetworkHealth {
    type V = NetworkHealth;

    open spec fn view(&self) -> NetworkHealth {
        *self
    }
}

/// One deduction from the health score.
#[derive(Debug)]
pub enum ScorePenalty {
    /// A condition of streams, over all that have it.
    PerStream { total_deduction: u128, bullet: String },
    /// A condition of the network.
    Infrastructure { deduction: u128, bullet: String },
}

/// One deduction, in specifications.
pub enum PenaltyView {
    PerStream { total_deduction: nat, bullet: Seq<char> },
    Infrastructure { deduction: nat, bullet: Seq<char> },
}

impl View for ScorePenalty {
    type V = PenaltyView;

    open spec fn view(&self) -> PenaltyView {
        match self {
            ScorePenalty::PerStream { total_deduction, bullet } => PenaltyView::PerStream {
                total_deduction: *total_deduction as nat,
                bullet: bullet@,
            },
            ScorePenalty::Infrastructure { deduction, bullet } => PenaltyView::Infrastructure {
                deduction: *deduction as nat,
                bullet: bullet@,
            },
        }
    }
}

/// What a penalty takes off.
pub open spec fn taken(p: PenaltyView) -> nat {
    match p {
        PenaltyView::PerStream { total_deduction, .. } => total_deduction,
        PenaltyView::Infrastructure { deduction, .. } => deduction,
    }
}

/// The bullet of a penalty.
pub open spec fn bullet_of(p: PenaltyView) -> Seq<char> {
    match p {
        PenaltyView::PerStream { bullet, .. } => bullet,
        PenaltyView::Infrastructure { bullet, .. } => bullet,
    }
}

impl ScorePenalty {
    /// What this takes off the score.
    pub fn deduction(&self) -> (r: u128)
        ensures
            r == taken(self@),
    {
        match self {
            ScorePenalty::PerStream { total_deduction, .. } => *total_deduction,
            ScorePenalty::Infrastructure { deduction, .. } => *deduction,
        }
    }

    /// The line in the summary.
    pub fn into_bullet(self) -> (s: String)
        ensures
            s@ == bullet_of(self@),
    {
        match self {
            ScorePenalty::PerStream { bullet, .. } => bullet,
            ScorePenalty::Infrastructure { bullet, .. } => bullet,
        }
    }
}

// ── Streams ──────────────────────────────────────────────────────────────────

/// The conditions of streams that lower the score.
#[derive(Debug, Clone, Copy, PartialEq, Eq, Structural)]
pub enum Category {
    Loss,
    Jitter,
    Discontinuity,
    Source,
    Dead,
    Gap,
    Dscp,
}

/// Whether a diagnostic counts in a category.
pub open spec fn counts_as(d: StreamDiagnostic, c: Category) -> bool {
    match c {
        Category::Loss => d is PacketLoss,
        Category::Jitter => d is HighJitter,
        Category::Discontinuity => d is TsDiscontinuity,
        Category::Source => d is SsrcChange,
        Category::Dead => d is Dead,
        Category::Gap => d is SignalGap,
        Category::Dscp => d is DscpViolation,
    }
}

/// The name of a category.
pub open spec fn category_name(c: Category) -> Seq<char> {
    match c {
        Category::Loss => "packet loss"@,
        Category::Jitter => "high jitter"@,
        Category::Discontinuity => "timestamp discontinuities"@,
        Category::Source => "SSRC changes"@,
        Category::Dead => "silent"@,
        Category::Gap => "signal gaps"@,
        Category::Dscp => "incorrect DSCP"@,
    }
}

/// A summary names a condition as the stream's own diagnostic does.
pub proof fn law_one_name_per_condition(d: StreamDiagnostic, c: Category)
    requires
        counts_as(d, c),
    ensures
        category_text(d) == category_name(c),
{
}

fn is_counted(d: &StreamDiagnostic, c: Category) -> (r: bool)
    ensures
        r == counts_as(*d, c),
{
    match (c, d) {
        (Category::Loss, StreamDiagnostic::PacketLoss { .. }) => true,
        (Category::Jitter, StreamDiagnostic::HighJitter { .. }) => true,
        (Category::Discontinuity, StreamDiagnostic::TsDiscontinuity { .. }) => true,
        (Category::Source, StreamDiagnostic::SsrcChange { .. }) => true,
        (Category::Dead, StreamDiagnostic::Dead { .. }) => true,
        (Category::Gap, StreamDiagnostic::SignalGap { .. }) => true,
        (Category::Dscp, StreamDiagnostic::DscpViolation { .. }) => true,
        _ => false,
    }
}

fn name_of(c: Category) -> (s: &'static str)
    ensures
        s@ == category_name(c),
{
    match c {
        Category::Loss => "packet loss",
        Category::Jitter => "high jitter",
        Category::Discontinuity => "timestamp discontinuities",
        Category::Source => "SSRC changes",
        Category::Dead => "silent",
        Category::Gap => "signal gaps",
        Category::Dscp => "incorrect DSCP",
    }
}

/// The diagnostics of all streams.
pub open spec fn all_diagnosed<I>(s: Seq<(I, StreamView)>, now: u64) -> Seq<StreamDiagnostic>
    decreases s.len(),
{
    if s.len() == 0 {
        Seq::empty()
    } else {
        all_diagnosed(s.drop_last(), now) + diagnosed(s.last().1, now)
    }
}

/// How many diagnostics count in a category.
pub open spec fn affected(ds: Seq<StreamDiagnostic>, c: Category) -> nat
    decreases ds.len(),
{
    if ds.len() == 0 {
        0
    } else if counts_as(ds.last(), c) {
        affected(ds.drop_last(), c) + 1
    } else {
        affected(ds.drop_last(), c)
    }
}

/// What the diagnostics of a category take off together.
pub open spec fn costs(ds: Seq<StreamDiagnostic>, c: Category) -> nat
    decreases ds.len(),
{
    if ds.len() == 0 {
        0
    } else if counts_as(ds.last(), c) {
        costs(ds.drop_last(), c) + cost(ds.last())
    } else {
        costs(ds.drop_last(), c)
    }
}

/// Whether any stream that carries packets is multicast.
pub open spec fn multicast_active<I>(s: Seq<(I, StreamView)>) -> bool {
    exists|i: int| 0 <= i < s.len() && (#[trigger] s[i]).1.is_multicast && s[i].1.packets > 0
}

fn gather(streams: &Table<String, StreamStats>, now: u64) -> (d: Vec<StreamDiagnostic>)
    ensures
        d@ == all_diagnosed(streams@, now),
{
    let mut d: Vec<StreamDiagnostic> = Vec::new();
    let mut i: usize = 0;
    assert(streams@.take(0) =~= Seq::empty());
    while i < streams.len()
        invariant
            i <= streams@.len(),
            d@ == all_diagnosed(streams@.take(i as int), now),
        decreases streams@.len() - i,
    {
        assert(streams@.take(i + 1).drop_last() =~= streams@.take(i as int));
        let mut more: Vec<StreamDiagnostic> = streams.value_at(i).diagnostics(now);
        d.append(&mut more);
        i += 1;
    }
    assert(streams@.take(i as int) =~= streams@);
    d
}

fn tally(ds: &Vec<StreamDiagnostic>, c: Category) -> (r: (u64, u128))
    ensures
        r.0 == affected(ds@, c),
        r.1 == costs(ds@, c),
        r.1 <= r.0 * 30_000_000,
{
    let mut n: u64 = 0;
    let mut total: u128 = 0;
    let mut i: usize = 0;
    let len: usize = ds.len();
    assert(ds@.take(0) =~= Seq::empty());
    while i < len
        invariant
            i <= len,
            len == ds@.len(),
            n <= i,
            n == affected(ds@.take(i as int), c),
            total == costs(ds@.take(i as int), c),
            total <= n * 30_000_000,
        decreases ds@.len() - i,
    {
        assert(ds@.take(i + 1).drop_last() =~= ds@.take(i as int));
        if is_counted(&ds[i], c) {
            total = total + ds[i].deduction() as u128;
            n += 1;
        }
        i += 1;
    }
    assert(ds@.take(i as int) =~= ds@);
    (n, total)
}

fn any_multicast(streams: &Table<String, StreamStats>) -> (r: bool)
    ensures
        r == multicast_active(streams@),
{
    let mut i: usize = 0;
    while i < streams.len()
        invariant
            i <= streams@.len(),
            forall|j: int|
                0 <= j < i ==> !((#[trigger] streams@[j]).1.is_multicast && streams@[j].1.packets
                    > 0),
        decreases streams@.len() - i,
    {
        let s: &StreamStats = streams.value_at(i);
        if s.is_multicast && s.packets > 0 {
            assert(streams@[i as int].1.is_multicast);
            return true;
        }
        i += 1;
    }
    false
}

// ── Bullets ──────────────────────────────────────────────────────────────────

/// A bullet: a number between two texts.
pub open spec fn counted(before: Seq<char>, n: nat, after: Seq<char>) -> Seq<char> {
    before + dec(n) + after
}

fn bullet(before: &str, n: u64, after: &str) -> (s: String)
    ensures
        s@ == counted(before@, n as nat, after@),
{
    let mut s: String = String::from_str(before);
    push_dec(&mut s, n);
    s.append(after);
    s
}

/// A penalty of streams, where any is affected.
pub open spec fn per_stream(n: nat, total: nat, bullet: Seq<char>) -> Seq<PenaltyView> {
    if n > 0 {
        seq![PenaltyView::PerStream { total_deduction: total, bullet }]
    } else {
        Seq::empty()
    }
}

/// A penalty of the network, where its condition holds.
pub open spec fn infrastructure(c: bool, deduction: nat, bullet: Seq<char>) -> Seq<PenaltyView> {
    if c {
        seq![PenaltyView::Infrastructure { deduction, bullet }]
    } else {
        Seq::empty()
    }
}

fn add_streams(p: &mut Vec<ScorePenalty>, n: u64, total_deduction: u128, bullet: String)
    ensures
        views(final(p)@) == views(old(p)@) + per_stream(
            n as nat,
            total_deduction as nat,
            bullet@,
        ),
{
    if n > 0 {
        p.push(ScorePenalty::PerStream { total_deduction, bullet });
    }
    assert(views(p@) =~= views(old(p)@) + per_stream(n as nat, total_deduction as nat, bullet@));
}

fn add_infrastructure(p: &mut Vec<ScorePenalty>, c: bool, deduction: u128, bullet: String)
    ensures
        views(final(p)@) == views(old(p)@) + infrastructure(c, deduction as nat, bullet@),
{
    if c {
        p.push(ScorePenalty::Infrastructure { deduction, bullet });
    }
    assert(views(p@) =~= views(old(p)@) + infrastructure(c, deduction as nat, bullet@));
}

/// The penalty of one category. Marking costs at most twenty points.
#[verifier::opaque]
pub open spec fn category_penalty(ds: Seq<StreamDiagnostic>, c: Category) -> Seq<PenaltyView> {
    per_stream(
        affected(ds, c),
        if c is Dscp {
            least(costs(ds, c), (20 * POINT) as nat)
        } else {
            costs(ds, c)
        },
        if c is Dead {
            counted("⚠  "@, affected(ds, c), " dead stream(s) ("@) + category_name(c) + ")"@
        } else {
            counted("⚠  "@, affected(ds, c), " stream(s) with "@) + category_name(c)
        },
    )
}

/// The penalties of the streams, by category.
pub open spec fn stream_penalties(ds: Seq<StreamDiagnostic>) -> Seq<PenaltyView> {
    Seq::empty() + category_penalty(ds, Category::Loss) + category_penalty(ds, Category::Jitter)
        + category_penalty(ds, Category::Discontinuity) + category_penalty(ds, Category::Source)
        + category_penalty(ds, Category::Dead) + category_penalty(ds, Category::Gap)
        + category_penalty(ds, Category::Dscp)
}

fn add_category(p: &mut Vec<ScorePenalty>, ds: &Vec<StreamDiagnostic>, c: Category)
    ensures
        views(final(p)@) == views(old(p)@) + category_penalty(ds@, c),
{
    reveal(category_penalty);
    let (n, total) = tally(ds, c);
    let mut text: String = String::from_str("");
    if c == Category::Dead {
        text = bullet("⚠  ", n, " dead stream(s) (");
        text.append(name_of(c));
        text.append(")");
    } else {
        text = bullet("⚠  ", n, " stream(s) with ");
        text.append(name_of(c));
    }
    let capped: u128 = if c == Category::Dscp && total > 20 * POINT as u128 {
        20 * POINT as u128
    } else {
        total
    };
    add_streams(p, n, capped, text);
}

/// How many AVB streams carry frames of another priority than reserved.
pub open spec fn mismatched<I>(s: Seq<(I, AvtpStreamStats)>) -> nat
    decreases s.len(),
{
    if s.len() == 0 {
        0
    } else if s.last().1.pcp_violations > 0 {
        mismatched(s.drop_last()) + 1
    } else {
        mismatched(s.drop_last())
    }
}

fn count_mismatched(s: &Table<[u8; 8], AvtpStreamStats>) -> (n: u64)
    ensures
        n == mismatched(s@),
{
    let mut n: u64 = 0;
    let mut i: usize = 0;
    assert(s@.take(0) =~= Seq::empty());
    while i < s.len()
        invariant
            i <= s@.len(),
            n <= i,
            n == mismatched(s@.take(i as int)),
        decreases s@.len() - i,
    {
        assert(s@.take(i + 1).drop_last() =~= s@.take(i as int));
        if s.value_at(i).pcp_violations > 0 {
            n += 1;
        }
        i += 1;
    }
    assert(s@.take(i as int) =~= s@);
    n
}

/// What the quality of a TCP flow takes off.
pub open spec fn flow_cost(q: StreamQuality) -> nat {
    match q {
        StreamQuality::Healthy => 0,
        StreamQuality::Degrading => (5 * POINT) as nat,
        StreamQuality::Critical => (15 * POINT) as nat,
        StreamQuality::Terminated => (25 * POINT) as nat,
    }
}

/// How many TCP flows are not healthy.
pub open spec fn degraded<I>(s: Seq<(I, TcpStreamStats)>) -> nat
    decreases s.len(),
{
    if s.len() == 0 {
        0
    } else if flow_cost(s.last().1.stream_quality) > 0 {
        degraded(s.drop_last()) + 1
    } else {
        degraded(s.drop_last())
    }
}

/// What the TCP flows take off together.
pub open spec fn flow_costs<I>(s: Seq<(I, TcpStreamStats)>) -> nat
    decreases s.len(),
{
    if s.len() == 0 {
        0
    } else {
        flow_costs(s.drop_last()) + flow_cost(s.last().1.stream_quality)
    }
}

fn tally_flows(s: &Table<String, TcpStreamStats>) -> (r: (u64, u128))
    ensures
        r.0 == degraded(s@),
        r.1 == flow_costs(s@),
{
    let mut n: u64 = 0;
    let mut total: u128 = 0;
    let mut i: usize = 0;
    assert(s@.take(0) =~= Seq::empty());
    while i < s.len()
        invariant
            i <= s@.len(),
            n <= i,
            n == degraded(s@.take(i as int)),
            total == flow_costs(s@.take(i as int)),
            total <= i * 25_000_000,
        decreases s@.len() - i,
    {
        assert(s@.take(i + 1).drop_last() =~= s@.take(i as int));
        let d: u64 = match s.value_at(i).stream_quality {
            StreamQuality::Healthy => 0,
            StreamQuality::Degrading => 5 * POINT,
            StreamQuality::Critical => 15 * POINT,
            StreamQuality::Terminated => 25 * POINT,
        };
        if d > 0 {
            n += 1;
        }
        total = total + d as u128;
        i += 1;
    }
    assert(s@.take(i as int) =~= s@);
    (n, total)
}

/// The penalties of AVB streams and TCP flows.
#[verifier::opaque]
pub open spec fn flow_penalties<I, J>(
    h: NetworkHealth,
    avtp: Seq<(I, AvtpStreamStats)>,
    tcp: Seq<(J, TcpStreamStats)>,
) -> Seq<PenaltyView> {
    Seq::empty() + per_stream(
        mismatched(avtp),
        mismatched(avtp) * 15_000_000,
        counted("⚠  "@, mismatched(avtp), " AVB stream(s) with PCP mismatch"@),
    ) + per_stream(
        degraded(tcp),
        flow_costs(tcp),
        counted("⚠  "@, degraded(tcp), " TCP stream(s) with degraded quality"@),
    ) + infrastructure(
        h.tcp_retransmissions > 0,
        least(h.tcp_retransmissions as nat * 500_000, (10 * POINT) as nat),
        counted("⚠  TCP retransmissions ("@, h.tcp_retransmissions as nat, ")"@),
    ) + infrastructure(
        h.ecn_congestion_marks > 0,
        least(h.ecn_congestion_marks as nat * 2_000_000, (20 * POINT) as nat),
        counted("⚠  "@, h.ecn_congestion_marks as nat, " ECN congestion mark(s)"@),
    )
}

/// After how many seconds of silence a querier counts as gone: twice the time
/// between its queries and ten more, or 260 while that time is not known.
pub open spec fn silent_after(h: NetworkHealth) -> nat {
    match h.igmp_query_interval_secs {
        Some(i) => (2 * i + 10) as nat,
        None => 260,
    }
}

/// Whether no querier has been heard for too long.
pub open spec fn querier_absent(h: NetworkHealth, now: u64) -> bool {
    match h.last_igmp_query {
        None => true,
        Some(t) => (since(now, t) / SECOND) as nat > silent_after(h),
    }
}

/// The penalties of the queriers.
#[verifier::opaque]
pub open spec fn querier_penalties(h: NetworkHealth, multicast: bool, now: u64) -> Seq<PenaltyView> {
    Seq::empty() + infrastructure(
        multicast && querier_absent(h, now),
        (10 * POINT) as nat,
        "⚠  IGMP querier absent — multicast may flood"@,
    ) + infrastructure(
        h.multiple_queriers_this_window,
        (15 * POINT) as nat,
        "⚠  Multiple IGMP queriers on segment"@,
    )
}

/// The penalties of one PTP domain.
#[verifier::opaque]
pub open spec fn domain_penalties(domain: u8, ptp: PtpStatsView) -> Seq<PenaltyView> {
    Seq::empty() + infrastructure(
        !ptp.clock_valid && ptp.protocol_clock_lost,
        (25 * POINT) as nat,
        counted("⚠  Clock Source lost (PTP domain "@, domain as nat, ")"@),
    ) + infrastructure(
        !ptp.clock_valid && !ptp.protocol_clock_lost && ptp.packets > 0,
        (15 * POINT) as nat,
        counted("⚠  PTP traffic but no grandmaster (domain "@, domain as nat, ")"@),
    ) + infrastructure(
        ptp.grandmaster_changes > 0,
        10_000_000 * least(ptp.grandmaster_changes as nat, 3),
        counted("⚠  Grandmaster changed (PTP domain "@, domain as nat, ")"@),
    )
}

/// The penalties of the PTP domains with the given keys, in turn.
pub open spec fn clock_penalties(
    order: Seq<(u8, u8)>,
    ptp: Seq<((u8, u8), PtpStatsView)>,
) -> Seq<PenaltyView>
    decreases order.len(),
{
    if order.len() == 0 {
        Seq::empty()
    } else {
        clock_penalties(order.drop_last(), ptp) + (match lookup(ptp, order.last()) {
            Some(d) => domain_penalties(order.last().0, d),
            None => Seq::empty(),
        })
    }
}

/// How many reservations failed.
pub open spec fn failed<I>(s: Seq<(I, MsrpDeclaration)>) -> nat
    decreases s.len(),
{
    if s.len() == 0 {
        0
    } else if s.last().1.decl_type is TalkerFailed {
        failed(s.drop_last()) + 1
    } else {
        failed(s.drop_last())
    }
}

fn count_failed(s: &Table<[u8; 8], MsrpDeclaration>) -> (n: u64)
    ensures
        n == failed(s@),
{
    let mut n: u64 = 0;
    let mut i: usize = 0;
    assert(s@.take(0) =~= Seq::empty());
    while i < s.len()
        invariant
            i <= s@.len(),
            n <= i,
            n == failed(s@.take(i as int)),
        decreases s@.len() - i,
    {
        assert(s@.take(i + 1).drop_last() =~= s@.take(i as int));
        if s.value_at(i).decl_type == MsrpDeclType::TalkerFailed {
            n += 1;
        }
        i += 1;
    }
    assert(s@.take(i as int) =~= s@);
    n
}

/// The penalties of reservations and of energy saving on switch ports.
#[verifier::opaque]
pub open spec fn link_penalties<I>(msrp: Seq<(I, MsrpDeclaration)>, ports: nat) -> Seq<PenaltyView> {
    Seq::empty() + infrastructure(
        failed(msrp) > 0,
        failed(msrp) * 20_000_000,
        counted("⚠  "@, failed(msrp), " AVB reservation failure(s)"@),
    ) + infrastructure(
        ports > 0,
        least(ports * 15_000_000, (30 * POINT) as nat),
        counted("⚠  EEE active on "@, ports, " switch port(s)"@),
    )
}

/// Every deduction from the score.
pub open spec fn penalties(
    h: NetworkHealth,
    streams: Seq<(Seq<char>, StreamView)>,
    tcp: Seq<(Seq<char>, TcpStreamStats)>,
    ptp: Seq<((u8, u8), PtpStatsView)>,
    msrp: Seq<(Seq<u8>, MsrpDeclaration)>,
    ports: nat,
    avtp: Seq<(Seq<u8>, AvtpStreamStats)>,
    now: u64,
) -> Seq<PenaltyView> {
    stream_penalties(all_diagnosed(streams, now)) + flow_penalties(h, avtp, tcp)
        + querier_penalties(h, multicast_active(streams), now) + clock_penalties(
        sorted::<(u8, u8)>(keys(ptp)),
        ptp,
    ) + link_penalties(msrp, ports)
}

/// The sum of what penalties take off.
pub open spec fn total_taken(p: Seq<PenaltyView>) -> nat
    decreases p.len(),
{
    if p.len() == 0 {
        0
    } else {
        total_taken(p.drop_last()) + taken(p.last())
    }
}

/// The score: a hundred points less every deduction, never under zero.
pub open spec fn score(p: Seq<PenaltyView>) -> u64 {
    if total_taken(p) >= FULL_SCORE {
        0
    } else {
        (FULL_SCORE - total_taken(p)) as u64
    }
}

/// The bullets of penalties.
pub open spec fn bullets(p: Seq<PenaltyView>) -> Seq<Seq<char>> {
    p.map_values(|x: PenaltyView| bullet_of(x))
}

fn penalize_streams(ds: &Vec<StreamDiagnostic>) -> (p: Vec<ScorePenalty>)
    ensures
        views(p@) == stream_penalties(ds@),
{
    let mut p: Vec<ScorePenalty> = Vec::new();
    assert(views(p@) =~= Seq::empty());
    add_category(&mut p, ds, Category::Loss);
    add_category(&mut p, ds, Category::Jitter);
    add_category(&mut p, ds, Category::Discontinuity);
    add_category(&mut p, ds, Category::Source);
    add_category(&mut p, ds, Category::Dead);
    add_category(&mut p, ds, Category::Gap);
    add_category(&mut p, ds, Category::Dscp);
    p
}

fn penalize_domain(domain: u8, ptp: &PtpStats) -> (p: Vec<ScorePenalty>)
    ensures
        views(p@) == domain_penalties(domain, ptp@),
{
    reveal(domain_penalties);
    let mut p: Vec<ScorePenalty> = Vec::new();
    assert(views(p@) =~= Seq::empty());
    add_infrastructure(
        &mut p,
        !ptp.clock_valid && ptp.protocol_clock_lost,
        25 * POINT as u128,
        bullet("⚠  Clock Source lost (PTP domain ", domain as u64, ")"),
    );
    add_infrastructure(
        &mut p,
        !ptp.clock_valid && !ptp.protocol_clock_lost && ptp.packets > 0,
        15 * POINT as u128,
        bullet("⚠  PTP traffic but no grandmaster (domain ", domain as u64, ")"),
    );
    let changes: u64 = if ptp.grandmaster_changes <= 3 {
        ptp.grandmaster_changes
    } else {
        3
    };
    add_infrastructure(
        &mut p,
        ptp.grandmaster_changes > 0,
        10_000_000 * changes as u128,
        bullet("⚠  Grandmaster changed (PTP domain ", domain as u64, ")"),
    );
    p
}

/// The keys of the PTP domains, in order.
pub fn domain_order(ptp: &Table<(u8, u8), PtpStats>) -> (r: Vec<(u8, u8)>)
    ensures
        r@ == sorted::<(u8, u8)>(keys(ptp@)),
{
    let mut all: Vec<(u8, u8)> = Vec::new();
    let mut i: usize = 0;
    while i < ptp.len()
        invariant
            i <= ptp@.len(),
            all@ == keys(ptp@).take(i as int),
        decreases ptp@.len() - i,
    {
        let k: (u8, u8) = *ptp.key_at(i);
        all.push(k);
        i += 1;
        assert(all@ =~= keys(ptp@).take(i as int));
    }
    assert(views(all@) =~= keys(ptp@));
    let r: Vec<(u8, u8)> = sort(all);
    assert(r@ =~= views(r@));
    r
}

fn append_penalties(p: &mut Vec<ScorePenalty>, more: Vec<ScorePenalty>)
    ensures
        views(final(p)@) == views(old(p)@) + views(more@),
{
    let mut more: Vec<ScorePenalty> = more;
    let ghost added = more@;
    p.append(&mut more);
    assert(views(p@) =~= views(old(p)@) + views(added));
}

fn penalize_clocks(ptp: &Table<(u8, u8), PtpStats>) -> (p: Vec<ScorePenalty>)
    ensures
        views(p@) == clock_penalties(sorted::<(u8, u8)>(keys(ptp@)), ptp@),
{
    let order: Vec<(u8, u8)> = domain_order(ptp);
    let mut p: Vec<ScorePenalty> = Vec::new();
    let mut i: usize = 0;
    assert(views(p@) =~= clock_penalties(order@.take(0), ptp@));
    while i < order.len()
        invariant
            i <= order@.len(),
            views(p@) == clock_penalties(order@.take(i as int), ptp@),
        decreases order@.len() - i,
    {
        assert(order@.take(i + 1).drop_last() =~= order@.take(i as int));
        let ghost before = views(p@);
        match ptp.get(&order[i]) {
            Some(d) => {
                append_penalties(&mut p, penalize_domain(order[i].0, d));
            },
            None => {
                assert(before =~= before + Seq::empty());
            },
        }
        i += 1;
    }
    assert(order@.take(i as int) =~= order@);
    p
}

impl NetworkHealth {
    /// A network of which nothing is known yet.
    pub fn new() -> (r: Self)
        ensures
            r == (NetworkHealth {
                total_packets: 0,
                multicast_packets: 0,
                unicast_packets: 0,
                tcp_retransmissions: 0,
                network_score: FULL_SCORE,
                ecn_congestion_marks: 0,
                last_igmp_query: None,
                igmp_querier_ip: None,
                igmp_querier_mac: None,
                igmp_query_interval_secs: None,
                multiple_queriers_this_window: false,
            }),
    {
        NetworkHealth {
            total_packets: 0,
            multicast_packets: 0,
            unicast_packets: 0,
            tcp_retransmissions: 0,
            network_score: FULL_SCORE,
            ecn_congestion_marks: 0,
            last_igmp_query: None,
            igmp_querier_ip: None,
            igmp_querier_mac: None,
            igmp_query_interval_secs: None,
            multiple_queriers_this_window: false,
        }
    }

    /// After how many seconds of silence a querier counts as gone. One missed
    /// query is no reason.
    pub fn querier_silent_after_secs(&self) -> (r: u128)
        ensures
            r == silent_after(*self),
    {
        match self.igmp_query_interval_secs {
            Some(i) => 2 * i as u128 + 10,
            None => 260,
        }
    }

    /// Whether no querier has been heard for too long.
    pub fn is_querier_absent(&self, now: u64) -> (r: bool)
        ensures
            r == querier_absent(*self, now),
    {
        match self.last_igmp_query {
            None => true,
            Some(t) => (now.saturating_sub(t) / SECOND) as u128 > self.querier_silent_after_secs(),
        }
    }

    /// Counts a mark of congestion.
    pub fn record_ecn_mark_if_congested(&mut self, ecn: u8)
        ensures
            *final(self) == with_ecn(*old(self), ecn),
    {
        if ecn == 3 {
            self.ecn_congestion_marks = self.ecn_congestion_marks.wrapping_add(1);
        }
    }

    fn penalize_flows(
        &self,
        avtp: &Table<[u8; 8], AvtpStreamStats>,
        tcp: &Table<String, TcpStreamStats>,
    ) -> (p: Vec<ScorePenalty>)
        ensures
            views(p@) == flow_penalties(*self, avtp@, tcp@),
    {
        reveal(flow_penalties);
        let mut p: Vec<ScorePenalty> = Vec::new();
        assert(views(p@) =~= Seq::empty());
        let n: u64 = count_mismatched(avtp);
        add_streams(
            &mut p,
            n,
            n as u128 * 15_000_000,
            bullet("⚠  ", n, " AVB stream(s) with PCP mismatch"),
        );
        let (n, total) = tally_flows(tcp);
        add_streams(&mut p, n, total, bullet("⚠  ", n, " TCP stream(s) with degraded quality"));
        let r: u64 = self.tcp_retransmissions;
        let retransmitted: u128 = if r as u128 * 500_000 <= 10 * POINT as u128 {
            r as u128 * 500_000
        } else {
            10 * POINT as u128
        };
        add_infrastructure(
            &mut p,
            r > 0,
            retransmitted,
            bullet("⚠  TCP retransmissions (", r, ")"),
        );
        let e: u64 = self.ecn_congestion_marks;
        let marked: u128 = if e as u128 * 2_000_000 <= 20 * POINT as u128 {
            e as u128 * 2_000_000
        } else {
            20 * POINT as u128
        };
        add_infrastructure(&mut p, e > 0, marked, bullet("⚠  ", e, " ECN congestion mark(s)"));
        p
    }

    fn penalize_queriers(&self, multicast: bool, now: u64) -> (p: Vec<ScorePenalty>)
        ensures
            views(p@) == querier_penalties(*self, multicast, now),
    {
        reveal(querier_penalties);
        let mut p: Vec<ScorePenalty> = Vec::new();
        assert(views(p@) =~= Seq::empty());
        add_infrastructure(
            &mut p,
            multicast && self.is_querier_absent(now),
            10 * POINT as u128,
            String::from_str("⚠  IGMP querier absent — multicast may flood"),
        );
        add_infrastructure(
            &mut p,
            self.multiple_queriers_this_window,
            15 * POINT as u128,
            String::from_str("⚠  Multiple IGMP queriers on segment"),
        );
        p
    }

    fn penalize_links(
        msrp: &Table<[u8; 8], MsrpDeclaration>,
        eee: &Table<(String, String), (u16, u16)>,
    ) -> (p: Vec<ScorePenalty>)
        ensures
            views(p@) == link_penalties(msrp@, eee@.len()),
    {
        reveal(link_penalties);
        let mut p: Vec<ScorePenalty> = Vec::new();
        assert(views(p@) =~= Seq::empty());
        let n: u64 = count_failed(msrp);
        add_infrastructure(
            &mut p,
            n > 0,
            n as u128 * 20_000_000,
            bullet("⚠  ", n, " AVB reservation failure(s)"),
        );
        let ports: u64 = eee.len() as u64;
        let saving: u128 = if ports as u128 * 15_000_000 <= 30 * POINT as u128 {
            ports as u128 * 15_000_000
        } else {
            30 * POINT as u128
        };
        add_infrastructure(
            &mut p,
            ports > 0,
            saving,
            bullet("⚠  EEE active on ", ports, " switch port(s)"),
        );
        p
    }

    /// Every deduction of this window. Score and summary are both made of it.
    pub fn collect_penalties(
        &self,
        streams: &Table<String, StreamStats>,
        tcp_streams: &Table<String, TcpStreamStats>,
        ptp_domains: &Table<(u8, u8), PtpStats>,
        msrp_state: &Table<[u8; 8], MsrpDeclaration>,
        eee_ports: &Table<(String, String), (u16, u16)>,
        avtp_streams: &Table<[u8; 8], AvtpStreamStats>,
        now: u64,
    ) -> (p: Vec<ScorePenalty>)
        ensures
            views(p@) == penalties(
                *self,
                streams@,
                tcp_streams@,
                ptp_domains@,
                msrp_state@,
                eee_ports@.len(),
                avtp_streams@,
                now,
            ),
    {
        let ds: Vec<StreamDiagnostic> = gather(streams, now);
        let mut p: Vec<ScorePenalty> = penalize_streams(&ds);
        append_penalties(&mut p, self.penalize_flows(avtp_streams, tcp_streams));
        append_penalties(&mut p, self.penalize_queriers(any_multicast(streams), now));
        append_penalties(&mut p, penalize_clocks(ptp_domains));
        append_penalties(&mut p, Self::penalize_links(msrp_state, eee_ports));
        p
    }

    /// Sets the score: a hundred points less every deduction.
    pub fn calculate_score(
        &mut self,
        streams: &Table<String, StreamStats>,
        tcp_streams: &Table<String, TcpStreamStats>,
        ptp_domains: &Table<(u8, u8), PtpStats>,
        msrp_state: &Table<[u8; 8], MsrpDeclaration>,
        eee_ports: &Table<(String, String), (u16, u16)>,
        avtp_streams: &Table<[u8; 8], AvtpStreamStats>,
        now: u64,
    )
        ensures
            *final(self) == (NetworkHealth {
                network_score: score(
                    penalties(
                        *old(self),
                        streams@,
                        tcp_streams@,
                        ptp_domains@,
                        msrp_state@,
                        eee_ports@.len(),
                        avtp_streams@,
                        now,
                    ),
                ),
                ..*old(self)
            }),
    {
        let p: Vec<ScorePenalty> = self.collect_penalties(
            streams,
            tcp_streams,
            ptp_domains,
            msrp_state,
            eee_ports,
            avtp_streams,
            now,
        );
        self.network_score = score_of(&p);
    }

    /// The summary: one bullet for each deduction, in the order of the deductions.
    pub fn build_health_summary(
        &self,
        streams: &Table<String, StreamStats>,
        tcp_streams: &Table<String, TcpStreamStats>,
        ptp_domains: &Table<(u8, u8), PtpStats>,
        msrp_state: &Table<[u8; 8], MsrpDeclaration>,
        eee_ports: &Table<(String, String), (u16, u16)>,
        avtp_streams: &Table<[u8; 8], AvtpStreamStats>,
        now: u64,
    ) -> (r: Vec<String>)
        ensures
            texts(r@) == bullets(
                penalties(
                    *self,
                    streams@,
                    tcp_streams@,
                    ptp_domains@,
                    msrp_state@,
                    eee_ports@.len(),
                    avtp_streams@,
                    now,
                ),
            ),
    {
        let p: Vec<ScorePenalty> = self.collect_penalties(
            streams,
            tcp_streams,
            ptp_domains,
            msrp_state,
            eee_ports,
            avtp_streams,
            now,
        );
        bullets_of(p)
    }
}

/// The network after an ECN field was seen. Three marks congestion.
pub open spec fn with_ecn(h: NetworkHealth, ecn: u8) -> NetworkHealth {
    if ecn == 3 {
        NetworkHealth { ecn_congestion_marks: h.ecn_congestion_marks.wrapping_add(1), ..h }
    } else {
        h
    }
}

fn score_of(p: &Vec<ScorePenalty>) -> (r: u64)
    ensures
        r == score(views(p@)),
{
    let mut left: u128 = FULL_SCORE as u128;
    let mut i: usize = 0;
    let ghost all = views(p@);
    assert(all.take(0) =~= Seq::empty());
    while i < p.len()
        invariant
            i <= p@.len(),
            all == views(p@),
            left == score(all.take(i as int)),
            left <= FULL_SCORE,
        decreases p@.len() - i,
    {
        assert(all.take(i + 1).drop_last() =~= all.take(i as int));
        let d: u128 = p[i].deduction();
        left = if d <= left {
            left - d
        } else {
            0
        };
        i += 1;
    }
    assert(all.take(i as int) =~= all);
    left as u64
}

fn bullets_of(p: Vec<ScorePenalty>) -> (r: Vec<String>)
    ensures
        texts(r@) == bullets(views(p@)),
{
    let mut r: Vec<String> = Vec::new();
    let mut rest: Vec<ScorePenalty> = p;
    let ghost all = views(p@);
    while rest.len() > 0
        invariant
            rest@.len() + r@.len() == all.len(),
            forall|i: int| 0 <= i < rest@.len() ==> (#[trigger] rest@[i])@ == all[r@.len() + i],
            texts(r@) == bullets(all.take(r@.len() as int)),
        decreases rest@.len(),
    {
        let ghost before = rest@;
        let ghost done = r@.len() as int;
        let x: ScorePenalty = rest.remove(0);
        assert(x@ == all[done]) by {
            assert(before[0]@ == all[done + 0]);
        }
        let ghost texted = texts(r@);
        r.push(x.into_bullet());
        assert(texts(r@) =~= texted.push(bullet_of(all[done])));
        assert(bullets(all.take(done + 1)) =~= bullets(all.take(done)).push(bullet_of(all[done])));
        assert forall|i: int| 0 <= i < rest@.len() implies (#[trigger] rest@[i])@ == all[r@.len()
            + i] by {
            assert(rest@[i] == before[i + 1]);
        }
    }
    assert(all.take(r@.len() as int) =~= all);
    r
}

// ── Laws ─────────────────────────────────────────────────────────────────────

/// Whether a diagnostic tells of something that happened.
spec fn earned(d: StreamDiagnostic) -> bool {
    match d {
        StreamDiagnostic::PacketLoss { window_pct, .. } => window_pct.part > 0,
        StreamDiagnostic::TsDiscontinuity { window_count } => window_count > 0,
        StreamDiagnostic::SsrcChange { count } => count > 0,
        _ => true,
    }
}

proof fn lemma_earned(v: StreamView, now: u64)
    ensures
        forall|i: int|
            0 <= i < diagnosed(v, now).len() ==> earned(#[trigger] diagnosed(v, now)[i]),
{
    let good = |d: StreamDiagnostic| earned(d);
    assert(path_conditions(v).all(good)) by {
        reveal(path_conditions);
    }
    assert(marking_conditions(v).all(good)) by {
        reveal(marking_conditions);
    }
    assert(timing_conditions(v).all(good)) by {
        reveal(timing_conditions);
    }
    assert(source_conditions(v).all(good)) by {
        reveal(source_conditions);
    }
    assert(presence_conditions(v, now).all(good)) by {
        reveal(presence_conditions);
    }
    assert forall|i: int| 0 <= i < diagnosed(v, now).len() implies earned(
        #[trigger] diagnosed(v, now)[i],
    ) by {
        assert(good(diagnosed(v, now)[i]));
    }
}

proof fn lemma_all_earned<I>(s: Seq<(I, StreamView)>, now: u64)
    ensures
        forall|i: int|
            0 <= i < all_diagnosed(s, now).len() ==> earned(#[trigger] all_diagnosed(s, now)[i]),
    decreases s.len(),
{
    if s.len() > 0 {
        lemma_all_earned(s.drop_last(), now);
        lemma_earned(s.last().1, now);
        let front = all_diagnosed(s.drop_last(), now);
        let back = diagnosed(s.last().1, now);
        assert forall|i: int| 0 <= i < all_diagnosed(s, now).len() implies earned(
            #[trigger] all_diagnosed(s, now)[i],
        ) by {
            assert(all_diagnosed(s, now) == front + back);
            if i < front.len() {
                assert(earned(front[i]));
            } else {
                assert(earned(back[i - front.len()]));
            }
        }
    }
}

proof fn lemma_category_costs(ds: Seq<StreamDiagnostic>, c: Category)
    requires
        forall|i: int| 0 <= i < ds.len() ==> earned(#[trigger] ds[i]),
    ensures
        affected(ds, c) > 0 ==> costs(ds, c) > 0,
    decreases ds.len(),
{
    if ds.len() > 0 {
        assert forall|i: int| 0 <= i < ds.drop_last().len() implies earned(
            #[trigger] ds.drop_last()[i],
        ) by {
            assert(earned(ds[i]));
        }
        lemma_category_costs(ds.drop_last(), c);
        assert(earned(ds[ds.len() - 1]));
        if let StreamDiagnostic::PacketLoss { window_count, window_pct, lifetime_pct } = ds.last() {
            law_loss_costs(window_count, window_pct, lifetime_pct);
        }
    }
}

/// Whether every penalty takes something off.
pub open spec fn all_cost(p: Seq<PenaltyView>) -> bool {
    forall|i: int| 0 <= i < p.len() ==> taken(#[trigger] p[i]) > 0
}

proof fn lemma_category_penalty(ds: Seq<StreamDiagnostic>, c: Category)
    requires
        forall|i: int| 0 <= i < ds.len() ==> earned(#[trigger] ds[i]),
    ensures
        all_cost(category_penalty(ds, c)),
{
    reveal(category_penalty);
    lemma_category_costs(ds, c);
}

proof fn lemma_clock_penalties(order: Seq<(u8, u8)>, ptp: Seq<((u8, u8), PtpStatsView)>)
    ensures
        all_cost(clock_penalties(order, ptp)),
    decreases order.len(),
{
    reveal(domain_penalties);
    if order.len() > 0 {
        lemma_clock_penalties(order.drop_last(), ptp);
    }
}

proof fn lemma_degraded<I>(tcp: Seq<(I, TcpStreamStats)>)
    ensures
        degraded(tcp) > 0 ==> flow_costs(tcp) > 0,
    decreases tcp.len(),
{
    if tcp.len() > 0 {
        lemma_degraded(tcp.drop_last());
    }
}

/// Every bullet in the summary stands for a deduction that takes something off.
pub proof fn law_every_penalty_costs(
    h: NetworkHealth,
    streams: Seq<(Seq<char>, StreamView)>,
    tcp: Seq<(Seq<char>, TcpStreamStats)>,
    ptp: Seq<((u8, u8), PtpStatsView)>,
    msrp: Seq<(Seq<u8>, MsrpDeclaration)>,
    ports: nat,
    avtp: Seq<(Seq<u8>, AvtpStreamStats)>,
    now: u64,
)
    ensures
        all_cost(penalties(h, streams, tcp, ptp, msrp, ports, avtp, now)),
{
    let ds = all_diagnosed(streams, now);
    lemma_all_earned(streams, now);
    assert(all_cost(stream_penalties(ds))) by {
        lemma_category_penalty(ds, Category::Loss);
        lemma_category_penalty(ds, Category::Jitter);
        lemma_category_penalty(ds, Category::Discontinuity);
        lemma_category_penalty(ds, Category::Source);
        lemma_category_penalty(ds, Category::Dead);
        lemma_category_penalty(ds, Category::Gap);
        lemma_category_penalty(ds, Category::Dscp);
    }
    assert(all_cost(flow_penalties(h, avtp, tcp))) by {
        reveal(flow_penalties);
        lemma_degraded(tcp);
    }
    assert(all_cost(querier_penalties(h, multicast_active(streams), now))) by {
        reveal(querier_penalties);
    }
    lemma_clock_penalties(sorted::<(u8, u8)>(keys(ptp)), ptp);
    assert(all_cost(link_penalties(msrp, ports))) by {
        reveal(link_penalties);
    }
}

proof fn lemma_total_positive(p: Seq<PenaltyView>)
    requires
        all_cost(p),
        p.len() > 0,
    ensures
        total_taken(p) > 0,
{
    assert(taken(p[p.len() - 1]) > 0);
}

/// Score and summary agree: the summary has a bullet exactly where the score is
/// not full, and one for each deduction.
pub proof fn law_score_and_summary_agree(
    h: NetworkHealth,
    streams: Seq<(Seq<char>, StreamView)>,
    tcp: Seq<(Seq<char>, TcpStreamStats)>,
    ptp: Seq<((u8, u8), PtpStatsView)>,
    msrp: Seq<(Seq<u8>, MsrpDeclaration)>,
    ports: nat,
    avtp: Seq<(Seq<u8>, AvtpStreamStats)>,
    now: u64,
)
    ensures
        ({
            let p = penalties(h, streams, tcp, ptp, msrp, ports, avtp, now);
            (score(p) == FULL_SCORE <==> bullets(p).len() == 0) && bullets(p).len() == p.len()
        }),
{
    let p = penalties(h, streams, tcp, ptp, msrp, ports, avtp, now);
    law_every_penalty_costs(h, streams, tcp, ptp, msrp, ports, avtp, now);
    if p.len() > 0 {
        lemma_total_positive(p);
    }
}

/// The score is never above a hundred points, and one more deduction never
/// raises it.
pub proof fn law_score_only_falls(p: Seq<PenaltyView>, more: PenaltyView)
    ensures
        score(p) <= FULL_SCORE,
        score(p.push(more)) <= score(p),
{
    assert(p.push(more).drop_last() =~= p);
}

/// Counts of packets, which tools may drop, take nothing off.
pub proof fn law_packet_counts_are_free(
    h: NetworkHealth,
    total: u64,
    multicast: u64,
    unicast: u64,
    streams: Seq<(Seq<char>, StreamView)>,
    tcp: Seq<(Seq<char>, TcpStreamStats)>,
    ptp: Seq<((u8, u8), PtpStatsView)>,
    msrp: Seq<(Seq<u8>, MsrpDeclaration)>,
    ports: nat,
    avtp: Seq<(Seq<u8>, AvtpStreamStats)>,
    now: u64,
)
    ensures
        penalties(
            NetworkHealth {
                total_packets: total,
                multicast_packets: multicast,
                unicast_packets: unicast,
                ..h
            },
            streams,
            tcp,
            ptp,
            msrp,
            ports,
            avtp,
            now,
        ) == penalties(h, streams, tcp, ptp, msrp, ports, avtp, now),
{
    reveal(flow_penalties);
    reveal(querier_penalties);
}

} // verus!
