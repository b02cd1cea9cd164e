//! What a session joins, asks for and names, and when it reports and ends.

use vstd::prelude::*;

use crate::capture::checks::{ended, found, refclk_alerts, ChecksView};
use crate::capture::state::StateView;
use crate::net::Ipv4Addr;
use crate::protocols::{chosen, ProtocolChoice};
use crate::report::line::{alert_out, alerts_out, Console};
use crate::report::print::{all_well, report_out, snapshot, ReportSession};
use crate::session::groups::{first_groups, joinable, next_due};
use crate::session::names::{hex5, live_text, log_file, replay_text, two, LogTime};
use crate::session::probe::{labels, probe_packet, question, questions, services_for};
use crate::session::run::{alerts_before, clock_after, end_out, report_due, time_up, window_over, OfflineReportClock, Run};
use crate::text::{dec, digit, signed_dec};

verus! {

// ── Groups ───────────────────────────────────────────────────────────────────

/// Who listens for anything but NDI joins the groups of the clocks and of the reports.
pub proof fn law_clock_groups_are_joined(e: Seq<ProtocolChoice>, g: Ipv4Addr)
    ensures
        ({
            let clocks = exists|i: int|
                0 <= i < e.len() && (#[trigger] e[i] is AES67 || e[i] is ST2110 || e[i] is Dante || e[i]
                    is AVB);
            let announced = exists|i: int| 0 <= i < e.len() && (#[trigger] e[i] is AES67 || e[i] is ST2110);
            let clock = g.a == 224 && g.b == 0 && (g.c == 1 && 129 <= g.d <= 132 || g.c == 0 && (g.d
                == 107 || g.d == 22));
            let sap = g == (Ipv4Addr { a: 224, b: 2, c: 127, d: 254 }) || g == (Ipv4Addr {
                a: 239,
                b: 255,
                c: 255,
                d: 255,
            });
            (exists|i: int| 0 <= i < first_groups(e).len() && (#[trigger] first_groups(e)[i]).group == g)
                <==> clocks && clock || announced && sap
        }),
{
    lemma_any(e);
    let f = first_groups(e);
    let c = crate::session::groups::clock_groups();
    let s = crate::session::groups::announcement_groups();
    let n = if crate::protocols::any_ptp(e) {
        6int
    } else {
        0
    };
    assert(c.len() == 6 && s.len() == 2);
    assert forall|i: int| 0 <= i < n implies f[i] == c[i] by {}
    if crate::protocols::any_sap(e) {
        assert(f[n] == s[0] && f[n + 1] == s[1]);
    }
    if crate::protocols::any_ptp(e) {
        assert(f[0].group == (Ipv4Addr { a: 224, b: 0, c: 1, d: 129 }));
        assert(f[1].group == (Ipv4Addr { a: 224, b: 0, c: 1, d: 130 }));
        assert(f[2].group == (Ipv4Addr { a: 224, b: 0, c: 1, d: 131 }));
        assert(f[3].group == (Ipv4Addr { a: 224, b: 0, c: 1, d: 132 }));
        assert(f[4].group == (Ipv4Addr { a: 224, b: 0, c: 0, d: 107 }));
        assert(f[5].group == (Ipv4Addr { a: 224, b: 0, c: 0, d: 22 }));
    }
}

proof fn lemma_any(e: Seq<ProtocolChoice>)
    ensures
        crate::protocols::any_ptp(e) <==> exists|i: int|
            0 <= i < e.len() && (#[trigger] e[i] is AES67 || e[i] is ST2110 || e[i] is Dante || e[i]
                is AVB),
        crate::protocols::any_sap(e) <==> exists|i: int|
            0 <= i < e.len() && (#[trigger] e[i] is AES67 || e[i] is ST2110),
{
    if crate::protocols::any_ptp(e) {
        let i = choose|i: int| 0 <= i < e.len() && crate::protocols::ptp_needed(#[trigger] e[i]);
        assert(e[i] is AES67 || e[i] is ST2110 || e[i] is Dante || e[i] is AVB);
    }
    if exists|i: int|
        0 <= i < e.len() && (#[trigger] e[i] is AES67 || e[i] is ST2110 || e[i] is Dante || e[i] is AVB) {
        let i = choose|i: int|
            0 <= i < e.len() && (#[trigger] e[i] is AES67 || e[i] is ST2110 || e[i] is Dante || e[i]
                is AVB);
        assert(crate::protocols::ptp_needed(e[i]));
    }
    if crate::protocols::any_sap(e) {
        let i = choose|i: int| 0 <= i < e.len() && crate::protocols::sap_needed(#[trigger] e[i]);
        assert(e[i] is AES67 || e[i] is ST2110);
    }
    if exists|i: int| 0 <= i < e.len() && (#[trigger] e[i] is AES67 || e[i] is ST2110) {
        let i = choose|i: int| 0 <= i < e.len() && (#[trigger] e[i] is AES67 || e[i] is ST2110);
        assert(crate::protocols::sap_needed(e[i]));
    }
}

/// A group is joined for the protocol whose block it is in: 239.69.0.0/16 for AES67,
/// 239.255.0.0/16 for Dante, and the rest of 239.0.0.0/8 for ST 2110. None other is.
pub proof fn law_groups_by_block(g: Ipv4Addr, e: Seq<ProtocolChoice>)
    ensures
        joinable(g, e) <==> g.a == 239 && (if g.b == 69 {
            e.contains(ProtocolChoice::AES67)
        } else if g.b == 255 {
            e.contains(ProtocolChoice::Dante)
        } else {
            e.contains(ProtocolChoice::ST2110)
        }),
{
    lemma_chosen(e, ProtocolChoice::AES67);
    lemma_chosen(e, ProtocolChoice::Dante);
    lemma_chosen(e, ProtocolChoice::ST2110);
}

proof fn lemma_chosen(e: Seq<ProtocolChoice>, c: ProtocolChoice)
    ensures
        chosen(e, c) <==> e.contains(c),
{
}

/// Groups are joined in the order in which they came up, each that was not joined yet.
pub proof fn law_groups_in_turn(g: Ipv4Addr, rest: Seq<Ipv4Addr>, joined: Seq<Ipv4Addr>, e: Seq<ProtocolChoice>)
    ensures
        joinable(g, e) && !joined.contains(g) ==> next_due(seq![g] + rest, joined, e) == (Some(g), rest),
        !joinable(g, e) || joined.contains(g) ==> next_due(seq![g] + rest, joined, e) == next_due(
            rest,
            joined,
            e,
        ),
        next_due(Seq::empty(), joined, e).0 is None,
{
    assert((seq![g] + rest)[0] == g);
    assert((seq![g] + rest).skip(1) =~= rest);
}

// ── Time ─────────────────────────────────────────────────────────────────────

/// A live session reports once more than five seconds have passed since it last did; a
/// replay never does by the clock.
pub proof fn law_live_reports(r: Run, now: u64)
    ensures
        report_due(r, now) <==> !r.is_offline && now - r.last_report > 5_000_000_000,
{
}

/// A live session ends once its duration has passed, and without one it goes on. A replay
/// goes on to its end.
pub proof fn law_live_sessions_end(r: Run, now: u64)
    requires
        r.run_start <= now,
    ensures
        time_up(r, now) <==> !r.is_offline && r.duration_secs is Some && now - r.run_start
            >= r.duration_secs.unwrap() * 1_000_000_000,
{
}

/// A replay reports every five seconds of its own time, counted from its first packet and
/// then from the packet that the last report came with.
pub proof fn law_replayed_windows(c: OfflineReportClock, t: i64)
    ensures
        window_over(c, t) <==> c.initialized && t - c.last_report_pcap >= 5,
        !c.initialized ==> clock_after(c, t) == (OfflineReportClock {
            last_report_pcap: t,
            initialized: true,
        }),
        c.initialized && t - c.last_report_pcap >= 5 ==> clock_after(c, t) == (OfflineReportClock {
            last_report_pcap: t,
            initialized: true,
        }),
        c.initialized && t - c.last_report_pcap < 5 ==> clock_after(c, t) == c,
{
}

/// A clock dropout is told in place of the lost clocks that it explains. Every other alert
/// of a window is told before its report.
pub proof fn law_alerts_come_before_the_report(c: Console, v: StateView, k: ChecksView)
    ensures
        ({
            let rest = alerts_out(c, k.stream_count_alerts) + alerts_out(c, k.igmp_query_interval_alerts)
                + alerts_out(c, k.multiple_queriers_alerts) + alerts_out(c, k.version_mismatch_alerts)
                + alerts_out(c, k.filter_unregistered_alerts) + alerts_out(c, k.high_bandwidth_alerts)
                + alerts_out(c, k.igmp_snooping_ptp_alerts) + alerts_out(
                c,
                refclk_alerts(v, v.sdp_cache),
            );
            &&& k.clock_dropout_alert is None ==> alerts_before(c, v, k) == alerts_out(c, k.clock_alerts)
                + rest
            &&& k.clock_dropout_alert matches Some(a) ==> alerts_before(c, v, k) == alert_out(c, a) + rest
        }),
{
    let rest = alerts_out(c, k.stream_count_alerts) + alerts_out(c, k.igmp_query_interval_alerts)
        + alerts_out(c, k.multiple_queriers_alerts) + alerts_out(c, k.version_mismatch_alerts)
        + alerts_out(c, k.filter_unregistered_alerts) + alerts_out(c, k.high_bandwidth_alerts)
        + alerts_out(c, k.igmp_snooping_ptp_alerts) + alerts_out(c, refclk_alerts(v, v.sdp_cache));
    match k.clock_dropout_alert {
        Some(a) => {
            assert(alerts_before(c, v, k) =~= alert_out(c, a) + rest);
        },
        None => {
            assert(alerts_before(c, v, k) =~= alerts_out(c, k.clock_alerts) + rest);
        },
    }
}

// ── Probes ───────────────────────────────────────────────────────────────────

/// Dante is asked for by three services, and NDI by one.
pub proof fn law_services(e: Seq<ProtocolChoice>)
    ensures
        ({
            let dante = e.contains(ProtocolChoice::Dante);
            let ndi = e.contains(ProtocolChoice::NDI);
            let s = services_for(e);
            &&& dante ==> s.contains("_netaudio-arc._udp.local"@) && s.contains(
                "_netaudio-cmc._udp.local"@,
            ) && s.contains("_netaudio._udp.local"@)
            &&& ndi ==> s.contains("_ndi._tcp.local"@)
            &&& s.len() == (if dante {
                3int
            } else {
                0
            }) + (if ndi {
                1int
            } else {
                0
            })
        }),
{
    lemma_chosen(e, ProtocolChoice::Dante);
    lemma_chosen(e, ProtocolChoice::NDI);
    let s = services_for(e);
    if e.contains(ProtocolChoice::Dante) {
        assert(s[0] == "_netaudio-arc._udp.local"@);
        assert(s[1] == "_netaudio-cmc._udp.local"@);
        assert(s[2] == "_netaudio._udp.local"@);
    }
    if e.contains(ProtocolChoice::NDI) {
        assert(s[s.len() - 1] == "_ndi._tcp.local"@);
    }
}

/// A probe is a query, with as many questions as services and no answers, each for the
/// pointer records of a service.
pub proof fn law_probes(s: Seq<Seq<char>>, x: Seq<char>)
    requires
        s.len() < 255,
    ensures
        probe_packet(s).take(12) == seq![0u8, 0, 0, 0, 0, s.len() as u8, 0, 0, 0, 0, 0, 0],
        probe_packet(s).skip(12) == questions(s),
        questions(s.push(x)) == questions(s) + question(x),
        questions(Seq::empty()).len() == 0,
        question(x).len() >= 5,
        question(x).skip(question(x).len() - 5) == seq![0u8, 0, 12, 0, 1],
{
    assert(probe_packet(s).take(12) =~= seq![0u8, 0, 0, 0, 0, s.len() as u8, 0, 0, 0, 0, 0, 0]);
    assert(probe_packet(s).skip(12) =~= questions(s));
    assert(s.push(x).drop_last() =~= s);
    assert(question(x).skip(question(x).len() - 5) =~= seq![0u8, 0, 12, 0, 1]);
}

/// A name is written as its parts, each behind its length.
pub proof fn law_names_are_labels(p: Seq<Seq<char>>, x: Seq<char>, i: int)
    requires
        0 < x.len() < 256,
        0 <= i < x.len(),
    ensures
        ({
            let l = labels(p.push(x));
            let n = labels(p).len();
            &&& l.len() == n + 1 + x.len()
            &&& l.take(n as int) == labels(p)
            &&& l[n as int] == x.len()
            &&& l[n + 1 + i] == x[i] as u8
        }),
        labels(p.push(Seq::empty())) == labels(p),
        labels(Seq::empty()).len() == 0,
{
    assert(p.push(x).drop_last() =~= p);
    assert(p.push(Seq::empty()).drop_last() =~= p);
    let n = labels(p).len();
    assert(labels(p.push(x)).take(n as int) =~= labels(p));
}

// ── Names ────────────────────────────────────────────────────────────────────

/// What a session says at its start.
pub proof fn law_banners(device: Seq<char>, names: Seq<char>, more: Seq<char>)
    ensures
        names == "all protocols"@ ==> live_text(device, names, more) == "📡 Listening on "@ + device
            + "  —  all protocols"@ && replay_text(device, names, more) == "📁 Replaying "@ + device
            + "  —  all protocols"@,
        names != "all protocols"@ ==> live_text(device, names, more) == "📡 Listening on "@ + device
            + "  for "@ + names + more + "  streams"@ && replay_text(device, names, more)
            == "📁 Replaying "@ + device + "  —  "@ + names + more,
{
}

/// A log is named for when it starts and what it is of, with two digits for each part of
/// the time but the year.
pub proof fn law_log_names(t: LogTime, prefix: Seq<char>, n: u32)
    ensures
        log_file(t, prefix, None) == "avstreamlens_"@ + signed_dec(t.year as int) + "-"@ + two(t.month)
            + "-"@ + two(t.day) + "_"@ + two(t.hour) + "-"@ + two(t.minute) + "-"@ + two(t.second) + "_"@
            + prefix + ".log"@,
        log_file(t, prefix, Some(n)) == "avstreamlens_"@ + signed_dec(t.year as int) + "-"@ + two(t.month)
            + "-"@ + two(t.day) + "_"@ + two(t.hour) + "-"@ + two(t.minute) + "-"@ + two(t.second) + "_"@
            + prefix + ("_"@ + hex5(n)) + ".log"@,
        n < 10 ==> two(n) == seq!['0', digit(n as nat)],
        10 <= n < 100 ==> two(n) == seq![digit((n / 10) as nat), digit((n % 10) as nat)],
        hex5(n).len() == 5,
{
    reveal_strlit("0");
    reveal_with_fuel(dec, 3);
    if n < 10 {
        assert(two(n) =~= seq!['0', digit(n as nat)]);
    } else if n < 100 {
        assert(two(n) =~= seq![digit((n / 10) as nat), digit((n % 10) as nat)]);
    }
    let a = "avstreamlens_"@ + signed_dec(t.year as int) + "-"@ + two(t.month) + "-"@ + two(t.day) + "_"@
        + two(t.hour) + "-"@ + two(t.minute) + "-"@ + two(t.second) + "_"@ + prefix;
    assert(a + Seq::<char>::empty() =~= a);
}

/// A salt of twenty bits is written in five digits of base sixteen.
pub proof fn law_salts_tell_apart(a: u32, b: u32)
    requires
        a < 0x10_0000,
        b < 0x10_0000,
        hex5(a) == hex5(b),
    ensures
        a == b,
{
    assert(hex5(a)[0] == hex5(b)[0] && hex5(a)[1] == hex5(b)[1] && hex5(a)[2] == hex5(b)[2]
        && hex5(a)[3] == hex5(b)[3] && hex5(a)[4] == hex5(b)[4]);
    lemma_digit((a / 0x1_0000 % 16) as nat, (b / 0x1_0000 % 16) as nat);
    lemma_digit((a / 0x1000 % 16) as nat, (b / 0x1000 % 16) as nat);
    lemma_digit((a / 0x100 % 16) as nat, (b / 0x100 % 16) as nat);
    lemma_digit((a / 0x10 % 16) as nat, (b / 0x10 % 16) as nat);
    lemma_digit((a % 16) as nat, (b % 16) as nat);
    lemma_five_digits(a);
    lemma_five_digits(b);
}

proof fn lemma_five_digits(n: u32)
    requires
        n < 0x10_0000,
    ensures
        n == (n / 0x1_0000 % 16) * 0x1_0000 + (n / 0x1000 % 16) * 0x1000 + (n / 0x100 % 16) * 0x100 + (n
            / 0x10 % 16) * 0x10 + n % 16,
{
    assert(n == (n / 0x1_0000 % 16) * 0x1_0000 + (n / 0x1000 % 16) * 0x1000 + (n / 0x100 % 16) * 0x100 + (
    n / 0x10 % 16) * 0x10 + n % 16) by (bit_vector)
        requires
            n < 0x10_0000,
    ;
}

proof fn lemma_digit(a: nat, b: nat)
    requires
        a < 16,
        b < 16,
        digit(a) == digit(b),
    ensures
        a == b,
{
}

/// A window ends with its alerts and then its report, which a quiet session keeps off the
/// terminal where all is well.
pub proof fn law_windows_end_with_a_report(
    c: Console,
    v: StateView,
    e: Seq<ProtocolChoice>,
    offline: bool,
    stats: Option<(u32, u32, u32)>,
    s: ReportSession,
    timestamp: Seq<char>,
    now: u64,
)
    ensures
        ({
            let i = snapshot(ended(v, now), found(v, e, offline, now), stats);
            end_out(c, v, e, offline, stats, s, timestamp, now) == alerts_before(
                c,
                v,
                found(v, e, offline, now),
            ) + report_out(
                Console { stdout: !(s.quiet && all_well(i, now)), ..c },
                i,
                s.no_flows_diagnostic_shown,
                timestamp,
                now,
            )
        }),
{
}

} // verus!
