//! What a report tells, and of what.

use vstd::prelude::*;

use crate::capture::alert::{shown, AlertView, MissingClockKind, MissingClockView};
use crate::capture::checks::ChecksView;
use crate::capture::state::StateView;
use crate::net::{dotted, Ipv4Addr};
use crate::order::{law_sorted_keeps_all, sorted};
use crate::parser::avdecc::{has_aem, media_summary, not_ready, sr_class};
use crate::protocols::{failure_reason, subtype_name, MsrpDeclaration, TransmitterClass, TransmitterConfidence, TransmitterVerdict};
use crate::report::clocks::{change_lines, clock_lines, clock_section, clock_text, delay_text, domains_lines, hops_note, listed, offset_lines, path_lines, path_text};
use crate::report::discovery::{dante_lines, device_line, discovery_lines, doubt_line, entities_lines, flow_note, flows_from, live_note, ndi_lines, verdict_note, DiscoveryView};
use crate::report::line::{alerts_out, detail, entry, failure, header_out, lines_out, microseconds, plain, warning, Console, LineView, OutputView};
use crate::report::print::{clocks_out, console_for, counts_text, discovered, discovered_out, entities_label, entities_out, members, network_out, parts, report_out, score_out, snapshot, streams_out, title_out, Group, SnapshotView};
use crate::report::status::{bandwidth_text, capture_lines, congestion_lines, figure_lines, interval_note, mismarked, port_lines, qos_text, querier_note, querier_text, status_lines, StatusView};
use crate::report::streams::{avtp_lines, cast_note, codec_note, diagnostic_lines, figures, flow_of, heading, listed_avtp, listed_streams, listener_note, listener_of, mbps, mismatch_lines, name_note, protocol_label, quality_text, reservation_lines, silence_lines, stream_lines, target_note, title, StreamKey};
use crate::scan::begins;
use crate::stats::avtp::{stream_id_text, AvdeccEntity, AvtpStreamStats};
use crate::stats::diagnostic::{category_text, jitter_text, message_text, pct_text, DscpMarking, Jitter, Pct, StreamDiagnostic};
use crate::stats::health::{bullets, penalties, querier_absent, NetworkHealth};
use crate::stats::ptp::PtpStatsView;
use crate::stats::stream::{diagnosed, StreamView};
use crate::stats::tcp::{StreamQuality, TcpStreamStats};
use crate::table::{keys, lookup, values};
use crate::text::{dec, fixed, hex_colons, joined, signed_dec};

verus! {

// ── Lines ────────────────────────────────────────────────────────────────────

/// An entry is indented by two and a detail by four. A warning is yellow and a failure
/// red.
pub proof fn law_lines(text: Seq<char>)
    ensures
        entry(text) == "  "@ + text,
        detail(text) == "    "@ + text,
        plain(text).text == text && plain(text).color is None,
        warning(text).text == text && warning(text).color == Some("33"@),
        failure(text).text == text && failure(text).color == Some("31"@),
{
}

/// Every line is logged without color, and printed with it where the terminal is used and
/// takes color.
pub proof fn law_lines_go_out(l: Seq<LineView>, x: LineView, color: bool)
    ensures
        ({
            let both = Console { color, stdout: true };
            let log = Console { color, stdout: false };
            let code = match x.color {
                Some(c) => c,
                None => Seq::empty(),
            };
            let told = if color && x.color is Some {
                "\x1b["@ + code + "m"@ + x.text + "\x1b[0m"@
            } else {
                x.text
            };
            &&& lines_out(both, l.push(x)) == lines_out(both, l) + seq![
                OutputView::Log(x.text),
                OutputView::Print(told),
            ]
            &&& lines_out(log, l.push(x)) == lines_out(log, l) + seq![OutputView::Log(x.text)]
            &&& lines_out(both, Seq::empty()).len() == 0
        }),
{
    assert(l.push(x).drop_last() =~= l);
}

/// Every alert is printed and logged, also where reports are not printed.
pub proof fn law_alerts_go_out(c: Console, a: Seq<AlertView>, x: AlertView)
    ensures
        alerts_out(c, a.push(x)) == alerts_out(c, a) + seq![
            OutputView::Print(shown(x, c.color)),
            OutputView::Log(x.message),
        ],
        alerts_out(c, Seq::empty()).len() == 0,
{
    assert(a.push(x).drop_last() =~= a);
}

/// A heading is logged plainly and printed decorated, in cyan.
pub proof fn law_headings(color: bool, label: Seq<char>, decorated: Seq<char>)
    ensures
        header_out(Console { color, stdout: false }, label, decorated) == seq![
            OutputView::Log("\n"@ + label),
        ],
        header_out(Console { color: false, stdout: true }, label, decorated) == seq![
            OutputView::Log("\n"@ + label),
            OutputView::Print("\n"@ + decorated),
        ],
        header_out(Console { color: true, stdout: true }, label, decorated) == seq![
            OutputView::Log("\n"@ + label),
            OutputView::Print("\x1b["@ + "36"@ + "m"@ + ("\n"@ + decorated) + "\x1b[0m"@),
        ],
{
}

// ── Diagnostics ──────────────────────────────────────────────────────────────

/// What is said of each condition of a stream.
pub proof fn law_conditions_are_worded(n: u64, m: u64, t: u8, p: Pct, q: Pct, j: Jitter)
    ensures
        message_text(StreamDiagnostic::TsDiscontinuity { window_count: n }) == Some(
            "    ⚠  Audio glitch risk — timing discontinuity detected ("@ + dec(n as nat)
                + " in last 5s)"@,
        ),
        message_text(
            StreamDiagnostic::PacketLoss { window_count: n, window_pct: p, lifetime_pct: q },
        ) == Some(
            "    ⚠  Packet loss detected ("@ + dec(n as nat) + " in last 5s, "@ + pct_text(q, 2)
                + "% cumulative)"@,
        ),
        message_text(StreamDiagnostic::Reorder { window_count: n, pct: p }) == Some(
            "    ⚠  Packet reorder "@ + pct_text(p, 1) + "% ("@ + dec(n as nat)
                + " in last 5s) — possible per-packet load-balancing"@,
        ),
        message_text(StreamDiagnostic::DscpViolation { count: n, expected: DscpMarking::Ef }) == Some(
            "    ⚠  QoS: "@ + dec(n as nat) + " packet(s) not marked "@ + "EF (46)"@
                + " — may be deprioritised by switches"@,
        ),
        message_text(
            StreamDiagnostic::DscpViolation { count: n, expected: DscpMarking::EfAf41OrCs5 },
        ) == Some(
            "    ⚠  QoS: "@ + dec(n as nat) + " packet(s) not marked "@
                + "EF (46), AF41 (34), or CS5 (40)"@ + " — may be deprioritised by switches"@,
        ),
        message_text(StreamDiagnostic::TtlRouted { ttl: t }) == Some(
            "    ⚠  Dante traffic routed (TTL "@ + dec(t as nat)
                + ") — Dante is L2-only; a router is in the path"@,
        ),
        message_text(StreamDiagnostic::SsrcChange { count: n }) == Some(
            "    ⚠  Source interrupted and reconnected ("@ + dec(n as nat) + " time(s))"@,
        ),
        message_text(StreamDiagnostic::PtMismatch { count: n }) == Some(
            "    ⚠  RTP payload type mismatch ("@ + dec(n as nat)
                + " packet(s)) — encoder/SDP misconfiguration"@,
        ),
        message_text(StreamDiagnostic::PcpAdvisory { observed: t }) == Some(
            "    ⚠  Stream uses PCP "@ + dec(t as nat)
                + " — PCP 6 recommended for AES67/ST2110 on managed switches"@,
        ),
        message_text(StreamDiagnostic::NotAnnounced) == Some(
            "    ⚠  Stream not announced (no SAP) — audio glitch detection unavailable"@,
        ),
        message_text(StreamDiagnostic::UnknownStreamType) == Some(
            "    ⚠  Stream type unknown — SDP required to classify as video/audio/ancillary"@,
        ),
        message_text(StreamDiagnostic::Aes67PtpLockHint) == Some(
            "    ⚠  AES67 timing issue — check PTP lock"@,
        ),
        message_text(StreamDiagnostic::DanteClockOrSubscriptionHint) == Some(
            "    ⚠  Dante clock or subscription issue"@,
        ),
{
}

/// High jitter is told in words above twenty milliseconds only.
pub proof fn law_high_jitter_is_worded(ps: u64)
    ensures
        ps > 20_000_000_000 ==> message_text(StreamDiagnostic::HighJitter { jitter: Jitter::Ps(ps) })
            == Some("    ⚠  High jitter — stream quality at risk"@),
        ps <= 20_000_000_000 ==> message_text(
            StreamDiagnostic::HighJitter { jitter: Jitter::Ps(ps) },
        ) is None,
        message_text(StreamDiagnostic::HighJitter { jitter: Jitter::Infinite }) == Some(
            "    ⚠  High jitter — stream quality at risk"@,
        ),
        message_text(StreamDiagnostic::HighJitter { jitter: Jitter::Undefined }) is None,
        jitter_text(Jitter::Infinite) == "inf"@,
        jitter_text(Jitter::Undefined) == "NaN"@,
{
}

/// What each condition is called.
pub proof fn law_conditions_are_called(d: StreamDiagnostic)
    ensures
        category_text(d) == (match d {
            StreamDiagnostic::PacketLoss { .. } => "packet loss"@,
            StreamDiagnostic::HighJitter { .. } => "high jitter"@,
            StreamDiagnostic::TsDiscontinuity { .. } => "timestamp discontinuities"@,
            StreamDiagnostic::SsrcChange { .. } => "SSRC changes"@,
            StreamDiagnostic::SignalGap { .. } => "signal gaps"@,
            StreamDiagnostic::DscpViolation { .. } => "incorrect DSCP"@,
            StreamDiagnostic::Dead { .. } => "silent"@,
            StreamDiagnostic::Reorder { .. } => "packet reorder"@,
            StreamDiagnostic::TtlRouted { .. } => "routed traffic (TTL)"@,
            StreamDiagnostic::PtMismatch { .. } => "payload type mismatch"@,
            StreamDiagnostic::NotAnnounced => "no SAP announcement"@,
            StreamDiagnostic::UnknownStreamType => "unknown stream type"@,
            StreamDiagnostic::Aes67PtpLockHint => "PTP lock"@,
            StreamDiagnostic::DanteClockOrSubscriptionHint => "clock or subscription issue"@,
            StreamDiagnostic::PcpAdvisory { .. } => "PCP advisory"@,
        }),
{
}

// ── Streams ──────────────────────────────────────────────────────────────────

/// A stream is told by its title, its figures, and each of its conditions that has words:
/// silence in red and the others in yellow.
pub proof fn law_streams_are_told(
    s: StreamView,
    flows: Seq<(Seq<char>, TcpStreamStats)>,
    sources: Seq<Ipv4Addr>,
    names: Seq<(Ipv4Addr, Seq<char>)>,
    now: u64,
    ds: Seq<StreamDiagnostic>,
    d: StreamDiagnostic,
)
    ensures
        s.protocol != "AVB"@ && !begins(s.protocol, "AVB "@) ==> stream_lines(
            s,
            flows,
            sources,
            names,
            false,
            now,
        ) == seq![
            plain("  "@ + title(s, sources, names)),
            plain("    "@ + figures(s, flows)),
        ] + diagnostic_lines(s, diagnosed(s, now), false),
        s.protocol == "AVB"@ || begins(s.protocol, "AVB "@) ==> stream_lines(
            s,
            flows,
            sources,
            names,
            false,
            now,
        ).len() == 0,
        message_text(d) matches Some(m) ==> diagnostic_lines(s, ds.push(d), false) == diagnostic_lines(
            s,
            ds,
            false,
        ).push(
            if d is Dead {
                failure(m)
            } else {
                warning(m)
            },
        ),
        message_text(d) is None ==> diagnostic_lines(s, ds.push(d), false) == diagnostic_lines(
            s,
            ds,
            false,
        ),
        diagnostic_lines(s, Seq::empty(), false).len() == 0,
{
    reveal(heading);
    assert(ds.push(d).drop_last() =~= ds);
    let a = diagnostic_lines(s, ds, false);
    assert(a + Seq::empty() =~= a);
    if let Some(m) = message_text(d) {
        let l = if d is Dead {
            failure(m)
        } else {
            warning(m)
        };
        assert(a + seq![l] =~= a.push(l));
    }
}

/// A stream's title: its protocol, how it is sent, its name, its format, where it goes and
/// what sends it.
pub proof fn law_titles(s: StreamView, sources: Seq<Ipv4Addr>, names: Seq<(Ipv4Addr, Seq<char>)>)
    ensures
        title(s, sources, names) == "▸ "@ + protocol_label(s, sources, names) + cast_note(s) + name_note(
            s,
        ) + codec_note(s) + target_note(s) + verdict_note(s.transmitter),
        s.protocol == "Dante"@ && s.is_multicast ==> cast_note(s) == "  [multicast]"@,
        s.protocol == "Dante"@ && !s.is_multicast ==> cast_note(s) == "  [unicast]"@,
        s.protocol != "Dante"@ ==> cast_note(s) == ""@,
        s.sdp_name matches Some(n) ==> name_note(s) == "  \""@ + n + "\""@,
        s.sdp_name is None ==> name_note(s).len() == 0,
        s.sdp_rtpmap matches Some(r) ==> codec_note(s) == "  ["@ + r + "]"@,
        s.sdp_rtpmap is None ==> codec_note(s).len() == 0,
        s.dst_ip matches Some(ip) ==> target_note(s) == (if s.dst_port > 0 {
            "  —  "@ + (dotted(ip) + ":"@ + dec(s.dst_port as nat))
        } else {
            "  —  "@ + dotted(ip)
        }),
        s.dst_ip is None ==> target_note(s).len() == 0,
{
}

/// A stream is labelled by its protocol; one of AES67 that a known Dante device sends is
/// told as that device's.
pub proof fn law_labels(s: StreamView, sources: Seq<Ipv4Addr>, names: Seq<(Ipv4Addr, Seq<char>)>)
    ensures
        ({
            let l = protocol_label(s, sources, names);
            let of_dante = s.protocol == "AES67"@ && s.src_ip is Some && sources.contains(
                s.src_ip.unwrap(),
            );
            &&& begins(s.protocol, "2110-"@) ==> l == "ST"@ + s.protocol
            &&& !begins(s.protocol, "2110-"@) && !of_dante ==> l == s.protocol
            &&& !begins(s.protocol, "2110-"@) && of_dante ==> (match lookup(names, s.src_ip.unwrap()) {
                Some(n) => l == "AES67 (Dante: \""@ + n + "\")"@,
                None => l == "AES67 (Dante)"@,
            })
        }),
{
}

/// The figures of a stream: loss and jitter of RTP, quality and retransmissions of NDI,
/// and packets alone of Dante's own framing; the rate of each.
pub proof fn law_figures(s: StreamView, flows: Seq<(Seq<char>, TcpStreamStats)>)
    ensures
        s.protocol == "Dante"@ && !s.rtp_seen ==> figures(s, flows) == dec(s.packets as nat)
            + " pkts  |  "@ + mbps(s.bitrate_bps) + " Mbps  (ATP framing — loss/jitter unavailable)"@,
        s.protocol != "NDI"@ && (s.protocol != "Dante"@ || s.rtp_seen) ==> figures(s, flows) == "loss: "@
            + pct_text(
            Pct { part: s.lost_packets, received: s.packets, lost: s.lost_packets },
            1,
        ) + "%  |  jitter: "@ + jitter_text(s.jitter) + " ms  |  "@ + mbps(s.bitrate_bps) + " Mbps"@,
        s.protocol == "NDI"@ && s.dst_ip is None ==> figures(s, flows) == mbps(s.bitrate_bps) + " Mbps"@,
        s.protocol == "NDI"@ && s.dst_ip is Some ==> (match flow_of(flows, s.dst_ip.unwrap(), 0) {
            Some(t) => figures(s, flows) == quality_text(t.stream_quality) + "  |  "@ + mbps(
                t.bitrate_bps,
            ) + " Mbps  |  retrans: "@ + dec(t.retransmissions as nat),
            None => figures(s, flows) == mbps(s.bitrate_bps) + " Mbps"@,
        }),
        quality_text(StreamQuality::Healthy) == "healthy"@,
        quality_text(StreamQuality::Degrading) == "degrading"@,
        quality_text(StreamQuality::Critical) == "critical"@,
        quality_text(StreamQuality::Terminated) == "terminated"@,
{
    reveal_strlit("NDI");
    reveal_strlit("Dante");
    assert("NDI"@.len() == 3 && "Dante"@.len() == 5);
}

/// The flow of a source is the first from or to it.
pub proof fn law_flows_of_sources(t: Seq<(Seq<char>, TcpStreamStats)>, ip: Ipv4Addr, i: int)
    requires
        0 <= i < t.len(),
    ensures
        t[i].1.src_ip == ip || t[i].1.dst_ip == ip ==> flow_of(t, ip, i) == Some(t[i].1),
        t[i].1.src_ip != ip && t[i].1.dst_ip != ip ==> flow_of(t, ip, i) == flow_of(t, ip, i + 1),
        flow_of(t, ip, t.len() as int) is None,
{
}

/// Streams are listed one by one.
pub proof fn law_streams_are_listed(
    order: Seq<Seq<char>>,
    k: Seq<char>,
    t: Seq<(Seq<char>, StreamView)>,
    flows: Seq<(Seq<char>, TcpStreamStats)>,
    sources: Seq<Ipv4Addr>,
    names: Seq<(Ipv4Addr, Seq<char>)>,
    correlated: bool,
    now: u64,
)
    ensures
        lookup(t, k) matches Some(s) ==> listed_streams(
            order.push(k),
            t,
            flows,
            sources,
            names,
            correlated,
            now,
        ) == listed_streams(order, t, flows, sources, names, correlated, now) + stream_lines(
            s,
            flows,
            sources,
            names,
            correlated,
            now,
        ),
        listed_streams(Seq::empty(), t, flows, sources, names, correlated, now).len() == 0,
{
    assert(order.push(k).drop_last() =~= order);
}

/// An AVB stream is told by its subtype and identifier, its loss and rate, its
/// reservation, a mismatch of priorities, and silence of more than ten seconds.
pub proof fn law_avb_streams_are_told(
    s: AvtpStreamStats,
    msrp: Seq<(Seq<u8>, MsrpDeclaration)>,
    vlans: Seq<u16>,
    now: u64,
    order: Seq<AvtpStreamStats>,
)
    ensures
        avtp_lines(s, msrp, vlans, now) == seq![
            plain("  "@ + ("▸ AVB  "@ + subtype_name(s.subtype) + "  —  "@ + stream_id_text(s.stream_id@))),
            plain(
                "    "@ + ("loss: "@ + pct_text(
                    Pct { part: s.lost_frames, received: s.packets, lost: s.lost_frames },
                    1,
                ) + "%  |  "@ + mbps(s.bitrate_bps) + " Mbps"@),
            ),
        ] + reservation_lines(s, msrp, vlans) + mismatch_lines(s) + silence_lines(s, now),
        listed_avtp(order.push(s), msrp, vlans, now) == listed_avtp(order, msrp, vlans, now) + avtp_lines(
            s,
            msrp,
            vlans,
            now,
        ),
        s.pcp_violations == 0 ==> mismatch_lines(s).len() == 0,
        s.pcp_violations > 0 && s.observed_pcp is Some && s.msrp_declared_pcp is Some ==> mismatch_lines(s)
            == seq![
            warning(
                "    "@ + ("⚠  AVTP stream using PCP "@ + dec(s.observed_pcp.unwrap() as nat)
                    + ", MSRP reservation declared PCP "@ + dec(s.msrp_declared_pcp.unwrap() as nat)
                    + " — frame lands in wrong CBS queue"@),
            ),
        ],
        now - s.last_seen > 10_000_000_000 <==> silence_lines(s, now).len() == 1,
        now - s.last_seen <= 10_000_000_000 <==> silence_lines(s, now).len() == 0,
{
    assert(order.push(s).drop_last() =~= order);
}

/// A reservation is told by what was declared: of a talker that advertises its VLAN, its
/// priority and its listener, of a failed one why. Without any, a missing VLAN is.
pub proof fn law_reservations_are_told(s: AvtpStreamStats, msrp: Seq<(Seq<u8>, MsrpDeclaration)>, vlans: Seq<u16>)
    ensures
        ({
            let r = reservation_lines(s, msrp, vlans);
            match lookup(msrp, s.stream_id@) {
                None => if vlans.len() == 0 {
                    r == seq![
                        warning("    "@ + "⚠  No VLAN registration — L2 QoS may not be configured"@),
                    ]
                } else {
                    r.len() == 0
                },
                Some(d) => {
                    &&& d.decl_type is Listener ==> r.len() == 0
                    &&& d.decl_type is TalkerFailed ==> r == seq![
                        warning(
                            "    "@ + ("⚠  Reservation failed — "@ + (match d.failure_code {
                                Some(c) => "code "@ + dec(c as nat) + ": "@ + failure_reason(c),
                                None => "failed"@,
                            })),
                        ),
                    ]
                    &&& d.decl_type is TalkerAdvertise ==> r == seq![
                        plain(
                            "    "@ + ("✓  Reserved"@ + (match d.vlan_id {
                                Some(n) => "  VLAN "@ + dec(n as nat),
                                None => Seq::empty(),
                            }) + (match d.priority {
                                Some(n) => "  prio "@ + dec(n as nat),
                                None => Seq::empty(),
                            }) + listener_note(listener_of(msrp, s.stream_id@, 0))),
                        ),
                    ]
                },
            }
        }),
{
}

/// How a listener stands.
pub proof fn law_listeners_are_told(d: MsrpDeclaration)
    ensures
        listener_note(None) == ""@,
        d.listener_state == Some(1u8) ==> listener_note(Some(d)) == "  ⚠  Listener AskingFailed"@,
        d.listener_state == Some(2u8) ==> listener_note(Some(d)) == "  ✓  Listener Ready"@,
        d.listener_state == Some(3u8) ==> listener_note(Some(d)) == "  ⚠  Listener ReadyFailed"@,
        d.listener_state != Some(1u8) && d.listener_state != Some(2u8) && d.listener_state != Some(3u8)
            ==> listener_note(Some(d)) == "  Listener Unknown"@,
{
}

/// The listener of a stream is the first that declared for it.
pub proof fn law_listeners_of_streams(t: Seq<(Seq<u8>, MsrpDeclaration)>, id: Seq<u8>, i: int)
    requires
        0 <= i < t.len(),
    ensures
        t[i].1.stream_id@ == id && t[i].1.decl_type is Listener ==> listener_of(t, id, i) == Some(t[i].1),
        t[i].1.stream_id@ != id || !(t[i].1.decl_type is Listener) ==> listener_of(t, id, i) == listener_of(
            t,
            id,
            i + 1,
        ),
        listener_of(t, id, t.len() as int) is None,
{
}

// ── Clocks ───────────────────────────────────────────────────────────────────

/// How a domain's clock is told: by its grandmaster while it is valid, as lost once it is
/// not, and by whoever was heard where there was no grandmaster.
pub proof fn law_clocks_are_told(d: PtpStatsView, number: u8, several: bool, names: Seq<(Ipv4Addr, Seq<char>)>)
    ensures
        ({
            let t = clock_text(d, number, several, names);
            let label = (match d.protocol_kind {
                Some(k) => k,
                None => "PTP"@,
            }) + (if several || number > 0 {
                "  (domain "@ + dec(number as nat) + ")"@
            } else {
                Seq::empty()
            });
            let ip = match d.grandmaster_src_ip {
                Some(x) => Some(x),
                None => d.last_src_ip,
            };
            let note = match ip {
                Some(x) => "  ("@ + dotted(x) + ")"@,
                None => Seq::empty(),
            };
            let name = match ip {
                Some(x) => lookup(names, x),
                None => None,
            };
            let leader = |gm: Seq<char>|
                match name {
                    Some(n) => "  grandmaster \""@ + n + "\""@,
                    None => if d.version == 1 {
                        "  grandmaster"@
                    } else {
                        "  grandmaster "@ + gm
                    },
                };
            match d.last_grandmaster {
                Some(gm) => {
                    &&& d.clock_valid ==> t == "✓  "@ + label + "  —"@ + leader(gm) + note
                    &&& !d.clock_valid ==> t == "⚠  "@ + label + "  —  clock lost"@
                },
                None => match d.last_clock_id {
                    Some(id) => {
                        &&& d.seen_sync ==> t == "○  "@ + label + "  —  clock source: "@ + id
                            + "  (Sync seen, no Announce — no grandmaster elected)"@
                        &&& !d.seen_sync ==> t == "○  "@ + label + "  —  clock source: "@ + id
                            + "  (peer-delay requests only — no Sync/grandmaster; link partner may not be gPTP-capable)"@
                    },
                    None => {
                        &&& d.clock_valid ==> t == "✓  "@ + label + "  —  no clock detected"@
                        &&& !d.clock_valid ==> t == "❌  "@ + label + "  —  no clock detected"@
                    },
                },
            }
        }),
{
}

/// What is told below a clock: its quality, and where gPTP has heard of none, why.
pub proof fn law_clock_notes(d: PtpStatsView, number: u8, several: bool, names: Seq<(Ipv4Addr, Seq<char>)>)
    ensures
        ({
            let l = clock_lines(d, number, several, names);
            let unseen = d.protocol_kind == Some("AVB"@) && d.last_grandmaster is None && !d.seen_sync
                && d.last_clock_id is Some;
            &&& l[0] == plain("  "@ + clock_text(d, number, several, names))
            &&& l.len() == 1 + (if unseen {
                1int
            } else {
                0
            }) + (if d.last_quality is Some {
                1int
            } else {
                0
            })
            &&& unseen ==> l[1] == plain(
                "    "@
                    + "ℹ  gPTP is link-local — the grandmaster is only visible on a time-aware (AVB-enabled) port"@,
            )
            &&& d.last_quality matches Some(q) ==> l.last() == plain("    "@ + ("clock quality: "@ + q))
        }),
{
    reveal(clock_lines);
}

/// A correction is told unless it is zero, in microseconds from a thousand nanoseconds on,
/// and warned of above.
pub proof fn law_corrections_are_told(d: PtpStatsView, ns: i64)
    requires
        d.last_offset_ns == Some(ns),
    ensures
        ({
            let l = offset_lines(d);
            let large = ns > 1_000 || ns < -1_000;
            &&& ns == 0 ==> l.len() == 0
            &&& ns != 0 && -1_000 < ns < 1_000 ==> l == seq![
                plain("    "@ + ("correction: "@ + signed_dec(ns as int) + " ns"@)),
            ]
            &&& ns >= 1_000 || ns <= -1_000 ==> l[0] == plain(
                "    "@ + ("correction: "@ + microseconds(ns as int) + " µs"@),
            )
            &&& large ==> l.len() == 2 && l[1] == warning(
                "    "@ + "⚠  Large PTP correction field — transparent clock or path issue"@,
            )
            &&& ns != 0 && !large ==> l.len() == 1
        }),
        offset_lines(PtpStatsView { last_offset_ns: None, ..d }).len() == 0,
{
    reveal(offset_lines);
}

/// The path delay is told once measured; a spread of more than ten microseconds is warned
/// of, and a delay of more than a millisecond.
pub proof fn law_path_delays_are_told(d: PtpStatsView, min: i64, max: i64)
    requires
        d.min_path_delay_ns == Some(min),
        d.max_path_delay_ns == Some(max),
    ensures
        ({
            let l = path_lines(d);
            let spread = max - min > 10_000;
            let long = max > 1_000_000;
            &&& l[0] == plain("    "@ + path_text(min, max))
            &&& l.len() == 1 + (if spread {
                1int
            } else {
                0
            }) + (if long {
                1int
            } else {
                0
            })
            &&& spread ==> l[1] == warning(
                "    "@
                    + "⚠  PTP path-delay variance > 10µs — unstable link (EEE, half-duplex, or cable)"@,
            )
            &&& long ==> l.last() == warning(
                "    "@ + "⚠  PTP path delay > 1ms — too many hops between this node and grandmaster"@,
            )
        }),
        path_lines(PtpStatsView { min_path_delay_ns: None, ..d }).len() == 0,
{
    reveal(path_lines);
}

/// How a delay and its hops are told.
pub proof fn law_delay_texts(min: i64, max: i64, ns: i64, n: u32)
    ensures
        -1_000 < ns < 1_000 ==> delay_text(ns as int) == signed_dec(ns as int) + "ns"@,
        ns >= 1_000 || ns <= -1_000 ==> delay_text(ns as int) == microseconds(ns as int) + "µs"@,
        n == 0 ==> hops_note(n).len() == 0,
        n == 1 ==> hops_note(n) == "  ~"@ + dec(1) + " hop"@ + ""@,
        n > 1 ==> hops_note(n) == "  ~"@ + dec(n as nat) + " hop"@ + "s"@,
        min == max ==> path_text(min, max) == "path delay: "@ + delay_text(max as int) + hops_note(
            crate::stats::ptp::hops(min),
        ),
        min != max ==> path_text(min, max) == "path delay: "@ + delay_text(min as int) + " – "@
            + delay_text(max as int) + "  (spread "@ + delay_text(max - min) + ")"@ + hops_note(
            crate::stats::ptp::hops(min),
        ),
{
}

/// A lost clock is told, and how often the source changed.
pub proof fn law_clock_changes_are_told(d: PtpStatsView)
    ensures
        ({
            let l = change_lines(d);
            &&& l.len() == (if d.protocol_clock_lost {
                1int
            } else {
                0
            }) + (if d.protocol_changes_count > 0 {
                1int
            } else {
                0
            })
            &&& d.protocol_clock_lost ==> l[0] == warning(
                "    "@ + "⚠  Clock lost — grandmaster disappeared"@,
            )
            &&& d.protocol_changes_count > 0 ==> l.last() == warning(
                "    "@ + ("⚠  Clock source changed "@ + dec(d.protocol_changes_count as nat)
                    + " time(s)"@),
            )
        }),
{
    reveal(change_lines);
}

/// Each domain is told with all of this, and each missing clock as a failure, unless a
/// dropout says so already.
pub proof fn law_clock_section(
    t: Seq<((u8, u8), PtpStatsView)>,
    m: Seq<MissingClockView>,
    names: Seq<(Ipv4Addr, Seq<char>)>,
    n: nat,
    i: int,
)
    requires
        n < t.len(),
        0 <= i < m.len(),
    ensures
        domains_lines(t, n + 1, names) == domains_lines(t, n, names) + (clock_lines(
            t[n as int].1,
            t[n as int].0.0,
            t.len() > 1,
            names,
        ) + offset_lines(t[n as int].1) + path_lines(t[n as int].1) + change_lines(t[n as int].1)),
        domains_lines(t, 0, names).len() == 0,
        clock_section(t, m, names, true) == Some(domains_lines(t, t.len(), names)),
        clock_section(t, m, names, false) matches Some(l) && l.len() == domains_lines(
            t,
            t.len(),
            names,
        ).len() + m.len() && l[domains_lines(t, t.len(), names).len() + i] == failure(
            "⚠  No "@ + (match m[i].kind {
                MissingClockKind::Ptpv2 => "PTPv2"@,
                MissingClockKind::Ptp => "PTPv1 or PTPv2"@,
                MissingClockKind::Gptp => "L2 gPTP"@,
            }) + " clock — "@ + listed(m[i].affected) + " streams may lose sync"@,
        ),
        clock_section(Seq::empty(), Seq::empty(), names, false) is None,
{
    let a = domains_lines(t, t.len(), names);
    assert(a + Seq::<LineView>::empty() =~= a);
}

/// How protocols are listed.
pub proof fn law_lists_of_names(a: Seq<char>, b: Seq<char>, c: Seq<char>)
    ensures
        listed(Seq::empty()) == "(none)"@,
        listed(seq![a]) == a,
        listed(seq![a, b]) == a + " and "@ + b,
        listed(seq![a, b, c]) == a + ", "@ + b + ", and "@ + c,
{
    let v = seq![a, b, c];
    assert(v.drop_last() =~= seq![a, b]);
    assert(seq![a, b].drop_last() =~= seq![a]);
    reveal_with_fuel(joined, 3);
}

// ── Discovery ────────────────────────────────────────────────────────────────

/// Devices in doubt are not counted among those that were found.
pub proof fn law_found_devices(i: DiscoveryView)
    requires
        i.dante_unverified.len() <= i.dante_sources.len(),
    ensures
        ({
            let n = (i.dante_sources.len() - i.dante_unverified.len()) as nat;
            &&& i.dante_sources.len() == 0 && i.dante_unverified.len() == 0 ==> dante_lines(i).len() == 0
            &&& i.dante_sources.len() > 0 ==> dante_lines(i).len() > 0 && dante_lines(i)[0] == plain(
                "  "@ + ("Dante ("@ + dec(n) + ")"@ + live_note(i.dante_conmon.len(), n)),
            )
            &&& i.ndi_sources.len() == 0 ==> ndi_lines(i).len() == 0
            &&& i.ndi_sources.len() > 0 ==> ndi_lines(i).len() > 0 && ndi_lines(i)[0] == plain(
                "  "@ + ("NDI ("@ + dec(i.ndi_sources.len()) + ")"@),
            )
            &&& discovery_lines(i, false) is None <==> i.dante_sources.len() == 0 && i.ndi_sources.len()
                == 0
        }),
{
}

/// Devices that announce themselves and send nothing are warned of, once.
pub proof fn law_idle_devices(i: DiscoveryView)
    requires
        i.dante_unverified.len() <= i.dante_sources.len(),
        i.dante_sources.len() > 0 || i.ndi_sources.len() > 0,
    ensures
        ({
            let idle = i.dante_sources.len() > i.dante_unverified.len() && i.dante_active == 0
                || i.ndi_sources.len() > 0 && i.ndi_active == 0;
            let l = discovery_lines(i, false).unwrap();
            let both = dante_lines(i) + ndi_lines(i);
            &&& idle ==> l == both.push(
                warning(
                    "  "@ + "⚠  Devices announced but no active flows — mirror port may be needed"@,
                ),
            )
            &&& !idle ==> l == both
        }),
{
    let both = dante_lines(i) + ndi_lines(i);
    assert(both + Seq::empty() =~= both);
    let w = warning("  "@ + "⚠  Devices announced but no active flows — mirror port may be needed"@);
    assert(both + seq![w] =~= both.push(w));
}

/// How a device is told, and one in doubt.
pub proof fn law_device_lines(names: Seq<(Ipv4Addr, Seq<char>)>, ip: Ipv4Addr, note: Seq<char>)
    ensures
        lookup(names, ip) matches Some(n) ==> device_line(names, ip, note) == plain(
            "  "@ + ("▸ \""@ + n + "\"   "@ + dotted(ip) + note),
        ) && doubt_line(names, ip, note) == warning(
            "  "@ + ("⚠  \""@ + n + "\"   "@ + dotted(ip) + "   (mDNS only, no ConMon)"@ + note),
        ),
        lookup(names, ip) is None ==> device_line(names, ip, note) == plain(
            "  "@ + ("▸ "@ + dotted(ip) + "   (name pending)"@ + note),
        ) && doubt_line(names, ip, note) == warning(
            "  "@ + ("⚠  "@ + dotted(ip) + "   (mDNS only, no ConMon)"@ + note),
        ),
{
}

/// Devices are told with how many of them are live, and how many flows each sends.
pub proof fn law_device_notes(t: Seq<(Seq<char>, StreamView)>, k: Seq<char>, s: StreamView, ip: Ipv4Addr, live: nat, all: nat)
    ensures
        live == 0 ==> live_note(live, all) == ""@,
        live > 0 && live == all ==> live_note(live, all) == "  · all live"@,
        live > 0 && live != all ==> live_note(live, all) == "  · "@ + dec(live) + " live"@,
        s.protocol == "Dante"@ && s.src_ip == Some(ip) ==> flows_from(t.push((k, s)), ip) == flows_from(
            t,
            ip,
        ) + 1,
        s.protocol != "Dante"@ || s.src_ip != Some(ip) ==> flows_from(t.push((k, s)), ip) == flows_from(
            t,
            ip,
        ),
        flows_from(t, ip) == 0 ==> flow_note(t, ip).len() == 0,
        flows_from(t, ip) > 0 ==> flow_note(t, ip) == "  ("@ + dec(flows_from(t, ip)) + " tx flows)"@,
{
    assert(t.push((k, s)).drop_last() =~= t);
}

/// How sure a verdict is.
pub proof fn law_verdicts_are_told(v: TransmitterVerdict)
    ensures
        verdict_note(None).len() == 0,
        ({
            let sure = match v.confidence {
                TransmitterConfidence::Confirmed => "confirmed"@,
                TransmitterConfidence::Hint => "possible — no QoS marking"@,
                TransmitterConfidence::Inferred => if v.signals <= 1 {
                    "likely"@
                } else {
                    "likely, "@ + dec(v.signals as nat) + " signals"@
                },
            };
            let class = match v.class {
                TransmitterClass::Hardware => "Hardware"@,
                TransmitterClass::Dvs => "DVS"@,
                TransmitterClass::Via => "Via"@,
            };
            verdict_note(Some(v)) == "  ·  "@ + class + " ("@ + sure + ")"@
        }),
{
}

/// How an entity is told: what it sends and receives, its class, whether it is ready, its
/// model and its clock.
pub proof fn law_entities_are_told(e: AvdeccEntity, order: Seq<AvdeccEntity>)
    ensures
        ({
            let t = "T:"@ + dec(e.talker_stream_sources as nat) + " ("@ + media_summary(
                e.talker_capabilities,
            ) + ")"@;
            let l = "L:"@ + dec(e.listener_stream_sinks as nat) + " ("@ + media_summary(
                e.listener_capabilities,
            ) + ")"@;
            let role = if e.talker_stream_sources > 0 && e.listener_stream_sinks > 0 {
                t + "  "@ + l
            } else if e.talker_stream_sources > 0 {
                t
            } else if e.listener_stream_sinks > 0 {
                l
            } else {
                "controller"@
            };
            let clock = if e.gptp_grandmaster_id@ == seq![0u8, 0, 0, 0, 0, 0, 0, 0] {
                "no grandmaster"@
            } else {
                "GM: "@ + hex_colons(e.gptp_grandmaster_id@) + "  domain "@ + dec(
                    e.gptp_domain_number as nat,
                )
            };
            let aem = if has_aem(e.entity_capabilities) {
                "  AEM"@
            } else {
                ""@
            };
            let ready = if not_ready(e.entity_capabilities) {
                "  ⚠ not ready"@
            } else {
                ""@
            };
            entities_lines(order.push(e)) == entities_lines(order) + seq![
                plain(
                    "  "@ + ("▸ "@ + hex_colons(e.entity_id@) + "  "@ + role + "  "@ + sr_class(
                        e.entity_capabilities,
                    ) + aem + ready),
                ),
                plain("    "@ + ("model "@ + hex_colons(e.entity_model_id@) + "  "@ + clock)),
            ]
        }),
        entities_lines(Seq::empty()).len() == 0,
{
    assert(order.push(e).drop_last() =~= order);
}

// ── Status ───────────────────────────────────────────────────────────────────

/// How the marking of streams is told: NDI and AVB carry none, and of the others those
/// that are wrong are counted.
pub proof fn law_markings_are_told(t: Seq<(Seq<char>, StreamView)>)
    ensures
        ({
            let none = forall|i: int|
                0 <= i < t.len() ==> (#[trigger] t[i]).1.protocol == "NDI"@ || t[i].1.protocol == "AVB"@
                    || begins(t[i].1.protocol, "AVB "@);
            let n = t.filter(|e: (Seq<char>, StreamView)| e.1.dscp_violations > 0).len();
            &&& none ==> qos_text(t) == "QoS: – (no IP streams)"@
            &&& !none && n == 0 ==> qos_text(t) == "QoS: ✓ all streams correctly marked"@
            &&& !none && n > 0 ==> qos_text(t) == "QoS: ⚠ "@ + dec(n)
                + " stream(s) with incorrect DSCP"@
        }),
{
    lemma_mismarked(t);
}

proof fn lemma_mismarked(t: Seq<(Seq<char>, StreamView)>)
    ensures
        mismarked(t) == t.filter(|e: (Seq<char>, StreamView)| e.1.dscp_violations > 0).len(),
    decreases t.len(),
{
    reveal(Seq::filter);
    if t.len() > 0 {
        lemma_mismarked(t.drop_last());
    }
}

/// How the querier is told.
pub proof fn law_queriers_are_told(h: NetworkHealth, now: u64)
    ensures
        h.last_igmp_query is None ==> querier_text(h, now) == "IGMP: – (no querier seen)"@,
        h.last_igmp_query matches Some(t) ==> (t <= now ==> {
            let ago = dec(((now - t) / 1_000_000_000) as nat);
            &&& querier_absent(h, now) ==> querier_text(h, now) == "IGMP: ⚠ querier silent "@ + ago + "s"@
            &&& !querier_absent(h, now) ==> querier_text(h, now) == "IGMP: ✓ querier"@ + querier_note(h)
                + " "@ + ago + "s ago"@ + interval_note(h)
        }),
        h.igmp_query_interval_secs matches Some(i) ==> interval_note(h) == "  (interval "@ + dec(i as nat)
            + "s)"@,
        h.igmp_query_interval_secs is None ==> interval_note(h).len() == 0,
        h.igmp_querier_ip is Some && h.igmp_querier_mac is Some ==> querier_note(h) == " "@ + dotted(
            h.igmp_querier_ip.unwrap(),
        ) + (" ["@ + hex_colons(h.igmp_querier_mac.unwrap()@) + "]"@),
        h.igmp_querier_ip is None && h.igmp_querier_mac is None ==> querier_note(h).len() == 0,
{
}

/// The status begins with bandwidth, marking and querier.
pub proof fn law_status_figures(i: StatusView, now: u64)
    ensures
        status_lines(i, now).len() >= 3,
        status_lines(i, now)[0] == plain("  "@ + bandwidth_text(i.bytes_this_window)),
        status_lines(i, now)[1] == plain("  "@ + qos_text(i.streams)),
        status_lines(i, now)[2] == plain("  "@ + querier_text(i.health, now)),
        status_lines(i, now) == figure_lines(i, now) + congestion_lines(i) + port_lines(i) + capture_lines(
            i,
        ),
{
    reveal(figure_lines);
}

/// Marks of congestion and pauses of either kind are each told with their number.
pub proof fn law_congestion_is_told(i: StatusView)
    ensures
        ({
            let ecn = if i.health.ecn_congestion_marks > 0 {
                seq![
                    warning(
                        "  "@ + ("⚠  ECN: "@ + dec(i.health.ecn_congestion_marks as nat)
                            + " congestion mark(s) — router congestion detected on the path"@),
                    ),
                ]
            } else {
                Seq::empty()
            };
            let pause = if i.pause_frames > 0 {
                seq![
                    warning(
                        "  "@ + ("⚠  PAUSE frames: "@ + dec(i.pause_frames as nat)
                            + " in last 5s — upstream link congestion causing tx-side freezes"@),
                    ),
                ]
            } else {
                Seq::empty()
            };
            let pfc = if i.pfc_frames > 0 {
                seq![
                    warning(
                        "  "@ + ("⚠  PFC frames: "@ + dec(i.pfc_frames as nat)
                            + " in last 5s — priority flow control engaged on upstream link"@),
                    ),
                ]
            } else {
                Seq::empty()
            };
            congestion_lines(i) == ecn + pause + pfc
        }),
{
    reveal(congestion_lines);
    assert(Seq::<LineView>::empty() + crate::report::line::line_if(
        i.health.ecn_congestion_marks > 0,
        warning(
            entry(
                "⚠  ECN: "@ + dec(i.health.ecn_congestion_marks as nat)
                    + " congestion mark(s) — router congestion detected on the path"@,
            ),
        ),
    ) =~= crate::report::line::line_if(
        i.health.ecn_congestion_marks > 0,
        warning(
            entry(
                "⚠  ECN: "@ + dec(i.health.ecn_congestion_marks as nat)
                    + " congestion mark(s) — router congestion detected on the path"@,
            ),
        ),
    ));
}

/// Each port that saves energy is told, below how many there are.
pub proof fn law_ports_are_told(i: StatusView, j: int)
    requires
        0 <= j < i.eee_ports.len(),
    ensures
        ({
            let l = port_lines(i);
            let e = i.eee_ports[j];
            &&& l.len() == i.eee_ports.len() + 1
            &&& l[0] == warning(
                "  "@ + ("⚠  EEE active on "@ + dec(i.eee_ports.len())
                    + " switch port(s) — may cause audio/video glitches  (disable EEE on all AV switch ports)"@),
            )
            &&& l[j + 1] == plain(
                "    "@ + ("port \""@ + e.0.1 + "\"  chassis "@ + e.0.0 + "  Tx wake: "@ + dec(e.1.0 as nat)
                    + "µs  Rx wake: "@ + dec(e.1.1 as nat) + "µs"@),
            )
        }),
        port_lines(StatusView { eee_ports: Seq::empty(), ..i }).len() == 0,
{
    reveal(port_lines);
}

/// What was captured is told, and what was lost in capturing is a failure.
pub proof fn law_captures_are_told(i: StatusView, received: u32, dropped: u32, missed: u32)
    requires
        i.pcap_stats == Some((received, dropped, missed)),
    ensures
        ({
            let l = capture_lines(i);
            let kernel = "    "@ + (dec(dropped as nat) + " kernel drop(s)"@);
            let iface = "    "@ + (dec(missed as nat) + " interface drop(s)"@);
            &&& l[0] == plain("  "@ + ("📦 "@ + dec(received as nat) + " pkts received"@))
            &&& dropped > 0 ==> l[1] == failure(kernel)
            &&& dropped == 0 ==> l[1] == plain(kernel)
            &&& missed > 0 ==> l[2] == failure(iface)
            &&& missed == 0 ==> l[2] == plain(iface)
            &&& l[3] == plain("    "@ + (dec(i.packets_dispatched as nat) + " parsed"@))
            &&& dropped == 0 && missed == 0 ==> l.len() == 4
            &&& dropped > 0 || missed > 0 ==> l.len() == 5 && l[4].color == Some("31"@)
        }),
        capture_lines(StatusView { pcap_stats: None, ..i }) == seq![
            plain("  "@ + ("📦 "@ + dec(i.packets_dispatched as nat) + " parsed"@)),
        ],
{
    reveal(capture_lines);
}

// ── The report ───────────────────────────────────────────────────────────────

/// How many streams of a protocol there are.
pub proof fn law_streams_are_counted(t: Seq<(Seq<char>, StreamView)>, k: Seq<char>, s: StreamView)
    ensures
        members(t.push((k, s)), Group::Aes67) == members(t, Group::Aes67) + (if s.protocol == "AES67"@ {
            1int
        } else {
            0
        }),
        members(t.push((k, s)), Group::Dante) == members(t, Group::Dante) + (if s.protocol == "Dante"@ {
            1int
        } else {
            0
        }),
        members(t.push((k, s)), Group::Ndi) == members(t, Group::Ndi) + (if s.protocol == "NDI"@ {
            1int
        } else {
            0
        }),
        members(t.push((k, s)), Group::St2110) == members(t, Group::St2110) + (if begins(
            s.protocol,
            "2110-"@,
        ) {
            1int
        } else {
            0
        }),
        members(Seq::empty(), Group::Aes67) == 0,
{
    assert(t.push((k, s)).drop_last() =~= t);
}

/// The counts of each protocol that has streams are told beside the score, which is told
/// in whole percents.
pub proof fn law_counts_are_told(i: SnapshotView)
    ensures
        ({
            let one = |label: Seq<char>, n: nat|
                if n > 0 {
                    seq![label + dec(n)]
                } else {
                    Seq::<Seq<char>>::empty()
                };
            parts(i) == one("AES67: "@, members(i.streams, Group::Aes67)) + one(
                "ST2110: "@,
                members(i.streams, Group::St2110),
            ) + one("Dante: "@, members(i.streams, Group::Dante)) + one(
                "NDI: "@,
                members(i.streams, Group::Ndi),
            ) + one("AVB: "@, i.avb.avtp_streams.len()) + one("TCP: "@, i.tcp_streams.len())
        }),
        parts(i).len() == 0 ==> counts_text(i) == "no streams"@,
        parts(i).len() > 0 ==> counts_text(i) == joined(parts(i), "  |  "@),
        score_out(Console { color: false, stdout: false }, i) == seq![
            OutputView::Log(
                "Network Health — "@ + (fixed(i.health.network_score as nat, 1_000_000, 0) + "%"@)
                    + "  |  "@ + counts_text(i),
            ),
        ],
{
    reveal(parts);
    reveal(score_out);
}

/// A report may be kept off the terminal where nothing is amiss: no deduction, no packet
/// dropped, no clock missing, and no alert of a section.
pub proof fn law_all_is_well(c: Console, i: SnapshotView, now: u64)
    ensures
        ({
            let fine = penalties(
                i.health,
                i.streams,
                i.tcp_streams,
                i.ptp_domains,
                i.avb.msrp_state,
                i.eee_ports.len(),
                i.avb.avtp_streams,
                now,
            ).len() == 0 && (i.pcap_stats is Some ==> i.pcap_stats.unwrap().1 == 0
                && i.pcap_stats.unwrap().2 == 0) && i.missing_ptp.len() == 0 && i.ip_config.len() == 0
                && i.conmon_bridge.len() == 0 && i.follower_census.len() == 0 && i.ptp_sync.len() == 0;
            &&& console_for(c, i, true, now).stdout <==> !fine
            &&& console_for(c, i, false, now).stdout
            &&& console_for(c, i, true, now).color == c.color
        }),
{
}

/// The parts of a report, and their order.
pub proof fn law_reports(c: Console, i: SnapshotView, told: bool, timestamp: Seq<char>, now: u64)
    ensures
        ({
            let r = report_out(c, i, told, timestamp, now);
            let found = match discovery_lines(discovered(i), told) {
                Some(l) => header_out(c, "Discovered:"@, "📇 Discovered:"@) + lines_out(c, l)
                    + alerts_out(c, i.ip_config) + alerts_out(c, i.conmon_bridge),
                None => Seq::empty(),
            };
            &&& r[0] == OutputView::Log(timestamp + " | AVStreamLens report"@)
            &&& r.last() == OutputView::Log(""@)
            &&& discovered_out(c, i, told) == found
            &&& i.ptp_domains.len() == 0 && i.missing_ptp.len() == 0 && i.follower_census.len() == 0
                && i.ptp_sync.len() == 0 ==> clocks_out(c, i).len() == 0
            &&& i.avb.avdecc_entities.len() == 0 ==> entities_out(c, i).len() == 0
            &&& r == seq![r[0]] + title_out(c, timestamp) + score_out(c, i) + lines_out(
                c,
                bullets(
                    penalties(
                        i.health,
                        i.streams,
                        i.tcp_streams,
                        i.ptp_domains,
                        i.avb.msrp_state,
                        i.eee_ports.len(),
                        i.avb.avtp_streams,
                        now,
                    ),
                ).map_values(|s: Seq<char>| warning(s)),
            ) + found + entities_out(c, i) + clocks_out(c, i) + streams_out(c, i, now) + network_out(
                c,
                i,
                now,
            ) + seq![OutputView::Log(""@)]
        }),
{
    reveal(discovered_out);
    reveal(entities_out);
    reveal(clocks_out);
}

/// Entities are headed with how many there are.
pub proof fn law_entity_headings(n: nat)
    ensures
        entities_label(1) == "Discovered (AVDECC — "@ + dec(1) + " entity):"@,
        n != 1 ==> entities_label(n) == "Discovered (AVDECC — "@ + dec(n) + " entities):"@,
{
}

/// A report shows the state as it is at the end of the window, with what the checks found.
pub proof fn law_reports_show_the_state(v: StateView, k: ChecksView, stats: Option<(u32, u32, u32)>)
    ensures
        ({
            let s = snapshot(v, k, stats);
            &&& s.streams == v.streams && s.tcp_streams == v.tcp_streams && s.ptp_domains == v.ptp.domains
            &&& s.missing_ptp == k.missing_ptp && s.health == v.network_health && s.bytes_this_window
                == v.bytes_this_window && s.eee_ports == v.eee_ports
            &&& s.dante_sources == v.dante.sources && s.dante_names == v.dante.names && s.dante_conmon
                == v.dante.conmon && s.dante_unverified == k.dante_unverified
            &&& s.avb == v.avb && s.ndi_sources == v.ndi.sources && s.ndi_names == v.ndi.names
            &&& s.pause_frames == v.pause_frames_this_window && s.pfc_frames == v.pfc_frames_this_window
            &&& s.pcap_stats == stats && s.packets_dispatched == v.packets_dispatched
            &&& s.ip_config == k.ip_config_alerts && s.conmon_bridge == k.conmon_bridge_alerts
                && s.follower_census == k.follower_census_alerts && s.ptp_sync == k.ptp_sync_alerts
            &&& s.clock_dropout_correlated == v.clock_dropout_correlated
        }),
{
}

/// Every device that is not in doubt has its line, and every one in doubt its warning.
pub proof fn law_devices_have_lines(i: DiscoveryView, ip: Ipv4Addr)
    requires
        i.dante_sources.len() > i.dante_unverified.len() || i.dante_unverified.len() > 0,
    ensures
        i.dante_sources.contains(ip) && !i.dante_unverified.contains(ip) ==> dante_lines(i).contains(
            device_line(i.dante_names, ip, flow_note(i.streams, ip)),
        ),
        i.dante_unverified.contains(ip) ==> dante_lines(i).contains(
            doubt_line(i.dante_names, ip, flow_note(i.streams, ip)),
        ),
        i.ndi_sources.contains(ip) ==> ndi_lines(i).contains(
            device_line(i.ndi_names, ip, Seq::empty()),
        ),
{
    let f = |x: Ipv4Addr| !i.dante_unverified.contains(x);
    let good = i.dante_sources.filter(f);
    lemma_kept(i.dante_sources, f, ip);
    let a = sorted::<Ipv4Addr>(good);
    let b = sorted::<Ipv4Addr>(i.dante_unverified);
    let c = sorted::<Ipv4Addr>(i.ndi_sources);
    lemma_sorted_has(good, ip);
    lemma_sorted_has(i.dante_unverified, ip);
    lemma_sorted_has(i.ndi_sources, ip);
    let l = dante_lines(i);
    if i.dante_sources.contains(ip) && !i.dante_unverified.contains(ip) {
        let j = choose|j: int| 0 <= j < a.len() && a[j] == ip;
        assert(l[1 + j] == device_line(i.dante_names, ip, flow_note(i.streams, ip)));
    }
    if i.dante_unverified.contains(ip) {
        let j = choose|j: int| 0 <= j < b.len() && b[j] == ip;
        assert(l[1 + a.len() + j] == doubt_line(i.dante_names, ip, flow_note(i.streams, ip)));
    }
    if i.ndi_sources.contains(ip) {
        let j = choose|j: int| 0 <= j < c.len() && c[j] == ip;
        assert(ndi_lines(i)[1 + j] == device_line(i.ndi_names, ip, Seq::empty()));
    }
}

proof fn lemma_sorted_has(s: Seq<Ipv4Addr>, x: Ipv4Addr)
    ensures
        s.contains(x) ==> sorted::<Ipv4Addr>(s).contains(x),
{
    let t = sorted::<Ipv4Addr>(s);
    law_sorted_keeps_all::<Ipv4Addr>(s);
    s.to_multiset_ensures();
    t.to_multiset_ensures();
    if s.contains(x) {
        assert(s.to_multiset().count(x) > 0);
        assert(t.to_multiset().count(x) > 0);
    }
}

proof fn lemma_kept(s: Seq<Ipv4Addr>, f: spec_fn(Ipv4Addr) -> bool, x: Ipv4Addr)
    ensures
        s.contains(x) && f(x) ==> s.filter(f).contains(x),
    decreases s.len(),
{
    reveal(Seq::filter);
    if s.len() > 0 {
        let front = s.drop_last();
        lemma_kept(front, f, x);
        let a = front.filter(f);
        let b = s.filter(f);
        if s.contains(x) && f(x) {
            let i = choose|i: int| 0 <= i < s.len() && s[i] == x;
            if i < front.len() {
                assert(front[i] == x);
                let j = choose|j: int| 0 <= j < a.len() && a[j] == x;
                assert(b[j] == x);
            } else {
                assert(b[a.len() as int] == x);
            }
        }
    }
}

/// The title of a report is logged, and printed in cyan, between two rules.
pub proof fn law_report_titles(timestamp: Seq<char>)
    ensures
        ({
            let rule = "──────────────────────────────────────────────────────────────────"@;
            let title = "  AVStreamLens  ·  "@ + timestamp;
            let log = seq![OutputView::Log("\n"@ + rule), OutputView::Log(title), OutputView::Log(rule)];
            &&& title_out(Console { color: false, stdout: false }, timestamp) == log
            &&& title_out(Console { color: false, stdout: true }, timestamp) == log + seq![
                OutputView::Print("\n"@ + rule),
                OutputView::Print(title),
                OutputView::Print(rule),
            ]
        }),
{
    reveal(title_out);
}

/// The sections of a report and what they hold.
pub proof fn law_report_sections(c: Console, i: SnapshotView, now: u64)
    ensures
        network_out(c, i, now) == header_out(c, "Network Status:"@, "📊 Network Status:"@) + lines_out(
            c,
            status_lines(
                StatusView {
                    bytes_this_window: i.bytes_this_window,
                    streams: i.streams,
                    health: i.health,
                    pause_frames: i.pause_frames,
                    pfc_frames: i.pfc_frames,
                    eee_ports: i.eee_ports,
                    pcap_stats: i.pcap_stats,
                    packets_dispatched: i.packets_dispatched,
                },
                now,
            ),
        ),
        i.avb.avdecc_entities.len() > 0 ==> entities_out(c, i) == header_out(
            c,
            entities_label(i.avb.avdecc_entities.len()),
            "📡 "@ + entities_label(i.avb.avdecc_entities.len()),
        ) + lines_out(c, entities_lines(sorted::<AvdeccEntity>(values(i.avb.avdecc_entities)))),
        i.ptp_domains.len() > 0 ==> clocks_out(c, i) == header_out(
            c,
            "Clock Sources:"@,
            "🕐 Clock Sources:"@,
        ) + lines_out(
            c,
            clock_section(
                i.ptp_domains,
                i.missing_ptp,
                i.dante_names,
                i.clock_dropout_correlated,
            ).unwrap(),
        ) + alerts_out(c, i.follower_census) + alerts_out(c, i.ptp_sync),
        streams_out(c, i, now) == header_out(c, "Streams:"@, "📡 Streams:"@) + lines_out(
            c,
            listed_streams(
                sorted::<StreamKey>(keys(i.streams)),
                i.streams,
                i.tcp_streams,
                i.dante_sources,
                i.dante_names,
                i.clock_dropout_correlated,
                now,
            ) + listed_avtp(
                sorted::<AvtpStreamStats>(values(i.avb.avtp_streams)),
                i.avb.msrp_state,
                i.avb.mvrp_vlans,
                now,
            ),
        ),
        ({
            let d = discovered(i);
            &&& d.dante_sources == i.dante_sources && d.dante_names == i.dante_names && d.dante_conmon
                == i.dante_conmon && d.dante_unverified == i.dante_unverified
            &&& d.ndi_sources == i.ndi_sources && d.ndi_names == i.ndi_names && d.streams == i.streams
            &&& d.dante_active == members(i.streams, Group::Dante) as usize && d.ndi_active == members(
                i.streams,
                Group::Ndi,
            ) as usize
        }),
{
    reveal(network_out);
    reveal(entities_out);
    reveal(clocks_out);
    reveal(streams_out);
}

} // verus!
