//! Counters, diagnostics and the score.

use avstreamlens::net::Ipv4Addr;
use avstreamlens::protocols::{hertz, MsrpDeclaration, SdpMedia, PTP_VERSION_V2, STREAM_TIMEOUT_SECS};
use avstreamlens::stats::{
    path_delay_hop_estimate, path_delay_spread_unstable, path_delay_too_many_hops,
    AvtpStreamStats, DscpMarking, IatRing, Jitter, NetworkHealth, Pct, PtpStats, StreamDiagnostic,
    StreamQuality, StreamStats, TcpStreamStats,
};
use avstreamlens::table::Table;

const NOW: u64 = 1_000_000_000_000;
const SECOND: u64 = 1_000_000_000;

fn aes67() -> StreamStats {
    StreamStats::new("AES67", hertz(48_000), NOW)
}

#[test]
fn no_loss_on_sequential_packets() {
    let mut s = aes67();
    s.update(0, 0,  1, 100, NOW);
    s.update(1, 48, 1, 100, NOW);
    s.update(2, 96, 1, 100, NOW);
    assert_eq!(s.lost_packets, 0);
    assert_eq!(s.packets, 3);
}

#[test]
fn loss_counted_on_seq_gap() {
    let mut s = aes67();
    s.update(0, 0,   1, 100, NOW);
    s.update(3, 144, 1, 100, NOW);
    assert_eq!(s.lost_packets, 2);
}

#[test]
fn no_loss_on_seq_number_wrap() {
    let mut s = aes67();
    s.update(0xFFFE, 0,  1, 100, NOW);
    s.update(0xFFFF, 48, 1, 100, NOW);
    s.update(0x0000, 96, 1, 100, NOW);
    assert_eq!(s.lost_packets, 0);
}

#[test]
fn backward_seq_not_counted_as_loss() {
    let mut s = aes67();
    s.update(10, 0, 1, 100, NOW);
    s.update(5,  0, 1, 100, NOW);
    assert_eq!(s.lost_packets, 0);
}

#[test]
fn backward_seq_counted_as_reorder() {
    let mut s = aes67();
    s.update(10, 0, 1, 100, NOW);
    s.update(5,  0, 1, 100, NOW);
    assert_eq!(s.reorders_this_window, 1);
    assert_eq!(s.lost_packets, 0);
}

#[test]
fn lost_this_window_tracks_per_window_drops() {
    let mut s = aes67();
    s.update(0, 0,   1, 100, NOW);
    s.update(3, 144, 1, 100, NOW);
    assert_eq!(s.lost_this_window, 2);
    assert_eq!(s.lost_packets,     2);
    s.lost_this_window = 0;
    s.update(4, 192, 1, 100, NOW);
    assert_eq!(s.lost_this_window, 0, "no new loss this window");
    assert_eq!(s.lost_packets,     2, "cumulative loss preserved");
}

fn avtp() -> AvtpStreamStats {
    AvtpStreamStats::new([0u8; 8], 0x00, NOW)
}

#[test]
fn avtp_no_loss_on_seq_wrap() {
    let mut s = avtp();
    s.update_seq(254);
    s.update_seq(255);
    s.update_seq(0);
    s.update_seq(1);
    assert_eq!(s.lost_frames, 0);
}

#[test]
fn avtp_backward_seq_not_counted_as_loss() {
    let mut s = avtp();
    s.update_seq(100);
    s.update_seq(90);
    assert_eq!(s.lost_frames, 0);
}

#[test]
fn avtp_gap_counted_as_loss() {
    let mut s = avtp();
    s.update_seq(0);
    s.update_seq(3);
    assert_eq!(s.lost_frames, 2);
}

#[test]
fn avtp_gap_across_wrap_counted_as_loss() {
    let mut s = avtp();
    s.update_seq(253);
    s.update_seq(1);
    assert_eq!(s.lost_frames, 3);
}

#[test]
fn ssrc_change_increments_counter() {
    let mut s = aes67();
    s.update(0, 0,  0xAAAA, 100, NOW);
    s.update(1, 48, 0xBBBB, 100, NOW);
    assert_eq!(s.ssrc_changes, 1);
}

#[test]
fn stable_ssrc_no_change_counted() {
    let mut s = aes67();
    s.update(0, 0,  0xAAAA, 100, NOW);
    s.update(1, 48, 0xAAAA, 100, NOW);
    s.update(2, 96, 0xAAAA, 100, NOW);
    assert_eq!(s.ssrc_changes, 0);
}

#[test]
fn clock_rate_inferred_48k_1ms() {
    let mut s = aes67();
    assert!(!s.clock_hz_confirmed);
    for i in 0..9u16 {
        s.update(i, i as u32 * 48, 1, 100, NOW);
    }
    assert!(s.clock_hz_confirmed, "should confirm 48 kHz from delta=48");
    assert!(s.clock_uhz == hertz(48000));
    assert_eq!(s.ptime_ns, 1_000_000);
}

#[test]
fn clock_rate_inferred_48k_4ms() {
    let mut s = aes67();
    for i in 0..9u16 {
        s.update(i, i as u32 * 192, 1, 100, NOW);
    }
    assert!(s.clock_hz_confirmed);
    assert!(s.clock_uhz == hertz(48000));
    assert_eq!(s.ptime_ns, 4_000_000);
}

#[test]
fn clock_rate_inferred_44k1_10ms() {
    let mut s = aes67();
    for i in 0..9u16 {
        s.update(i, i as u32 * 441, 1, 100, NOW);
    }
    assert!(s.clock_hz_confirmed);
    assert!(s.clock_uhz == hertz(44100));
    assert_eq!(s.ptime_ns, 10_000_000);
}

#[test]
fn clock_rate_not_inferred_from_unknown_delta() {
    let mut s = aes67();
    for i in 0..9u16 {
        s.update(i, i as u32 * 100, 1, 100, NOW);
    }
    assert!(!s.clock_hz_confirmed, "should not confirm on unrecognised delta");
}

#[test]
fn clock_rate_inferred_despite_one_noisy_sample() {
    let mut s = aes67();
    let ts_sequence = [0u32, 48, 96, 144, 192, 240, 288, 384, 432];
    for (i, &ts) in ts_sequence.iter().enumerate() {
        s.update(i as u16, ts, 1, 100, NOW);
    }
    assert!(s.clock_hz_confirmed);
    assert!(s.clock_uhz == hertz(48000));
}

#[test]
fn clock_rate_inference_stops_after_sdp_confirms() {
    let mut s = aes67();
    s.clock_uhz = hertz(96000);
    s.ptime_ns = 1_000_000;
    s.clock_hz_confirmed = true;
    for i in 0..9u16 {
        s.update(i, i as u32 * 48, 1, 100, NOW);
    }
    assert!(s.clock_uhz == hertz(96000), "SDP value should be preserved");
}

#[test]
fn loss_pct_zero_when_no_packets() {
    assert_eq!(aes67().loss_pct().millionths(), 0);
}

#[test]
fn loss_pct_correct_with_gap() {
    let mut s = aes67();
    s.update(0, 0,   1, 100, NOW);
    s.update(3, 144, 1, 100, NOW);
    let pct = s.loss_pct();
    assert_eq!(pct.millionths(), 50_000_000, "expected 50%, got {pct:?}");
}

#[test]
fn diagnostics_empty_for_clean_stream() {
    let mut s = aes67();
    s.update(0, 0,  1, 100, NOW);
    s.update(1, 48, 1, 100, NOW);
    assert!(s.diagnostics(NOW).is_empty());
}

#[test]
fn diagnostics_packet_loss_scores_window_pct_not_lifetime() {
    let mut s = aes67();
    s.packets = 9_990;
    s.lost_packets = 10;
    s.packets_this_window = 100;
    s.lost_this_window = 0;
    assert!(
        s.diagnostics(NOW).is_empty(),
        "a stream that recovered this window must not still be flagged"
    );
}

#[test]
fn diagnostics_packet_loss_fires_on_window_delta() {
    let mut s = aes67();
    s.packets = 100;
    s.lost_packets = 2;
    s.packets_this_window = 98;
    s.lost_this_window = 2;
    let diags = s.diagnostics(NOW);
    let loss = diags.iter().find(|d| matches!(d, StreamDiagnostic::PacketLoss { .. }));
    assert!(loss.is_some(), "got {diags:?}");
    assert!(loss.unwrap().deduction() > 0);
    assert!(loss.unwrap().message().unwrap().contains("2 in last 5s"));
}

#[test]
fn diagnostics_jitter_10_to_20ms_scores_silently() {
    let mut s = aes67();
    s.jitter = Jitter::Ps(15_000_000_000);
    let diags = s.diagnostics(NOW);
    let jit = diags.iter().find(|d| matches!(d, StreamDiagnostic::HighJitter { .. })).unwrap();
    assert_eq!(jit.deduction(), 2_000_000);
    assert!(jit.message().is_none());
}

#[test]
fn diagnostics_jitter_above_20ms_renders_and_scores() {
    let mut s = aes67();
    s.jitter = Jitter::Ps(25_000_000_000);
    let diags = s.diagnostics(NOW);
    let jit = diags.iter().find(|d| matches!(d, StreamDiagnostic::HighJitter { .. })).unwrap();
    assert_eq!(jit.deduction(), 5_000_000);
    assert!(jit.message().unwrap().contains("High jitter"));
}

#[test]
fn diagnostics_aes67_jitter_hint_is_informational() {
    let mut s = aes67();
    s.jitter = Jitter::Ps(12_000_000_000);
    let diags = s.diagnostics(NOW);
    let hint = diags.iter().find(|d| matches!(d, StreamDiagnostic::Aes67PtpLockHint)).unwrap();
    assert_eq!(hint.deduction(), 0, "the hint itself carries no score weight");
    assert!(hint.message().unwrap().contains("check PTP lock"));
}

#[test]
fn diagnostics_dead_stream_is_critical() {
    let mut s = aes67();
    s.last_packet_time = Some(NOW - (STREAM_TIMEOUT_SECS + 1) * SECOND);
    let diags = s.diagnostics(NOW);
    let dead = diags.iter().find(|d| matches!(d, StreamDiagnostic::Dead { .. })).unwrap();
    assert!(dead.is_critical());
    assert_eq!(dead.deduction(), 30_000_000);
}

#[test]
fn ts_discontinuity_not_fired_on_first_packet() {
    let mut s = aes67();
    s.clock_hz_confirmed = true;
    s.ptime_ns = 1_000_000;
    s.update(0, 0, 1, 100, NOW);
    assert_eq!(s.ts_discontinuities, 0);
}

#[test]
fn ts_discontinuity_fired_on_double_interval() {
    let mut s = aes67();
    s.clock_hz_confirmed = true;
    s.ptime_ns = 1_000_000;
    s.update(0, 0,   1, 100, NOW);
    s.update(1, 96,  1, 100, NOW);
    assert_eq!(s.ts_discontinuities, 1);
}

#[test]
fn ts_discontinuity_not_fired_on_normal_increment() {
    let mut s = aes67();
    s.clock_hz_confirmed = true;
    s.ptime_ns = 1_000_000;
    s.update(0, 0,  1, 100, NOW);
    s.update(1, 48, 1, 100, NOW);
    assert_eq!(s.ts_discontinuities, 0);
}

fn empty_streams() -> Table<String, StreamStats> { Table::new() }
fn empty_tcp() -> Table<String, TcpStreamStats> { Table::new() }
fn empty_ptp() -> Table<(u8, u8), PtpStats> { Table::new() }
fn empty_msrp() -> Table<[u8; 8], MsrpDeclaration> { Table::new() }
fn empty_eee() -> Table<(String, String), (u16, u16)> { Table::new() }
fn empty_avtp() -> Table<[u8; 8], AvtpStreamStats> { Table::new() }

fn live_stream(lost: u64) -> StreamStats {
    let mut s = aes67();
    s.packets = 100;
    s.lost_packets = lost;
    s.packets_this_window = 100;
    s.lost_this_window = lost;
    s.last_packet_time = Some(NOW);
    s
}

#[test]
fn summary_empty_when_all_healthy() {
    let health = NetworkHealth::new();
    let mut streams = empty_streams();
    streams.insert("s1".into(), live_stream(0));
    let out = health.build_health_summary(&streams, &empty_tcp(), &empty_ptp(), &empty_msrp(), &empty_eee(), &empty_avtp(), NOW);
    assert!(out.is_empty(), "healthy state must yield no bullets, got {out:?}");
}

#[test]
fn summary_single_loss_one_bullet() {
    let health = NetworkHealth::new();
    let mut streams = empty_streams();
    streams.insert("s1".into(), live_stream(5));
    let out = health.build_health_summary(&streams, &empty_tcp(), &empty_ptp(), &empty_msrp(), &empty_eee(), &empty_avtp(), NOW);
    assert_eq!(out.len(), 1);
    assert!(out[0].contains("1 stream(s) with packet loss"), "got {out:?}");
}

#[test]
fn summary_collapses_same_issue_across_streams() {
    let health = NetworkHealth::new();
    let mut streams = empty_streams();
    streams.insert("s1".into(), live_stream(5));
    streams.insert("s2".into(), live_stream(3));
    streams.insert("s3".into(), live_stream(1));
    let out = health.build_health_summary(&streams, &empty_tcp(), &empty_ptp(), &empty_msrp(), &empty_eee(), &empty_avtp(), NOW);
    assert_eq!(out.len(), 1, "three lossy streams collapse to one bullet, got {out:?}");
    assert!(out[0].contains("3 stream(s) with packet loss"));
}

#[test]
fn summary_different_issues_one_bullet_each() {
    let health = NetworkHealth::new();
    let mut streams = empty_streams();

    let mut lossy = live_stream(5);
    lossy.dscp_violations = 2;
    streams.insert("s1".into(), lossy);

    let mut jittery = live_stream(0);
    jittery.jitter = Jitter::Ps(15_000_000_000);
    streams.insert("s2".into(), jittery);

    let out = health.build_health_summary(&streams, &empty_tcp(), &empty_ptp(), &empty_msrp(), &empty_eee(), &empty_avtp(), NOW);
    assert_eq!(out.len(), 3, "got {out:?}");
    assert!(out.iter().any(|b| b.contains("packet loss")));
    assert!(out.iter().any(|b| b.contains("high jitter")));
    assert!(out.iter().any(|b| b.contains("incorrect DSCP")));
}

#[test]
fn summary_each_infra_issue_individual_bullet() {
    let mut health = NetworkHealth::new();
    health.tcp_retransmissions = 4;
    health.ecn_congestion_marks = 3;
    health.multiple_queriers_this_window = true;

    let mut ptp = empty_ptp();
    let mut d0 = PtpStats::new(0, 1, NOW);
    d0.clock_valid = false;
    d0.protocol_clock_lost = true;
    ptp.insert((0, 1), d0);

    let mut eee = empty_eee();
    eee.insert(("chassis".into(), "port3".into()), (10, 20));

    let out = health.build_health_summary(&empty_streams(), &empty_tcp(), &ptp, &empty_msrp(), &eee, &empty_avtp(), NOW);
    assert!(out.iter().any(|b| b.contains("TCP retransmissions")), "got {out:?}");
    assert!(out.iter().any(|b| b.contains("ECN congestion")));
    assert!(out.iter().any(|b| b.contains("Multiple IGMP queriers")));
    assert!(out.iter().any(|b| b.contains("Clock Source lost")));
    assert!(out.iter().any(|b| b.contains("EEE active")));
}

#[test]
fn summary_igmp_querier_only_when_multicast_active() {
    let health = NetworkHealth::new();
    let mut unicast = empty_streams();
    unicast.insert("u1".into(), live_stream(0));
    let out = health.build_health_summary(&unicast, &empty_tcp(), &empty_ptp(), &empty_msrp(), &empty_eee(), &empty_avtp(), NOW);
    assert!(out.is_empty(), "no multicast → no querier bullet, got {out:?}");

    let mut mc = empty_streams();
    let mut m = live_stream(0);
    m.is_multicast = true;
    mc.insert("m1".into(), m);
    let out = health.build_health_summary(&mc, &empty_tcp(), &empty_ptp(), &empty_msrp(), &empty_eee(), &empty_avtp(), NOW);
    assert!(out.iter().any(|b| b.contains("IGMP querier absent")), "got {out:?}");
}

#[test]
fn summary_pcap_drops_produce_no_bullet() {
    let health = NetworkHealth::new();
    let mut streams = empty_streams();
    streams.insert("s1".into(), live_stream(0));
    let out = health.build_health_summary(&streams, &empty_tcp(), &empty_ptp(), &empty_msrp(), &empty_eee(), &empty_avtp(), NOW);
    assert!(out.is_empty());
}

#[test]
fn summary_dead_stream_bullet() {
    let health = NetworkHealth::new();
    let mut streams = empty_streams();
    let mut dead = aes67();
    dead.packets = 100;
    dead.last_packet_time = Some(NOW - (STREAM_TIMEOUT_SECS + 5) * SECOND);
    streams.insert("s1".into(), dead);
    let out = health.build_health_summary(&streams, &empty_tcp(), &empty_ptp(), &empty_msrp(), &empty_eee(), &empty_avtp(), NOW);
    assert!(out.iter().any(|b| b.contains("dead stream")), "got {out:?}");
}

#[test]
fn score_and_summary_share_one_penalty_table() {
    let mut health = NetworkHealth::new();
    health.tcp_retransmissions = 4;
    health.ecn_congestion_marks = 3;

    let mut streams = empty_streams();
    streams.insert("loss".into(), live_stream(5));
    let mut dscp = live_stream(0);
    dscp.dscp_violations = 2;
    streams.insert("dscp".into(), dscp);

    let mut eee = empty_eee();
    eee.insert(("chassis".into(), "port3".into()), (10, 20));

    let penalties = health.collect_penalties(
        &streams, &empty_tcp(), &empty_ptp(), &empty_msrp(), &eee, &empty_avtp(), NOW,
    );
    let summary = health.build_health_summary(
        &streams, &empty_tcp(), &empty_ptp(), &empty_msrp(), &eee, &empty_avtp(), NOW,
    );
    let expected: u128 = penalties.iter().map(|p| p.deduction()).sum();
    health.calculate_score(&streams, &empty_tcp(), &empty_ptp(), &empty_msrp(), &eee, &empty_avtp(), NOW);

    assert_eq!(summary.len(), penalties.len(), "bullet ⇔ penalty: {summary:?}");
    assert!(expected > 0, "test state must produce penalties");
    assert_eq!(health.network_score as u128, 100_000_000 - expected,
        "the score is what the deductions leave of a hundred points");
}

#[test]
fn category_names_match_existing_aggregate_bullet_wording() {
    const ONE: Pct = Pct { part: 1, received: 99, lost: 1 };
    assert_eq!(StreamDiagnostic::PacketLoss { window_count: 1, window_pct: ONE, lifetime_pct: ONE }.category(), "packet loss");
    assert_eq!(StreamDiagnostic::HighJitter { jitter: Jitter::Ps(25_000_000_000) }.category(), "high jitter");
    assert_eq!(StreamDiagnostic::TsDiscontinuity { window_count: 1 }.category(), "timestamp discontinuities");
    assert_eq!(StreamDiagnostic::SsrcChange { count: 1 }.category(), "SSRC changes");
    assert_eq!(StreamDiagnostic::SignalGap { window_count: 1, max_iat_ns: 1_000_000 }.category(), "signal gaps");
    assert_eq!(StreamDiagnostic::DscpViolation { count: 1, expected: DscpMarking::Ef }.category(), "incorrect DSCP");
    assert_eq!(StreamDiagnostic::Dead { silent_ns: SECOND }.category(), "silent");
}

#[test]
fn informational_only_diagnostics_produce_no_penalty() {
    let health = NetworkHealth::new();
    let mut s = StreamStats::new("2110-??", hertz(90_000), NOW);
    s.packets = 100;
    s.packets_this_window = 100;
    s.last_packet_time = Some(NOW);
    s.rtp_seen = true;
    s.pt_mismatches = 3;
    s.reorders_this_window = 5;

    let mut streams = empty_streams();
    streams.insert("s1".into(), s);

    let penalties = health.collect_penalties(
        &streams, &empty_tcp(), &empty_ptp(), &empty_msrp(), &empty_eee(), &empty_avtp(), NOW,
    );
    let summary = health.build_health_summary(
        &streams, &empty_tcp(), &empty_ptp(), &empty_msrp(), &empty_eee(), &empty_avtp(), NOW,
    );

    assert!(penalties.is_empty(), "informational-only diagnostics must add no penalty, got {} penalties", penalties.len());
    assert!(summary.is_empty(), "informational-only diagnostics must add no bullet, got {summary:?}");
}

#[test]
fn summary_avb_pcp_mismatch_deducts_and_produces_bullet() {
    let health = NetworkHealth::new();
    let mut avtp = empty_avtp();
    let mut s = AvtpStreamStats::new([1, 2, 3, 4, 5, 6, 7, 8], 0x00, NOW);
    s.pcp_violations = 1;
    s.observed_pcp = Some(2);
    s.msrp_declared_pcp = Some(3);
    avtp.insert(s.stream_id, s);

    let penalties = health.collect_penalties(
        &empty_streams(), &empty_tcp(), &empty_ptp(), &empty_msrp(), &empty_eee(), &avtp, NOW,
    );
    let summary = health.build_health_summary(
        &empty_streams(), &empty_tcp(), &empty_ptp(), &empty_msrp(), &empty_eee(), &avtp, NOW,
    );
    let total: u128 = penalties.iter().map(|p| p.deduction()).sum();

    assert_eq!(total, 15_000_000, "PCP mismatch must deduct 15 points, got total {total}");
    assert!(summary.iter().any(|b| b.contains("PCP mismatch")), "got {summary:?}");
}

#[test]
fn summary_no_bullet_for_avb_stream_without_pcp_violation() {
    let health = NetworkHealth::new();
    let mut avtp = empty_avtp();
    let s = AvtpStreamStats::new([1, 2, 3, 4, 5, 6, 7, 8], 0x00, NOW);
    avtp.insert(s.stream_id, s);

    let out = health.build_health_summary(
        &empty_streams(), &empty_tcp(), &empty_ptp(), &empty_msrp(), &empty_eee(), &avtp, NOW,
    );
    assert!(out.is_empty(), "got {out:?}");
}

fn ring(n: u64, iat_ns: fn(u64) -> u64) -> IatRing {
    let mut r = IatRing::new();
    for i in 0..n {
        r.push(iat_ns(i));
    }
    r
}

#[test]
fn timing_metronomic_true_for_steady_intervals() {
    let mut s = aes67();
    s.iat_samples = ring(32, |_| 1_000_000);
    assert_eq!(s.timing_metronomic(), Some(true));
}

#[test]
fn timing_metronomic_false_for_noisy_intervals() {
    let mut s = aes67();
    s.iat_samples = ring(32, |i| if i % 2 == 0 { 500_000 } else { 1_500_000 });
    assert_eq!(s.timing_metronomic(), Some(false));
}

#[test]
fn timing_metronomic_none_with_too_few_samples() {
    let mut s = aes67();
    s.iat_samples = ring(4, |_| 1_000_000);
    assert_eq!(s.timing_metronomic(), None);
}

fn media(clock_hz: u32, channels: u8, ptime_ms: i64, pt: u8) -> SdpMedia {
    SdpMedia {
        media_type: "audio".to_string(),
        port: 5004,
        payload_types: vec![pt],
        connection: String::new(),
        rtpmap: "L24/48000/2".to_string(),
        clock_uhz: hertz(clock_hz),
        channels,
        ptime_ns: ptime_ms * 1_000_000,
        ts_refclk: String::new(),
        mediaclk: String::new(),
    }
}

#[test]
fn apply_sdp_transfers_all_technical_fields() {
    let mut s = aes67();
    let confirmed = s.apply_sdp(&media(96_000, 2, 1, 97), "Studio Mix");
    assert!(confirmed);
    assert_eq!(s.clock_uhz, hertz(96_000));
    assert!(s.clock_hz_confirmed);
    assert_eq!(s.channels, 2);
    assert_eq!(s.ptime_ns, 1_000_000);
    assert_eq!(s.expected_pt, Some(97));
    assert_eq!(s.sdp_rtpmap.as_deref(), Some("L24/48000/2"));
    assert_eq!(s.sdp_name.as_deref(), Some("Studio Mix"));
}

#[test]
fn apply_sdp_returns_false_when_clock_hz_zero() {
    let mut s = aes67();
    let confirmed = s.apply_sdp(&media(0, 2, 1, 97), "Studio Mix");
    assert!(!confirmed);
    assert!(!s.clock_hz_confirmed);
}

#[test]
fn apply_sdp_name_written_once() {
    let mut s = aes67();
    s.apply_sdp(&media(48_000, 2, 1, 96), "First Name");
    s.apply_sdp(&media(96_000, 2, 1, 97), "Second Name");
    assert_eq!(s.sdp_name.as_deref(), Some("First Name"), "name must not be overwritten");
    assert_eq!(s.clock_uhz, hertz(96_000), "technical fields must still refresh");
}

#[test]
fn apply_pcp_advisory_flags_non_six_pcp() {
    let mut s = aes67();
    s.apply_pcp_advisory(Some(3));
    assert_eq!(s.pcp_violations, 1);
    assert_eq!(s.observed_pcp, Some(3));
}

#[test]
fn apply_pcp_advisory_silent_on_pcp_six() {
    let mut s = aes67();
    s.apply_pcp_advisory(Some(6));
    assert_eq!(s.pcp_violations, 0);
    assert_eq!(s.observed_pcp, None);
}

#[test]
fn apply_pcp_advisory_silent_on_untagged_frame() {
    let mut s = aes67();
    s.apply_pcp_advisory(None);
    assert_eq!(s.pcp_violations, 0);
}

#[test]
fn apply_sdp_zero_fields_do_not_clobber_existing_values() {
    let mut s = aes67();
    s.channels = 4;
    s.ptime_ns = 4_000_000;
    s.apply_sdp(&media(48_000, 0, 0, 96), "Name");
    assert_eq!(s.channels, 4);
    assert_eq!(s.ptime_ns, 4_000_000);
}

fn ndi_tcp() -> TcpStreamStats {
    TcpStreamStats::new(Ipv4Addr::new(192, 168, 1, 60), Ipv4Addr::new(192, 168, 1, 5), NOW)
}

#[test]
fn tcp_quality_healthy_at_zero_retransmissions() {
    let mut t = ndi_tcp();
    t.update_quality();
    assert_eq!(t.stream_quality, StreamQuality::Healthy);
}

#[test]
fn tcp_quality_healthy_at_two_retransmissions() {
    let mut t = ndi_tcp();
    t.retransmissions = 2;
    t.update_quality();
    assert_eq!(t.stream_quality, StreamQuality::Healthy, "boundary: 2 is still Healthy");
}

#[test]
fn tcp_quality_degrading_at_three_retransmissions() {
    let mut t = ndi_tcp();
    t.retransmissions = 3;
    t.update_quality();
    assert_eq!(t.stream_quality, StreamQuality::Degrading);
}

#[test]
fn tcp_quality_degrading_at_ten_retransmissions() {
    let mut t = ndi_tcp();
    t.retransmissions = 10;
    t.update_quality();
    assert_eq!(t.stream_quality, StreamQuality::Degrading, "boundary: 10 is still Degrading");
}

#[test]
fn tcp_quality_critical_at_eleven_retransmissions() {
    let mut t = ndi_tcp();
    t.retransmissions = 11;
    t.update_quality();
    assert_eq!(t.stream_quality, StreamQuality::Critical);
}

#[test]
fn tcp_quality_terminated_on_rst() {
    let mut t = ndi_tcp();
    t.rst_packets = 1;
    t.update_quality();
    assert_eq!(t.stream_quality, StreamQuality::Terminated);
}

#[test]
fn tcp_quality_terminated_overrides_high_retransmissions() {
    let mut t = ndi_tcp();
    t.retransmissions = 50;
    t.rst_packets = 1;
    t.update_quality();
    assert_eq!(t.stream_quality, StreamQuality::Terminated, "RST dominates regardless of retransmission count");
}

#[test]
fn tcp_quality_healthy_on_single_fin() {
    let mut t = ndi_tcp();
    t.fin_packets = 1;
    t.update_quality();
    assert_eq!(t.stream_quality, StreamQuality::Healthy, "one FIN is a normal half-close, not termination");
}

#[test]
fn tcp_quality_terminated_on_second_fin() {
    let mut t = ndi_tcp();
    t.fin_packets = 2;
    t.update_quality();
    assert_eq!(t.stream_quality, StreamQuality::Terminated);
}

#[test]
fn tcp_bitrate_not_recalculated_within_one_second_window() {
    let mut t = ndi_tcp();
    t.bytes = 125_000;
    t.update_bitrate(NOW);
    assert_eq!(t.bitrate_bps, 0, "no recalculation until the 1s window elapses");
}

#[test]
fn tcp_bitrate_recalculated_after_window_elapses() {
    let mut t = ndi_tcp();
    t.bytes = 125_000;
    t.last_bitrate_check = NOW - 2 * SECOND;
    t.update_bitrate(NOW);
    assert!(t.bitrate_bps > 0, "bitrate must be computed once the window has elapsed");
    assert_eq!(t.bytes_at_check, 125_000, "checkpoint must advance to the current byte count");
}

#[test]
fn path_delay_spread_not_unstable_under_10us() {
    assert!(!path_delay_spread_unstable(1_000, 10_999));
}

#[test]
fn path_delay_spread_unstable_over_10us() {
    assert!(path_delay_spread_unstable(1_000, 11_001));
}

#[test]
fn path_delay_not_too_many_hops_under_1ms() {
    assert!(!path_delay_too_many_hops(1_000_000));
}

#[test]
fn path_delay_too_many_hops_over_1ms() {
    assert!(path_delay_too_many_hops(1_000_001));
}

#[test]
fn path_delay_hop_estimate_scales_by_5us_per_hop() {
    assert_eq!(path_delay_hop_estimate(0), 0);
    assert_eq!(path_delay_hop_estimate(4_999), 0, "suppressed below one hop's worth");
    assert_eq!(path_delay_hop_estimate(5_000), 1);
    assert_eq!(path_delay_hop_estimate(12_000), 2);
}

#[test]
fn is_ip_ptp_domain_true_for_aes67() {
    let mut s = PtpStats::new(0, PTP_VERSION_V2, NOW);
    s.protocol_kind = Some("AES67".to_string());
    assert!(s.is_ip_ptp_domain());
    assert!(!s.is_gptp_domain());
}

#[test]
fn is_gptp_domain_true_for_avb() {
    let mut s = PtpStats::new(0, PTP_VERSION_V2, NOW);
    s.protocol_kind = Some("AVB".to_string());
    assert!(s.is_gptp_domain());
    assert!(!s.is_ip_ptp_domain());
}

#[test]
fn is_ip_ptp_domain_true_when_protocol_kind_unset() {
    let s = PtpStats::new(0, PTP_VERSION_V2, NOW);
    assert!(s.is_ip_ptp_domain());
    assert!(!s.is_gptp_domain());
}

#[test]
fn record_ecn_mark_if_congested_counts_ce_marked_packet() {
    let mut health = NetworkHealth::new();
    health.record_ecn_mark_if_congested(3);
    assert_eq!(health.ecn_congestion_marks, 1);
}

#[test]
fn record_ecn_mark_if_congested_ignores_non_ce_ecn() {
    let mut health = NetworkHealth::new();
    for ecn in [0u8, 1, 2] {
        health.record_ecn_mark_if_congested(ecn);
    }
    assert_eq!(health.ecn_congestion_marks, 0);
}
