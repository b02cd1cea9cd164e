//! Laws of the statistics and of the capture's state on concrete values.

use avstreamlens::capture::dispatch::process_packet;
use avstreamlens::capture::{AlertLevel, CaptureState, DanteState, MissingClockKind};
use avstreamlens::net::Ipv4Addr;
use avstreamlens::protocols::{
    hertz, AvdeccAdp, IgmpType, MsrpDeclType, MsrpDeclaration, ProtocolChoice, PtpInfo, SdpMedia,
    SdpSession, TcpSegment, TransmitterClass, PTP_VERSION_V1, PTP_VERSION_V2,
};
use avstreamlens::scan::ENDLESS;
use avstreamlens::stats::{
    AvtpStreamStats, DscpMarking, IatRing, Jitter, NetworkHealth, Pct, PtpEvent, PtpStats, StreamDiagnostic,
    StreamStats,
};
use avstreamlens::table::{KeySet, Table};

const NOW: u64 = 1_000_000_000_000;
const SECOND: u64 = 1_000_000_000;
const MS: u64 = 1_000_000;

fn announce(gm: Option<&str>, src: Option<Ipv4Addr>) -> PtpInfo {
    PtpInfo {
        version: PTP_VERSION_V2,
        message_type: if gm.is_some() { 0x0B } else { 0x01 },
        domain: 0,
        clock_id: None,
        grandmaster_id: gm.map(|s| s.to_string()),
        clock_quality: None,
        correction_ns: None,
        path_delay_ns: None,
        message_name: String::new(),
        port_id: None,
        sequence_id: 0,
        log_sync_interval: 0,
        log_min_pdelay_req_interval: 0,
        protocol_kind: Some("PTPv2".to_string()),
        src_ip: src,
        stratum: None,
    }
}

fn adp(message_type: u8, index: u32) -> AvdeccAdp {
    AvdeccAdp {
        message_type,
        entity_id: [0, 1, 2, 3, 4, 5, 6, 7],
        entity_model_id: [0; 8],
        entity_capabilities: 0x108,
        talker_stream_sources: 1,
        talker_capabilities: 0x0201,
        listener_stream_sinks: 0,
        listener_capabilities: 0,
        gptp_grandmaster_id: [0; 8],
        gptp_domain_number: 0,
        valid_time_secs: 10,
        available_index: index,
    }
}

// ── Streams ──────────────────────────────────────────────────────────────────

#[test]
fn losses_count_what_is_missing() {
    let mut s = StreamStats::new("AES67", hertz(48_000), NOW);
    s.update(65_530, 0, 1, 100, NOW);
    s.update(4, 48, 1, 100, NOW);
    assert_eq!(s.lost_packets, 9);
    s.update(3, 48, 1, 100, NOW);
    assert_eq!((s.lost_packets, s.reorders_this_window), (9, 1));
}

#[test]
fn jitter_moves_a_sixteenth_of_the_way() {
    let mut s = StreamStats::new("AES67", hertz(48_000), NOW);
    s.update(0, 0, 1, 100, NOW);
    s.update(1, 48, 1, 100, NOW + 17 * MS);
    assert_eq!(s.jitter, Jitter::Ps(1_000_000_000), "16 ms late, a sixteenth of it is 1 ms");
    s.update(2, 96, 1, 100, NOW + 18 * MS);
    assert_eq!(s.jitter, Jitter::Ps(937_500_000), "on time again, it falls by a sixteenth");
}

#[test]
fn jitter_against_a_rate_of_zero_is_not_finite() {
    let mut s = StreamStats::new("AES67", 0, NOW);
    s.update(0, 0, 1, 100, NOW);
    assert_eq!(s.jitter, Jitter::Ps(0));
    s.update(1, 48, 1, 100, NOW + MS);
    assert_eq!(s.jitter, Jitter::Infinite);
    assert!(s.diagnostics(NOW).iter().any(|d| matches!(d, StreamDiagnostic::HighJitter { .. })));
    s.update(2, 96, 1, 100, NOW + 2 * MS);
    assert_eq!(s.jitter, Jitter::Undefined);
    assert!(!s.diagnostics(NOW).iter().any(|d| matches!(d, StreamDiagnostic::HighJitter { .. })));
    let mut still = StreamStats::new("AES67", 0, NOW);
    still.update(0, 48, 1, 100, NOW);
    still.update(1, 48, 1, 100, NOW + MS);
    assert_eq!(still.jitter, Jitter::Undefined);
    let text = |j: Jitter| {
        let mut s = String::new();
        j.push(&mut s);
        s
    };
    assert_eq!(text(Jitter::Ps(1_234_000_000)), "1.23");
    assert_eq!((text(Jitter::Infinite), text(Jitter::Undefined)), ("inf".into(), "NaN".into()));
}

#[test]
fn rates_need_not_be_whole() {
    let mut s = StreamStats::new("AES67", 500_000, NOW);
    s.update(0, 0, 1, 100, NOW);
    s.update(1, 1, 1, 100, NOW + 2 * SECOND);
    assert_eq!(s.jitter, Jitter::Ps(0), "half a hertz: a step lasts two seconds");
}

#[test]
fn at_a_rate_below_zero_the_media_goes_back() {
    let mut s = StreamStats::new("AES67", -hertz(48_000), NOW);
    s.update(0, 0, 1, 100, NOW);
    s.update(1, 48, 1, 100, NOW + 15 * MS);
    assert_eq!(s.jitter, Jitter::Ps(1_000_000_000), "15 ms on, 1 ms back");
}

#[test]
fn an_endless_rate_is_never_met() {
    let mut s = StreamStats::new("AES67", ENDLESS, NOW);
    s.clock_hz_confirmed = true;
    s.ptime_ns = 1;
    s.update(0, 0, 1, 100, NOW);
    s.update(1, 9_223, 1, 100, NOW + 16 * MS);
    assert_eq!(s.ts_discontinuities, 1);
    assert_eq!(s.jitter, Jitter::Ps(1_000_000_000), "steps take no time");
}

#[test]
fn regularity_holds_of_any_span() {
    let verdict = |a: u64, b: u64| {
        let mut r = IatRing::new();
        for i in 0..64 {
            r.push(if i % 2 == 0 { a } else { b });
        }
        r.metronomic()
    };
    assert_eq!(verdict(u64::MAX, u64::MAX), Some(true));
    assert_eq!(verdict(u64::MAX, u64::MAX / 2), Some(false));
    assert_eq!(verdict(u64::MAX, u64::MAX / 3 * 2), None);
    assert_eq!(verdict(300, 200), None);
    assert_eq!(verdict(u64::MAX, 1), Some(false));
}

#[test]
fn gaps_are_longer_than_fifty_milliseconds() {
    let mut s = StreamStats::new("Dante", hertz(48_000), NOW);
    s.update(0, 0, 1, 100, NOW);
    s.update(1, 48, 1, 100, NOW + 100 * MS);
    assert_eq!((s.gap_events, s.max_iat_ns), (0, 0), "the packet time is not known yet");
    let mut s = StreamStats::new("Dante", hertz(48_000), NOW);
    s.ptime_ns = 1_000_000;
    s.update(0, 0, 1, 100, NOW);
    s.update(1, 48, 1, 100, NOW + 50 * MS);
    assert_eq!(s.gap_events, 0);
    s.update(2, 96, 1, 100, NOW + 101 * MS);
    assert_eq!((s.gap_events, s.max_iat_ns), (1, 51 * MS));
}

#[test]
fn rates_are_taken_over_more_than_a_second() {
    let mut s = StreamStats::new("AES67", hertz(48_000), NOW);
    s.update(0, 0, 1, 1_000, NOW + SECOND);
    assert_eq!(s.bitrate_bps, 0);
    s.update(1, 48, 1, 1_000, NOW + 2 * SECOND);
    assert_eq!(s.bitrate_bps, 8_000);
}

#[test]
fn old_loss_is_forgiven() {
    let mut s = StreamStats::new("AES67", hertz(48_000), NOW);
    s.packets = 10;
    s.lost_packets = 1_000;
    assert!(!s.diagnostics(NOW).iter().any(|d| matches!(d, StreamDiagnostic::PacketLoss { .. })));
}

#[test]
fn loss_costs_its_percentage_up_to_ten_points() {
    let loss = |part: u64, received: u64| {
        let p = Pct { part, received, lost: part };
        StreamDiagnostic::PacketLoss { window_count: part, window_pct: p, lifetime_pct: p }.deduction()
    };
    assert_eq!(loss(1, 99), 1_000_000);
    assert_eq!(loss(50, 50), 10_000_000);
    assert_eq!(loss(1, 2), 10_000_000);
    assert!(loss(1, 1_000_000_000) > 0);
}

#[test]
fn each_diagnostic_has_its_cost_and_words() {
    let p = Pct { part: 2, received: 98, lost: 2 };
    let cases: Vec<(StreamDiagnostic, u64, Option<&str>)> = vec![
        (StreamDiagnostic::PacketLoss { window_count: 2, window_pct: p, lifetime_pct: p }, 2_000_000, Some("2 in last 5s")),
        (StreamDiagnostic::TsDiscontinuity { window_count: 2 }, 6_000_000, Some("2")),
        (StreamDiagnostic::TsDiscontinuity { window_count: 9 }, 15_000_000, Some("9")),
        (StreamDiagnostic::SsrcChange { count: 5 }, 30_000_000, Some("5")),
        (StreamDiagnostic::SignalGap { window_count: 1, max_iat_ns: 75 * MS }, 10_000_000, Some("75")),
        (StreamDiagnostic::DscpViolation { count: 1, expected: DscpMarking::Ef }, 5_000_000, Some("EF (46)")),
        (StreamDiagnostic::Dead { silent_ns: 12 * SECOND }, 30_000_000, Some("12")),
        (StreamDiagnostic::Reorder { window_count: 2, pct: p }, 0, Some("2")),
        (StreamDiagnostic::TtlRouted { ttl: 63 }, 0, Some("63")),
        (StreamDiagnostic::PtMismatch { count: 4 }, 0, Some("4")),
        (StreamDiagnostic::PcpAdvisory { observed: 0 }, 0, Some("PCP")),
    ];
    for (d, cost, word) in cases {
        assert_eq!(d.deduction(), cost, "{d:?}");
        if let Some(w) = word {
            let m = d.message().expect("a line");
            assert!(m.contains(w), "{m}");
        }
    }
}

#[test]
fn a_confirmed_rate_stays_and_a_name_is_given_once() {
    let mut s = StreamStats::new("AES67", hertz(96_000), NOW);
    s.clock_hz_confirmed = true;
    for i in 0..20u16 {
        s.update(i, i as u32 * 48, 1, 100, NOW + i as u64 * MS);
    }
    assert_eq!(s.clock_uhz, hertz(96_000));
}

// ── Clocks ───────────────────────────────────────────────────────────────────

#[test]
fn a_clock_is_lost_once_and_found_again() {
    let mut d = PtpStats::new(0, PTP_VERSION_V2, NOW);
    let kind = Some("PTPv2".to_string());
    assert_eq!(d.update(&announce(Some("gm"), None), &kind, NOW), Some(PtpEvent::GrandmasterDetected));
    assert_eq!(d.update(&announce(Some("gm"), None), &kind, NOW), None, "the same again is no change");
    let late = NOW + 3_600 * SECOND;
    assert_eq!(d.check_timeout(late), Some(PtpEvent::ClockLost));
    assert!(d.protocol_clock_lost && !d.clock_valid);
    assert_eq!(d.check_timeout(late + SECOND), None);
    assert_eq!(d.update(&announce(Some("gm"), None), &kind, late), Some(PtpEvent::GrandmasterDetected));
    assert!(d.clock_valid && !d.protocol_clock_lost);
    assert_eq!(
        d.update(&announce(Some("other"), None), &kind, late),
        Some(PtpEvent::GrandmasterChanged { from: "gm".to_string() })
    );
}

#[test]
fn followers_do_not_move_the_grandmaster() {
    let mut d = PtpStats::new(0, PTP_VERSION_V2, NOW);
    let kind = Some("PTPv2".to_string());
    let gm = Ipv4Addr::new(10, 0, 0, 1);
    d.update(&announce(Some("gm"), Some(gm)), &kind, NOW);
    d.update(&announce(None, Some(Ipv4Addr::new(10, 0, 0, 2))), &kind, NOW);
    assert_eq!(d.grandmaster_src_ip, Some(gm));
    assert_eq!(d.last_grandmaster.as_deref(), Some("gm"));
}

// ── Score ────────────────────────────────────────────────────────────────────

#[test]
fn an_empty_network_has_a_full_score() {
    let mut h = NetworkHealth::new();
    h.total_packets = 7;
    h.calculate_score(
        &Table::new(), &Table::new(), &Table::new(), &Table::new(), &Table::new(), &Table::new(), NOW,
    );
    assert_eq!(h.network_score, 100_000_000);
}

#[test]
fn the_score_never_falls_below_nothing() {
    let mut h = NetworkHealth::new();
    let mut streams = Table::new();
    for i in 0..10 {
        let mut s = StreamStats::new("AES67", hertz(48_000), NOW);
        s.packets = 1;
        s.last_packet_time = Some(NOW - 100 * SECOND);
        streams.insert(format!("s{i}"), s);
    }
    h.calculate_score(
        &streams, &Table::new(), &Table::new(), &Table::new(), &Table::new(), &Table::new(), NOW,
    );
    assert_eq!(h.network_score, 0);
}

#[test]
fn a_querier_may_be_silent_for_two_intervals() {
    let mut h = NetworkHealth::new();
    assert!(h.is_querier_absent(NOW));
    h.last_igmp_query = Some(NOW);
    assert_eq!(h.querier_silent_after_secs(), 260);
    assert!(!h.is_querier_absent(NOW + 260 * SECOND));
    assert!(h.is_querier_absent(NOW + 261 * SECOND));
    h.igmp_query_interval_secs = Some(30);
    assert_eq!(h.querier_silent_after_secs(), 70);
}

#[test]
fn an_announce_names_the_grandmaster_whatever_delay_it_carries() {
    let mut d = PtpStats::new(0, PTP_VERSION_V2, NOW);
    let kind = Some("PTPv2".to_string());
    d.min_path_delay_ns = Some(1);
    d.max_path_delay_ns = Some(2);
    let mut a = announce(Some("a"), None);
    a.path_delay_ns = Some(i64::MIN);
    assert_eq!(d.update(&a, &kind, NOW), Some(PtpEvent::GrandmasterDetected));
    assert_eq!(d.update(&a, &kind, NOW), None);
    assert_eq!((d.min_path_delay_ns, d.max_path_delay_ns), (Some(1), Some(2)));
    a.grandmaster_id = Some("b".to_string());
    assert_eq!(
        d.update(&a, &kind, NOW),
        Some(PtpEvent::GrandmasterChanged { from: "a".to_string() })
    );
    assert_eq!((d.grandmaster_changes, d.packets, d.clock_valid), (1, 3, true));
    assert_eq!((d.min_path_delay_ns, d.max_path_delay_ns), (None, None));
    assert_eq!(d.last_grandmaster.as_deref(), Some("b"));
    let mut state = CaptureState::new();
    assert_eq!(state.handle_ptp(a, NOW).len(), 1);
}

// ── State ────────────────────────────────────────────────────────────────────

#[test]
fn silent_streams_leave_and_live_ones_keep_their_totals() {
    let mut state = CaptureState::new();
    let mut live = StreamStats::new("AES67", hertz(48_000), NOW);
    live.last_packet_time = Some(NOW);
    live.packets = 50;
    live.lost_packets = 3;
    live.lost_this_window = 3;
    state.streams.insert("live".into(), live);
    let mut gone = StreamStats::new("AES67", hertz(48_000), NOW);
    gone.last_packet_time = Some(NOW - 20 * SECOND);
    state.streams.insert("gone".into(), gone);
    state.streams.insert("new".into(), StreamStats::new("AES67", hertz(48_000), NOW));
    state.reset_window(NOW);
    assert_eq!(state.streams.len(), 2);
    let s = state.streams.get(&"live".to_string()).unwrap();
    assert_eq!((s.packets, s.lost_packets, s.lost_this_window), (50, 3, 0));
    assert!(!state.streams.contains_key(&"gone".to_string()));
}

#[test]
fn reservations_go_with_their_streams() {
    let mut state = CaptureState::new();
    let (a, b) = ([1u8; 8], [2u8; 8]);
    state.handle_avb(0, Some(a), 100, Some(0), None, NOW);
    for id in [a, b] {
        state.handle_msrp(vec![MsrpDeclaration {
            decl_type: MsrpDeclType::TalkerAdvertise,
            stream_id: id,
            dest_mac: None,
            vlan_id: Some(2),
            max_frame_size: None,
            max_interval_frames: None,
            priority: Some(3),
            failure_code: None,
            listener_state: None,
        }]);
    }
    state.handle_mvrp(vec![2]);
    state.reset_window(NOW);
    assert!(state.avb.msrp_state.contains_key(&a) && !state.avb.msrp_state.contains_key(&b));
    assert_eq!(state.avb.mvrp_vlans.len(), 1);
    state.reset_window(NOW + 60 * SECOND);
    assert!(state.avb.avtp_streams.is_empty() && state.avb.msrp_state.is_empty());
    assert!(state.avb.mvrp_vlans.is_empty());
}

#[test]
fn frames_of_one_stream_leave_the_others() {
    let mut state = CaptureState::new();
    state.handle_avb(0, Some([1; 8]), 100, Some(0), None, NOW);
    let before: AvtpStreamStats = *state.avb.avtp_streams.get(&[1; 8]).unwrap();
    state.handle_avb(0, Some([2; 8]), 100, Some(9), None, NOW + SECOND);
    let after = state.avb.avtp_streams.get(&[1; 8]).unwrap();
    assert_eq!(format!("{after:?}"), format!("{before:?}"));
}

#[test]
fn entities_come_change_and_leave() {
    let mut state = CaptureState::new();
    assert_eq!(state.handle_avdecc_adp(adp(2, 0), NOW).len(), 0);
    let found = state.handle_avdecc_adp(adp(0, 3), NOW);
    assert_eq!(found.len(), 1);
    assert!(found[0].message.contains("00:01:02:03:04:05:06:07"), "{}", found[0].message);
    assert_eq!(state.handle_avdecc_adp(adp(0, 3), NOW).len(), 0);
    assert!(state.handle_avdecc_adp(adp(0, 4), NOW)[0].message.contains("state changed"));
    state.reset_window(NOW + 19 * SECOND);
    assert_eq!(state.avb.avdecc_entities.len(), 1, "within its time and ten seconds of grace");
    state.reset_window(NOW + 20 * SECOND);
    assert!(state.avb.avdecc_entities.is_empty());
    state.handle_avdecc_adp(adp(0, 5), NOW);
    assert!(state.handle_avdecc_adp(adp(1, 5), NOW)[0].message.contains("departed"));
    assert!(state.avb.avdecc_entities.is_empty());
}

#[test]
fn joins_are_told_once_until_left() {
    let mut state = CaptureState::new();
    let (h, g) = (Ipv4Addr::new(10, 0, 0, 9), Ipv4Addr::new(239, 1, 1, 1));
    assert_eq!(state.handle_igmp(h, [0; 6], g, IgmpType::Join, NOW).len(), 1);
    assert_eq!(state.handle_igmp(h, [0; 6], g, IgmpType::Join, NOW).len(), 0);
    state.handle_igmp(h, [0; 6], g, IgmpType::Leave, NOW);
    assert_eq!(state.handle_igmp(h, [0; 6], g, IgmpType::Join, NOW).len(), 1);
}

#[test]
fn leaving_a_watched_group_is_a_warning() {
    let mut state = CaptureState::new();
    let g = Ipv4Addr::new(239, 69, 0, 1);
    state.streams.insert("s".into(), StreamStats::new_with_info("AES67", hertz(48_000), true, g, 5004, NOW));
    let a = state.handle_igmp(Ipv4Addr::new(10, 0, 0, 9), [0; 6], g, IgmpType::Leave, NOW);
    assert_eq!(a.len(), 2);
    assert_eq!(a[1].level, AlertLevel::Warn);
}

#[test]
fn software_is_not_taken_for_hardware() {
    let mut d = DanteState::new();
    let ip = Ipv4Addr::new(10, 0, 0, 1);
    d.record_tx_class(ip, TransmitterClass::Via);
    d.record_tx_class(ip, TransmitterClass::Hardware);
    assert_eq!(d.transmitter_class.get(&ip), Some(&TransmitterClass::Via));
    d.record_tx_class(ip, TransmitterClass::Dvs);
    assert_eq!(d.transmitter_class.get(&ip), Some(&TransmitterClass::Dvs));
}

#[test]
fn only_ndi_segments_are_tracked() {
    let mut state = CaptureState::new();
    let seg = |src_port: u16| TcpSegment {
        src: Ipv4Addr::new(10, 0, 0, 1),
        dst: Ipv4Addr::new(10, 0, 0, 2),
        src_port,
        dst_port: 51_000,
        seq: 1,
        ack: 0,
        has_fin: false,
        has_syn: false,
        has_rst: false,
    };
    state.handle_tcp(seg(443), 100, NOW);
    assert!(state.tcp_streams.is_empty());
    state.handle_tcp(seg(5961), 100, NOW);
    assert_eq!(state.tcp_streams.len(), 1);
}

#[test]
fn our_own_addresses_are_no_devices() {
    let mut state = CaptureState::new();
    let me = Ipv4Addr::new(10, 0, 0, 5);
    state.local_ips.insert(me);
    assert!(state.handle_ndi_discovery(me, Some("Me".to_string())).is_empty());
    assert!(state.ndi.sources.is_empty());
}

#[test]
fn unchosen_frames_are_only_counted() {
    let mut state = CaptureState::new();
    let mut f = vec![0u8; 12];
    f.extend_from_slice(&[0x22, 0xF0, 0x00, 0x81, 0, 0, 1, 2, 3, 4, 5, 6, 7, 8]);
    process_packet(&mut state, &f, &[ProtocolChoice::NDI], NOW);
    assert!(state.avb.avtp_streams.is_empty());
    assert_eq!((state.packets_dispatched, state.network_health.total_packets), (1, 1));
    assert_eq!(state.bytes_this_window, f.len() as u64);
    process_packet(&mut state, &f, &[ProtocolChoice::AVB], NOW);
    assert_eq!(state.avb.avtp_streams.len(), 1);
}

#[test]
fn the_end_of_a_window_keeps_what_the_report_shows() {
    let mut state = CaptureState::new();
    let mut s = StreamStats::new("Dante", hertz(48_000), NOW);
    s.packets = 100;
    s.packets_this_window = 98;
    s.lost_this_window = 2;
    s.last_packet_time = Some(NOW);
    state.streams.insert("Dante a".into(), s);
    state.bytes_this_window = 5;
    let checks = state.end_of_window(&[ProtocolChoice::Dante], false, NOW);
    assert_eq!(state.bytes_this_window, 5);
    assert_eq!(state.streams.get(&"Dante a".to_string()).unwrap().lost_this_window, 2);
    assert_eq!(state.network_health.network_score, 98_000_000);
    assert_eq!(checks.missing_ptp.len(), 1);
    assert_eq!(checks.missing_ptp[0].kind, MissingClockKind::Ptp);
    assert_eq!(state.stream_count_history, vec![1]);
}

#[test]
fn history_holds_three_windows() {
    let mut state = CaptureState::new();
    for _ in 0..5 {
        state.check_stream_count_anomaly();
    }
    assert_eq!(state.stream_count_history, vec![0, 0, 0]);
}

#[test]
fn announcements_that_nothing_uses_leave_first() {
    let mut state = CaptureState::new();
    let sdp = |id: &str, port: u16| SdpSession {
        session_id: id.to_string(),
        session_name: id.to_string(),
        info: String::new(),
        media: vec![SdpMedia {
            media_type: "audio".to_string(),
            port,
            payload_types: vec![96],
            connection: String::new(),
            rtpmap: String::new(),
            clock_uhz: hertz(48_000),
            channels: 2,
            ptime_ns: 0,
            ts_refclk: String::new(),
            mediaclk: String::new(),
        }],
    };
    let mut used = StreamStats::new("AES67", hertz(48_000), NOW);
    used.dst_port = 6000;
    used.packets = 1;
    state.streams.insert("s".into(), used);
    state.handle_sap(sdp("used", 6000));
    let max = avstreamlens::capture::handlers::MAX_SDP_SESSIONS;
    for i in 0..max {
        state.handle_sap(sdp(&format!("other {i}"), 7000));
    }
    assert_eq!(state.sdp_cache.len(), max);
    assert!(state.sdp_cache.contains_key(&"used".to_string()));
}

#[test]
fn lost_clocks_and_lost_packets_are_told_as_one() {
    let mut state = CaptureState::new();
    let mut d = PtpStats::new(0, PTP_VERSION_V1, NOW);
    d.protocol_clock_lost = true;
    state.ptp.domains.insert((0, PTP_VERSION_V1), d);
    assert!(state.check_clock_dropout_correlation().is_none());
    let mut s = StreamStats::new("Dante", hertz(48_000), NOW);
    s.lost_this_window = 1;
    state.streams.insert("s".into(), s);
    let checks = state.end_of_window(&[], true, NOW);
    assert!(checks.clock_dropout_alert.is_some());
    assert!(state.clock_dropout_correlated);
}

#[test]
fn nothing_is_kept_twice() {
    let mut set: KeySet<u16> = KeySet::new();
    assert!(set.insert(7));
    assert!(!set.insert(7));
    assert_eq!(set.len(), 1);
    let mut t: Table<u16, String> = Table::new();
    assert!(t.insert(1, "a".to_string()));
    assert!(!t.insert(1, "b".to_string()));
    assert_eq!(t.len(), 1);
    assert_eq!(t.get(&1).map(|s| s.as_str()), Some("b"));
    assert!(t.remove(&1));
    assert!(!t.remove(&1));
    assert!(t.is_empty());
}
