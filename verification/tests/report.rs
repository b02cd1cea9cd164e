//! What a report shows.

use avstreamlens::capture::{Alert, CaptureState, MissingClock, MissingClockKind};
use avstreamlens::net::Ipv4Addr;
use avstreamlens::protocols::{
    hertz, TransmitterClass, TransmitterConfidence, TransmitterVerdict, PTP_VERSION_V1,
};
use avstreamlens::report::{
    dante_tx_flow_count, print_report, quiet_suppressible, render_clock_sources,
    render_network_status, render_streams, status_detail, status_entry, transmitter_tag,
    tx_flow_suffix, AvbSnapshot, Console, DanteSnapshot, NetworkStatusInputs, Output,
    PeriodicAlerts, ReportSession, ReportSnapshot, DETAIL_INDENT, ENTRY_INDENT,
};
use avstreamlens::stats::{AvtpStreamStats, NetworkHealth, PtpStats, StreamStats};
use avstreamlens::table::{KeySet, Table};

const NOW: u64 = 1_000_000_000_000;

fn dante_stream(src: Ipv4Addr, multicast: bool, atp: bool) -> StreamStats {
    let mut s = StreamStats::new("Dante", hertz(48_000), NOW);
    s.src_ip = Some(src);
    s.is_multicast = multicast;
    s.rtp_seen = !atp;
    s
}

#[test]
fn tx_flow_count_zero_when_no_streams() {
    let streams = Table::new();
    let ip = Ipv4Addr::new(192, 168, 1, 45);
    assert_eq!(dante_tx_flow_count(&streams, ip), 0);
    assert_eq!(tx_flow_suffix(&streams, ip), "");
}

#[test]
fn tx_flow_count_single_unicast() {
    let ip = Ipv4Addr::new(192, 168, 1, 45);
    let mut streams = Table::new();
    streams.insert("Dante a".into(), dante_stream(ip, false, false));
    assert_eq!(dante_tx_flow_count(&streams, ip), 1);
    assert_eq!(tx_flow_suffix(&streams, ip), "  (1 tx flows)");
}

#[test]
fn tx_flow_count_combines_unicast_and_multicast() {
    let ip = Ipv4Addr::new(192, 168, 1, 45);
    let mut streams = Table::new();
    streams.insert("Dante a".into(), dante_stream(ip, false, false));
    streams.insert("Dante b".into(), dante_stream(ip, true, false));
    streams.insert("Dante c".into(), dante_stream(ip, true, true));
    assert_eq!(dante_tx_flow_count(&streams, ip), 3);
}

#[test]
fn tx_flow_count_includes_atp_framed() {
    let ip = Ipv4Addr::new(192, 168, 1, 45);
    let mut streams = Table::new();
    streams.insert("Dante atp".into(), dante_stream(ip, true, true));
    assert_eq!(dante_tx_flow_count(&streams, ip), 1, "ATP flow (rtp_seen=false) must count");
}

#[test]
fn tx_flow_count_ignores_other_source_ips() {
    let ip = Ipv4Addr::new(192, 168, 1, 45);
    let other = Ipv4Addr::new(192, 168, 1, 99);
    let mut streams = Table::new();
    streams.insert("Dante a".into(), dante_stream(ip, false, false));
    streams.insert("Dante b".into(), dante_stream(other, false, false));
    assert_eq!(dante_tx_flow_count(&streams, ip), 1);
}

#[test]
fn tx_flow_count_ignores_non_dante_protocols() {
    let ip = Ipv4Addr::new(192, 168, 1, 45);
    let mut streams = Table::new();
    let mut aes = StreamStats::new("AES67", hertz(48_000), NOW);
    aes.src_ip = Some(ip);
    streams.insert("AES67 x".into(), aes);
    assert_eq!(dante_tx_flow_count(&streams, ip), 0, "only Dante flows count toward Dante budget");
}

#[test]
fn tag_empty_without_verdict() {
    assert_eq!(transmitter_tag(None), "");
}

#[test]
fn tag_confirmed_reads_confirmed() {
    let v = TransmitterVerdict { class: TransmitterClass::Dvs, confidence: TransmitterConfidence::Confirmed, signals: 3 };
    assert_eq!(transmitter_tag(Some(v)), "  ·  DVS (confirmed)");
}

#[test]
fn tag_inferred_multi_signal_shows_count() {
    let v = TransmitterVerdict { class: TransmitterClass::Dvs, confidence: TransmitterConfidence::Inferred, signals: 2 };
    assert_eq!(transmitter_tag(Some(v)), "  ·  DVS (likely, 2 signals)");
}

#[test]
fn tag_hint_reads_low_confidence() {
    let v = TransmitterVerdict { class: TransmitterClass::Dvs, confidence: TransmitterConfidence::Hint, signals: 1 };
    assert_eq!(transmitter_tag(Some(v)), "  ·  DVS (possible — no QoS marking)");
}

#[test]
fn tag_inferred_hardware_single_signal() {
    let v = TransmitterVerdict { class: TransmitterClass::Hardware, confidence: TransmitterConfidence::Inferred, signals: 1 };
    assert_eq!(transmitter_tag(Some(v)), "  ·  Hardware (likely)");
}

#[test]
fn quiet_suppressible_false_when_required_clock_missing() {
    let missing = [MissingClock { kind: MissingClockKind::Ptp, affected: vec!["Dante".to_string()] }];
    assert!(!quiet_suppressible(&[], None, &missing, &[]));
}

#[test]
fn quiet_suppressible_false_when_section_alert_present() {
    let alerts = vec![Alert::error("Dante redundancy bridged".to_string())];
    let slices: [&Vec<Alert>; 1] = [&alerts];
    assert!(!quiet_suppressible(&[], None, &[], &slices));
}

#[test]
fn quiet_suppressible_true_when_fully_healthy() {
    assert!(quiet_suppressible(&[], None, &[], &[]));
    assert!(quiet_suppressible(&[], Some((100, 0, 0)), &[], &[]), "zero drops is healthy");
}

#[test]
fn quiet_suppressible_false_on_pcap_drops_or_summary() {
    assert!(!quiet_suppressible(&[], Some((100, 5, 0)), &[], &[]), "kernel drops force output");
    assert!(!quiet_suppressible(&["⚠ loss".to_string()], None, &[], &[]), "summary forces output");
}

#[test]
fn quiet_healthy_cycle_still_writes_full_report_to_log() {
    let streams = Table::new();
    let tcp = Table::new();
    let ptp = Table::new();
    let avtp = Table::new();
    let msrp = Table::new();
    let mvrp = KeySet::new();
    let eee = Table::new();
    let dsrc = KeySet::new();
    let dnames = Table::new();
    let dconmon = Table::new();
    let dunver = KeySet::new();
    let nsrc = KeySet::new();
    let nnames = Table::new();
    let avdecc = Table::new();
    let health = NetworkHealth::new();
    let missing = Vec::new();
    let none = Vec::new();
    let snap = ReportSnapshot {
        streams: &streams,
        tcp_streams: &tcp,
        ptp_domains: &ptp,
        missing_ptp: &missing,
        health: &health,
        bytes_this_window: 0,
        eee_ports: &eee,
        dante: DanteSnapshot {
            sources: &dsrc,
            names: &dnames,
            conmon: &dconmon,
            unverified: &dunver,
        },
        avb: AvbSnapshot {
            avtp_streams: &avtp,
            msrp_state: &msrp,
            mvrp_vlans: &mvrp,
            avdecc_entities: &avdecc,
        },
        ndi_sources: &nsrc,
        ndi_names: &nnames,
        pause_frames: 0,
        pfc_frames: 0,
        pcap_stats: None,
        packets_dispatched: 0,
        periodic_alerts: PeriodicAlerts {
            ip_config: &none,
            conmon_bridge: &none,
            follower_census: &none,
            ptp_sync: &none,
        },
        clock_dropout_correlated: false,
    };
    let mut session = ReportSession { quiet: true, no_flows_diagnostic_shown: false };
    let mut console = Console::new(true);
    let out = print_report(&snap, &mut session, &mut console, "2026-01-02 03:04:05", NOW);

    let mut contents = String::new();
    for o in &out {
        match o {
            Output::Log(s) => {
                contents.push_str(s);
                contents.push('\n');
            }
            Output::Print(s) => panic!("a quiet healthy report must not be shown: {s}"),
        }
    }
    assert!(contents.contains("Network Health"),
        "log must contain the full report even when quiet suppresses stdout");
    assert!(contents.contains("Network Status:"), "log must include all sections");
}

#[test]
fn ptpv1_domain_does_not_render_hops_latency_advisory() {
    let mut domains = Table::new();
    let mut ptp = PtpStats::new(0, PTP_VERSION_V1, NOW);
    ptp.min_path_delay_ns = Some(20_000);
    ptp.max_path_delay_ns = Some(20_000);
    domains.insert((0, PTP_VERSION_V1), ptp);

    let lines = render_clock_sources(&domains, &Vec::new(), &Table::new(), false).unwrap();
    assert!(!lines.iter().any(|l| l.text.contains("Dante latency should be")),
        "PTPv1 must not render the hops latency advisory");
}

#[test]
fn entry_indent_is_two_spaces() {
    assert_eq!(ENTRY_INDENT, "  ");
}

#[test]
fn detail_indent_is_four_spaces() {
    assert_eq!(DETAIL_INDENT, "    ");
}

#[test]
fn network_status_entry_matches_other_sections_indent() {
    assert_eq!(status_entry("Bandwidth: 1.0 Mbps"), format!("{}Bandwidth: 1.0 Mbps", ENTRY_INDENT));
}

#[test]
fn network_status_detail_matches_other_sections_indent() {
    assert_eq!(status_detail("port detail"), format!("{}port detail", DETAIL_INDENT));
}

#[test]
fn avb_stream_renders_pcp_mismatch_line() {
    let sid = [1u8, 2, 3, 4, 5, 6, 7, 8];
    let mut avtp = AvtpStreamStats::new(sid, 0x00, NOW);
    avtp.pcp_violations = 1;
    avtp.observed_pcp = Some(2);
    avtp.msrp_declared_pcp = Some(3);
    let mut avtp_streams = Table::new();
    avtp_streams.insert(sid, avtp);

    let lines = render_streams(
        &Table::new(), &Table::new(), &KeySet::new(), &Table::new(),
        &avtp_streams, &Table::new(), &KeySet::new(), false, NOW,
    );

    assert!(
        lines.iter().any(|l| l.text.contains("PCP") && l.text.contains("2") && l.text.contains("3")),
        "expected a PCP mismatch line mentioning observed(2) vs. expected(3), got: {:#?}",
        lines.iter().map(|l| &l.text).collect::<Vec<_>>()
    );
}

#[test]
fn avb_stream_no_pcp_line_when_no_violation() {
    let sid = [1u8, 2, 3, 4, 5, 6, 7, 8];
    let avtp = AvtpStreamStats::new(sid, 0x00, NOW);
    let mut avtp_streams = Table::new();
    avtp_streams.insert(sid, avtp);

    let lines = render_streams(
        &Table::new(), &Table::new(), &KeySet::new(), &Table::new(),
        &avtp_streams, &Table::new(), &KeySet::new(), false, NOW,
    );

    assert!(!lines.iter().any(|l| l.text.contains("PCP")));
}

fn network_status_inputs<'a>(
    streams: &'a Table<String, StreamStats>,
    health: &'a NetworkHealth,
    eee_ports: &'a Table<(String, String), (u16, u16)>,
) -> NetworkStatusInputs<'a> {
    NetworkStatusInputs {
        bytes_this_window: 0,
        streams,
        health,
        pause_frames: 0,
        pfc_frames: 0,
        eee_ports,
        pcap_stats: None,
        packets_dispatched: 0,
    }
}

#[test]
fn qos_status_reads_no_ip_streams_when_all_ndi_or_avb() {
    let mut streams = Table::new();
    streams.insert("NDI a".into(), StreamStats::new("NDI", hertz(0), NOW));
    streams.insert("AVB a".into(), StreamStats::new("AVB", hertz(0), NOW));
    let health = NetworkHealth::new();

    let lines = render_network_status(&network_status_inputs(&streams, &health, &Table::new()), NOW);

    assert!(lines.iter().any(|l| l.text.contains("QoS: – (no IP streams)")),
        "got {:?}", lines.iter().map(|l| &l.text).collect::<Vec<_>>());
}

#[test]
fn qos_status_reads_all_correct_when_no_dscp_violations() {
    let mut streams = Table::new();
    streams.insert("AES67 a".into(), StreamStats::new("AES67", hertz(48_000), NOW));
    let health = NetworkHealth::new();

    let lines = render_network_status(&network_status_inputs(&streams, &health, &Table::new()), NOW);

    assert!(lines.iter().any(|l| l.text.contains("QoS: ✓ all streams correctly marked")),
        "got {:?}", lines.iter().map(|l| &l.text).collect::<Vec<_>>());
}

#[test]
fn qos_status_reports_violation_count() {
    let mut streams = Table::new();
    let mut bad = StreamStats::new("AES67", hertz(48_000), NOW);
    bad.dscp_violations = 3;
    streams.insert("AES67 a".into(), bad);
    let health = NetworkHealth::new();

    let lines = render_network_status(&network_status_inputs(&streams, &health, &Table::new()), NOW);

    assert!(lines.iter().any(|l| l.text.contains("QoS: ⚠ 1 stream(s) with incorrect DSCP")),
        "got {:?}", lines.iter().map(|l| &l.text).collect::<Vec<_>>());
}

#[test]
fn igmp_status_reads_no_querier_seen() {
    let streams: Table<String, StreamStats> = Table::new();
    let health = NetworkHealth::new();

    let lines = render_network_status(&network_status_inputs(&streams, &health, &Table::new()), NOW);

    assert!(lines.iter().any(|l| l.text.contains("IGMP: – (no querier seen)")),
        "got {:?}", lines.iter().map(|l| &l.text).collect::<Vec<_>>());
}

#[test]
fn igmp_status_reads_querier_silent_past_threshold() {
    let streams: Table<String, StreamStats> = Table::new();
    let mut health = NetworkHealth::new();
    health.last_igmp_query = Some(NOW - 300_000_000_000);

    let lines = render_network_status(&network_status_inputs(&streams, &health, &Table::new()), NOW);

    assert!(lines.iter().any(|l| l.text.contains("IGMP: ⚠ querier silent")),
        "got {:?}", lines.iter().map(|l| &l.text).collect::<Vec<_>>());
}

#[test]
fn igmp_status_reads_active_querier_with_interval_ip_and_mac() {
    let streams: Table<String, StreamStats> = Table::new();
    let mut health = NetworkHealth::new();
    health.last_igmp_query = Some(NOW);
    health.igmp_query_interval_secs = Some(125);
    health.igmp_querier_ip = Some(Ipv4Addr::new(192, 168, 1, 1));
    health.igmp_querier_mac = Some([0x00, 0x1a, 0x2b, 0x3c, 0x4d, 0x5e]);

    let lines = render_network_status(&network_status_inputs(&streams, &health, &Table::new()), NOW);

    let line = lines.iter().find(|l| l.text.contains("IGMP: ✓")).expect("querier line");
    assert!(line.text.contains("192.168.1.1"), "got {}", line.text);
    assert!(line.text.contains("00:1a:2b:3c:4d:5e"), "got {}", line.text);
    assert!(line.text.contains("interval 125s"), "got {}", line.text);
}

#[test]
fn from_state_assembles_snapshot_from_capture_state_and_window_checks() {

    let mut state = CaptureState::new();
    state.streams.insert("s1".into(), StreamStats::new("AES67", hertz(48_000), NOW));
    state.dante.sources.insert(Ipv4Addr::new(169, 254, 1, 1));

    let checks = state.end_of_window(&[], false, NOW);
    let snap = ReportSnapshot::from_state(&state, &checks, Some((100, 2, 0)));

    assert_eq!(snap.streams.len(), 1, "streams must come from state.streams");
    assert_eq!(snap.dante.sources.len(), 1, "dante.sources must come from state.dante.sources");
    assert_eq!(snap.pcap_stats, Some((100, 2, 0)), "pcap_stats is the caller-supplied value");
    assert_eq!(snap.missing_ptp.len(), checks.missing_ptp.len(),
        "missing_ptp must come from the WindowChecks bundle, not be recomputed");
}
