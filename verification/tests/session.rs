//! A session: its clock, its packets, its joins and its cross-checks.

use avstreamlens::capture::checks::ts_refclk_alerts;
use avstreamlens::capture::dispatch::process_packet;
use avstreamlens::capture::CaptureState;
use avstreamlens::net::Ipv4Addr;
use avstreamlens::protocols::{hertz, ProtocolChoice, SdpMedia, SdpSession, PTP_VERSION_V2};
use avstreamlens::session::{drain_pending_joins, record_join, OfflineReportClock};
use avstreamlens::stats::{PtpStats, StreamStats};

const NOW: u64 = 1_000_000_000_000;

#[test]
fn offline_clock_does_not_report_on_first_packet() {
    let mut clock = OfflineReportClock::default();
    assert!(!clock.should_report(1_000));
}

#[test]
fn offline_clock_reports_after_five_seconds_of_pcap_time() {
    let mut clock = OfflineReportClock::default();
    assert!(!clock.should_report(1_000));
    assert!(!clock.should_report(1_003));
    assert!(clock.should_report(1_005));
}

#[test]
fn offline_clock_rebases_after_reporting() {
    let mut clock = OfflineReportClock::default();
    clock.should_report(1_000);
    assert!(clock.should_report(1_005), "first 5s window");
    assert!(!clock.should_report(1_007), "only 2s since the last report");
    assert!(clock.should_report(1_010), "another full 5s window");
}

fn eth_aes67_frame() -> Vec<u8> {
    let mut f = vec![0u8; 12];
    f.extend_from_slice(&[0x08, 0x00]);
    let mut ip = vec![0u8; 20 + 8 + 12];
    ip[0] = 0x45;
    let total: u16 = (20 + 8 + 12) as u16;
    ip[2..4].copy_from_slice(&total.to_be_bytes());
    ip[8] = 64;
    ip[9] = 0x11;
    ip[12..16].copy_from_slice(&[192, 168, 1, 10]);
    ip[16..20].copy_from_slice(&[239, 69, 0, 1]);
    ip[20..22].copy_from_slice(&6004u16.to_be_bytes());
    ip[22..24].copy_from_slice(&6004u16.to_be_bytes());
    ip[24..26].copy_from_slice(&20u16.to_be_bytes());
    ip[28] = 0x80;
    ip[29] = 96;
    f.extend_from_slice(&ip);
    f
}

fn has_protocol(state: &CaptureState, protocol: &str) -> bool {
    (0..state.streams.len()).any(|i| state.streams.value_at(i).protocol == protocol)
}

#[test]
fn process_packet_dispatches_and_creates_a_stream() {
    let mut state = CaptureState::new();
    let frame = eth_aes67_frame();
    let expanded = vec![ProtocolChoice::AES67];

    process_packet(&mut state, &frame, &expanded, NOW);

    assert_eq!(state.packets_dispatched, 1);
    assert!(has_protocol(&state, "AES67"), "an AES67 RTP frame must create a stream");
}

#[test]
fn process_packet_counts_multicast_bandwidth() {
    let mut state = CaptureState::new();
    let frame = eth_aes67_frame();
    let expanded = vec![ProtocolChoice::AES67];

    process_packet(&mut state, &frame, &expanded, NOW);

    assert_eq!(state.network_health.total_packets, 1);
    assert_eq!(state.network_health.multicast_packets, 1);
    assert_eq!(state.network_health.unicast_packets, 0);
    assert!(state.bytes_this_window > 0);
    assert!(state.multicast_bytes_this_window > 0);
}

#[test]
fn process_packet_does_not_dispatch_unselected_protocol() {
    let mut state = CaptureState::new();
    let frame = eth_aes67_frame();
    let expanded = vec![ProtocolChoice::Dante];

    process_packet(&mut state, &frame, &expanded, NOW);

    assert!(state.streams.is_empty());
    assert_eq!(state.packets_dispatched, 1, "dispatched counter still increments");
}

#[test]
fn drain_pending_joins_offline_clears_queue_without_joining() {
    let mut state = CaptureState::new();
    state.pending_join_groups.push(Ipv4Addr::new(239, 255, 0, 1));
    let expanded = vec![ProtocolChoice::Dante];

    assert_eq!(drain_pending_joins(&mut state, false, &expanded), None);

    assert!(state.pending_join_groups.is_empty());
    assert!(state.joined_multicast.is_empty());
}

#[test]
fn drain_pending_joins_live_joins_group_matching_selected_protocol() {
    let mut state = CaptureState::new();
    let group = Ipv4Addr::new(239, 255, 0, 1);
    state.pending_join_groups.push(group);
    let expanded = vec![ProtocolChoice::Dante];

    let mut joined = Vec::new();
    while let Some(g) = drain_pending_joins(&mut state, true, &expanded) {
        record_join(&mut state, g);
        joined.push(g);
    }

    assert!(state.pending_join_groups.is_empty());
    assert!(joined.contains(&group), "group matching the selection must be joined");
    assert!(state.joined_multicast.contains(&group));
    assert_eq!(joined.len(), 1);
}

#[test]
fn drain_pending_joins_skips_group_not_matching_selected_protocol() {
    let mut state = CaptureState::new();
    let group = Ipv4Addr::new(239, 69, 0, 1);
    state.pending_join_groups.push(group);
    let expanded = vec![ProtocolChoice::Dante];

    let joined = drain_pending_joins(&mut state, true, &expanded);

    assert!(joined.is_none(), "AES67 group must not be joined when only Dante is selected");
    assert!(state.joined_multicast.is_empty());
}

fn sdp_with_ts_refclk(port: u16, ts_refclk: &str) -> SdpSession {
    SdpSession {
        session_id: "1".to_string(),
        session_name: "Test Mix".to_string(),
        info: String::new(),
        media: vec![SdpMedia {
            media_type: "audio".to_string(),
            port,
            payload_types: vec![96],
            connection: String::new(),
            rtpmap: "L24/48000/2".to_string(),
            clock_uhz: hertz(48_000),
            channels: 2,
            ptime_ns: 1_000_000,
            ts_refclk: ts_refclk.to_string(),
            mediaclk: String::new(),
        }],
    }
}

fn active_aes67_stream(port: u16) -> StreamStats {
    let mut s =
        StreamStats::new_with_info("AES67", hertz(48_000), true, Ipv4Addr::new(239, 69, 0, 1), port, NOW);
    s.packets = 10;
    s
}

#[test]
fn ts_refclk_alerts_warns_when_claimed_domain_has_no_ptp_traffic() {
    let mut state = CaptureState::new();
    state.streams.insert("s1".into(), active_aes67_stream(5004));
    state.sdp_cache.insert(
        "1".into(),
        sdp_with_ts_refclk(5004, "ptp=IEEE1588-2008:00-1a-e5-ff-fe-12-34-56:0"),
    );

    let alerts = ts_refclk_alerts(&state);

    assert_eq!(alerts.len(), 1);
    assert!(alerts[0].message.contains("no PTP traffic detected"), "got {}", alerts[0].message);
}

#[test]
fn ts_refclk_alerts_silent_when_active_grandmaster_matches_claim() {
    let mut state = CaptureState::new();
    state.streams.insert("s1".into(), active_aes67_stream(5004));
    state.sdp_cache.insert(
        "1".into(),
        sdp_with_ts_refclk(5004, "ptp=IEEE1588-2008:00-1a-e5-ff-fe-12-34-56:0"),
    );

    let mut ptp = PtpStats::new(0, PTP_VERSION_V2, NOW);
    ptp.clock_valid = true;
    ptp.last_grandmaster = Some("00:1a:e5:ff:fe:12:34:56".to_string());
    state.ptp.domains.insert((0, PTP_VERSION_V2), ptp);

    let alerts = ts_refclk_alerts(&state);

    assert!(
        alerts.is_empty(),
        "matching grandmaster must not alert, got {:?}",
        alerts.iter().map(|a| &a.message).collect::<Vec<_>>()
    );
}

#[test]
fn ts_refclk_alerts_warns_on_grandmaster_mismatch() {
    let mut state = CaptureState::new();
    state.streams.insert("s1".into(), active_aes67_stream(5004));
    state.sdp_cache.insert(
        "1".into(),
        sdp_with_ts_refclk(5004, "ptp=IEEE1588-2008:00-1a-e5-ff-fe-12-34-56:0"),
    );

    let mut ptp = PtpStats::new(0, PTP_VERSION_V2, NOW);
    ptp.clock_valid = true;
    ptp.last_grandmaster = Some("aa:bb:cc:dd:ee:ff:00:11".to_string());
    state.ptp.domains.insert((0, PTP_VERSION_V2), ptp);

    let alerts = ts_refclk_alerts(&state);

    assert_eq!(alerts.len(), 1);
    assert!(alerts[0].message.contains("grandmaster mismatch"), "got {}", alerts[0].message);
}

#[test]
fn ts_refclk_alerts_silent_when_session_not_active() {
    let mut state = CaptureState::new();
    state.sdp_cache.insert(
        "1".into(),
        sdp_with_ts_refclk(5004, "ptp=IEEE1588-2008:00-1a-e5-ff-fe-12-34-56:0"),
    );

    let alerts = ts_refclk_alerts(&state);

    assert!(alerts.is_empty());
}
