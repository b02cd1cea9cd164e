//! What packets do to the state, and what is found at the end of a window.

use avstreamlens::capture::ndi::MAX_SOURCES;
use avstreamlens::capture::handlers::MAX_SDP_SESSIONS;
use avstreamlens::capture::{
    stream_clock_kind, AlertLevel, AvbState, CaptureState, DanteState, IgmpState,
    MissingClockKind, NdiState, PtpState,
};
use avstreamlens::net::Ipv4Addr;
use avstreamlens::protocols::{
    hertz, igmp_all_systems, DanteKind, FlowControlKind, IgmpType, MsrpDeclType, MsrpDeclaration,
    ProtocolChoice, PtpInfo, SdpMedia, SdpSession, St2110Type, TcpSegment, TransmitterClass,
    TransmitterConfidence, DEFAULT_CLOCK_HZ, PTP_VERSION_V1, PTP_VERSION_V2,
};
use avstreamlens::stats::{
    AvtpStreamStats, ConmonDevice, PtpStats, StreamStats, TcpStreamStats,
};

const NOW: u64 = 1_000_000_000_000;

fn stream<'a>(state: &'a CaptureState, key: &str) -> &'a StreamStats {
    state.streams.get(&key.to_string()).expect("stream")
}

fn find<'a>(state: &'a CaptureState, is: impl Fn(&StreamStats) -> bool) -> Option<&'a StreamStats> {
    (0..state.streams.len()).map(|i| state.streams.value_at(i)).find(|s| is(s))
}

fn avtp<'a>(state: &'a CaptureState, id: &[u8; 8]) -> &'a AvtpStreamStats {
    state.avb.avtp_streams.get(id).expect("AVTP stream")
}

fn add_active_multicast_stream(state: &mut CaptureState) {
    let mut s = StreamStats::new_with_info(
        "AES67", hertz(48_000), true, Ipv4Addr::new(239, 69, 0, 1), 5004, NOW);
    s.packets = 1;
    state.streams.insert("AES67 test-mc".to_string(), s);
}

fn ip_udp_rtp(dscp_ecn_byte: u8, dst_port: u16, pt: u8, seq: u16, ts: u32, ssrc: u32) -> Vec<u8> {
    let mut buf = vec![0u8; 20 + 8 + 12];
    buf[0] = 0x45;
    buf[1] = dscp_ecn_byte;
    let total_len: u16 = (20 + 8 + 12) as u16;
    buf[2..4].copy_from_slice(&total_len.to_be_bytes());
    buf[8] = 64;
    buf[9] = 0x11;
    buf[12..16].copy_from_slice(&[192, 168, 1, 10]);
    buf[16..20].copy_from_slice(&[239, 69, 0, 1]);
    buf[20..22].copy_from_slice(&5004u16.to_be_bytes());
    buf[22..24].copy_from_slice(&dst_port.to_be_bytes());
    buf[24..26].copy_from_slice(&20u16.to_be_bytes());
    buf[28] = 0x80;
    buf[29] = pt & 0x7F;
    buf[30..32].copy_from_slice(&seq.to_be_bytes());
    buf[32..36].copy_from_slice(&ts.to_be_bytes());
    buf[36..40].copy_from_slice(&ssrc.to_be_bytes());
    buf
}

fn sdp_for_port(port: u16, pt: u8, clock_uhz: i64) -> SdpSession {
    SdpSession {
        session_id: "1".to_string(),
        session_name: "Test Mix".to_string(),
        info: String::new(),
        media: vec![SdpMedia {
            media_type: "audio".to_string(),
            port,
            payload_types: vec![pt],
            connection: String::new(),
            rtpmap: "L24/48000/2".to_string(),
            clock_uhz,
            channels: 2,
            ptime_ns: 1_000_000,
            ts_refclk: String::new(),
            mediaclk: String::new(),
        }],
    }
}

#[test]
fn aes67_new_stream_inherits_sdp_when_present() {
    let mut state = CaptureState::new();
    state.sdp_cache.insert("1".to_string(), sdp_for_port(5004, 96, hertz(48_000)));
    let pkt = ip_udp_rtp(46 << 2, 5004, 96, 0, 0, 0xAAAA);
    state.handle_aes67(Ipv4Addr::new(239, 69, 0, 1), 5004, 96, &pkt, None, NOW);
    let s = state.streams.get(&"AES67 239.69.0.1:5004".to_string()).expect("stream created");
    assert_eq!(s.expected_pt, Some(96));
    assert!(s.clock_hz_confirmed, "SAP-confirmed clock should flip the flag");
    assert_eq!(s.sdp_rtpmap.as_deref(), Some("L24/48000/2"));
    assert_eq!(s.ptime_ns, 1_000_000);
    assert_eq!(s.channels, 2);
    assert_eq!(s.sdp_name.as_deref(), Some("Test Mix"));
}

#[test]
fn sap_enriches_each_stream_by_its_connection_group_not_just_the_first() {
    let mut state = CaptureState::new();
    let group_a = Ipv4Addr::new(239, 69, 0, 1);
    let group_b = Ipv4Addr::new(239, 69, 0, 2);
    state.streams.insert("AES67 a".into(),
        StreamStats::new_with_info("AES67", hertz(48_000), true, group_a, 5004, NOW));
    state.streams.insert("AES67 b".into(),
        StreamStats::new_with_info("AES67", hertz(48_000), true, group_b, 5004, NOW));

    let mut sa = sdp_for_port(5004, 96, hertz(48_000));
    sa.session_id = "A".into();
    sa.session_name = "Group A Mix".into();
    sa.media[0].connection = "IN IP4 239.69.0.1".into();
    state.handle_sap(sa);

    let mut sb = sdp_for_port(5004, 96, hertz(48_000));
    sb.session_id = "B".into();
    sb.session_name = "Group B Mix".into();
    sb.media[0].connection = "IN IP4 239.69.0.2".into();
    state.handle_sap(sb);

    assert_eq!(stream(&state, "AES67 a").sdp_name.as_deref(), Some("Group A Mix"));
    assert_eq!(stream(&state, "AES67 b").sdp_name.as_deref(), Some("Group B Mix"));
}

#[test]
fn queue_multicast_join_queues_new_239_group() {
    let mut state = CaptureState::new();
    let group = Ipv4Addr::new(239, 1, 2, 3);
    state.queue_multicast_join(group);
    assert_eq!(state.pending_join_groups, vec![group]);
}

#[test]
fn queue_multicast_join_skips_already_joined_group() {
    let mut state = CaptureState::new();
    let group = Ipv4Addr::new(239, 1, 2, 3);
    state.joined_multicast.insert(group);
    state.queue_multicast_join(group);
    assert!(state.pending_join_groups.is_empty());
}

#[test]
fn queue_multicast_join_skips_non_239_group() {
    let mut state = CaptureState::new();
    state.queue_multicast_join(Ipv4Addr::new(224, 0, 0, 1));
    assert!(state.pending_join_groups.is_empty());
}

#[test]
fn handle_sap_queues_multicast_connection_ip_via_queue_multicast_join() {
    let mut state = CaptureState::new();
    let mut sdp = sdp_for_port(5004, 96, hertz(48_000));
    sdp.media[0].connection = "IN IP4 239.69.0.1".into();
    state.handle_sap(sdp);
    assert_eq!(state.pending_join_groups, vec![Ipv4Addr::new(239, 69, 0, 1)]);
}

#[test]
fn sap_reenrichment_updates_technical_fields_when_name_already_set() {
    let mut state = CaptureState::new();

    let pkt = ip_udp_rtp(46 << 2, 5004, 96, 0, 0, 0xAAAA);
    state.handle_aes67(Ipv4Addr::new(239, 69, 0, 1), 5004, 96, &pkt, None, NOW);
    assert_eq!(stream(&state, "AES67 239.69.0.1:5004").sdp_name, None);

    state.handle_sap(sdp_for_port(5004, 96, hertz(48_000)));
    {
        let s = stream(&state, "AES67 239.69.0.1:5004");
        assert_eq!(s.sdp_name.as_deref(), Some("Test Mix"));
        assert_eq!(s.expected_pt, Some(96));
        assert_eq!(s.clock_uhz, hertz(48_000));
    }

    let updated_sdp = SdpSession {
        session_id: "1".to_string(),
        session_name: "Updated Mix".to_string(),
        info: String::new(),
        media: vec![SdpMedia {
            media_type: "audio".to_string(),
            port: 5004,
            payload_types: vec![97],
            connection: String::new(),
            rtpmap: "L24/96000/2".to_string(),
            clock_uhz: hertz(96_000),
            channels: 2,
            ptime_ns: 1_000_000,
            ts_refclk: String::new(),
            mediaclk: String::new(),
        }],
    };
    state.handle_sap(updated_sdp);
    let s = stream(&state, "AES67 239.69.0.1:5004");
    assert_eq!(s.expected_pt, Some(97),              "payload type must update");
    assert_eq!(s.clock_uhz, hertz(96_000),            "clock rate must update");
    assert_eq!(s.sdp_rtpmap.as_deref(), Some("L24/96000/2"), "rtpmap must update");
    assert_eq!(s.sdp_name.as_deref(), Some("Test Mix"),      "name must not be overwritten");
}

#[test]
fn aes67_dscp_violation_incremented_when_not_ef() {
    let mut state = CaptureState::new();
    let pkt = ip_udp_rtp(0, 5004, 96, 0, 0, 0xAAAA);
    state.handle_aes67(Ipv4Addr::new(239, 69, 0, 1), 5004, 96, &pkt, None, NOW);
    let s = stream(&state, "AES67 239.69.0.1:5004");
    assert_eq!(s.dscp_violations, 1);
}

#[test]
fn aes67_dscp_ef_does_not_violate() {
    let mut state = CaptureState::new();
    let pkt = ip_udp_rtp(46 << 2, 5004, 96, 0, 0, 0xAAAA);
    state.handle_aes67(Ipv4Addr::new(239, 69, 0, 1), 5004, 96, &pkt, None, NOW);
    let s = stream(&state, "AES67 239.69.0.1:5004");
    assert_eq!(s.dscp_violations, 0);
}

#[test]
fn aes67_pt_mismatch_counted_when_expected_pt_set() {
    let mut state = CaptureState::new();
    state.sdp_cache.insert("1".to_string(), sdp_for_port(5004, 10, hertz(48_000)));
    let pkt0 = ip_udp_rtp(46 << 2, 5004, 11, 0, 0, 0xAAAA);
    state.handle_aes67(Ipv4Addr::new(239, 69, 0, 1), 5004, 11, &pkt0, None, NOW);
    let s = stream(&state, "AES67 239.69.0.1:5004");
    assert_eq!(s.pt_mismatches, 1);
    assert_eq!(s.expected_pt, Some(10));
}

#[test]
fn aes67_ecn_ce_increments_network_health() {
    let mut state = CaptureState::new();
    let pkt = ip_udp_rtp((46 << 2) | 0b11, 5004, 96, 0, 0, 0xAAAA);
    state.handle_aes67(Ipv4Addr::new(239, 69, 0, 1), 5004, 96, &pkt, None, NOW);
    assert_eq!(state.network_health.ecn_congestion_marks, 1);
}

#[test]
fn st2110_video_dscp_cs5_accepted() {
    let mut state = CaptureState::new();
    let pkt = ip_udp_rtp(40 << 2, 5004, 96, 0, 0, 0xAAAA);
    state.handle_st2110(Ipv4Addr::new(239, 1, 2, 3), 5004, St2110Type::Video, &pkt, None, NOW);
    let s = find(&state, |s| s.protocol == "2110-20").expect("video stream");
    assert_eq!(s.dscp_violations, 0, "CS5 is valid for ST2110-20 video");
}

#[test]
fn st2110_audio_dscp_cs5_rejected() {
    let mut state = CaptureState::new();
    let pkt = ip_udp_rtp(40 << 2, 5004, 96, 0, 0, 0xAAAA);
    state.handle_st2110(Ipv4Addr::new(239, 1, 2, 3), 5004, St2110Type::Audio, &pkt, None, NOW);
    let s = find(&state, |s| s.protocol == "2110-30").expect("audio stream");
    assert_eq!(s.dscp_violations, 1, "audio requires EF only");
}

#[test]
fn st2110_video_clock_confirmed_without_sdp() {
    let mut state = CaptureState::new();
    let pkt = ip_udp_rtp(46 << 2, 5004, 96, 0, 0, 0xAAAA);
    state.handle_st2110(Ipv4Addr::new(239, 1, 2, 3), 5004, St2110Type::Video, &pkt, None, NOW);
    let s = find(&state, |s| s.protocol == "2110-20").unwrap();
    assert!(s.clock_hz_confirmed, "video uses 90 kHz by spec, no SDP needed");
}

#[test]
fn st2110_audio_new_stream_inherits_sdp_when_present() {
    let mut state = CaptureState::new();
    state.sdp_cache.insert("1".to_string(), sdp_for_port(5004, 96, hertz(48_000)));
    let pkt = ip_udp_rtp(46 << 2, 5004, 96, 0, 0, 0xAAAA);
    state.handle_st2110(Ipv4Addr::new(239, 1, 2, 3), 5004, St2110Type::Audio, &pkt, None, NOW);
    let s = find(&state, |s| s.protocol == "2110-30").unwrap();
    assert_eq!(s.channels, 2);
    assert_eq!(s.ptime_ns, 1_000_000);
    assert_eq!(s.sdp_name.as_deref(), Some("Test Mix"));
    assert!(s.clock_hz_confirmed);
}

#[test]
fn dante_audio_stream_picks_up_name_from_mdns_cache() {
    let mut state = CaptureState::new();
    let src = Ipv4Addr::new(192, 168, 1, 50);
    state.dante.names.insert(src, "Stage Box".to_string());
    let alerts = state.handle_dante(DanteKind::AudioStream, src, Ipv4Addr::new(192,168,1,60), 5004, &[], NOW);
    assert!(alerts.is_empty());
    let s = state.streams.get(&"Dante 192.168.1.50 → 192.168.1.60:5004".to_string()).expect("audio stream entry");
    assert_eq!(s.sdp_name.as_deref(), Some("Stage Box"));
}

#[test]
fn dante_name_backfilled_when_discovery_arrives_after_stream() {
    let mut state = CaptureState::new();
    let src = Ipv4Addr::new(192, 168, 1, 50);
    state.handle_dante(DanteKind::AudioStream, src, Ipv4Addr::new(192,168,1,60), 5004, &[], NOW);
    assert_eq!(stream(&state, "Dante 192.168.1.50 → 192.168.1.60:5004").sdp_name, None);

    state.handle_dante(
        DanteKind::Discovery { device_name: Some("Stage Box".to_string()) },
        src, Ipv4Addr::new(224,0,0,251), 0, &[], NOW,
    );
    assert_eq!(
        stream(&state, "Dante 192.168.1.50 → 192.168.1.60:5004").sdp_name.as_deref(),
        Some("Stage Box"),
        "discovery must backfill the name on already-created streams"
    );
}

#[test]
fn dante_flows_to_different_destinations_tracked_separately() {
    let mut state = CaptureState::new();
    let src = Ipv4Addr::new(169, 254, 81, 11);
    state.handle_dante(DanteKind::AudioStream, src, Ipv4Addr::new(239,255,10,1), 4321, &[], NOW);
    state.handle_dante(DanteKind::AudioStream, src, Ipv4Addr::new(239,255,10,2), 4321, &[], NOW);
    let dante_streams = (0..state.streams.len())
        .filter(|i| state.streams.key_at(*i).starts_with("Dante "))
        .count();
    assert_eq!(dante_streams, 2, "flows to different destinations must not merge");
}

#[test]
fn control_plane_dvs_sets_confirmed_verdict_on_audio_flow() {
    let mut state = CaptureState::new();
    let src = Ipv4Addr::new(192, 168, 1, 80);
    state.handle_dante(
        DanteKind::ControlPlane { class: TransmitterClass::Dvs },
        src, Ipv4Addr::new(192,168,1,81), 38700, &[], NOW,
    );
    assert_eq!(state.dante.transmitter_class.get(&src), Some(&TransmitterClass::Dvs));
    assert!(state.dante.sources.contains(&src));
    state.handle_dante(DanteKind::AudioStream, src, Ipv4Addr::new(239,255,1,1), 4321, &[], NOW);
    let v = find(&state, |s| s.src_ip == Some(src)).unwrap()
        .transmitter.unwrap();
    assert_eq!(v.class, TransmitterClass::Dvs);
    assert_eq!(v.confidence, TransmitterConfidence::Confirmed);
}

#[test]
fn conmon_records_hardware_and_dvs_overrides_it() {
    let mut state = CaptureState::new();
    let src = Ipv4Addr::new(192, 168, 1, 82);
    state.handle_dante(
        DanteKind::ConMon { device_mac: [0,1,2,3,4,5], channels: None },
        src, Ipv4Addr::new(224,0,0,232), 8705, &[], NOW,
    );
    assert_eq!(state.dante.transmitter_class.get(&src), Some(&TransmitterClass::Hardware));
    state.handle_dante(
        DanteKind::ControlPlane { class: TransmitterClass::Dvs },
        src, Ipv4Addr::new(192,168,1,83), 38800, &[], NOW,
    );
    assert_eq!(state.dante.transmitter_class.get(&src), Some(&TransmitterClass::Dvs),
        "DVS must override a prior Hardware verdict");
}

#[test]
fn dvs_flow_at_dscp_zero_is_not_a_violation() {
    let mut state = CaptureState::new();
    let src = Ipv4Addr::new(192, 168, 1, 90);
    state.handle_dante(
        DanteKind::ControlPlane { class: TransmitterClass::Dvs },
        src, Ipv4Addr::new(192,168,1,91), 38700, &[], NOW,
    );
    let pkt = ip_udp_rtp(0, 5004, 96, 0, 0, 1);
    state.handle_dante(DanteKind::AudioStream, src, Ipv4Addr::new(239,255,1,1), 5004, &pkt, NOW);
    let s = find(&state, |s| s.src_ip == Some(src)).unwrap();
    assert_eq!(s.dscp_violations, 0, "DVS at DSCP 0 is expected, not a violation");
}

#[test]
fn hardware_flow_at_dscp_zero_is_a_violation() {
    let mut state = CaptureState::new();
    let src = Ipv4Addr::new(192, 168, 1, 92);
    state.handle_dante(
        DanteKind::ConMon { device_mac: [0,1,2,3,4,5], channels: None },
        src, Ipv4Addr::new(224,0,0,232), 8705, &[], NOW,
    );
    let pkt = ip_udp_rtp(0, 5004, 96, 0, 0, 1);
    state.handle_dante(DanteKind::AudioStream, src, Ipv4Addr::new(239,255,1,2), 5004, &pkt, NOW);
    let s = find(&state, |s| s.src_ip == Some(src)).unwrap();
    assert_eq!(s.dscp_violations, 1, "hardware at DSCP 0 is a genuine misconfiguration");
}

#[test]
fn unclassified_flow_at_dscp_zero_still_violates() {
    let mut state = CaptureState::new();
    let src = Ipv4Addr::new(192, 168, 1, 94);
    let pkt = ip_udp_rtp(0, 5004, 96, 0, 0, 1);
    state.handle_dante(DanteKind::AudioStream, src, Ipv4Addr::new(239,255,1,3), 5004, &pkt, NOW);
    let s = find(&state, |s| s.src_ip == Some(src)).unwrap();
    assert_eq!(s.dscp_violations, 1);
}

#[test]
fn ttl_only_dvs_at_dscp_zero_is_not_a_violation() {
    let mut state = CaptureState::new();
    let src = Ipv4Addr::new(192, 168, 1, 95);
    let mut pkt = ip_udp_rtp(0, 5004, 96, 0, 0, 1);
    pkt[8] = 128;
    state.handle_dante(DanteKind::AudioStream, src, Ipv4Addr::new(239,255,1,4), 5004, &pkt, NOW);
    let s = find(&state, |s| s.src_ip == Some(src)).unwrap();
    assert_eq!(s.transmitter.map(|v| v.class), Some(TransmitterClass::Dvs),
        "TTL 128 alone should infer DVS");
    assert_eq!(s.dscp_violations, 0,
        "gating must agree with the displayed DVS verdict, not silently drop the TTL signal");
}

#[test]
fn dante_discovery_records_name_and_emits_info() {
    let mut state = CaptureState::new();
    let src = Ipv4Addr::new(192, 168, 1, 50);
    let alerts = state.handle_dante(
        DanteKind::Discovery { device_name: Some("Stage Box".to_string()) },
        src, Ipv4Addr::new(224,0,0,251), 0, &[], NOW,
    );
    assert_eq!(alerts.len(), 1);
    assert_eq!(alerts[0].level, AlertLevel::Info);
    assert!(alerts[0].message.contains("Stage Box"));
    assert!(state.dante.sources.contains(&src));
    assert_eq!(state.dante.names.get(&src).map(|s| s.as_str()), Some("Stage Box"));
}

#[test]
fn dante_discovery_unknown_name_populates_sources() {
    let mut state = CaptureState::new();
    let src = Ipv4Addr::new(169, 254, 133, 58);
    let alerts = state.handle_dante(
        DanteKind::Discovery { device_name: None },
        src, Ipv4Addr::new(224,0,0,251), 0, &[], NOW,
    );
    assert_eq!(alerts.len(), 1);
    assert!(alerts[0].message.contains("unknown device"));
    assert!(state.dante.sources.contains(&src));
    assert!(!state.dante.names.contains_key(&src), "dante_names should stay empty for unknown device");
}

#[test]
fn dante_discovery_deduplicates_alert() {
    let mut state = CaptureState::new();
    let src = Ipv4Addr::new(169, 254, 133, 58);
    let first = state.handle_dante(
        DanteKind::Discovery { device_name: None },
        src, Ipv4Addr::new(224,0,0,251), 0, &[], NOW,
    );
    let second = state.handle_dante(
        DanteKind::Discovery { device_name: None },
        src, Ipv4Addr::new(224,0,0,251), 0, &[], NOW,
    );
    assert_eq!(first.len(), 1, "first discovery should emit alert");
    assert_eq!(second.len(), 0, "duplicate discovery should emit no alert");
    assert_eq!(state.dante.sources.len(), 1);
}

#[test]
fn conmon_first_detection_alerts_then_dedup_and_tracks_liveness() {
    let mut state = CaptureState::new();
    let src = Ipv4Addr::new(169, 254, 81, 11);
    let mac = [0x00, 0x1d, 0xc1, 0x19, 0x86, 0x2a];
    let first = state.handle_dante(
        DanteKind::ConMon { device_mac: mac, channels: Some(32) },
        src, Ipv4Addr::new(224, 0, 0, 232), 8705, &[], NOW,
    );
    let second = state.handle_dante(
        DanteKind::ConMon { device_mac: mac, channels: Some(32) },
        src, Ipv4Addr::new(224, 0, 0, 232), 8705, &[], NOW,
    );
    assert_eq!(first.len(), 0, "ConMon sightings are silent — liveness shown in periodic report");
    assert_eq!(second.len(), 0, "repeat sightings are silent");
    let dev = state.dante.conmon.get(&src).expect("device tracked");
    assert_eq!(dev.mac, mac);
    assert_eq!(dev.channels, Some(32));
    assert_eq!(dev.packets, 2);
    assert!(state.dante.sources.contains(&src),
        "ConMon device counts as a discovered Dante source");
}

#[test]
fn conmon_channel_count_survives_non_metering_frames() {
    let mut state = CaptureState::new();
    let src = Ipv4Addr::new(169, 254, 81, 11);
    let mac = [0x00, 0x1d, 0xc1, 0x19, 0x86, 0x2a];
    state.handle_dante(DanteKind::ConMon { device_mac: mac, channels: Some(32) },
        src, Ipv4Addr::new(224, 0, 0, 232), 8705, &[], NOW);
    state.handle_dante(DanteKind::ConMon { device_mac: mac, channels: None },
        src, Ipv4Addr::new(224, 0, 0, 233), 8708, &[], NOW);
    assert_eq!(state.dante.conmon.get(&src).unwrap().channels, Some(32));
}

#[test]
fn conmon_bridge_no_alert_when_one_ip_per_mac() {
    let mut state = CaptureState::new();
    let mac = [0x00, 0x1d, 0xc1, 0x19, 0x86, 0x2a];
    state.handle_dante(DanteKind::ConMon { device_mac: mac, channels: None },
        Ipv4Addr::new(169, 254, 81, 11), Ipv4Addr::new(224, 0, 0, 232), 8705, &[], NOW);
    assert!(state.dante.check_conmon_bridge().is_empty());
}

#[test]
fn conmon_bridge_detected_when_same_mac_two_ips() {
    let mut state = CaptureState::new();
    let mac = [0x00, 0x1d, 0xc1, 0x19, 0x86, 0x2a];
    state.handle_dante(DanteKind::ConMon { device_mac: mac, channels: None },
        Ipv4Addr::new(169, 254, 81, 11), Ipv4Addr::new(224, 0, 0, 232), 8705, &[], NOW);
    state.handle_dante(DanteKind::ConMon { device_mac: mac, channels: None },
        Ipv4Addr::new(192, 168, 1, 11), Ipv4Addr::new(224, 0, 0, 232), 8705, &[], NOW);
    let alerts = state.dante.check_conmon_bridge();
    assert_eq!(alerts.len(), 1);
    assert!(matches!(alerts[0].level, AlertLevel::Error));
    assert!(alerts[0].message.contains("00:1d:c1:19:86:2a"));
    assert!(alerts[0].message.contains("169.254.81.11"));
    assert!(alerts[0].message.contains("192.168.1.11"));
}

#[test]
fn conmon_bridge_includes_device_name_when_known() {
    let mut state = CaptureState::new();
    let mac = [0x00, 0x1d, 0xc1, 0x19, 0x86, 0x2a];
    let ip1 = Ipv4Addr::new(169, 254, 81, 11);
    let ip2 = Ipv4Addr::new(192, 168, 1, 11);
    state.dante.names.insert(ip1, "Rio3224-D2".to_string());
    state.handle_dante(DanteKind::ConMon { device_mac: mac, channels: None },
        ip1, Ipv4Addr::new(224, 0, 0, 232), 8705, &[], NOW);
    state.handle_dante(DanteKind::ConMon { device_mac: mac, channels: None },
        ip2, Ipv4Addr::new(224, 0, 0, 232), 8705, &[], NOW);
    let alerts = state.dante.check_conmon_bridge();
    assert_eq!(alerts.len(), 1);
    assert!(alerts[0].message.contains("\"Rio3224-D2\""));
}

#[test]
fn conmon_bridge_two_distinct_devices_no_false_positive() {
    let mut state = CaptureState::new();
    let mac_a = [0x00, 0x1d, 0xc1, 0x19, 0x86, 0x2a];
    let mac_b = [0xac, 0x44, 0xf2, 0x84, 0x1e, 0x60];
    state.handle_dante(DanteKind::ConMon { device_mac: mac_a, channels: None },
        Ipv4Addr::new(169, 254, 81, 11), Ipv4Addr::new(224, 0, 0, 232), 8705, &[], NOW);
    state.handle_dante(DanteKind::ConMon { device_mac: mac_b, channels: None },
        Ipv4Addr::new(169, 254, 149, 65), Ipv4Addr::new(224, 0, 0, 232), 8705, &[], NOW);
    assert!(state.dante.check_conmon_bridge().is_empty());
}

#[test]
fn ip_config_no_alert_with_fewer_than_two_devices() {
    let mut state = CaptureState::new();
    state.dante.sources.insert(Ipv4Addr::new(169, 254, 1, 1));
    assert!(state.dante.check_ip_config().is_empty());
}

#[test]
fn ip_config_all_link_local_no_alert() {
    let mut state = CaptureState::new();
    state.dante.sources.insert(Ipv4Addr::new(169, 254, 1, 1));
    state.dante.sources.insert(Ipv4Addr::new(169, 254, 1, 2));
    assert!(state.dante.check_ip_config().is_empty());
}

#[test]
fn ip_config_mixed_link_local_and_routable_errors_per_device() {
    let mut state = CaptureState::new();
    let ll = Ipv4Addr::new(169, 254, 1, 5);
    state.dante.sources.insert(ll);
    state.dante.sources.insert(Ipv4Addr::new(192, 168, 1, 10));
    let alerts = state.dante.check_ip_config();
    assert_eq!(alerts.len(), 1);
    assert!(matches!(alerts[0].level, AlertLevel::Error));
    assert!(alerts[0].message.contains("169.254.1.5"));
}

#[test]
fn ip_config_mixed_includes_device_name() {
    let mut state = CaptureState::new();
    let ll = Ipv4Addr::new(169, 254, 1, 5);
    state.dante.sources.insert(ll);
    state.dante.names.insert(ll, "StageBox".to_string());
    state.dante.sources.insert(Ipv4Addr::new(192, 168, 1, 10));
    let alerts = state.dante.check_ip_config();
    assert!(alerts[0].message.contains("\"StageBox\""));
}

#[test]
fn ip_config_same_subnet_no_alert() {
    let mut state = CaptureState::new();
    state.dante.sources.insert(Ipv4Addr::new(192, 168, 1, 10));
    state.dante.sources.insert(Ipv4Addr::new(192, 168, 1, 20));
    assert!(state.dante.check_ip_config().is_empty());
}

#[test]
fn ip_config_subnet_split_warns() {
    let mut state = CaptureState::new();
    state.dante.sources.insert(Ipv4Addr::new(192, 168, 1, 10));
    state.dante.sources.insert(Ipv4Addr::new(10, 0, 0, 5));
    let alerts = state.dante.check_ip_config();
    assert_eq!(alerts.len(), 1);
    assert!(matches!(alerts[0].level, AlertLevel::Warn));
    assert!(alerts[0].message.contains("2 subnets"));
    assert!(alerts[0].message.contains("192.168.1.0/24"));
    assert!(alerts[0].message.contains("10.0.0.0/24"));
}

#[test]
fn ip_config_172_31_all_link_local_no_alert() {
    let mut state = CaptureState::new();
    state.dante.sources.insert(Ipv4Addr::new(172, 31, 0, 1));
    state.dante.sources.insert(Ipv4Addr::new(172, 31, 0, 2));
    assert!(state.dante.check_ip_config().is_empty());
}

#[test]
fn ip_config_172_31_mixed_with_routable_errors() {
    let mut state = CaptureState::new();
    let ll = Ipv4Addr::new(172, 31, 0, 5);
    state.dante.sources.insert(ll);
    state.dante.sources.insert(Ipv4Addr::new(192, 168, 1, 10));
    let alerts = state.dante.check_ip_config();
    assert_eq!(alerts.len(), 1);
    assert!(matches!(alerts[0].level, AlertLevel::Error));
    assert!(alerts[0].message.contains("172.31.0.5"));
}

#[test]
fn ip_config_subnet_split_warns_ddm() {
    let mut state = CaptureState::new();
    state.dante.sources.insert(Ipv4Addr::new(192, 168, 1, 10));
    state.dante.sources.insert(Ipv4Addr::new(10, 0, 0, 5));
    let alerts = state.dante.check_ip_config();
    assert!(alerts[0].message.contains("Domain Manager"));
}

#[test]
fn unverified_empty_below_threshold() {
    let mut state = CaptureState::new();
    let src = Ipv4Addr::new(192, 168, 1, 50);
    state.dante.sources.insert(src);
    state.dante.reset_window(&state.streams, NOW);
    state.dante.reset_window(&state.streams, NOW);
    assert!(state.dante.unverified().is_empty());
}

#[test]
fn unverified_flags_source_at_threshold() {
    let mut state = CaptureState::new();
    let src = Ipv4Addr::new(192, 168, 1, 50);
    state.dante.sources.insert(src);
    for _ in 0..3 {
        state.dante.reset_window(&state.streams, NOW);
    }
    assert!(state.dante.unverified().contains(&src));
}

#[test]
fn unverified_resets_when_stream_appears() {
    let mut state = CaptureState::new();
    let src = Ipv4Addr::new(192, 168, 1, 50);
    state.dante.sources.insert(src);
    state.dante.reset_window(&state.streams, NOW);
    state.dante.reset_window(&state.streams, NOW);
    let mut s = StreamStats::new_with_info("Dante", hertz(48_000), false, Ipv4Addr::new(239,255,1,1), 5004, NOW);
    s.src_ip = Some(src);
    state.streams.insert("Dante test".to_string(), s);
    state.dante.reset_window(&state.streams, NOW);
    assert!(state.dante.unverified().is_empty());
}

#[test]
fn igmp_query_interval_advisory_fires_above_60s() {
    let mut state = CaptureState::new();
    state.network_health.igmp_query_interval_secs = Some(125);
    let alerts = state.check_igmp_query_interval();
    assert_eq!(alerts.len(), 1);
    assert!(alerts[0].message.contains("125s"));
    assert!(alerts[0].message.contains("30s"));
}

#[test]
fn igmp_query_interval_advisory_silent_at_30s() {
    let mut state = CaptureState::new();
    state.network_health.igmp_query_interval_secs = Some(30);
    assert!(state.check_igmp_query_interval().is_empty());
}

#[test]
fn igmp_multiple_queriers_fires_error_and_sets_flag() {
    let mut state = CaptureState::new();
    add_active_multicast_stream(&mut state);
    state.igmp.querier_ips_this_window.insert(Ipv4Addr::new(10, 0, 0, 1));
    state.igmp.querier_ips_this_window.insert(Ipv4Addr::new(10, 0, 0, 2));
    let mc = state.has_active_multicast();
    let alerts = state.igmp.check_multiple_queriers(&mut state.network_health, mc);
    assert_eq!(alerts.len(), 1);
    assert!(matches!(alerts[0].level, AlertLevel::Error));
    assert!(alerts[0].message.contains("10.0.0.1"));
    assert!(alerts[0].message.contains("10.0.0.2"));
    assert!(state.network_health.multiple_queriers_this_window);
}

#[test]
fn igmp_single_querier_no_alert() {
    let mut state = CaptureState::new();
    add_active_multicast_stream(&mut state);
    state.igmp.querier_ips_this_window.insert(Ipv4Addr::new(10, 0, 0, 1));
    let mc = state.has_active_multicast();
    assert!(state.igmp.check_multiple_queriers(&mut state.network_health, mc).is_empty());
    assert!(!state.network_health.multiple_queriers_this_window);
}

#[test]
fn igmp_multiple_queriers_silent_without_active_multicast() {
    let mut state = CaptureState::new();
    state.igmp.querier_ips_this_window.insert(Ipv4Addr::new(10, 0, 0, 1));
    state.igmp.querier_ips_this_window.insert(Ipv4Addr::new(10, 0, 0, 2));
    let mc = state.has_active_multicast();
    assert!(!mc);
    assert!(state.igmp.check_multiple_queriers(&mut state.network_health, mc).is_empty());
    assert!(!state.network_health.multiple_queriers_this_window);
}

#[test]
fn igmp_multiple_querier_flag_clears_on_reset_window() {
    let mut state = CaptureState::new();
    add_active_multicast_stream(&mut state);
    state.igmp.querier_ips_this_window.insert(Ipv4Addr::new(10, 0, 0, 1));
    state.igmp.querier_ips_this_window.insert(Ipv4Addr::new(10, 0, 0, 2));
    let mc = state.has_active_multicast();
    state.igmp.check_multiple_queriers(&mut state.network_health, mc);
    assert!(state.network_health.multiple_queriers_this_window);
    state.reset_window(NOW);
    assert!(!state.network_health.multiple_queriers_this_window);
    assert!(state.igmp.querier_ips_this_window.is_empty());
}

#[test]
fn igmp_general_query_registers_querier() {
    let mut state = CaptureState::new();
    let querier = Ipv4Addr::new(10, 244, 70, 241);
    let mac = [0xd0, 0x69, 0x9e, 0x10, 0x10, 0xe4];
    state.handle_igmp(querier, mac, igmp_all_systems(),
                      IgmpType::Query { version: 3 }, NOW);
    assert_eq!(state.network_health.igmp_querier_ip, Some(querier));
    assert_eq!(state.network_health.igmp_querier_mac, Some(mac));
    assert!(state.igmp.querier_ips_this_window.contains(&querier));
}

#[test]
fn igmp_group_specific_query_does_not_register_querier() {
    let mut state = CaptureState::new();
    state.handle_igmp(Ipv4Addr::new(0, 0, 0, 0), [0u8; 6], Ipv4Addr::new(224, 0, 1, 129),
                      IgmpType::Query { version: 3 }, NOW);
    assert_eq!(state.network_health.igmp_querier_ip, None);
    assert!(state.igmp.querier_ips_this_window.is_empty());
    assert!(state.network_health.last_igmp_query.is_none(),
            "group-specific query must not start the querier silence timer");
}

#[test]
fn igmp_group_specific_query_does_not_create_phantom_second_querier() {
    let mut state = CaptureState::new();
    let querier = Ipv4Addr::new(10, 244, 70, 241);
    state.handle_igmp(querier, [0xd0, 0x69, 0x9e, 0x10, 0x10, 0xe4],
                      igmp_all_systems(),
                      IgmpType::Query { version: 3 }, NOW);
    for g in [(224, 0, 1, 129), (224, 0, 1, 130), (224, 0, 1, 131)] {
        state.handle_igmp(Ipv4Addr::new(0, 0, 0, 0), [0u8; 6],
                          Ipv4Addr::new(g.0, g.1, g.2, g.3),
                          IgmpType::Query { version: 3 }, NOW);
    }
    assert_eq!(state.igmp.querier_ips_this_window.len(), 1);
    add_active_multicast_stream(&mut state);
    let mc = state.has_active_multicast();
    assert!(state.igmp.check_multiple_queriers(&mut state.network_health, mc).is_empty());
    assert!(!state.network_health.multiple_queriers_this_window);
}

#[test]
fn igmp_version_mismatch_fires_warn_when_v2_querier_and_v3_report() {
    let mut state = CaptureState::new();
    state.igmp.querier_version = Some(2);
    state.igmp.v3_report_seen_this_window = true;
    let alerts = state.igmp.check_version_mismatch();
    assert_eq!(alerts.len(), 1);
    assert!(matches!(alerts[0].level, AlertLevel::Warn));
    assert!(alerts[0].message.contains("IGMPv2"));
}

#[test]
fn igmp_version_mismatch_silent_when_v3_querier() {
    let mut state = CaptureState::new();
    state.igmp.querier_version = Some(3);
    state.igmp.v3_report_seen_this_window = true;
    assert!(state.igmp.check_version_mismatch().is_empty());
}

#[test]
fn igmp_version_mismatch_silent_without_v3_reports() {
    let mut state = CaptureState::new();
    state.igmp.querier_version = Some(2);
    assert!(state.igmp.check_version_mismatch().is_empty());
}

#[test]
fn igmp_state_reset_clears_window_fields_but_keeps_version() {
    let mut igmp = IgmpState::new();
    igmp.querier_ips_this_window.insert(Ipv4Addr::new(10, 0, 0, 1));
    igmp.v3_report_seen_this_window = true;
    igmp.querier_version = Some(3);
    igmp.reset_window(NOW);
    assert!(igmp.querier_ips_this_window.is_empty());
    assert!(!igmp.v3_report_seen_this_window);
    assert_eq!(igmp.querier_version, Some(3));
}

#[test]
fn avb_state_reset_clears_mvrp_when_no_avtp_streams() {
    let mut avb = AvbState::new();
    avb.mvrp_vlans.insert(2);
    avb.reset_window(NOW);
    assert!(avb.mvrp_vlans.is_empty());
}

#[test]
fn avb_state_reset_prunes_msrp_to_surviving_avtp() {
    let mut avb = AvbState::new();
    let sid = [1, 2, 3, 4, 5, 6, 7, 8];
    avb.msrp_state.insert(sid, MsrpDeclaration {
        decl_type:           MsrpDeclType::TalkerAdvertise,
        stream_id:           sid,
        dest_mac:            None,
        vlan_id:             None,
        max_frame_size:      None,
        max_interval_frames: None,
        priority:            None,
        failure_code:        None,
        listener_state:      None,
    });
    avb.reset_window(NOW);
    assert!(avb.msrp_state.is_empty());
}

#[test]
fn filter_unregistered_multicast_fires_after_two_cycles() {
    let mut state = CaptureState::new();
    state.dante.conmon.insert(Ipv4Addr::new(192, 168, 1, 1), ConmonDevice {
        mac: [0, 0, 0, 0, 0, 0],
        channels: None,
        packets: 0,
        last_seen: NOW,
    });
    assert!(state.check_filter_unregistered_multicast().is_empty());
    assert_eq!(state.filter_unregistered_suspect_cycles, 1);
    let alerts = state.check_filter_unregistered_multicast();
    assert_eq!(alerts.len(), 1);
    assert!(matches!(alerts[0].level, AlertLevel::Warn));
    assert!(alerts[0].message.contains("Filter Unregistered Multicast"));
}

#[test]
fn filter_unregistered_multicast_clears_when_streams_appear() {
    let mut state = CaptureState::new();
    state.dante.conmon.insert(Ipv4Addr::new(192, 168, 1, 1), ConmonDevice {
        mac: [0, 0, 0, 0, 0, 0],
        channels: None,
        packets: 0,
        last_seen: NOW,
    });
    state.check_filter_unregistered_multicast();
    assert_eq!(state.filter_unregistered_suspect_cycles, 1);
    state.streams.insert("test".to_string(), StreamStats::new("Dante", hertz(1), NOW));
    state.check_filter_unregistered_multicast();
    assert_eq!(state.filter_unregistered_suspect_cycles, 0);
}

#[test]
fn igmp_snooping_blocking_ptp_fires_when_dante_found_but_no_ptp_no_querier() {
    let mut state = CaptureState::new();
    state.dante.sources.insert(Ipv4Addr::new(192, 168, 1, 10));
    let alerts = state.check_igmp_snooping_blocking_ptp(false);
    assert_eq!(alerts.len(), 1);
    assert!(matches!(alerts[0].level, AlertLevel::Warn));
}

#[test]
fn igmp_snooping_blocking_ptp_silent_in_offline_mode() {
    let mut state = CaptureState::new();
    state.dante.sources.insert(Ipv4Addr::new(192, 168, 1, 10));
    assert!(state.check_igmp_snooping_blocking_ptp(true).is_empty());
}

#[test]
fn igmp_snooping_blocking_ptp_silent_when_querier_present() {
    let mut state = CaptureState::new();
    state.dante.sources.insert(Ipv4Addr::new(192, 168, 1, 10));
    state.network_health.last_igmp_query = Some(NOW);
    assert!(state.check_igmp_snooping_blocking_ptp(false).is_empty());
}

#[test]
fn high_multicast_bandwidth_fires_when_above_threshold_without_querier() {
    let mut state = CaptureState::new();
    state.multicast_bytes_this_window = 51_000_000;
    let alerts = state.check_high_multicast_bandwidth();
    assert_eq!(alerts.len(), 1);
    assert!(matches!(alerts[0].level, AlertLevel::Warn));
    assert!(alerts[0].message.contains("80 Mbps"));
}

#[test]
fn high_multicast_bandwidth_silent_when_querier_present() {
    let mut state = CaptureState::new();
    state.multicast_bytes_this_window = 51_000_000;
    state.network_health.last_igmp_query = Some(NOW);
    assert!(state.check_high_multicast_bandwidth().is_empty());
}

#[test]
fn high_multicast_bandwidth_silent_below_threshold() {
    let mut state = CaptureState::new();
    state.multicast_bytes_this_window = 1_000_000;
    assert!(state.check_high_multicast_bandwidth().is_empty());
}

fn make_ptpv1_domain(state: &mut CaptureState) {
    state.ptp.domains.insert((0, PTP_VERSION_V1), {
        let mut s = PtpStats::new(0, PTP_VERSION_V1, NOW);
        s.clock_valid = true;
        s
    });
}

#[test]
fn follower_census_no_alert_without_ptpv1_domain() {
    let mut state = CaptureState::new();
    state.dante.sources.insert(Ipv4Addr::new(192, 168, 1, 1));
    state.dante.sources.insert(Ipv4Addr::new(192, 168, 1, 2));
    state.ptp.v1_followers.insert(Ipv4Addr::new(192, 168, 1, 2), NOW);
    assert!(state.dante.check_follower_census(&state.ptp).is_empty());
}

#[test]
fn follower_census_no_alert_when_no_followers_seen_yet() {
    let mut state = CaptureState::new();
    make_ptpv1_domain(&mut state);
    state.dante.sources.insert(Ipv4Addr::new(192, 168, 1, 1));
    state.dante.sources.insert(Ipv4Addr::new(192, 168, 1, 2));
    assert!(state.dante.check_follower_census(&state.ptp).is_empty());
}

#[test]
fn follower_census_no_alert_when_all_accounted_for() {
    let mut state = CaptureState::new();
    make_ptpv1_domain(&mut state);
    state.dante.sources.insert(Ipv4Addr::new(192, 168, 1, 1));
    state.dante.sources.insert(Ipv4Addr::new(192, 168, 1, 2));
    state.dante.sources.insert(Ipv4Addr::new(192, 168, 1, 3));
    state.ptp.v1_followers.insert(Ipv4Addr::new(192, 168, 1, 2), NOW);
    state.ptp.v1_followers.insert(Ipv4Addr::new(192, 168, 1, 3), NOW);
    assert!(state.dante.check_follower_census(&state.ptp).is_empty());
}

#[test]
fn follower_census_alerts_when_device_not_syncing() {
    let mut state = CaptureState::new();
    make_ptpv1_domain(&mut state);
    for i in 1..=4 { state.dante.sources.insert(Ipv4Addr::new(192, 168, 1, i)); }
    state.ptp.domains.value_mut(0).grandmaster_src_ip = Some(Ipv4Addr::new(192, 168, 1, 1));
    state.ptp.v1_followers.insert(Ipv4Addr::new(192, 168, 1, 2), NOW);
    state.ptp.v1_followers.insert(Ipv4Addr::new(192, 168, 1, 3), NOW);
    let alerts = state.dante.check_follower_census(&state.ptp);
    assert_eq!(alerts.len(), 1);
    assert!(matches!(alerts[0].level, AlertLevel::Warn));
    assert!(alerts[0].message.contains("192.168.1.4"));
    assert!(alerts[0].message.contains("1 Dante device"));
}

#[test]
fn follower_census_alert_includes_device_name() {
    let mut state = CaptureState::new();
    make_ptpv1_domain(&mut state);
    let gm = Ipv4Addr::new(192, 168, 1, 1);
    let missing = Ipv4Addr::new(192, 168, 1, 4);
    for i in 1..=4 { state.dante.sources.insert(Ipv4Addr::new(192, 168, 1, i)); }
    state.ptp.domains.value_mut(0).grandmaster_src_ip = Some(gm);
    state.dante.names.insert(missing, "StageBox".to_string());
    state.ptp.v1_followers.insert(Ipv4Addr::new(192, 168, 1, 2), NOW);
    state.ptp.v1_followers.insert(Ipv4Addr::new(192, 168, 1, 3), NOW);
    let alerts = state.dante.check_follower_census(&state.ptp);
    assert_eq!(alerts.len(), 1);
    assert!(alerts[0].message.contains("\"StageBox\""));
    assert!(alerts[0].message.contains("192.168.1.4"));
}

fn ip_udp_non_rtp(dst: [u8; 4], dst_port: u16, payload_len: usize) -> Vec<u8> {
    let udp_len = (8 + payload_len) as u16;
    let mut buf = vec![0u8; 20 + 8 + payload_len];
    buf[0] = 0x45;
    buf[1] = 46 << 2;
    let total = (20 + udp_len) as u16;
    buf[2..4].copy_from_slice(&total.to_be_bytes());
    buf[8] = 64;
    buf[9] = 0x11;
    buf[12..16].copy_from_slice(&[169, 254, 81, 11]);
    buf[16..20].copy_from_slice(&dst);
    buf[20..22].copy_from_slice(&14400u16.to_be_bytes());
    buf[22..24].copy_from_slice(&dst_port.to_be_bytes());
    buf[24..26].copy_from_slice(&udp_len.to_be_bytes());
    buf
}

#[test]
fn dante_atp_stream_tracked_without_rtp_metrics() {
    let mut state = CaptureState::new();
    let pkt = ip_udp_non_rtp([239, 255, 10, 1], 4321, 64);
    state.handle_dante(DanteKind::AudioStream,
        Ipv4Addr::new(169, 254, 81, 11), Ipv4Addr::new(239, 255, 10, 1), 4321, &pkt, NOW);
    let s = state.streams.get(&"Dante 169.254.81.11 → 239.255.10.1:4321".to_string()).expect("stream created");
    assert_eq!(s.packets, 1);
    assert!(!s.rtp_seen, "ATP payload must not set rtp_seen");
    assert!(s.last_packet_time.is_some(), "presence tracked for dead-stream detection");
    assert!(s.bytes_total > 0, "bytes tracked for bitrate");
}

#[test]
fn ndi_discovery_stores_source_name() {
    let mut state = CaptureState::new();
    let src = Ipv4Addr::new(192, 168, 1, 60);
    let alerts = state.handle_ndi_discovery(src, Some("Studio Cam".to_string()));
    assert_eq!(alerts.len(), 1);
    assert!(state.ndi.sources.contains(&src));
    assert_eq!(state.ndi.names.get(&src).map(|s| s.as_str()), Some("Studio Cam"));
}

#[test]
fn aggregate_ndi_bitrate_sums_multiple_tcp_streams_for_one_source() {
    let mut state = CaptureState::new();
    let ndi_ip = Ipv4Addr::new(192, 168, 1, 60);
    let other_host = Ipv4Addr::new(192, 168, 1, 5);
    state.streams.insert("NDI a".into(),
        StreamStats::new_with_info("NDI", hertz(0), false, ndi_ip, 0, NOW));

    let mut t1 = TcpStreamStats::new(ndi_ip, other_host, NOW);
    t1.bitrate_bps = 1_000_000;
    state.tcp_streams.insert("t1".into(), t1);

    let mut t2 = TcpStreamStats::new(other_host, ndi_ip, NOW);
    t2.bitrate_bps = 2_500_000;
    state.tcp_streams.insert("t2".into(), t2);

    state.aggregate_ndi_bitrate();

    assert_eq!(stream(&state, "NDI a").bitrate_bps, 3_500_000,
        "must sum every tcp_streams entry touching the NDI source, not just one");
}

#[test]
fn aggregate_ndi_bitrate_ignores_tcp_streams_for_other_ips() {
    let mut state = CaptureState::new();
    let ndi_ip = Ipv4Addr::new(192, 168, 1, 60);
    let unrelated_a = Ipv4Addr::new(192, 168, 1, 5);
    let unrelated_b = Ipv4Addr::new(192, 168, 1, 6);
    state.streams.insert("NDI a".into(),
        StreamStats::new_with_info("NDI", hertz(0), false, ndi_ip, 0, NOW));

    let mut unrelated = TcpStreamStats::new(unrelated_a, unrelated_b, NOW);
    unrelated.bitrate_bps = 9_999_999;
    state.tcp_streams.insert("unrelated".into(), unrelated);

    state.aggregate_ndi_bitrate();

    assert_eq!(stream(&state, "NDI a").bitrate_bps, 0,
        "a tcp_streams entry not touching the NDI source IP must not contribute");
}

#[test]
fn aggregate_ndi_bitrate_is_a_noop_with_no_matching_tcp_streams() {
    let mut state = CaptureState::new();
    let ndi_ip = Ipv4Addr::new(192, 168, 1, 60);
    state.streams.insert("NDI a".into(),
        StreamStats::new_with_info("NDI", hertz(0), false, ndi_ip, 0, NOW));

    state.aggregate_ndi_bitrate();

    assert_eq!(stream(&state, "NDI a").bitrate_bps, 0);
}

fn tcp_segment(src: Ipv4Addr, dst: Ipv4Addr, src_port: u16, dst_port: u16, seq: u32) -> TcpSegment {
    TcpSegment {
        src, dst, src_port, dst_port, seq, ack: 0,
        has_fin: false, has_syn: false, has_rst: false,
    }
}

#[test]
fn tcp_to_known_ndi_source_tracked() {
    let mut state = CaptureState::new();
    let cam = Ipv4Addr::new(192, 168, 1, 60);
    let viewer = Ipv4Addr::new(192, 168, 1, 100);
    state.handle_ndi_discovery(cam, Some("Studio Cam".to_string()));

    state.handle_tcp(tcp_segment(cam, viewer, 6000, 51000, 1000), 1200, NOW);

    let stream = state.streams.get(&"NDI 192.168.1.60".to_string()).expect("NDI stream entry created");
    assert_eq!(stream.packets, 1);
    assert_eq!(stream.sdp_name.as_deref(), Some("Studio Cam"));
    assert!(state.tcp_streams.contains_key(&"TCP 192.168.1.60:6000 → 192.168.1.100:51000".to_string()));
}

#[test]
fn tcp_in_ndi_port_range_tracked_even_without_discovery() {
    let mut state = CaptureState::new();
    let a = Ipv4Addr::new(10, 0, 0, 1);
    let b = Ipv4Addr::new(10, 0, 0, 2);

    state.handle_tcp(tcp_segment(a, b, 5965, 51000, 1), 1000, NOW);

    assert!(state.tcp_streams.contains_key(&"TCP 10.0.0.1:5965 → 10.0.0.2:51000".to_string()));
    assert!(state.streams.is_empty());
}

#[test]
fn tcp_outside_ndi_range_and_unknown_source_ignored() {
    let mut state = CaptureState::new();
    let a = Ipv4Addr::new(10, 0, 0, 1);
    let b = Ipv4Addr::new(10, 0, 0, 2);

    state.handle_tcp(tcp_segment(a, b, 443, 51000, 1), 1000, NOW);

    assert!(state.tcp_streams.is_empty());
    assert!(state.streams.is_empty());
}

#[test]
fn tcp_backward_seq_counted_as_retransmission() {
    let mut state = CaptureState::new();
    let cam = Ipv4Addr::new(192, 168, 1, 60);
    let viewer = Ipv4Addr::new(192, 168, 1, 100);
    state.handle_ndi_discovery(cam, None);

    state.handle_tcp(tcp_segment(cam, viewer, 6000, 51000, 1000), 100, NOW);
    state.handle_tcp(tcp_segment(cam, viewer, 6000, 51000, 2000), 100, NOW);
    state.handle_tcp(tcp_segment(cam, viewer, 6000, 51000, 1500), 100, NOW);

    let tcp_stat = state.tcp_streams.get(&"TCP 192.168.1.60:6000 → 192.168.1.100:51000".to_string()).unwrap();
    assert_eq!(tcp_stat.retransmissions, 1);
    assert_eq!(state.network_health.tcp_retransmissions, 1);
}

#[test]
fn tcp_retransmission_penalty_is_window_scoped() {
    let mut state = CaptureState::new();
    state.network_health.tcp_retransmissions = 20;

    state.network_health.calculate_score(
        &state.streams, &state.tcp_streams, &state.ptp.domains,
        &state.avb.msrp_state, &state.eee_ports, &state.avb.avtp_streams, NOW);
    assert!(state.network_health.network_score < 100_000_000,
        "retransmissions should dock the score this window");

    state.reset_window(NOW);
    state.network_health.calculate_score(
        &state.streams, &state.tcp_streams, &state.ptp.domains,
        &state.avb.msrp_state, &state.eee_ports, &state.avb.avtp_streams, NOW);
    assert_eq!(state.network_health.network_score, 100_000_000,
        "score must recover after a clean window");
}

#[test]
fn dante_sources_bounded_under_spoofed_ip_flood() {
    let mut d = DanteState::new();
    let cap = MAX_SOURCES;
    for i in 0..(cap as u32 + 50) {
        d.record_source(Ipv4Addr::from_bits(i), &Some("nm".to_string()));
    }
    assert!(d.sources.len() <= cap, "sources bounded, got {}", d.sources.len());
    assert!(d.names.len() <= cap, "names bounded, got {}", d.names.len());
    let newest = Ipv4Addr::from_bits(cap as u32 + 49);
    assert!(d.sources.contains(&newest), "newest entry must be retained");
}

#[test]
fn dante_sources_eviction_also_clears_transmitter_class() {
    let mut d = DanteState::new();
    let cap = MAX_SOURCES;
    let victim_candidate = Ipv4Addr::from_bits(0u32);
    d.record_source(victim_candidate, &Some("nm".to_string()));
    d.record_tx_class(victim_candidate, TransmitterClass::Dvs);
    for i in 1..(cap as u32 + 50) {
        d.record_source(Ipv4Addr::from_bits(i), &Some("nm".to_string()));
    }
    assert!(
        !d.sources.contains(&victim_candidate) || d.transmitter_class.contains_key(&victim_candidate),
        "if the original source survived eviction its transmitter_class must too; \
         if it was evicted, transmitter_class must not leak a stale verdict"
    );
    assert!(d.transmitter_class.len() <= cap, "transmitter_class bounded, got {}", d.transmitter_class.len());
}

#[test]
fn ndi_sources_bounded_under_spoofed_ip_flood() {
    let mut n = NdiState::new();
    let cap = MAX_SOURCES;
    for i in 0..(cap as u32 + 50) {
        n.record_source(Ipv4Addr::from_bits(i), &Some("nm".to_string()));
    }
    assert!(n.sources.len() <= cap, "sources bounded, got {}", n.sources.len());
    assert!(n.names.len() <= cap);
    assert!(n.sources.contains(&Ipv4Addr::from_bits(cap as u32 + 49)));
}

#[test]
fn sdp_cache_bounded_under_session_id_flood() {
    let mut state = CaptureState::new();
    let cap = MAX_SDP_SESSIONS;
    for i in 0..(cap + 50) {
        let mut sdp = sdp_for_port(5004, 96, hertz(48_000));
        sdp.session_id = format!("sess-{i}");
        state.handle_sap(sdp);
    }
    assert!(state.sdp_cache.len() <= cap, "sdp_cache bounded, got {}", state.sdp_cache.len());
}

#[test]
fn igmp_join_deduplicated() {
    let mut state = CaptureState::new();
    let src   = Ipv4Addr::new(192, 168, 1, 10);
    let group = Ipv4Addr::new(239, 69, 0, 1);
    let a1 = state.handle_igmp(src, [0u8; 6], group, IgmpType::Join, NOW);
    let a2 = state.handle_igmp(src, [0u8; 6], group, IgmpType::Join, NOW);
    assert_eq!(a1.len(), 1, "first Join emits");
    assert_eq!(a2.len(), 0, "second Join is deduped");
}

#[test]
fn igmp_leave_clears_dedup_entry() {
    let mut state = CaptureState::new();
    let src   = Ipv4Addr::new(192, 168, 1, 10);
    let group = Ipv4Addr::new(239, 69, 0, 1);
    state.handle_igmp(src, [0u8; 6], group, IgmpType::Join,  NOW);
    state.handle_igmp(src, [0u8; 6], group, IgmpType::Leave, NOW);
    let a3 = state.handle_igmp(src, [0u8; 6], group, IgmpType::Join, NOW);
    assert_eq!(a3.len(), 1, "Join after Leave is no longer deduped");
}

#[test]
fn lldp_eee_alert_fires_only_on_first_detection() {
    let mut state = CaptureState::new();
    let a1 = state.handle_lldp_eee("chassis-A".into(), "Gi0/1".into(), 16, 16);
    let a2 = state.handle_lldp_eee("chassis-A".into(), "Gi0/1".into(), 16, 16);
    assert_eq!(a1.len(), 1);
    assert_eq!(a2.len(), 0, "second detection on same port is silent");
    assert_eq!(state.eee_ports.len(), 1);
}

#[test]
fn mvrp_first_vlan_alerts_then_dedup() {
    let mut state = CaptureState::new();
    let a1 = state.handle_mvrp(vec![100, 100, 200]);
    let a2 = state.handle_mvrp(vec![100, 200]);
    assert_eq!(a1.len(), 2, "two distinct VLANs, duplicates within batch deduped");
    assert_eq!(a2.len(), 0, "already-registered VLANs are silent");
}

fn valid_ptp_stats(version: u8, kind: &str) -> PtpStats {
    let mut s = PtpStats::new(0, version, NOW);
    s.clock_valid = true;
    s.protocol_kind = Some(kind.to_string());
    s.last_grandmaster = Some("test".to_string());
    s
}

fn seed_aes67_stream(state: &mut CaptureState) {
    let pkt = ip_udp_rtp(46 << 2, 5004, 96, 0, 0, 0xAAAA);
    state.handle_aes67(Ipv4Addr::new(239, 69, 0, 1), 5004, 96, &pkt, None, NOW);
}

#[test]
fn ptp_ok_when_no_streams_observed_regardless_of_selection() {
    let state = CaptureState::new();
    let expanded = ProtocolChoice::All.includes();
    assert!(state.missing_ptp_clocks(&expanded).is_empty());
}

#[test]
fn ptp_ok_when_aes67_stream_and_ptpv2_clock_present() {
    let mut state = CaptureState::new();
    seed_aes67_stream(&mut state);
    state.ptp.domains.insert((0, PTP_VERSION_V2), valid_ptp_stats(PTP_VERSION_V2, "PTPv2"));
    assert!(state.missing_ptp_clocks(&[ProtocolChoice::AES67]).is_empty());
}

#[test]
fn ptp_fails_when_aes67_stream_but_no_ptp() {
    let mut state = CaptureState::new();
    seed_aes67_stream(&mut state);
    assert!(!state.missing_ptp_clocks(&[ProtocolChoice::AES67]).is_empty());
}

#[test]
fn ptp_fails_when_aes67_stream_has_only_ptpv1() {
    let mut state = CaptureState::new();
    seed_aes67_stream(&mut state);
    state.ptp.domains.insert((0, PTP_VERSION_V1), valid_ptp_stats(PTP_VERSION_V1, "PTPv1"));
    assert!(!state.missing_ptp_clocks(&[ProtocolChoice::AES67]).is_empty());
}

#[test]
fn ptp_ok_for_dante_with_ptpv1_clock() {
    let mut state = CaptureState::new();
    state.handle_dante(DanteKind::AudioStream, Ipv4Addr::new(192,168,1,10), Ipv4Addr::new(192,168,1,60), 5004, &[], NOW);
    state.ptp.domains.insert((0, PTP_VERSION_V1), valid_ptp_stats(PTP_VERSION_V1, "PTPv1"));
    assert!(state.missing_ptp_clocks(&[ProtocolChoice::Dante]).is_empty());
}

#[test]
fn ptp_ok_for_all_on_pure_aes67_network() {
    let mut state = CaptureState::new();
    seed_aes67_stream(&mut state);
    state.ptp.domains.insert((0, PTP_VERSION_V2), valid_ptp_stats(PTP_VERSION_V2, "PTPv2"));
    let expanded = ProtocolChoice::All.includes();
    assert!(state.missing_ptp_clocks(&expanded).is_empty());
}

#[test]
fn ptp_fails_for_avb_streams_without_gptp() {
    let mut state = CaptureState::new();
    state.handle_avb(0x00, Some([1,2,3,4,5,6,7,8]), 100, Some(0), None, NOW);
    state.ptp.domains.insert((0, PTP_VERSION_V2), valid_ptp_stats(PTP_VERSION_V2, "PTPv2"));
    assert!(!state.missing_ptp_clocks(&[ProtocolChoice::AVB]).is_empty());
}

#[test]
fn ptp_ok_for_avb_with_l2_gptp() {
    let mut state = CaptureState::new();
    state.handle_avb(0x00, Some([1,2,3,4,5,6,7,8]), 100, Some(0), None, NOW);
    state.ptp.domains.insert((0, PTP_VERSION_V2), valid_ptp_stats(PTP_VERSION_V2, "AVB"));
    assert!(state.missing_ptp_clocks(&[ProtocolChoice::AVB]).is_empty());
}

#[test]
fn ptp_ok_for_ndi_only_no_clock_required() {
    let mut state = CaptureState::new();
    state.ndi.sources.insert(Ipv4Addr::new(192,168,1,60));
    assert!(state.missing_ptp_clocks(&[ProtocolChoice::NDI]).is_empty());
}

#[test]
fn missing_clock_for_aes67_identifies_ptpv2_and_aes67() {
    let mut state = CaptureState::new();
    seed_aes67_stream(&mut state);
    let missing = state.missing_ptp_clocks(&[ProtocolChoice::AES67]);
    assert_eq!(missing.len(), 1);
    assert_eq!(missing[0].kind, MissingClockKind::Ptpv2);
    assert_eq!(missing[0].affected, vec!["AES67"]);
}

#[test]
fn missing_clock_groups_aes67_and_st2110_under_same_ptpv2_entry() {
    let mut state = CaptureState::new();
    seed_aes67_stream(&mut state);
    let pkt = ip_udp_rtp(46 << 2, 5006, 96, 0, 0, 0xBBBB);
    state.handle_st2110(Ipv4Addr::new(239, 1, 2, 3), 5006, St2110Type::Audio, &pkt, None, NOW);
    let missing = state.missing_ptp_clocks(&[ProtocolChoice::AES67, ProtocolChoice::ST2110]);
    assert_eq!(missing.len(), 1);
    assert_eq!(missing[0].kind, MissingClockKind::Ptpv2);
    assert_eq!(missing[0].affected, vec!["AES67", "ST2110"]);
}

#[test]
fn missing_clock_separates_ptpv2_and_dante_when_both_lack_their_clock() {
    let mut state = CaptureState::new();
    seed_aes67_stream(&mut state);
    state.handle_dante(DanteKind::AudioStream, Ipv4Addr::new(192,168,1,50), Ipv4Addr::new(192,168,1,60), 5004, &[], NOW);
    let missing = state.missing_ptp_clocks(&[ProtocolChoice::AES67, ProtocolChoice::Dante]);
    assert_eq!(missing.len(), 2);
    assert!(missing.iter().any(|m| m.kind == MissingClockKind::Ptpv2 && m.affected == vec!["AES67"]));
    assert!(missing.iter().any(|m| m.kind == MissingClockKind::Ptp   && m.affected == vec!["Dante"]));
}

#[test]
fn dante_clock_not_satisfied_by_avb_gptp() {
    let mut state = CaptureState::new();
    state.handle_dante(DanteKind::AudioStream, Ipv4Addr::new(192,168,1,50), Ipv4Addr::new(192,168,1,60), 5004, &[], NOW);
    state.ptp.domains.insert((0, PTP_VERSION_V2), valid_ptp_stats(PTP_VERSION_V2, "AVB"));
    let missing = state.missing_ptp_clocks(&[ProtocolChoice::Dante]);
    assert!(missing.iter().any(|m| m.kind == MissingClockKind::Ptp && m.affected == vec!["Dante"]),
        "AVB gPTP must not satisfy Dante's clock requirement");
}

#[test]
fn missing_clock_for_avb_identifies_gptp() {
    let mut state = CaptureState::new();
    state.handle_avb(0x00, Some([1,2,3,4,5,6,7,8]), 100, Some(0), None, NOW);
    state.ptp.domains.insert((0, PTP_VERSION_V2), valid_ptp_stats(PTP_VERSION_V2, "PTPv2"));
    let missing = state.missing_ptp_clocks(&[ProtocolChoice::AVB]);
    assert_eq!(missing.len(), 1);
    assert_eq!(missing[0].kind, MissingClockKind::Gptp);
    assert_eq!(missing[0].affected, vec!["AVB"]);
}

#[test]
fn stream_clock_kind_matches_protocol_family() {
    assert_eq!(stream_clock_kind("AES67"), Some(MissingClockKind::Ptpv2));
    assert_eq!(stream_clock_kind("2110-20"), Some(MissingClockKind::Ptpv2));
    assert_eq!(stream_clock_kind("2110-30"), Some(MissingClockKind::Ptpv2));
    assert_eq!(stream_clock_kind("Dante"), Some(MissingClockKind::Ptp));
    assert_eq!(stream_clock_kind("NDI"), None);
    assert_eq!(stream_clock_kind("AVB"), None);
}

#[test]
fn avb_control_frame_without_stream_id_creates_no_stream() {
    let mut state = CaptureState::new();
    state.handle_avb(0x7e, None, 100, None, None, NOW);
    assert!(state.avb.avtp_streams.is_empty());
}

#[test]
fn avb_media_frame_with_stream_id_creates_stream() {
    let mut state = CaptureState::new();
    state.handle_avb(0x00, Some([1, 2, 3, 4, 5, 6, 7, 8]), 100, Some(0), None, NOW);
    assert_eq!(state.avb.avtp_streams.len(), 1);
}

#[test]
fn avb_media_never_creates_generic_stream_entry() {
    let mut state = CaptureState::new();
    state.handle_avb(0x00, Some([1, 2, 3, 4, 5, 6, 7, 8]), 100, Some(0), None, NOW);
    assert!(state.streams.is_empty());
}

#[test]
fn pause_frames_counted_separately_from_pfc() {
    let mut state = CaptureState::new();
    state.handle_flow_control(FlowControlKind::Pause);
    state.handle_flow_control(FlowControlKind::Pause);
    state.handle_flow_control(FlowControlKind::PriorityFlowControl);
    assert_eq!(state.pause_frames_this_window, 2);
    assert_eq!(state.pfc_frames_this_window,   1);
}

#[test]
fn flow_control_counters_clear_on_reset_window() {
    let mut state = CaptureState::new();
    state.handle_flow_control(FlowControlKind::Pause);
    state.handle_flow_control(FlowControlKind::PriorityFlowControl);
    state.reset_window(NOW);
    assert_eq!(state.pause_frames_this_window, 0);
    assert_eq!(state.pfc_frames_this_window,   0);
}

fn add_rtp_stream(state: &mut CaptureState, key: &str) {
    state.streams.insert(key.to_string(), StreamStats::new("AES67", hertz(48_000), NOW));
}

#[test]
fn stream_count_anomaly_no_alert_without_full_baseline() {
    let mut state = CaptureState::new();
    for i in 0..10 { add_rtp_stream(&mut state, &format!("s{i}")); }
    assert!(state.check_stream_count_anomaly().is_empty());
    for i in 10..20 { add_rtp_stream(&mut state, &format!("s{i}")); }
    assert!(state.check_stream_count_anomaly().is_empty());
}

#[test]
fn stream_count_anomaly_fires_after_three_baseline_windows() {
    let mut state = CaptureState::new();
    for w in 0..3 {
        state.streams.clear();
        add_rtp_stream(&mut state, &format!("base{w}a"));
        add_rtp_stream(&mut state, &format!("base{w}b"));
        let alerts = state.check_stream_count_anomaly();
        assert!(alerts.is_empty(), "no alert during baseline build-up");
    }
    state.streams.clear();
    for i in 0..5 { add_rtp_stream(&mut state, &format!("flood{i}")); }
    let alerts = state.check_stream_count_anomaly();
    assert_eq!(alerts.len(), 1);
    assert!(alerts[0].message.contains("Stream count spike"));
}

#[test]
fn stream_count_anomaly_no_false_positive_on_normal_growth() {
    let mut state = CaptureState::new();
    for w in 0..3 {
        state.streams.clear();
        for i in 0..4 { add_rtp_stream(&mut state, &format!("w{w}s{i}")); }
        state.check_stream_count_anomaly();
    }
    state.streams.clear();
    for i in 0..7 { add_rtp_stream(&mut state, &format!("grow{i}")); }
    assert!(state.check_stream_count_anomaly().is_empty());
}

#[test]
fn stream_count_history_rolls_after_three_entries() {
    let mut state = CaptureState::new();
    for w in 0..3 {
        state.streams.clear();
        for i in 0..10 { add_rtp_stream(&mut state, &format!("w{w}s{i}")); }
        state.check_stream_count_anomaly();
    }
    assert_eq!(state.stream_count_history, vec![10, 10, 10]);
    state.streams.clear();
    for i in 0..10 { add_rtp_stream(&mut state, &format!("r{i}")); }
    state.check_stream_count_anomaly();
    assert_eq!(state.stream_count_history.len(), 3, "history stays capped at 3");
    assert_eq!(state.stream_count_history, vec![10, 10, 10]);
}

fn delay_resp(domain: u8, path_delay_ns: i64) -> PtpInfo {
    PtpInfo {
        version: PTP_VERSION_V2,
        message_type: 0x09,
        domain,
        clock_id: None,
        grandmaster_id: None,
        clock_quality: None,
        correction_ns: Some(path_delay_ns),
        path_delay_ns: Some(path_delay_ns),
        message_name: "Delay_Resp".to_string(),
        port_id: None,
        sequence_id: 0,
        log_sync_interval: 0,
        log_min_pdelay_req_interval: 0,
        protocol_kind: Some("PTPv2".to_string()),
        src_ip: None,
        stratum: None,
    }
}

fn ptp_msg(message_type: u8, clock_id: Option<&str>) -> PtpInfo {
    PtpInfo {
        version: PTP_VERSION_V2,
        message_type,
        domain: 0,
        clock_id: clock_id.map(|s| s.to_string()),
        grandmaster_id: None,
        clock_quality: None,
        correction_ns: Some(0),
        path_delay_ns: None,
        message_name: String::new(),
        port_id: None,
        sequence_id: 0,
        log_sync_interval: 0,
        log_min_pdelay_req_interval: 0,
        protocol_kind: Some("AVB".to_string()),
        src_ip: None,
        stratum: None,
    }
}

#[test]
fn ptp_pdelay_req_only_does_not_set_seen_sync() {
    let mut s = PtpStats::new(0, PTP_VERSION_V2, NOW);
    let kind = Some("AVB".to_string());
    s.update(&ptp_msg(0x02, Some("d0:69:9e:ff:fe:11:86:3c")), &kind, NOW);
    assert!(s.last_clock_id.is_some());
    assert!(!s.seen_sync, "P_Delay_Req must not count as Sync");

    s.update(&ptp_msg(0x00, Some("d0:69:9e:ff:fe:11:86:3c")), &kind, NOW);
    assert!(s.seen_sync, "a real Sync (0x00) sets seen_sync");
}

#[test]
fn ptp_grandmaster_src_ip_is_the_gm_not_a_follower() {
    let gm_ip = Ipv4Addr::new(169, 254, 104, 86);
    let follower_ip = Ipv4Addr::new(169, 254, 1, 2);
    let mut s = PtpStats::new(0, PTP_VERSION_V2, NOW);
    let kind = Some("PTPv1".to_string());

    let mut gm_sync = ptp_msg(0x00, Some("00:00:00:01:00:1d"));
    gm_sync.grandmaster_id = Some("00:00:00:01:00:1d".to_string());
    gm_sync.src_ip = Some(gm_ip);
    s.update(&gm_sync, &kind, NOW);
    assert_eq!(s.grandmaster_src_ip, Some(gm_ip));

    let mut follower = ptp_msg(0x01, Some("00:1d:c1:8e:b1:75"));
    follower.src_ip = Some(follower_ip);
    s.update(&follower, &kind, NOW);
    assert_eq!(s.last_src_ip, Some(follower_ip), "last_src_ip follows any sender");
    assert_eq!(s.grandmaster_src_ip, Some(gm_ip), "grandmaster IP stays the GM");
}

#[test]
fn ptp_path_delay_min_max_track_observed_range() {
    let mut state = CaptureState::new();
    state.handle_ptp(delay_resp(0, 500), NOW);
    state.handle_ptp(delay_resp(0, 1200), NOW);
    state.handle_ptp(delay_resp(0, 800), NOW);
    let stats = state.ptp.domains.get(&(0, PTP_VERSION_V2)).expect("entry created");
    assert_eq!(stats.min_path_delay_ns, Some(500));
    assert_eq!(stats.max_path_delay_ns, Some(1200));
}

#[test]
fn ptp_path_delay_resets_on_grandmaster_change() {
    let mut state = CaptureState::new();
    state.handle_ptp(delay_resp(0, 1000), NOW);
    let mut announce = delay_resp(0, 500);
    announce.message_type = 0x0B;
    announce.grandmaster_id = Some("gm-A".to_string());
    announce.path_delay_ns = None;
    state.handle_ptp(announce.clone(), NOW);
    assert!(state.ptp.domains.get(&(0, PTP_VERSION_V2)).unwrap().min_path_delay_ns.is_some());

    announce.grandmaster_id = Some("gm-B".to_string());
    state.handle_ptp(announce, NOW);
    let stats = state.ptp.domains.get(&(0, PTP_VERSION_V2)).unwrap();
    assert_eq!(stats.min_path_delay_ns, None, "GM change should clear path-delay history");
    assert_eq!(stats.max_path_delay_ns, None);
}

#[test]
fn msrp_talker_failed_emits_warn_alert() {
    let mut state = CaptureState::new();
    let decl = MsrpDeclaration {
        decl_type: MsrpDeclType::TalkerFailed,
        stream_id: [0xAA,0xBB,0xCC,0xDD,0xEE,0xFF,0x00,0x01],
        dest_mac: None,
        vlan_id: None,
        max_frame_size: None,
        max_interval_frames: None,
        priority: None,
        failure_code: Some(1),
        listener_state: None,
    };
    let alerts = state.handle_msrp(vec![decl]);
    assert_eq!(alerts.len(), 1);
    assert_eq!(alerts[0].level, AlertLevel::Warn);
    assert!(alerts[0].message.contains("insufficient bandwidth"));
    assert!(state.avb.msrp_state.contains_key(&[0xAA,0xBB,0xCC,0xDD,0xEE,0xFF,0x00,0x01]));
}

fn ptpv1_sync(src: Ipv4Addr, stratum: u8, domain: u8) -> PtpInfo {
    PtpInfo {
        version:                     PTP_VERSION_V1,
        message_type:                0x00,
        domain,
        clock_id:                    Some(format!("{:?}", src)),
        grandmaster_id:              Some(format!("{:?}", src)),
        clock_quality:               Some("Preferred grandmaster".to_string()),
        correction_ns:               None,
        path_delay_ns:               None,
        message_name:                "Sync".to_string(),
        port_id:                     Some(1),
        sequence_id:                 1,
        log_sync_interval:           0,
        log_min_pdelay_req_interval: 0,
        protocol_kind:               Some("PTPv1".to_string()),
        src_ip:                      Some(src),
        stratum:                     Some(stratum),
    }
}

#[test]
fn single_ptp_sync_sender_no_conflict_alert() {
    let mut state = CaptureState::new();
    let info = ptpv1_sync(Ipv4Addr::new(192, 168, 1, 10), 0, 0);
    state.handle_ptp(info, NOW);
    let alerts = state.ptp.check_ptp_sync_conflict();
    assert!(alerts.is_empty(), "single Sync sender should produce no alert");
}

#[test]
fn two_ptpv1_sync_senders_emits_warn() {
    let mut state = CaptureState::new();
    state.handle_ptp(ptpv1_sync(Ipv4Addr::new(192, 168, 1, 10), 1, 0), NOW);
    state.handle_ptp(ptpv1_sync(Ipv4Addr::new(192, 168, 1, 20), 1, 0), NOW);
    let alerts = state.ptp.check_ptp_sync_conflict();
    assert_eq!(alerts.len(), 1);
    assert_eq!(alerts[0].level, AlertLevel::Warn);
    assert!(alerts[0].message.contains("Multiple PTP Sync senders in domain"));
}

#[test]
fn two_preferred_masters_emits_error() {
    let mut state = CaptureState::new();
    state.handle_ptp(ptpv1_sync(Ipv4Addr::new(192, 168, 1, 10), 0, 0), NOW);
    state.handle_ptp(ptpv1_sync(Ipv4Addr::new(192, 168, 1, 20), 0, 0), NOW);
    let alerts = state.ptp.check_ptp_sync_conflict();
    assert_eq!(alerts.len(), 1);
    assert_eq!(alerts[0].level, AlertLevel::Error);
    assert!(alerts[0].message.contains("Multiple Preferred Leaders"));
}

#[test]
fn sync_conflict_clears_after_reset_window() {
    let mut state = CaptureState::new();
    state.handle_ptp(ptpv1_sync(Ipv4Addr::new(192, 168, 1, 10), 0, 0), NOW);
    state.handle_ptp(ptpv1_sync(Ipv4Addr::new(192, 168, 1, 20), 0, 0), NOW);
    assert!(!state.ptp.check_ptp_sync_conflict().is_empty());
    state.reset_window(NOW);
    assert!(state.ptp.check_ptp_sync_conflict().is_empty(), "conflict must clear after reset_window");
}

fn ip_udp_rtp_with_ttl(ttl: u8, src_ip: [u8;4], dst_ip: [u8;4], dst_port: u16) -> Vec<u8> {
    let mut buf = vec![0u8; 20 + 8 + 12];
    buf[0] = 0x45;
    buf[1] = (46 << 2) | 0;
    let total_len: u16 = (20 + 8 + 12) as u16;
    buf[2..4].copy_from_slice(&total_len.to_be_bytes());
    buf[8]  = ttl;
    buf[9]  = 0x11;
    buf[12..16].copy_from_slice(&src_ip);
    buf[16..20].copy_from_slice(&dst_ip);
    buf[20..22].copy_from_slice(&5100u16.to_be_bytes());
    buf[22..24].copy_from_slice(&dst_port.to_be_bytes());
    let udp_len: u16 = (8 + 12) as u16;
    buf[24..26].copy_from_slice(&udp_len.to_be_bytes());
    buf[28] = 0x80;
    buf[29] = 96;
    buf
}

#[test]
fn dante_ttl64_no_routing_alert() {
    let mut state = CaptureState::new();
    let pkt = ip_udp_rtp_with_ttl(64, [192,168,1,50], [192,168,1,60], 5100);
    state.handle_dante(
        DanteKind::AudioStream,
        Ipv4Addr::new(192,168,1,50),
        Ipv4Addr::new(192,168,1,60),
        5100, &pkt, NOW,
    );
    let key = "Dante 192.168.1.50 → 192.168.1.60:5100";
    assert_eq!(stream(&state, key).min_ttl, Some(64), "TTL 64 should be stored");
}

#[test]
fn dante_ttl63_records_min_ttl() {
    let mut state = CaptureState::new();
    let pkt = ip_udp_rtp_with_ttl(63, [192,168,1,50], [192,168,1,60], 5100);
    state.handle_dante(
        DanteKind::AudioStream,
        Ipv4Addr::new(192,168,1,50),
        Ipv4Addr::new(192,168,1,60),
        5100, &pkt, NOW,
    );
    let key = "Dante 192.168.1.50 → 192.168.1.60:5100";
    assert_eq!(stream(&state, key).min_ttl, Some(63), "routed TTL should be stored");
}

#[test]
fn dante_min_ttl_tracks_minimum_over_packets() {
    let mut state = CaptureState::new();
    let src = Ipv4Addr::new(192,168,1,50);
    let dst = Ipv4Addr::new(192,168,1,60);
    let pkt64 = ip_udp_rtp_with_ttl(64, [192,168,1,50], [192,168,1,60], 5100);
    let pkt60 = ip_udp_rtp_with_ttl(60, [192,168,1,50], [192,168,1,60], 5100);
    state.handle_dante(DanteKind::AudioStream, src, dst, 5100, &pkt64, NOW);
    state.handle_dante(DanteKind::AudioStream, src, dst, 5100, &pkt60, NOW);
    let key = "Dante 192.168.1.50 → 192.168.1.60:5100";
    assert_eq!(stream(&state, key).min_ttl, Some(60), "should track minimum over all packets");
}

fn lost_ptpv1_state() -> PtpState {
    let mut ps = PtpState::new();
    let mut stats = PtpStats::new(0, PTP_VERSION_V1, NOW);
    stats.protocol_clock_lost = true;
    stats.protocol_kind = Some("PTPv1".to_string());
    ps.domains.insert((0, PTP_VERSION_V1), stats);
    ps
}

fn lost_ptpv2_state() -> PtpState {
    let mut ps = PtpState::new();
    let mut stats = PtpStats::new(0, PTP_VERSION_V2, NOW);
    stats.protocol_clock_lost = true;
    stats.protocol_kind = Some("PTPv2".to_string());
    ps.domains.insert((0, PTP_VERSION_V2), stats);
    ps
}

fn dante_stream_with_loss() -> StreamStats {
    let mut s = StreamStats::new("Dante", hertz(DEFAULT_CLOCK_HZ), NOW);
    s.lost_this_window = 1;
    s
}

fn aes67_stream_with_loss() -> StreamStats {
    let mut s = StreamStats::new("AES67", hertz(48_000), NOW);
    s.lost_this_window = 1;
    s
}

#[test]
fn clock_dropout_combined_fires_when_ptpv1_lost_and_dante_has_loss() {
    let mut state = CaptureState::new();
    state.ptp = lost_ptpv1_state();
    state.streams.insert("Dante 1.2.3.4 → 5.6.7.8:5000".to_string(), dante_stream_with_loss());
    assert!(state.check_clock_dropout_correlation().is_some());
}

#[test]
fn clock_dropout_combined_fires_when_ptpv2_lost_and_aes67_has_loss() {
    let mut state = CaptureState::new();
    state.ptp = lost_ptpv2_state();
    state.streams.insert("AES67 239.69.0.1:5004".to_string(), aes67_stream_with_loss());
    assert!(state.check_clock_dropout_correlation().is_some());
}

#[test]
fn clock_dropout_none_when_ptpv1_lost_but_no_stream_loss() {
    let mut state = CaptureState::new();
    state.ptp = lost_ptpv1_state();
    let mut s = StreamStats::new("Dante", hertz(DEFAULT_CLOCK_HZ), NOW);
    s.lost_this_window = 0;
    state.streams.insert("Dante 1.2.3.4 → 5.6.7.8:5000".to_string(), s);
    assert!(state.check_clock_dropout_correlation().is_none());
}

#[test]
fn clock_dropout_none_when_stream_loss_but_clock_healthy() {
    let mut state = CaptureState::new();
    let mut stats = PtpStats::new(0, PTP_VERSION_V1, NOW);
    stats.clock_valid = true;
    stats.protocol_clock_lost = false;
    state.ptp.domains.insert((0, PTP_VERSION_V1), stats);
    state.streams.insert("Dante 1.2.3.4 → 5.6.7.8:5000".to_string(), dante_stream_with_loss());
    assert!(state.check_clock_dropout_correlation().is_none());
}

#[test]
fn clock_dropout_none_when_wrong_protocol_family_has_loss() {
    let mut state = CaptureState::new();
    state.ptp = lost_ptpv2_state();
    state.streams.insert("Dante 1.2.3.4 → 5.6.7.8:5000".to_string(), dante_stream_with_loss());
    assert!(state.check_clock_dropout_correlation().is_none());
}

fn avb_stream_with_msrp(priority: u8) -> CaptureState {
    let mut state = CaptureState::new();
    let sid = [1u8, 2, 3, 4, 5, 6, 7, 8];
    state.avb.msrp_state.insert(sid, MsrpDeclaration {
        stream_id: sid,
        decl_type: MsrpDeclType::TalkerAdvertise,
        dest_mac: None,
        vlan_id: Some(2),
        max_frame_size: None,
        max_interval_frames: None,
        priority: Some(priority),
        failure_code: None,
        listener_state: None,
    });
    state
}

#[test]
fn pcp_violation_tracked_per_stream_id_not_shared_by_subtype_label() {
    let mut state = CaptureState::new();
    let sid_a = [1u8, 2, 3, 4, 5, 6, 7, 8];
    let sid_b = [9u8, 9, 9, 9, 9, 9, 9, 9];
    for (sid, priority) in [(sid_a, 3u8), (sid_b, 3u8)] {
        state.avb.msrp_state.insert(sid, MsrpDeclaration {
            stream_id: sid,
            decl_type: MsrpDeclType::TalkerAdvertise,
            dest_mac: None,
            vlan_id: Some(2),
            max_frame_size: None,
            max_interval_frames: None,
            priority: Some(priority),
            failure_code: None,
            listener_state: None,
        });
    }
    state.handle_avb(0x00, Some(sid_a), 100, Some(0), Some(2), NOW);
    state.handle_avb(0x00, Some(sid_b), 100, Some(0), Some(3), NOW);

    let a = avtp(&state, &sid_a);
    let b = avtp(&state, &sid_b);
    assert_eq!(a.pcp_violations, 1);
    assert_eq!(a.observed_pcp, Some(2));
    assert_eq!(a.msrp_declared_pcp, Some(3));
    assert_eq!(b.pcp_violations, 0);
}

#[test]
fn pcp_mismatch_fires_when_pcp_differs_from_msrp() {
    let mut state = avb_stream_with_msrp(3);
    state.handle_avb(0x00, Some([1,2,3,4,5,6,7,8]), 100, Some(0), Some(2), NOW);
    let s = avtp(&state, &[1,2,3,4,5,6,7,8]);
    assert_eq!(s.pcp_violations, 1);
    assert_eq!(s.observed_pcp, Some(2));
    assert_eq!(s.msrp_declared_pcp, Some(3));
}

#[test]
fn pcp_no_mismatch_when_pcp_matches_msrp() {
    let mut state = avb_stream_with_msrp(3);
    state.handle_avb(0x00, Some([1,2,3,4,5,6,7,8]), 100, Some(0), Some(3), NOW);
    let s = avtp(&state, &[1,2,3,4,5,6,7,8]);
    assert_eq!(s.pcp_violations, 0);
}

#[test]
fn pcp_no_alert_without_vlan_tag() {
    let mut state = avb_stream_with_msrp(3);
    state.handle_avb(0x00, Some([1,2,3,4,5,6,7,8]), 100, Some(0), None, NOW);
    let s = avtp(&state, &[1,2,3,4,5,6,7,8]);
    assert_eq!(s.pcp_violations, 0);
}

#[test]
fn pcp_no_alert_without_talker_advertise() {
    let mut state = CaptureState::new();
    state.handle_avb(0x00, Some([1,2,3,4,5,6,7,8]), 100, Some(0), Some(2), NOW);
    let s = avtp(&state, &[1,2,3,4,5,6,7,8]);
    assert_eq!(s.pcp_violations, 0);
}

#[test]
fn pcp_advisory_fires_for_aes67_with_wrong_pcp() {
    let mut state = CaptureState::new();
    let pkt = ip_udp_rtp(46 << 2, 5004, 96, 0, 0, 0xAAAA);
    state.handle_aes67(Ipv4Addr::new(239, 69, 0, 1), 5004, 96, &pkt, Some(0), NOW);
    let s = stream(&state, "AES67 239.69.0.1:5004");
    assert_eq!(s.pcp_violations, 1);
    assert_eq!(s.observed_pcp, Some(0));
}

#[test]
fn pcp_no_advisory_for_aes67_with_pcp6() {
    let mut state = CaptureState::new();
    let pkt = ip_udp_rtp(46 << 2, 5004, 96, 0, 0, 0xAAAA);
    state.handle_aes67(Ipv4Addr::new(239, 69, 0, 1), 5004, 96, &pkt, Some(6), NOW);
    let s = stream(&state, "AES67 239.69.0.1:5004");
    assert_eq!(s.pcp_violations, 0);
}

#[test]
fn pcp_advisory_fires_for_st2110_with_wrong_pcp() {
    let mut state = CaptureState::new();
    let pkt = ip_udp_rtp(46 << 2, 5004, 96, 0, 0, 0xAAAA);
    state.handle_st2110(Ipv4Addr::new(239, 1, 2, 3), 5004, St2110Type::Audio, &pkt, Some(3), NOW);
    let s = find(&state, |s| s.protocol == "2110-30").expect("stream");
    assert_eq!(s.pcp_violations, 1);
    assert_eq!(s.observed_pcp, Some(3));
}

#[test]
fn pcp_no_advisory_for_untagged_aes67() {
    let mut state = CaptureState::new();
    let pkt = ip_udp_rtp(46 << 2, 5004, 96, 0, 0, 0xAAAA);
    state.handle_aes67(Ipv4Addr::new(239, 69, 0, 1), 5004, 96, &pkt, None, NOW);
    let s = stream(&state, "AES67 239.69.0.1:5004");
    assert_eq!(s.pcp_violations, 0);
}
