//! From a frame to what it holds.

use avstreamlens::net::Ipv4Addr;
use avstreamlens::parser::{
    audio_classification_rules, detect_protocol_unwrapped, is_aes67_multicast,
    is_likely_dante_audio, is_st2110_multicast, parse_rtp, unwrap_vlan, AudioRule,
};
use avstreamlens::protocols::{AvProtocol, DanteKind, IgmpType, TransmitterClass};

fn detect_protocol(frame: &[u8]) -> Option<AvProtocol> {
    let (raw_et, _pcp, l2_payload) = unwrap_vlan(frame)?;
    detect_protocol_unwrapped(frame, raw_et, l2_payload)
}

fn eth_frame(ethertype: &[u8], extra: &[u8], payload: &[u8]) -> Vec<u8> {
    let mut f = vec![0u8; 12];
    f.extend_from_slice(ethertype);
    f.extend_from_slice(extra);
    f.extend_from_slice(payload);
    f
}

#[test]
fn rtp_valid_extracts_fields() {
    let p = [
        0x80, 0x60,
        0x00, 0x05,
        0x00, 0x00, 0xBB, 0x80,
        0xDE, 0xAD, 0xBE, 0xEF,
    ];
    let (seq, ts, ssrc) = parse_rtp(&p).unwrap();
    assert_eq!(seq,  5);
    assert_eq!(ts,   48_000);
    assert_eq!(ssrc, 0xDEADBEEF);
}

#[test]
fn rtp_wrong_version_returns_none() {
    let mut p = [0u8; 12];
    p[0] = 0x40;
    assert!(parse_rtp(&p).is_none());
}

#[test]
fn rtp_too_short_returns_none() {
    assert!(parse_rtp(&[0x80, 0x60, 0x00]).is_none());
}

#[test]
fn vlan_untagged_passthrough() {
    let frame = eth_frame(&[0x22, 0xF0], &[], &[0x01, 0x02]);
    let (et, pcp, payload) = unwrap_vlan(&frame).unwrap();
    assert_eq!(et, 0x22F0);
    assert_eq!(pcp, None, "untagged frames carry no PCP");
    assert_eq!(payload, &[0x01, 0x02]);
}

#[test]
fn vlan_single_802_1q_tag_stripped() {
    let frame = eth_frame(&[0x81, 0x00], &[0x60, 0x64, 0x22, 0xF0], &[0xAA, 0xBB]);
    let (et, pcp, payload) = unwrap_vlan(&frame).unwrap();
    assert_eq!(et, 0x22F0);
    assert_eq!(pcp, Some(3), "PCP extracted from outermost tag");
    assert_eq!(payload, &[0xAA, 0xBB]);
}

#[test]
fn vlan_qinq_both_tags_stripped() {
    let frame = eth_frame(
        &[0x88, 0xA8],
        &[0xA0, 0x0A, 0x81, 0x00, 0x60, 0x64, 0x22, 0xF0],
        &[0xCC, 0xDD],
    );
    let (et, pcp, payload) = unwrap_vlan(&frame).unwrap();
    assert_eq!(et, 0x22F0);
    assert_eq!(pcp, Some(5), "outermost tag PCP returned, not inner");
    assert_eq!(payload, &[0xCC, 0xDD]);
}

#[test]
fn avtp_seq_read_from_unwrapped_payload_on_tagged_frame() {
    let mut avtp = vec![0x00, 0x81, 0x2A, 0x00];
    avtp.extend_from_slice(&[0xAA,0xBB,0xCC,0xDD,0xEE,0xFF,0x00,0x01]);
    let frame = eth_frame(&[0x81, 0x00], &[0x00, 0x64, 0x22, 0xF0], &avtp);
    match detect_protocol(&frame) {
        Some(AvProtocol::Avb { subtype, stream_id, seq }) => {
            assert_eq!(subtype, 0x00);
            assert_eq!(seq, Some(0x2A), "seq must come from the AVTP header, not the VLAN tag");
            assert_eq!(stream_id, Some([0xAA,0xBB,0xCC,0xDD,0xEE,0xFF,0x00,0x01]));
        }
        other => panic!("expected Avb, got {:?}", other),
    }
}

#[test]
fn avdecc_adp_frame_not_classified_as_generic_avb() {
    let mut adp = vec![0xFAu8, 0x00];
    adp.extend_from_slice(&[0u8; 62]);
    let frame = eth_frame(&[0x22, 0xF0], &[], &adp);
    assert!(
        matches!(detect_protocol(&frame), Some(AvProtocol::AvdeccAdp(_))),
        "byte0=0xFA must be classified as AvdeccAdp, never generic AvProtocol::Avb"
    );
}

#[test]
fn dante_audio_both_ports_in_range_even() {
    assert!(is_likely_dante_audio(5002, 5004, 96));
}

#[test]
fn dante_audio_ephemeral_src_port_rejected() {
    assert!(!is_likely_dante_audio(50000, 5004, 96));
}

#[test]
fn dante_audio_odd_dst_port_rejected() {
    assert!(!is_likely_dante_audio(5002, 5005, 96));
}

#[test]
fn dante_audio_dst_out_of_range_rejected() {
    assert!(!is_likely_dante_audio(5002, 6002, 96));
}

#[test]
fn aes67_multicast_address_recognised() {
    assert!( is_aes67_multicast( Ipv4Addr::new(239, 69, 0, 1)));
    assert!(!is_aes67_multicast( Ipv4Addr::new(239,  0, 0, 1)));
    assert!(!is_aes67_multicast( Ipv4Addr::new(192,168, 1, 1)));
}

#[test]
fn st2110_multicast_address_recognised() {
    assert!( is_st2110_multicast(Ipv4Addr::new(239,  0, 0, 1)));
    assert!(!is_st2110_multicast(Ipv4Addr::new(239, 69, 0, 1)));
    assert!(!is_st2110_multicast(Ipv4Addr::new(192,168, 1, 1)));
}

fn eth_ip_udp_rtp(dst: Ipv4Addr, src_port: u16, dst_port: u16, pt: u8) -> Vec<u8> {
    let mut ip = vec![0u8; 20 + 8 + 12];
    ip[0] = 0x45;
    let total: u16 = (20 + 8 + 12) as u16;
    ip[2..4].copy_from_slice(&total.to_be_bytes());
    ip[8] = 64;
    ip[9] = 0x11;
    ip[12..16].copy_from_slice(&[192, 168, 1, 10]);
    ip[16..20].copy_from_slice(&dst.octets());
    ip[20..22].copy_from_slice(&src_port.to_be_bytes());
    ip[22..24].copy_from_slice(&dst_port.to_be_bytes());
    ip[24..26].copy_from_slice(&20u16.to_be_bytes());
    ip[28] = 0x80;
    ip[29] = pt & 0x7F;
    eth_frame(&[0x08, 0x00], &[], &ip)
}

#[test]
fn dante_multicast_with_ephemeral_src_classified_as_dante() {
    let frame = eth_ip_udp_rtp(Ipv4Addr::new(239, 255, 0, 1), 41000, 5004, 96);
    assert!(matches!(detect_protocol(&frame),
        Some(AvProtocol::Dante { kind: DanteKind::AudioStream, .. })),
        "multicast Dante must not be misclassified as ST2110");
}

#[test]
fn dante_port_heuristic_wins_over_aes67_multicast_address() {
    let frame = eth_ip_udp_rtp(Ipv4Addr::new(239, 69, 0, 1), 5002, 5004, 96);
    assert!(matches!(detect_protocol(&frame),
        Some(AvProtocol::Dante { kind: DanteKind::AudioStream, .. })),
        "Dante's port-only heuristic takes priority over the AES67 IP block");
}

#[test]
fn st2110_catch_all_is_the_last_classification_rule() {
    let rules = audio_classification_rules();
    let last = *rules.last().expect("rule list must not be empty");
    assert_eq!(last, AudioRule::St2110Stream, "the ST2110 catch-all must stay last");
}

#[test]
fn st2110_multicast_outside_dante_block_unaffected() {
    let frame = eth_ip_udp_rtp(Ipv4Addr::new(239, 1, 2, 3), 41000, 5006, 96);
    assert!(matches!(detect_protocol(&frame), Some(AvProtocol::St2110 { .. })));
}

fn eth_ip_udp(src: Ipv4Addr, dst: Ipv4Addr, src_port: u16, dst_port: u16, payload: &[u8]) -> Vec<u8> {
    let udp_len = (8 + payload.len()) as u16;
    let mut ip = vec![0u8; 20 + 8 + payload.len()];
    ip[0] = 0x45;
    let total = (20 + udp_len) as u16;
    ip[2..4].copy_from_slice(&total.to_be_bytes());
    ip[8] = 64;
    ip[9] = 0x11;
    ip[12..16].copy_from_slice(&src.octets());
    ip[16..20].copy_from_slice(&dst.octets());
    ip[20..22].copy_from_slice(&src_port.to_be_bytes());
    ip[22..24].copy_from_slice(&dst_port.to_be_bytes());
    ip[24..26].copy_from_slice(&udp_len.to_be_bytes());
    ip[28..].copy_from_slice(payload);
    eth_frame(&[0x08, 0x00], &[], &ip)
}

fn conmon_payload(mac: [u8; 6]) -> Vec<u8> {
    let mut p = vec![0u8; 64];
    p[0] = 0xff; p[1] = 0xff;
    p[2..4].copy_from_slice(&(64u16).to_be_bytes());
    p[8..14].copy_from_slice(&mac);
    p[16..24].copy_from_slice(b"Audinate");
    p
}

#[test]
fn conmon_multicast_frame_classified_as_dante_conmon() {
    let mac = [0x00, 0x1d, 0xc1, 0x19, 0x86, 0x2a];
    let frame = eth_ip_udp(
        Ipv4Addr::new(169, 254, 81, 11), Ipv4Addr::new(224, 0, 0, 232),
        51340, 8705, &conmon_payload(mac),
    );
    match detect_protocol(&frame) {
        Some(AvProtocol::Dante { kind: DanteKind::ConMon { device_mac, .. }, src, .. }) => {
            assert_eq!(device_mac, mac);
            assert_eq!(src, Ipv4Addr::new(169, 254, 81, 11));
        }
        other => panic!("expected Dante ConMon, got {:?}", other),
    }
}

#[test]
fn port_8700_without_audinate_signature_stays_dante_control() {
    let frame = eth_ip_udp(
        Ipv4Addr::new(192, 168, 1, 50), Ipv4Addr::new(192, 168, 1, 60),
        40000, 8700, &[0u8; 32],
    );
    assert!(matches!(detect_protocol(&frame),
        Some(AvProtocol::Dante { kind: DanteKind::Control, .. })));
}

#[test]
fn dvs_control_port_classified_as_control_plane_dvs() {
    let frame = eth_ip_udp(
        Ipv4Addr::new(192, 168, 1, 70), Ipv4Addr::new(192, 168, 1, 71),
        50000, 38700, &[0u8; 16],
    );
    assert!(matches!(detect_protocol(&frame),
        Some(AvProtocol::Dante { kind: DanteKind::ControlPlane { class: TransmitterClass::Dvs }, .. })));
}

#[test]
fn via_control_port_classified_as_control_plane_via() {
    let frame = eth_ip_udp(
        Ipv4Addr::new(192, 168, 1, 72), Ipv4Addr::new(192, 168, 1, 73),
        28700, 50000, &[0u8; 16],
    );
    assert!(matches!(detect_protocol(&frame),
        Some(AvProtocol::Dante { kind: DanteKind::ControlPlane { class: TransmitterClass::Via }, .. })));
}

#[test]
fn fpga_keepalive_port_classified_as_control_plane_hardware() {
    let frame = eth_ip_udp(
        Ipv4Addr::new(192, 168, 1, 74), Ipv4Addr::new(192, 168, 1, 75),
        50000, 61500, &[0u8; 16],
    );
    assert!(matches!(detect_protocol(&frame),
        Some(AvProtocol::Dante { kind: DanteKind::ControlPlane { class: TransmitterClass::Hardware }, .. })));
}

#[test]
fn atp_multicast_port_4321_classified_as_dante_audio() {
    let frame = eth_ip_udp(
        Ipv4Addr::new(169, 254, 81, 11), Ipv4Addr::new(239, 255, 10, 1),
        14400, 4321, &[0u8; 64],
    );
    assert!(matches!(detect_protocol(&frame),
        Some(AvProtocol::Dante { kind: DanteKind::AudioStream, .. })));
}

#[test]
fn atp_unicast_official_range_classified_as_dante_audio() {
    let frame = eth_ip_udp(
        Ipv4Addr::new(192, 168, 1, 50), Ipv4Addr::new(192, 168, 1, 60),
        14400, 15000, &[0u8; 64],
    );
    assert!(matches!(detect_protocol(&frame),
        Some(AvProtocol::Dante { kind: DanteKind::AudioStream, .. })));
}

#[test]
fn atp_unicast_classified_when_only_dst_port_in_range() {
    let frame = eth_ip_udp(
        Ipv4Addr::new(169, 254, 123, 52), Ipv4Addr::new(169, 254, 52, 47),
        49158, 14337, &[0u8; 64],
    );
    assert!(matches!(detect_protocol(&frame),
        Some(AvProtocol::Dante { kind: DanteKind::AudioStream, .. })));
}

#[test]
fn atp_unicast_classified_when_only_src_port_in_range() {
    let frame = eth_ip_udp(
        Ipv4Addr::new(169, 254, 52, 47), Ipv4Addr::new(169, 254, 123, 52),
        14337, 49158, &[0u8; 64],
    );
    assert!(matches!(detect_protocol(&frame),
        Some(AvProtocol::Dante { kind: DanteKind::AudioStream, .. })));
}

#[test]
fn atp_unicast_neither_port_in_range_falls_through() {
    let frame = eth_ip_udp(
        Ipv4Addr::new(192, 168, 1, 50), Ipv4Addr::new(192, 168, 1, 60),
        40000, 40001, &[0u8; 64],
    );
    assert!(detect_protocol(&frame).is_none());
}

#[test]
fn dante_multicast_nonaudio_port_falls_through_to_st2110() {
    let frame = eth_ip_udp_rtp(Ipv4Addr::new(239, 255, 1, 1), 41000, 50000, 96);
    assert!(matches!(detect_protocol(&frame), Some(AvProtocol::St2110 { .. })));
}

#[test]
fn igmpv3_query_with_router_alert_option_detected() {
    let mut ip = vec![0u8; 24 + 12];
    ip[0] = 0x46;
    let total: u16 = (24 + 12) as u16;
    ip[2..4].copy_from_slice(&total.to_be_bytes());
    ip[8] = 1;
    ip[9] = 0x02;
    ip[12..16].copy_from_slice(&[10, 244, 70, 241]);
    ip[16..20].copy_from_slice(&[224, 0, 0, 1]);
    ip[20..24].copy_from_slice(&[0x94, 0x04, 0x00, 0x00]);
    ip[24] = 0x11;

    let frame = eth_frame(&[0x08, 0x00], &[], &ip);
    let proto = detect_protocol(&frame);
    assert!(
        matches!(
            proto,
            Some(AvProtocol::Igmp { igmp_type: IgmpType::Query { .. }, .. })
        ),
        "IGMPv3 query with Router Alert (IHL=6) must be detected as a Query"
    );
    if let Some(AvProtocol::Igmp { group, src, .. }) = proto {
        assert_eq!(group, Ipv4Addr::new(224, 0, 0, 1));
        assert_eq!(src, Ipv4Addr::new(10, 244, 70, 241));
    }
}

#[test]
fn igmpv3_membership_report_group_records_extracted() {
    let mut igmp_payload = vec![0u8; 24];
    igmp_payload[0] = 0x22;
    igmp_payload[6] = 0x00; igmp_payload[7] = 0x02;
    igmp_payload[8]  = 2;
    igmp_payload[9]  = 0;
    igmp_payload[10] = 0; igmp_payload[11] = 0;
    igmp_payload[12..16].copy_from_slice(&[239, 69, 0, 1]);
    igmp_payload[16] = 2;
    igmp_payload[17] = 0;
    igmp_payload[18] = 0; igmp_payload[19] = 0;
    igmp_payload[20..24].copy_from_slice(&[239, 255, 1, 2]);

    let mut ip = vec![0u8; 20 + igmp_payload.len()];
    ip[0] = 0x45;
    let total = (20 + igmp_payload.len()) as u16;
    ip[2..4].copy_from_slice(&total.to_be_bytes());
    ip[8] = 1;
    ip[9] = 0x02;
    ip[12..16].copy_from_slice(&[10, 0, 0, 1]);
    ip[16..20].copy_from_slice(&[224, 0, 0, 22]);
    ip[20..].copy_from_slice(&igmp_payload);

    let frame = eth_frame(&[0x08, 0x00], &[], &ip);
    let proto = detect_protocol(&frame);

    if let Some(AvProtocol::Igmp {
        igmp_type: IgmpType::MembershipReportV3 { groups }, ..
    }) = proto {
        assert_eq!(groups.len(), 2, "expected 2 group records");
        assert!(groups.contains(&Ipv4Addr::new(239, 69,  0, 1)), "AES67 group missing");
        assert!(groups.contains(&Ipv4Addr::new(239, 255, 1, 2)), "Dante group missing");
    } else {
        panic!("expected MembershipReportV3, got {:?}", proto);
    }
}

fn mdns_frame(src_ip: [u8; 4], qr: bool, mdns_body: &[u8]) -> Vec<u8> {
    let udp_len = (8 + mdns_body.len()) as u16;
    let ip_total = (20 + udp_len) as u16;
    let mut ip = vec![0u8; 20 + 8 + mdns_body.len()];
    ip[0] = 0x45;
    ip[2..4].copy_from_slice(&ip_total.to_be_bytes());
    ip[8] = 255;
    ip[9] = 0x11;
    ip[12..16].copy_from_slice(&src_ip);
    ip[16..20].copy_from_slice(&[224, 0, 0, 251]);
    ip[20..22].copy_from_slice(&5353u16.to_be_bytes());
    ip[22..24].copy_from_slice(&5353u16.to_be_bytes());
    ip[24..26].copy_from_slice(&udp_len.to_be_bytes());
    let dns_start = 28usize;
    ip[dns_start..dns_start + mdns_body.len()].copy_from_slice(mdns_body);
    if qr { ip[dns_start + 2] |= 0x80; }
    eth_frame(&[0x08, 0x00], &[], &ip)
}

fn netaudio_response_payload() -> Vec<u8> {
    let instance: &[u8] = b"StageBox";
    let mut p = vec![
        0x00, 0x00,
        0x84, 0x00,
        0x00, 0x00,
        0x00, 0x01,
        0x00, 0x00,
        0x00, 0x00,
    ];
    p.push(instance.len() as u8);
    p.extend_from_slice(instance);
    p.extend_from_slice(b"\x09_netaudio");
    p
}

#[test]
fn mdns_response_from_dante_device_classified_as_discovery() {
    let dante_ip = [192, 168, 1, 50];
    let body = netaudio_response_payload();
    let frame = mdns_frame(dante_ip, true, &body);
    assert!(
        matches!(
            detect_protocol(&frame),
            Some(AvProtocol::Dante { kind: DanteKind::Discovery { .. }, .. })
        ),
        "mDNS response with _netaudio must be Dante Discovery"
    );
}

#[test]
fn mdns_query_for_dante_service_suppressed_by_qr_bit() {
    let local_ip = [192, 168, 1, 108];
    let mut body = netaudio_response_payload();
    body[2] &= 0x7F;
    let frame = mdns_frame(local_ip, false, &body);
    assert!(
        detect_protocol(&frame).is_none(),
        "mDNS query (QR=0) must not be classified as Dante Discovery"
    );
}

#[test]
fn mdns_query_for_ndi_service_suppressed_by_qr_bit() {
    let local_ip = [192, 168, 1, 108];
    let mut p = vec![
        0x00, 0x00,
        0x00, 0x00,
        0x00, 0x01,
        0x00, 0x00,
        0x00, 0x00, 0x00, 0x00,
    ];
    let instance: &[u8] = b"MyNDI";
    p.push(instance.len() as u8);
    p.extend_from_slice(instance);
    p.extend_from_slice(b"\x04_ndi");
    let frame = mdns_frame(local_ip, false, &p);
    assert!(
        detect_protocol(&frame).is_none(),
        "mDNS query (QR=0) must not be classified as NDI Discovery"
    );
}
