//! Reading of stream reservation and VLAN registration.

use avstreamlens::parser::avb::{parse_msrp, parse_mvrp};
use avstreamlens::protocols::{msrp_failure_reason, MsrpDeclType};

fn msrp_talker_advertise_pdu() -> Vec<u8> {
    let mut p = vec![
        0x00,
        0x01,
        0x19,
        0x00, 0x1B,
        0x00, 0x01,
    ];
    p.extend_from_slice(&[0xAA,0xBB,0xCC,0xDD,0xEE,0xFF,0x00,0x01]);
    p.extend_from_slice(&[0x01,0x02,0x03,0x04,0x05,0x06]);
    p.extend_from_slice(&[0x00, 0x64]);
    p.extend_from_slice(&[0x05, 0xDC]);
    p.extend_from_slice(&[0x00, 0x08]);
    p.push(0x60);
    p.extend_from_slice(&[0x00; 4]);
    p
}

#[test]
fn msrp_talker_advertise_parsed() {
    let decls = parse_msrp(&msrp_talker_advertise_pdu());
    assert_eq!(decls.len(), 1);
    let d = &decls[0];
    assert!(matches!(d.decl_type, MsrpDeclType::TalkerAdvertise));
    assert_eq!(d.stream_id,           [0xAA,0xBB,0xCC,0xDD,0xEE,0xFF,0x00,0x01]);
    assert_eq!(d.vlan_id,             Some(100));
    assert_eq!(d.max_frame_size,      Some(1500));
    assert_eq!(d.max_interval_frames, Some(8));
    assert_eq!(d.priority,            Some(3));
}

fn msrp_talker_failed_pdu() -> Vec<u8> {
    let mut p = vec![
        0x00,
        0x02,
        0x22,
        0x00, 0x24,
        0x00, 0x01,
    ];
    p.extend_from_slice(&[0xAA,0xBB,0xCC,0xDD,0xEE,0xFF,0x00,0x01]);
    p.extend_from_slice(&[0x01,0x02,0x03,0x04,0x05,0x06]);
    p.extend_from_slice(&[0x00, 0x64]);
    p.extend_from_slice(&[0x05, 0xDC]);
    p.extend_from_slice(&[0x00, 0x08]);
    p.push(0x60);
    p.extend_from_slice(&[0x00; 4]);
    p.extend_from_slice(&[0x00; 8]);
    p.push(0x01);
    p
}

#[test]
fn msrp_talker_failed_decodes_failure_code() {
    let decls = parse_msrp(&msrp_talker_failed_pdu());
    assert_eq!(decls.len(), 1);
    let d = &decls[0];
    assert!(matches!(d.decl_type, MsrpDeclType::TalkerFailed));
    assert_eq!(d.stream_id,    [0xAA,0xBB,0xCC,0xDD,0xEE,0xFF,0x00,0x01]);
    assert_eq!(d.failure_code, Some(1), "FailureCode is at FirstValue offset 33");
}

#[test]
fn msrp_failure_reason_maps_known_and_unknown_codes() {
    assert_eq!(msrp_failure_reason(8), "egress port is not AVB-capable");
    assert_eq!(msrp_failure_reason(1), "insufficient bandwidth");
    assert_eq!(msrp_failure_reason(6), "stream pre-empted by a higher-rank stream");
    assert_eq!(msrp_failure_reason(200), "unknown failure");
}

#[test]
fn msrp_empty_payload_returns_empty() {
    assert!(parse_msrp(&[]).is_empty());
}

#[test]
fn msrp_wrong_version_returns_empty() {
    assert!(parse_msrp(&[0x01, 0x00]).is_empty());
}

#[test]
fn mvrp_single_vlan_id_parsed() {
    let p = [
        0x00,
        0x01,
        0x02,
        0x00, 0x01,
        0x00, 0x64,
        0x00,
        0x00, 0x00,
    ];
    assert_eq!(parse_mvrp(&p), vec![100]);
}

#[test]
fn mvrp_multi_value_vector_yields_consecutive_vids() {
    let p = [
        0x00,
        0x01,
        0x02,
        0x00, 0x03,
        0x00, 0x64,
        0x00,
        0x00, 0x00,
    ];
    assert_eq!(parse_mvrp(&p), vec![100, 101, 102]);
}

#[test]
fn mvrp_leave_all_only_vector_has_no_vid() {
    let p = [
        0x00,
        0x01,
        0x02,
        0x20, 0x00,
        0x00, 0x00,
    ];
    assert!(parse_mvrp(&p).is_empty());
}

#[test]
fn mvrp_empty_returns_empty() {
    assert!(parse_mvrp(&[]).is_empty());
}
