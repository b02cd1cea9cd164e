//! Reading of clock messages.

use avstreamlens::parser::ptp::{map_ptpv1_subdomain, parse_ptp};

fn ptpv2_announce(gm: [u8; 8], domain: u8, clock_class: u8, clock_acc: u8) -> Vec<u8> {
    let mut p = vec![0u8; 64];
    p[0]  = 0x0B;
    p[1]  = 0x02;
    p[4]  = domain;
    p[20..28].copy_from_slice(&[0xAA,0xBB,0xCC,0xDD,0xEE,0xFF,0x11,0x22]);
    p[30] = 0x00; p[31] = 0x07;
    p[48] = clock_class;
    p[49] = clock_acc;
    p[53..61].copy_from_slice(&gm);
    p
}

fn ptpv1_nibble_sync(gm_uuid: [u8; 6], stratum: u8, ident: &[u8; 4]) -> Vec<u8> {
    let mut p = vec![0u8; 66];
    p[0] = 0x11;
    p[4..9].copy_from_slice(b"_DFLT");
    p[32] = 0x00;
    p[50..56].copy_from_slice(&gm_uuid);
    p[61] = stratum;
    p[62..66].copy_from_slice(ident);
    p
}

#[test]
fn ptpv2_announce_extracts_grandmaster() {
    let gm = [0x00, 0x1A, 0xE5, 0xFF, 0xFE, 0x12, 0x34, 0x56];
    let p  = ptpv2_announce(gm, 0, 6, 0x20);
    let info = parse_ptp(&p).unwrap();
    assert_eq!(info.version, 2);
    assert_eq!(info.domain,  0);
    assert_eq!(info.grandmaster_id.as_deref(), Some("00:1a:e5:ff:fe:12:34:56"));
    let q = info.clock_quality.unwrap();
    assert!(q.contains("Primary reference — locked"), "got: {}", q);
    assert!(q.contains("< 100 ns"),                  "got: {}", q);
}

#[test]
fn ptpv2_announce_domain_preserved() {
    let p = ptpv2_announce([0; 8], 3, 6, 0x20);
    assert_eq!(parse_ptp(&p).unwrap().domain, 3);
}

#[test]
fn ptpv2_sync_has_no_grandmaster() {
    let mut p = vec![0u8; 44];
    p[0] = 0x00; p[1] = 0x02;
    let info = parse_ptp(&p).unwrap();
    assert_eq!(info.message_type, 0x00);
    assert!(info.grandmaster_id.is_none());
}

#[test]
fn ptpv2_too_short_returns_none() {
    assert!(parse_ptp(&[0x0B, 0x02, 0x00]).is_none());
}

#[test]
fn ptpv1_nibble_packed_extracts_grandmaster() {
    let p = ptpv1_nibble_sync([0xAA,0xBB,0xCC,0xDD,0xEE,0xFF], 1, b"GPS ");
    let info = parse_ptp(&p).unwrap();
    assert_eq!(info.version, 1);
    assert_eq!(info.domain,  0);
    assert_eq!(info.grandmaster_id.as_deref(), Some("aa:bb:cc:dd:ee:ff"));
    let q = info.clock_quality.unwrap();
    assert!(q.contains("Primary reference"), "got: {}", q);
    assert!(q.contains("GPS"),               "got: {}", q);
}

#[test]
fn ptpv1_single_byte_version_detected() {
    let mut p = vec![0u8; 40];
    p[0]  = 0x01;
    p[1]  = 0x01;
    p[32] = 0x00;
    let info = parse_ptp(&p).unwrap();
    assert_eq!(info.version,      1);
    assert_eq!(info.message_type, 0x00);
}

#[test]
fn ptpv1_standard_ieee1588_extracts_grandmaster() {
    let mut p = vec![0u8; 66];
    p[0]  = 0x00; p[1]  = 0x01;
    p[2]  = 0x00; p[3]  = 0x01;
    p[4..9].copy_from_slice(b"_DFLT");
    p[20] = 0x01;
    p[21] = 0x01;
    p[22..28].copy_from_slice(&[0x00, 0x1d, 0xc1, 0x8e, 0xb1, 0x75]);
    p[32] = 0x00;
    p[50..56].copy_from_slice(&[0x00, 0x1d, 0xc1, 0x8e, 0xb1, 0x75]);
    p[61] = 1;
    p[62..66].copy_from_slice(b"GPS ");
    let info = parse_ptp(&p).unwrap();
    assert_eq!(info.version, 1);
    assert_eq!(info.domain,  0);
    assert_eq!(info.clock_id.as_deref(),       Some("00:1d:c1:8e:b1:75"));
    assert_eq!(info.grandmaster_id.as_deref(), Some("00:1d:c1:8e:b1:75"));
    assert!(info.clock_quality.as_deref().unwrap_or("").contains("Primary reference"));
    assert!(info.clock_quality.as_deref().unwrap_or("").contains("GPS"));
}

#[test]
fn ptpv1_alt1_subdomain_maps_to_domain_1() {
    let mut p = vec![0u8; 40];
    p[0] = 0x01;
    p[1] = 0x01;
    p[4..9].copy_from_slice(b"_ALT1");
    p[32] = 0x01;
    let info = parse_ptp(&p).unwrap();
    assert_eq!(info.domain, 1);
}

#[test]
fn ptpv1_non_ascii_ident_suppressed() {
    let p = ptpv1_nibble_sync(
        [0x00, 0x00, 0x00, 0x01, 0x00, 0x1d],
        0,
        &[0xa9, 0xfe, 0x68, 0x56],
    );
    let q = parse_ptp(&p).unwrap().clock_quality.unwrap();
    assert!(!q.contains("????"), "should not contain ????, got: {}", q);
    assert!(!q.contains(':'), "should not contain hex bytes, got: {}", q);
    assert_eq!(q, "Preferred grandmaster", "non-ASCII ident should be suppressed, got: {}", q);
}

#[test]
fn ptpv1_high_byte_ident_suppressed() {
    let p = ptpv1_nibble_sync(
        [0x00, 0x00, 0x00, 0x01, 0x00, 0x1d],
        0,
        &[0xcd, 0x9f, 0x00, 0x00],
    );
    let q = parse_ptp(&p).unwrap().clock_quality.unwrap();
    assert_eq!(q, "Preferred grandmaster", "high-byte ident should be suppressed, got: {}", q);
}

#[test]
fn ptpv1_null_ident_omitted_from_quality() {
    let p = ptpv1_nibble_sync(
        [0x00, 0x1d, 0xc1, 0x8e, 0xb1, 0x75],
        1,
        &[0x00, 0x00, 0x00, 0x00],
    );
    let q = parse_ptp(&p).unwrap().clock_quality.unwrap();
    assert_eq!(q, "Primary reference");
}

#[test]
fn ptpv1_subdomain_maps_to_domain_number() {
    let make = |s: &[u8]| { let mut a = [0u8; 16]; a[..s.len()].copy_from_slice(s); a };
    assert_eq!(map_ptpv1_subdomain(&make(b"_DFLT")), 0);
    assert_eq!(map_ptpv1_subdomain(&make(b"_ALT1")), 1);
    assert_eq!(map_ptpv1_subdomain(&make(b"_ALT2")), 2);
    assert_eq!(map_ptpv1_subdomain(&make(b"_ALT3")), 3);
    assert_eq!(map_ptpv1_subdomain(&make(b"custom")), 0);
}
