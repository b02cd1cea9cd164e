//! Reading of control and monitoring.

use avstreamlens::parser::conmon::parse_conmon;

fn metering_frame() -> Vec<u8> {
    vec![
        0xff, 0xff, 0x00, 0x68, 0xbf, 0xa4, 0x00, 0x00, 0x00, 0x1d, 0xc1, 0x19, 0x86, 0x2a,
        0x00, 0x00, 0x41, 0x75, 0x64, 0x69, 0x6e, 0x61, 0x74, 0x65, 0x07, 0x2e, 0x10, 0x02,
        0x00, 0x00, 0x00, 0x00, 0xbf, 0xa4, 0x00, 0x10, 0x00, 0x01, 0x00, 0x00, 0x3f, 0xc0,
        0x4d, 0x42, 0x43, 0x01, 0x00, 0x2a, 0x00, 0x1d, 0xc1, 0x19, 0x86, 0x2a, 0xff, 0xff,
        0xff, 0xff, 0xff, 0xff, 0x00, 0x00, 0x2a, 0x13, 0x07, 0x42, 0x00, 0x00, 0x20, 0x00,
        0x00, 0x21, 0x21, 0x21, 0x21, 0x21, 0x21, 0x21, 0x21, 0x21, 0x21, 0x21, 0x21, 0x21,
        0x21, 0x21, 0x21, 0x21, 0x21, 0x21, 0x21, 0x51, 0x55, 0x51, 0x20, 0x22, 0x22, 0x22,
        0x22, 0x22, 0x22, 0x59, 0x5e, 0xcd,
    ]
}

fn status_frame(mac: [u8; 6]) -> Vec<u8> {
    let mut p = vec![0u8; 64];
    p[0] = 0xff;
    p[1] = 0xfe;
    p[2..4].copy_from_slice(&(64u16).to_be_bytes());
    p[4..6].copy_from_slice(&0xb986u16.to_be_bytes());
    p[8..14].copy_from_slice(&mac);
    p[16..24].copy_from_slice(b"Audinate");
    p
}

#[test]
fn metering_frame_extracts_mac_and_channel_count() {
    let info = parse_conmon(&metering_frame()).expect("valid ConMon frame");
    assert_eq!(info.device_mac, [0x00, 0x1d, 0xc1, 0x19, 0x86, 0x2a]);
    assert_eq!(
        info.channels,
        Some(32),
        "channel count byte at 0x44 is 0x20"
    );
}

#[test]
fn status_frame_without_mbc_has_no_channel_count() {
    let mac = [0xac, 0x44, 0xf2, 0x84, 0x1e, 0x60];
    let info = parse_conmon(&status_frame(mac)).expect("valid ConMon frame");
    assert_eq!(info.device_mac, mac);
    assert_eq!(info.channels, None);
}

fn eui64_status_frame(identity: [u8; 8]) -> Vec<u8> {
    let mut p = vec![0u8; 64];
    p[0] = 0xff;
    p[1] = 0xfe;
    p[2..4].copy_from_slice(&(64u16).to_be_bytes());
    p[4..6].copy_from_slice(&0xb986u16.to_be_bytes());
    p[8..16].copy_from_slice(&identity);
    p[16..24].copy_from_slice(b"Audinate");
    p
}

#[test]
fn eui64_identity_stripped_to_real_mac() {
    let info = parse_conmon(&eui64_status_frame([0xf4, 0xd5, 0x80, 0xff, 0xfe, 0x22, 0x24, 0x82]))
        .expect("valid ConMon frame");
    assert_eq!(info.device_mac, [0xf4, 0xd5, 0x80, 0x22, 0x24, 0x82]);
}

#[test]
fn eui64_identity_disambiguates_devices_sharing_oui_and_high_nic_byte() {
    let a = parse_conmon(&eui64_status_frame([0xf4, 0xd5, 0x80, 0xff, 0xfe, 0x22, 0x24, 0x82]))
        .expect("valid ConMon frame");
    let b = parse_conmon(&eui64_status_frame([0xf4, 0xd5, 0x80, 0xff, 0xfe, 0x22, 0x34, 0x42]))
        .expect("valid ConMon frame");
    assert_eq!(a.device_mac, [0xf4, 0xd5, 0x80, 0x22, 0x24, 0x82]);
    assert_eq!(b.device_mac, [0xf4, 0xd5, 0x80, 0x22, 0x34, 0x42]);
    assert_ne!(a.device_mac, b.device_mac);
}

#[test]
fn wrong_signature_rejected() {
    let mut p = metering_frame();
    p[16..24].copy_from_slice(b"NotDante");
    assert!(parse_conmon(&p).is_none());
}

#[test]
fn declared_length_longer_than_payload_rejected() {
    let mut p = metering_frame();
    p[2..4].copy_from_slice(&(200u16).to_be_bytes());
    assert!(parse_conmon(&p).is_none());
}

#[test]
fn trailing_padding_tolerated() {
    let mut p = metering_frame();
    p.extend_from_slice(&[0u8; 8]);
    let info = parse_conmon(&p).expect("padded frame must still parse");
    assert_eq!(info.channels, Some(32));
}

#[test]
fn short_payload_rejected() {
    assert!(parse_conmon(&metering_frame()[..20]).is_none());
}

fn yamaha_dsp_mbc_frame() -> Vec<u8> {
    vec![
        0xff, 0xff, 0x00, 0x48, 0xc0, 0x8f, 0x00, 0x00, 0xac, 0x44, 0xf2, 0x84, 0x1e, 0x60,
        0x00, 0x00, 0x41, 0x75, 0x64, 0x69, 0x6e, 0x61, 0x74, 0x65, 0x07, 0x2e, 0x10, 0x02,
        0x00, 0x00, 0x00, 0x00, 0xc0, 0x8f, 0x00, 0x10, 0x00, 0x01, 0x00, 0x00, 0x1f, 0xc0,
        0x4d, 0x42, 0x43, 0x01, 0x00, 0x0a, 0xac, 0x44, 0xf2, 0x6e, 0x04, 0xec, 0xff, 0xff,
        0xff, 0xff, 0xff, 0xff, 0x00, 0x00, 0x0a, 0x01, 0x07, 0x1f, 0x06, 0x00, 0x01, 0x00,
        0x00, 0xf0,
    ]
}

#[test]
fn yamaha_dsp_mbc_sub_device_mac_suppresses_channel_count() {
    let info = parse_conmon(&yamaha_dsp_mbc_frame()).expect("valid ConMon frame");
    assert_eq!(info.device_mac, [0xac, 0x44, 0xf2, 0x84, 0x1e, 0x60]);
    assert_eq!(info.channels, None, "sub-device MAC mismatch must suppress channel count");
}

#[test]
fn channel_count_exceeding_frame_bounds_suppressed() {
    let mut p = metering_frame();
    p[0x44] = 200;
    let info = parse_conmon(&p).expect("header still valid");
    assert_eq!(info.channels, None);
}
