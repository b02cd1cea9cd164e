//! Reading of entity discovery.

use avstreamlens::parser::avdecc::{media_type_summary, parse_adp, sr_class_str};

fn adp_payload() -> Vec<u8> {
    let mut p = vec![0u8; 69];
    p[0]  = 0xFA;
    p[1]  = 0x00;
    p[2]  = 0x28; p[3] = 0x38;
    p[4..12].copy_from_slice(&[0x48, 0x0B, 0xB2, 0xFF, 0xFE, 0xD0, 0x04, 0xEA]);
    p[12..20].copy_from_slice(&[0x48, 0x0B, 0xB2, 0xFF, 0xFE, 0x00, 0x00, 0x01]);
    p[20] = 0x00; p[21] = 0x00; p[22] = 0x01; p[23] = 0x08;
    p[24] = 0x00; p[25] = 0x01;
    p[26] = 0x02; p[27] = 0x01;
    p[28] = 0x00; p[29] = 0x00;
    p[30] = 0x00; p[31] = 0x00;
    p[36] = 0x00; p[37] = 0x00; p[38] = 0x00; p[39] = 0x03;
    p[40..48].copy_from_slice(&[0x28, 0x6F, 0x7F, 0xFF, 0xFE, 0x11, 0x22, 0x33]);
    p[48] = 0x00;
    p
}

#[test]
fn adp_entity_available_parsed() {
    let p = adp_payload();
    let adp = parse_adp(&p).expect("should parse");
    assert_eq!(adp.message_type, 0);
    assert_eq!(adp.entity_id, [0x48, 0x0B, 0xB2, 0xFF, 0xFE, 0xD0, 0x04, 0xEA]);
    assert_eq!(adp.entity_model_id, [0x48, 0x0B, 0xB2, 0xFF, 0xFE, 0x00, 0x00, 0x01]);
    assert_eq!(adp.entity_capabilities, 0x00000108);
    assert_eq!(adp.talker_stream_sources, 1);
    assert_eq!(adp.talker_capabilities, 0x0201);
    assert_eq!(adp.listener_stream_sinks, 0);
    assert_eq!(adp.available_index, 3);
    assert_eq!(adp.gptp_grandmaster_id, [0x28, 0x6F, 0x7F, 0xFF, 0xFE, 0x11, 0x22, 0x33]);
    assert_eq!(adp.gptp_domain_number, 0);
    assert_eq!(adp.valid_time_secs, 10);
}

#[test]
fn adp_wrong_subtype_returns_none() {
    let mut p = adp_payload();
    p[0] = 0x00;
    assert!(parse_adp(&p).is_none());
}

#[test]
fn adp_too_short_returns_none() {
    assert!(parse_adp(&[0xFA; 48]).is_none());
}

#[test]
fn adp_entity_departing_message_type() {
    let mut p = adp_payload();
    p[1] = 0x01;
    let adp = parse_adp(&p).unwrap();
    assert_eq!(adp.message_type, 1);
}

#[test]
fn sr_class_str_class_a_only() {
    assert_eq!(sr_class_str(0x00000108), "Class A");
}

#[test]
fn media_type_audio_only() {
    assert_eq!(media_type_summary(0x0201), "audio");
}
