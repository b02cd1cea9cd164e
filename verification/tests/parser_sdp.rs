//! Reading of session announcements.

use avstreamlens::parser::sdp::{parse_sap_packet, parse_sdp, parse_ts_refclk};
use avstreamlens::protocols::hertz;

#[test]
fn sdp_single_media_section_parsed() {
    let sdp = "v=0\r\no=- 12345 1 IN IP4 192.168.1.1\r\ns=Stage Mix\r\n\
               m=audio 5004 RTP/AVP 96\r\nc=IN IP4 239.69.0.1\r\n\
               a=rtpmap:96 L24/48000/2\r\na=ptime:1\r\n";
    let s = parse_sdp(sdp);
    assert_eq!(s.session_id,   "12345");
    assert_eq!(s.session_name, "Stage Mix");
    assert_eq!(s.media.len(), 1);
    let m = &s.media[0];
    assert_eq!(m.port,     5004);
    assert_eq!(m.channels, 2);
    assert_eq!(m.clock_uhz, hertz(48_000));
    assert_eq!(m.ptime_ns, 1_000_000);
}

#[test]
fn sdp_multiple_media_sections_all_captured() {
    let sdp = "v=0\r\no=- 1 1 IN IP4 1.2.3.4\r\ns=Multi\r\n\
               m=audio 5004 RTP/AVP 96\r\na=rtpmap:96 L24/48000/2\r\n\
               m=video 5006 RTP/AVP 103\r\na=rtpmap:103 raw/90000\r\n";
    let s = parse_sdp(sdp);
    assert_eq!(s.media.len(), 2);
    assert_eq!(s.media[0].port, 5004);
    assert_eq!(s.media[1].port, 5006);
}

#[test]
fn sdp_ts_refclk_attribute_captured() {
    let sdp = "v=0\r\no=- 1 1 IN IP4 1.2.3.4\r\ns=X\r\n\
               m=audio 5004 RTP/AVP 96\r\na=rtpmap:96 L24/48000\r\n\
               a=ts-refclk:ptp=IEEE1588-2008:00-1a-e5-ff-fe-12-34-56:0\r\n";
    let s = parse_sdp(sdp);
    assert_eq!(s.media[0].ts_refclk,
               "ptp=IEEE1588-2008:00-1a-e5-ff-fe-12-34-56:0");
}

#[test]
fn ts_refclk_ptpv2_dashes_normalised() {
    let (id, domain) = parse_ts_refclk(
        "ptp=IEEE1588-2008:00-1a-e5-ff-fe-12-34-56:0").unwrap();
    assert_eq!(id,     "00:1a:e5:ff:fe:12:34:56");
    assert_eq!(domain, 0);
}

#[test]
fn ts_refclk_ptpv2_colons_domain_3() {
    let (id, domain) = parse_ts_refclk(
        "ptp=IEEE1588-2008:00:1a:e5:ff:fe:12:34:56:3").unwrap();
    assert_eq!(id,     "00:1a:e5:ff:fe:12:34:56");
    assert_eq!(domain, 3);
}

#[test]
fn ts_refclk_ptpv1_uuid_parsed() {
    let (id, domain) = parse_ts_refclk(
        "ptp=IEEE1588-2002:00-1a-e5-ff-fe-12:0").unwrap();
    assert_eq!(id,     "00:1a:e5:ff:fe:12");
    assert_eq!(domain, 0);
}

#[test]
fn ts_refclk_localmac_returns_none() {
    assert!(parse_ts_refclk("localmac=00-1a-e5-ff-fe-12-34-56").is_none());
}

fn sap_packet(t_bit: bool, sdp: &str) -> Vec<u8> {
    let flags = 0x20 | if t_bit { 0x04 } else { 0x00 };
    let mut pkt = vec![flags, 0x00, 0x00, 0x00, 1, 2, 3, 4];
    pkt.extend_from_slice(sdp.as_bytes());
    pkt
}

#[test]
fn sap_deletion_message_returns_none() {
    let sdp = "v=0\r\no=- 1 1 IN IP4 1.2.3.4\r\ns=X\r\nm=audio 5004 RTP/AVP 96\r\n";
    assert!(parse_sap_packet(&sap_packet(true, sdp)).is_none(),
        "SAP deletion (T=1) must not parse as an announcement");
}

#[test]
fn sap_announcement_message_parses() {
    let sdp = "v=0\r\no=- 1 1 IN IP4 1.2.3.4\r\ns=X\r\nm=audio 5004 RTP/AVP 96\r\n";
    let s = parse_sap_packet(&sap_packet(false, sdp)).expect("announcement should parse");
    assert_eq!(s.media.len(), 1);
    assert_eq!(s.media[0].port, 5004);
}
