//! Laws of the parsers on concrete values, and what the packet headers hold.

use avstreamlens::net::Ipv4Addr;
use avstreamlens::order::sort;
use avstreamlens::parser::avb::{parse_avtp_stream_id, parse_mvrp};
use avstreamlens::parser::avdecc::{fmt_eui64, media_type_summary, sr_class_str};
use avstreamlens::parser::conmon::parse_conmon;
use avstreamlens::parser::lldp::{format_lldp_id, parse_lldp_eee};
use avstreamlens::parser::mdns::{extract_dante_name, extract_ndi_name, mdns_contains, skip_dns_name};
use avstreamlens::parser::ptp::{parse_ptp, parse_ptp_v1, ptp_accuracy_str, ptp_class_str};
use avstreamlens::parser::sdp::{parse_sdp, parse_ts_refclk};
use avstreamlens::parser::{
    classify_audio, classify_st2110, detect_protocol_unwrapped, is_multicast, parse_tcp_packet,
    unwrap_vlan, AudioClassifyCtx,
};
use avstreamlens::protocols::{
    hertz, AvProtocol, DanteKind, IgmpType, NdiKind, ProtocolChoice, St2110Type,
};
use avstreamlens::scan::ENDLESS;
use avstreamlens::text::{
    join, prefixed, push_dec, push_fixed, push_hex2, push_hex_colons, push_hex_digit, push_signed,
};

fn detect(frame: &[u8]) -> Option<AvProtocol> {
    let (et, _, payload) = unwrap_vlan(frame)?;
    detect_protocol_unwrapped(frame, et, payload)
}

fn frame(ethertype: u16, payload: &[u8]) -> Vec<u8> {
    let mut f = vec![1, 0, 0x5e, 0, 0, 22, 0x02, 0x11, 0x22, 0x33, 0x44, 0x55];
    f.extend_from_slice(&ethertype.to_be_bytes());
    f.extend_from_slice(payload);
    f
}

fn ip(protocol: u8, src: [u8; 4], dst: [u8; 4], payload: &[u8]) -> Vec<u8> {
    let mut p = vec![0u8; 20];
    p[0] = 0x45;
    p[2..4].copy_from_slice(&((20 + payload.len()) as u16).to_be_bytes());
    p[8] = 64;
    p[9] = protocol;
    p[12..16].copy_from_slice(&src);
    p[16..20].copy_from_slice(&dst);
    p.extend_from_slice(payload);
    p
}

fn udp(src_port: u16, dst_port: u16, payload: &[u8]) -> Vec<u8> {
    let mut p = Vec::new();
    p.extend_from_slice(&src_port.to_be_bytes());
    p.extend_from_slice(&dst_port.to_be_bytes());
    p.extend_from_slice(&((8 + payload.len()) as u16).to_be_bytes());
    p.extend_from_slice(&[0, 0]);
    p.extend_from_slice(payload);
    p
}

fn tagged(f: &[u8], tag: [u8; 4]) -> Vec<u8> {
    let mut t = f[..12].to_vec();
    t.extend_from_slice(&tag);
    t.extend_from_slice(&f[12..]);
    t
}

#[test]
fn a_tag_changes_only_the_priority() {
    let plain = frame(0x22F0, &[0x00, 0x81, 0x2A, 0x00, 1, 2, 3, 4, 5, 6, 7, 8]);
    let once = tagged(&plain, [0x81, 0x00, 0x60, 0x02]);
    let twice = tagged(&once, [0x88, 0xA8, 0xE0, 0x05]);
    assert_eq!(unwrap_vlan(&plain).unwrap().1, None);
    assert_eq!(unwrap_vlan(&once).unwrap().1, Some(3));
    assert_eq!(unwrap_vlan(&twice).unwrap().1, Some(7));
    assert_eq!(unwrap_vlan(&plain).unwrap().2, unwrap_vlan(&twice).unwrap().2);
    assert_eq!(detect(&plain), detect(&once));
    assert_eq!(detect(&plain), detect(&twice));
}

#[test]
fn a_frame_that_ends_in_its_tag_holds_nothing() {
    assert_eq!(unwrap_vlan(&[0u8; 13]), None);
    let mut f = vec![0u8; 12];
    f.extend_from_slice(&[0x81, 0x00, 0x60]);
    assert_eq!(unwrap_vlan(&f), None);
}

#[test]
fn frames_of_other_types_are_ignored() {
    assert_eq!(detect(&frame(0x86DD, &[0x60; 60])), None);
    assert_eq!(detect(&frame(0x0806, &[0; 40])), None);
}

#[test]
fn sender_address_comes_from_the_frame() {
    let query = ip(2, [10, 0, 0, 1], [224, 0, 0, 1], &[0x11, 100, 0, 0, 0, 0, 0, 0]);
    match detect(&frame(0x0800, &query)) {
        Some(AvProtocol::Igmp { src, src_mac, group, igmp_type }) => {
            assert_eq!(src, Ipv4Addr::new(10, 0, 0, 1));
            assert_eq!(src_mac, [0x02, 0x11, 0x22, 0x33, 0x44, 0x55]);
            assert_eq!(group, Ipv4Addr::new(224, 0, 0, 1));
            assert_eq!(igmp_type, IgmpType::Query { version: 2 });
        }
        other => panic!("expected a query, got {other:?}"),
    }
}

#[test]
fn segments_are_read_field_by_field() {
    let mut seg = vec![0u8; 20];
    seg[0..2].copy_from_slice(&5961u16.to_be_bytes());
    seg[2..4].copy_from_slice(&51000u16.to_be_bytes());
    seg[4..8].copy_from_slice(&0x01020304u32.to_be_bytes());
    seg[8..12].copy_from_slice(&0x0A0B0C0Du32.to_be_bytes());
    seg[12] = 0x50;
    seg[13] = 0x05;
    let f = frame(0x0800, &ip(6, [10, 0, 0, 1], [10, 0, 0, 2], &seg));
    match detect(&f) {
        Some(AvProtocol::Tcp(t)) => {
            assert_eq!(t.src, Ipv4Addr::new(10, 0, 0, 1));
            assert_eq!(t.dst, Ipv4Addr::new(10, 0, 0, 2));
            assert_eq!((t.src_port, t.dst_port), (5961, 51000));
            assert_eq!((t.seq, t.ack), (0x01020304, 0x0A0B0C0D));
            assert!(t.has_fin && t.has_rst && !t.has_syn);
        }
        other => panic!("expected a segment, got {other:?}"),
    }
    assert!(parse_tcp_packet(&f).is_some());
    assert!(parse_tcp_packet(&f[..50]).is_none(), "a cut header is none");
    assert!(parse_tcp_packet(&frame(0x0800, &ip(17, [10, 0, 0, 1], [10, 0, 0, 2], &seg))).is_none());
}

#[test]
fn padding_behind_a_datagram_is_no_payload() {
    let mut p = ip(0x11, [192, 168, 1, 10], [224, 0, 0, 251], &udp(5353, 5353, b"\x00\x00\x84\x00\x05Stage\x09_netaudio"));
    p.extend_from_slice(&[0; 18]);
    match detect(&frame(0x0800, &p)) {
        Some(AvProtocol::Dante { kind: DanteKind::Discovery { device_name }, .. }) => {
            assert_eq!(device_name.as_deref(), Some("Stage"));
        }
        other => panic!("expected a discovery, got {other:?}"),
    }
}

#[test]
fn queries_discover_nothing_and_responses_do() {
    let query = b"\x00\x00\x00\x00\x05Cam 1\x04_ndi";
    let response = b"\x00\x00\x84\x00\x05Cam 1\x04_ndi";
    let f = |body: &[u8]| frame(0x0800, &ip(0x11, [10, 0, 0, 9], [224, 0, 0, 251], &udp(5353, 5353, body)));
    assert_eq!(detect(&f(query)), None);
    assert_eq!(
        detect(&f(response)),
        Some(AvProtocol::Ndi {
            kind: NdiKind::Discovery { source_name: Some("Cam 1".to_string()) },
            src: Ipv4Addr::new(10, 0, 0, 9),
        })
    );
}

#[test]
fn earlier_rules_keep_flows_from_the_catch_all() {
    let flow = |d: [u8; 4], src_port: u16, dst_port: u16| AudioClassifyCtx {
        src_ip: Ipv4Addr::new(10, 0, 0, 1),
        dst_ip: Ipv4Addr::new(d[0], d[1], d[2], d[3]),
        src_port,
        dst_port,
        payload_type: 96,
    };
    assert!(matches!(classify_audio(&flow([239, 255, 1, 1], 41000, 5004)), Some(AvProtocol::Dante { .. })));
    assert!(matches!(classify_audio(&flow([239, 69, 1, 1], 41000, 5004)), Some(AvProtocol::Aes67 { .. })));
    assert!(matches!(classify_audio(&flow([239, 1, 1, 1], 41000, 5004)), Some(AvProtocol::St2110 { .. })));
    assert!(matches!(classify_audio(&flow([10, 1, 1, 1], 5002, 5004)), Some(AvProtocol::Dante { .. })));
    assert!(classify_audio(&flow([10, 1, 1, 1], 41000, 5004)).is_none());
}

#[test]
fn st2110_types_by_port_then_payload() {
    assert_eq!(classify_st2110(96, 5004), St2110Type::Video);
    assert_eq!(classify_st2110(96, 5006), St2110Type::Audio);
    assert_eq!(classify_st2110(96, 5008), St2110Type::Ancdata);
    assert_eq!(classify_st2110(96, 5000), St2110Type::Video);
}

#[test]
fn multicast_is_the_class_d_block() {
    assert!(is_multicast(Ipv4Addr::new(224, 0, 0, 1)));
    assert!(is_multicast(Ipv4Addr::new(239, 255, 255, 255)));
    assert!(!is_multicast(Ipv4Addr::new(240, 0, 0, 1)));
    assert!(!is_multicast(Ipv4Addr::new(223, 255, 255, 255)));
}

#[test]
fn registered_vlans_are_in_range_and_once() {
    let p = [0, 1, 2, 0, 3, 0x0F, 0xFE, 0, 0, 1, 0x0F, 0xFE, 0, 0, 0];
    let vlans = parse_mvrp(&p);
    assert!(vlans.iter().all(|v| (1..=4094).contains(v)), "got {vlans:?}");
    let mut once = vlans.clone();
    once.dedup();
    assert_eq!(vlans, once);
    assert!(vlans.contains(&4094));
}

#[test]
fn stream_identifiers_need_their_valid_bit() {
    let p = [0x00, 0x81, 0, 0, 1, 2, 3, 4, 5, 6, 7, 8];
    assert_eq!(parse_avtp_stream_id(&p), Some([1, 2, 3, 4, 5, 6, 7, 8]));
    let mut q = p;
    q[1] = 0x01;
    assert_eq!(parse_avtp_stream_id(&q), None);
    assert_eq!(parse_avtp_stream_id(&p[..11]), None);
}

#[test]
fn identities_that_differ_stay_apart() {
    let status = |nic: [u8; 3]| {
        let mut p = vec![0u8; 64];
        p[2..4].copy_from_slice(&64u16.to_be_bytes());
        p[8..16].copy_from_slice(&[0x00, 0x1d, 0xc1, 0xff, 0xfe, nic[0], nic[1], nic[2]]);
        p[16..24].copy_from_slice(b"Audinate");
        p
    };
    let a = parse_conmon(&status([1, 2, 3])).unwrap().device_mac;
    let b = parse_conmon(&status([1, 2, 4])).unwrap().device_mac;
    assert_eq!(a, [0x00, 0x1d, 0xc1, 1, 2, 3]);
    assert_ne!(a, b);
}

#[test]
fn unreadable_names_are_no_names() {
    assert_eq!(extract_ndi_name(b"\x02\x01\x02\x04_ndi"), None);
    assert_eq!(extract_dante_name(b"\x03   \x09_netaudio"), None);
    assert!(mdns_contains(b"ab\x04_ndic", b"\x04_ndi"));
    assert!(!mdns_contains(b"\x04_nd", b"\x04_ndi"));
    assert_eq!(skip_dns_name(b"\x05ab", 0), None);
}

#[test]
fn entity_words() {
    assert_eq!(fmt_eui64(&[0, 1, 2, 0xab, 0xcd, 0xef, 0x10, 0xff]), "00:01:02:ab:cd:ef:10:ff");
    assert_eq!(media_type_summary(0x0600), "audio+video");
    assert_eq!(media_type_summary(0x0400), "video");
    assert_eq!(sr_class_str(0x300), "Class A+B");
    assert_eq!(sr_class_str(0x200), "Class B");
}

#[test]
fn port_names_are_text_or_bytes() {
    assert_eq!(format_lldp_id(b"Gi0/1"), "Gi0/1");
    assert_eq!(format_lldp_id(&[0xAA, 0xBB, 0x01]), "aa:bb:01");
    assert!(parse_lldp_eee(&[0xFE, 0x0E, 0x00]).is_none());
}

#[test]
fn clock_words() {
    assert_eq!(ptp_class_str(6), "Primary reference — locked");
    assert_eq!(ptp_accuracy_str(0x20), "< 100 ns");
    assert_eq!(ptp_accuracy_str(0x23), "< 1 µs");
}

#[test]
fn versions_tell_different_things() {
    let mut v1 = vec![0u8; 66];
    v1[0] = 0x11;
    v1[61] = 2;
    let a = parse_ptp(&v1).unwrap();
    assert_eq!((a.version, a.path_delay_ns, a.correction_ns, a.stratum), (1, None, None, Some(2)));
    let mut v2 = vec![0u8; 64];
    v2[0] = 0x0B;
    v2[1] = 0x02;
    let b = parse_ptp(&v2).unwrap();
    assert_eq!((b.version, b.stratum), (2, None));
    assert!(b.grandmaster_id.is_some());
    let mut delay_req = vec![0u8; 44];
    delay_req[0] = 0x01;
    delay_req[1] = 0x02;
    assert_eq!(parse_ptp(&delay_req).unwrap().grandmaster_id, None);
}

#[test]
fn framecounts_become_packet_times() {
    let sdp = "v=0\r\ns=X\r\nm=audio 5004 RTP/AVP 96\r\na=rtpmap:96 L24/48000/2\r\na=framecount:48\r\n";
    let s = parse_sdp(sdp);
    assert_eq!(s.media[0].ptime_ns, 1_000_000);
    assert_eq!(s.media[0].clock_uhz * s.media[0].ptime_ns / 1_000_000_000_000_000, 48);
}

fn announced(clock: &str, ptime: &str) -> (i64, i64) {
    let sdp = format!("v=0\r\ns=X\r\nm=audio 5004 RTP/AVP 96\r\na=rtpmap:96 L24/{clock}\r\na=ptime:{ptime}\r\n");
    let s = parse_sdp(&sdp);
    (s.media[0].clock_uhz, s.media[0].ptime_ns)
}

#[test]
fn numbers_of_announcements_are_decimals_with_exponents() {
    assert_eq!(announced("48000", "1"), (hertz(48_000), 1_000_000));
    assert_eq!(announced("4.8e4", "125e-3"), (hertz(48_000), 125_000));
    assert_eq!(announced("+480.E+2", ".5e1"), (hertz(48_000), 5_000_000));
    assert_eq!(announced("44100.5", "0.3333333"), (44_100_500_000, 333_333));
    assert_eq!(announced("90000e0", "0"), (hertz(90_000), 0));
    assert_eq!(announced("0000000000000000000000000048000", "000e999"), (hertz(48_000), 0));
}

#[test]
fn numbers_of_announcements_have_no_end() {
    assert_eq!(announced("inf", "Infinity"), (ENDLESS, ENDLESS));
    assert_eq!(announced("1e99999999999999999999999999999999999999999", "1e300"), (ENDLESS, ENDLESS));
    assert_eq!(announced("9223372036854.775806", "1"), (ENDLESS - 1, 1_000_000));
    assert_eq!(announced("-inf", "-1e300"), (-ENDLESS, -ENDLESS));
    assert_eq!(announced("1e-30", "1e-300"), (1, 1), "a positive number stays positive");
    assert_eq!(announced("1e-400", "1e-99999999999999999999999999999999999999"), (0, 0), "too small to tell");
}

#[test]
fn numbers_of_announcements_keep_their_sign() {
    assert_eq!(announced("-48000", "-1e3"), (-hertz(48_000), -1_000_000_000));
    assert_eq!(announced("NaN", "-nan"), (0, 0), "neither above nor below zero");
    assert_eq!(announced("-0", "-0.0"), (0, 0));
}

#[test]
fn what_is_no_number_takes_the_default() {
    for text in ["", "-", ".", "e5", "1e", "1e+", "1.2.3", "0x10", "infinit", "1 0", "--1", "1e1.5"] {
        assert_eq!(announced(text, text), (hertz(48_000), 1_000_000), "{text:?}");
    }
}

#[test]
fn frames_at_an_endless_rate_take_no_time() {
    let sdp = "v=0\r\ns=X\r\nm=audio 5004 RTP/AVP 96\r\na=rtpmap:96 L24/inf\r\na=framecount:48\r\n";
    assert_eq!(parse_sdp(sdp).media[0].ptime_ns, 0);
}

#[test]
fn request_intervals_are_read_where_there_are_any() {
    let mut p = vec![0u8; 55];
    p[1] = 0x02;
    p[54] = 0xFD;
    assert_eq!(parse_ptp(&p).unwrap().log_min_pdelay_req_interval, -3);
    assert_eq!(parse_ptp(&p[..54]).unwrap().log_min_pdelay_req_interval, 0);
    p[1] = 0x01;
    assert_eq!(parse_ptp(&p).unwrap().log_min_pdelay_req_interval, 0, "version 1 has none");
}

#[test]
fn clocks_of_version_1_may_stand_further_behind() {
    let mut p = vec![0u8; 64];
    p[30 + 32] = 0x01;
    p[28 + 32 + 1] = 7;
    let info = parse_ptp_v1(&p, 32).unwrap();
    assert_eq!((info.message_name.as_str(), info.sequence_id), ("Delay_Req", 7));
    assert!(parse_ptp_v1(&p[..39], usize::MAX).is_none(), "too short, wherever the header stands");
}

#[test]
fn clock_identities_are_in_small_letters() {
    assert_eq!(
        parse_ts_refclk("ptp=IEEE1588-2008:00-1A-E5-FF-FE-AB-CD-EF:127"),
        Some(("00:1a:e5:ff:fe:ab:cd:ef".to_string(), 127))
    );
    assert_eq!(parse_ts_refclk("ntp=/traceable/"), None);
}

#[test]
fn menus_and_names_choose_alike() {
    assert_eq!(ProtocolChoice::parse("Aes67"), Some(ProtocolChoice::AES67));
    assert_eq!(ProtocolChoice::parse("3"), Some(ProtocolChoice::AES67));
    assert_eq!(ProtocolChoice::parse("7"), Some(ProtocolChoice::ST2110));
    assert_eq!(ProtocolChoice::parse("8"), None);
    assert_eq!(ProtocolChoice::parse("0"), None);
    assert_eq!(ProtocolChoice::parse(""), None);
}

#[test]
fn every_choice_is_made_of_single_protocols() {
    for c in ProtocolChoice::all_choices() {
        let all = c.includes();
        assert!(!all.is_empty());
        for p in all {
            assert_eq!(p.includes(), vec![p]);
        }
    }
    assert_eq!(ProtocolChoice::All.includes().len(), 5);
}

#[test]
fn numbers_in_text() {
    let mut s = String::new();
    push_dec(&mut s, 0);
    push_dec(&mut s, u64::MAX);
    assert_eq!(s, "018446744073709551615");
    let mut s = String::new();
    push_signed(&mut s, i64::MIN);
    assert_eq!(s, "-9223372036854775808");
    let mut s = String::new();
    push_hex2(&mut s, 0x0f);
    push_hex_digit(&mut s, 10);
    assert_eq!(s, "0fa");
    let mut s = String::new();
    push_hex_colons(&mut s, &[0, 0x1d, 0xc1]);
    assert_eq!(s, "00:1d:c1");
}

#[test]
fn fractions_round_halves_to_even() {
    let text = |num: u128, den: u128, decimals: u32| {
        let mut s = String::new();
        push_fixed(&mut s, num, den, decimals);
        s
    };
    assert_eq!(text(5, 2, 0), "2");
    assert_eq!(text(7, 2, 0), "4");
    assert_eq!(text(1, 3, 3), "0.333");
    assert_eq!(text(2, 3, 1), "0.7");
    assert_eq!(text(1999, 1000, 1), "2.0");
    assert_eq!(text(0, 7, 2), "0.00");
}

#[test]
fn lists_are_joined_between() {
    assert_eq!(join(&vec![], ", "), "");
    assert_eq!(join(&vec!["a".to_string()], ", "), "a");
    assert_eq!(join(&vec!["a".to_string(), "b".to_string(), "c".to_string()], ", "), "a, b, c");
    assert_eq!(prefixed("x", "y"), "xy");
}

#[test]
fn sorting_orders_and_keeps_all() {
    let v = vec!["b".to_string(), "a".to_string(), "c".to_string(), "a".to_string()];
    assert_eq!(sort(v), vec!["a", "a", "b", "c"]);
    let ips = vec![Ipv4Addr::new(10, 0, 0, 2), Ipv4Addr::new(9, 255, 0, 1), Ipv4Addr::new(10, 0, 0, 1)];
    assert_eq!(
        sort(ips),
        vec![Ipv4Addr::new(9, 255, 0, 1), Ipv4Addr::new(10, 0, 0, 1), Ipv4Addr::new(10, 0, 0, 2)]
    );
    assert_eq!(sort::<(u8, u8)>(vec![(1, 2), (1, 1), (0, 9)]), vec![(0, 9), (1, 1), (1, 2)]);
}

#[test]
fn addresses_in_text() {
    assert_eq!(Ipv4Addr::new(192, 168, 1, 10).to_text(), "192.168.1.10");
    assert_eq!(Ipv4Addr::from_bits(0xC0A8_010A), Ipv4Addr::new(192, 168, 1, 10));
    let parse = |s: &str| Ipv4Addr::parse(&s.chars().collect::<Vec<_>>());
    assert_eq!(parse("239.69.0.1"), Some(Ipv4Addr::new(239, 69, 0, 1)));
    assert_eq!(parse("239.69.0"), None);
    assert_eq!(parse("239.69.0.256"), None);
}
