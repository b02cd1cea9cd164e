//! The command line.

use avstreamlens::cli::{build_bpf_filter, parse_protocol_str, resolve_color_enabled};
use avstreamlens::protocols::ProtocolChoice;

#[test]
fn enabled_on_tty_with_no_color_not_requested() {
    assert!(resolve_color_enabled(false, true));
}

#[test]
fn disabled_on_non_tty_with_no_color_not_requested() {
    assert!(!resolve_color_enabled(false, false));
}

#[test]
fn disabled_on_tty_when_no_color_requested() {
    assert!(!resolve_color_enabled(true, true));
}

#[test]
fn disabled_on_non_tty_when_no_color_requested() {
    assert!(!resolve_color_enabled(true, false));
}

#[test]
fn accepts_comma_separated_names() {
    assert_eq!(parse_protocol_str("aes67,dante"), vec![ProtocolChoice::AES67, ProtocolChoice::Dante]);
}

#[test]
fn accepts_numeric_indices() {
    let first = ProtocolChoice::all_choices()[0].clone();
    assert_eq!(parse_protocol_str("1"), vec![first]);
}

#[test]
fn all_short_circuits_to_all() {
    assert_eq!(parse_protocol_str("aes67,all,dante"), vec![ProtocolChoice::All]);
}

#[test]
fn unknown_token_ignored_falls_back_to_all_when_nothing_else_selected() {
    assert_eq!(parse_protocol_str("not-a-protocol"), vec![ProtocolChoice::All]);
}

#[test]
fn unknown_token_ignored_alongside_valid_ones() {
    assert_eq!(parse_protocol_str("aes67,bogus"), vec![ProtocolChoice::AES67]);
}

#[test]
fn selective_filter_includes_vlan_tagged_arm() {
    let f = build_bpf_filter(&[ProtocolChoice::AES67]);
    assert!(f.contains("vlan and ("), "selective filter must include a VLAN arm: {f}");
}

#[test]
fn all_protocols_filter_includes_vlan_tagged_arm() {
    let f = build_bpf_filter(&[ProtocolChoice::All]);
    assert!(f.contains("vlan and ("), "all-protocols filter must include a VLAN arm: {f}");
}
