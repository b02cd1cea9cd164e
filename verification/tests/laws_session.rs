//! The command line, sessions and whole reports on concrete values.

use avstreamlens::capture::{ansi_color, emitted, Alert, AlertLevel, CaptureState};
use avstreamlens::cli::{
    all_protocols_filter, build_bpf_filter, expand, interface_line, macos_port_names,
    offered_interfaces, out_of_range_text, parse_cli_args, parse_protocol_str,
    prompt_protocol_selection, protocol_menu, resolve_interface_by_name, select_interface,
    selected_extras_display, selected_protocol_display, selected_protocol_names,
    unknown_protocol_text, unknown_protocols, windows_ip_lookup, with_vlan_arm, CliArgs, CliStop,
    Interface, InterfaceChoice,
};
use avstreamlens::net::Ipv4Addr;
use avstreamlens::parser::detect_udp;
use avstreamlens::protocols::{hertz, ProtocolChoice, PTP_VERSION_V1};
use avstreamlens::report::{
    ansi, format_missing_clock, render_avdecc_entities, render_discovery, render_streams, Console, DiscoveryInputs, Output, ReportSession,
};
use avstreamlens::session::{
    capture_error_text, do_report, drain_pending_joins, exit_code, join_failed_text, join_text,
    live_banner, log_file_name, mdns_startup_probe, record_join, replay_banner, should_join_group,
    startup_groups, stream_join_text, LogTime, OfflineReportClock, Run,
};
use avstreamlens::stats::{AvdeccEntity, AvtpStreamStats, PtpStats, StreamStats};
use avstreamlens::table::{KeySet, Table};

const NOW: u64 = 1_000_000_000_000;
const SECOND: u64 = 1_000_000_000;

fn args(a: &[&str]) -> Vec<String> {
    a.iter().map(|s| s.to_string()).collect()
}

fn accepted(a: &[&str]) -> CliArgs {
    parse_cli_args(&args(a), false).outcome.expect("accepted")
}

fn refused(a: &[&str]) -> CliStop {
    parse_cli_args(&args(a), false).outcome.expect_err("refused")
}

// ── Flags ────────────────────────────────────────────────────────────────────

#[test]
fn flags_are_read_in_both_forms() {
    let a = accepted(&["-i", "en0", "--protocol", "aes67,dante", "-q", "-d", "30", "--no-colour"]);
    assert_eq!(a.interface.as_deref(), Some("en0"));
    assert_eq!(a.protocols, Some(vec![ProtocolChoice::AES67, ProtocolChoice::Dante]));
    assert!(a.quiet && a.no_color);
    assert_eq!(a.duration, Some(30));
    assert_eq!(a.read_file, None);
    let b = accepted(&["--interface", "eth0", "-p", "all", "--quiet", "--duration", "+5", "--read", "x.pcap"]);
    assert_eq!(b.read_file.as_deref(), Some("x.pcap"));
    assert_eq!(b.duration, Some(5));
    assert!(!b.no_color);
    let none = accepted(&[]);
    assert!(none.interface.is_none() && none.protocols.is_none() && !none.quiet);
}

#[test]
fn the_last_of_a_flag_counts_and_no_color_sticks() {
    let a = accepted(&["-i", "en0", "-i", "en1"]);
    assert_eq!(a.interface.as_deref(), Some("en1"));
    let b = parse_cli_args(&args(&["-q"]), true).outcome.expect("accepted");
    assert!(b.no_color);
}

#[test]
fn bad_flags_stop_with_their_message() {
    let cases: Vec<(Vec<&str>, &str)> = vec![
        (vec!["-i"], "❌ --interface requires a value (e.g. --interface en0)"),
        (vec!["-p"], "❌ --protocol requires a value (e.g. --protocol aes67,dante)"),
        (vec!["-d"], "❌ --duration requires a value (e.g. --duration 30)"),
        (vec!["-d", "0"], "❌ --duration requires a positive integer (e.g. --duration 30)"),
        (vec!["-d", "-3"], "❌ --duration requires a positive integer (e.g. --duration 30)"),
        (vec!["-d", "18446744073709551616"], "❌ --duration requires a positive integer (e.g. --duration 30)"),
        (vec!["-r"], "❌ --read requires a file path (e.g. --read capture.pcap)"),
        (vec!["--wat"], "❌ Unknown argument: --wat  (run with --help for usage)"),
    ];
    for (a, message) in cases {
        let stop = refused(&a);
        assert_eq!(stop.message(), message);
        assert_eq!(stop.exit_code(), 1);
    }
}

#[test]
fn help_anywhere_comes_first() {
    let stop = refused(&["--wat", "-h"]);
    assert!(matches!(stop, CliStop::Help));
    assert_eq!(stop.exit_code(), 0);
    assert_eq!(stop.message(), "");
}

#[test]
fn unknown_names_are_told_up_to_all() {
    assert_eq!(unknown_protocols("aes67, x ,y"), vec!["x", "y"]);
    assert_eq!(unknown_protocols("x,all,y"), vec!["x"]);
    assert!(unknown_protocols("ALL").is_empty());
    assert_eq!(unknown_protocol_text("x"), "⚠  Unknown protocol 'x' — ignored");
    let p = parse_cli_args(&args(&["-p", "bogus", "--wat"]), false);
    assert_eq!(p.unknown, vec!["bogus"]);
    assert!(p.outcome.is_err());
}

// ── Selections ───────────────────────────────────────────────────────────────

#[test]
fn selections_hold_nothing_twice() {
    assert_eq!(parse_protocol_str(" dante , 5 ,DANTE"), vec![ProtocolChoice::Dante]);
    assert_eq!(parse_protocol_str("0"), vec![ProtocolChoice::All]);
    assert_eq!(prompt_protocol_selection("\n"), vec![ProtocolChoice::All]);
    assert_eq!(prompt_protocol_selection(" 0 \n"), vec![ProtocolChoice::All]);
    assert_eq!(prompt_protocol_selection("1,4\n"), vec![ProtocolChoice::Audio, ProtocolChoice::AVB]);
    assert_eq!(prompt_protocol_selection("1,all\n"), vec![ProtocolChoice::All]);
    assert_eq!(prompt_protocol_selection("9\n"), vec![ProtocolChoice::All]);
}

#[test]
fn the_menu_lists_every_choice() {
    let m = protocol_menu();
    assert_eq!(m[0], "Choose the protocols to monitor:");
    assert_eq!(m[1], "  0) All");
    assert_eq!(m[2], "  1) Audio (AES67 + Dante + AVB)");
    assert_eq!(m[8], "  7) ST2110");
    assert_eq!(m.len(), 10);
}

#[test]
fn filters_match_tagged_frames_too() {
    assert_eq!(with_vlan_arm("udp"), "(udp) or (vlan and (udp))");
    let ndi = "igmp or udp or tcp or (ether proto 0x88cc) or (ether proto 0x88f7) or (ether proto 0x8808)";
    assert_eq!(build_bpf_filter(&[ProtocolChoice::NDI]), with_vlan_arm(ndi));
    let avb = "igmp or (ether proto 0x22f0) or (ether proto 0x22ea) or (ether proto 0x88f5) or (ether proto 0x88cc) or (ether proto 0x88f7) or (ether proto 0x8808)";
    assert_eq!(build_bpf_filter(&[ProtocolChoice::AVB]), with_vlan_arm(avb));
    assert_eq!(build_bpf_filter(&[]), all_protocols_filter());
}

#[test]
fn infrastructure_is_always_captured() {
    for c in ProtocolChoice::all_choices() {
        let f = build_bpf_filter(&[c]);
        for term in ["igmp", "0x88cc", "0x88f7", "0x8808"] {
            assert!(f.contains(term), "{c:?}: {f}");
        }
    }
}

#[test]
fn selections_have_names() {
    let v = [ProtocolChoice::Audio, ProtocolChoice::NDI];
    assert_eq!(selected_protocol_display(&v), "Audio, NDI");
    assert_eq!(selected_protocol_names(&v), "Audio_AES67 + Dante + AVB_NDI");
    assert_eq!(selected_protocol_display(&[ProtocolChoice::All]), "all protocols");
    assert_eq!(selected_protocol_names(&[ProtocolChoice::All]), "all");
    assert_eq!(selected_extras_display(&[ProtocolChoice::Dante]), "  (+ PTP, IGMP)");
    assert_eq!(selected_extras_display(&[ProtocolChoice::AVB]), "  (+ PTP)");
    assert_eq!(selected_extras_display(&[ProtocolChoice::NDI]), "");
    assert_eq!(expand(&[ProtocolChoice::Video, ProtocolChoice::NDI]),
        vec![ProtocolChoice::ST2110, ProtocolChoice::NDI, ProtocolChoice::NDI]);
}

// ── Interfaces ───────────────────────────────────────────────────────────────

fn interface(name: &str, desc: Option<&str>, ipv4: Vec<Ipv4Addr>) -> Interface {
    Interface {
        name: name.to_string(),
        desc: desc.map(|s| s.to_string()),
        disconnected: false,
        ipv4,
    }
}

#[test]
fn only_real_interfaces_are_offered() {
    let mut down = interface("eth1", None, vec![]);
    down.disconnected = true;
    let all = vec![
        interface("lo", None, vec![]),
        interface("en0", None, vec![]),
        interface("utun3", None, vec![]),
        interface("br-docker0", None, vec![]),
        down,
        interface("NPF", Some("Npcap Loopback Adapter"), vec![]),
        interface("eth0", Some("Ethernet"), vec![]),
    ];
    assert_eq!(offered_interfaces(&all), vec![1, 6]);
    assert_eq!(resolve_interface_by_name(&all, "utun3"), Some(2));
    assert_eq!(resolve_interface_by_name(&all, "eth7"), None);
}

#[test]
fn interfaces_are_shown_with_what_is_known() {
    let none = Table::new();
    let ip = vec![Ipv4Addr::new(0, 0, 0, 0), Ipv4Addr::new(10, 0, 0, 1), Ipv4Addr::new(10, 0, 0, 2)];
    assert_eq!(
        interface_line(0, &interface("en0", Some("Wi-Fi"), ip), &none, &none),
        "  0: en0  —  Wi-Fi  (10.0.0.1, 10.0.0.2)"
    );
    assert_eq!(interface_line(1, &interface("en1", Some("USB"), vec![]), &none, &none), "  1: en1  —  USB  (no IPv4)");
    assert_eq!(
        interface_line(2, &interface("en2", None, vec![Ipv4Addr::new(10, 0, 0, 3)]), &none, &none),
        "  2: en2  —  10.0.0.3"
    );
    assert_eq!(interface_line(3, &interface("en3", None, vec![]), &none, &none), "  3: en3");
    let mut ports = Table::new();
    ports.insert("en4".to_string(), "Thunderbolt".to_string());
    assert_eq!(interface_line(4, &interface("en4", None, vec![]), &ports, &none), "  4: en4  —  Thunderbolt  (no IPv4)");
    let mut found = Table::new();
    found.insert("Intel".to_string(), "10.1.1.1".to_string());
    let npf = "\\Device\\NPF_{0}";
    assert_eq!(interface_line(5, &interface(npf, Some("Intel"), vec![]), &none, &found), "  5: Intel  (10.1.1.1)");
    assert_eq!(interface_line(6, &interface(npf, None, vec![]), &none, &none), "  6: \\Device\\NPF_{0}  (no IPv4)");
}

#[test]
fn answers_to_the_menu_of_interfaces() {
    assert_eq!(select_interface("\n", 3), InterfaceChoice::Picked(0));
    assert_eq!(select_interface(" 2 \n", 3), InterfaceChoice::Picked(2));
    assert_eq!(select_interface("3\n", 3), InterfaceChoice::OutOfRange);
    assert_eq!(select_interface("x\n", 3), InterfaceChoice::NotANumber);
    assert_eq!(select_interface("-1\n", 3), InterfaceChoice::NotANumber);
    assert_eq!(out_of_range_text(3), "❌ Invalid selection. Must be between 0 and 2.");
}

#[test]
fn listings_of_the_system_are_read() {
    let ipconfig = "Ethernet adapter\r\n\r\n   Description . . . . . . . . . . . : Intel NIC\r\n   IPv4 Address. . . . . . . . . . . : 10.0.0.5(Preferred) \r\n   IPv4 Address. . . . . . . . . . . : 10.0.0.6(Preferred)\r\n\r\n   IPv4 Address. . . . . . . . . . . : 10.9.9.9\r\n   Description : Other\r\n   Autoconfiguration IPv4 Address. . : 169.254.1.1(Preferred)\r\n";
    let t = windows_ip_lookup(ipconfig);
    assert_eq!(t.len(), 2);
    assert_eq!(t.get(&"Intel NIC".to_string()).map(|s| s.as_str()), Some("10.0.0.5, 10.0.0.6"));
    assert_eq!(t.get(&"Other".to_string()).map(|s| s.as_str()), Some("169.254.1.1"));
    let ports = "\nHardware Port: Wi-Fi\nDevice: en0\nEthernet Address: 0\n\nHardware Port: USB\nDevice: en5\nDevice: en6\n";
    let p = macos_port_names(ports);
    assert_eq!(p.len(), 2);
    assert_eq!(p.get(&"en0".to_string()).map(|s| s.as_str()), Some("Wi-Fi"));
    assert_eq!(p.get(&"en5".to_string()).map(|s| s.as_str()), Some("USB"));
}

// ── Sessions ─────────────────────────────────────────────────────────────────

#[test]
fn groups_follow_the_selection() {
    assert_eq!(startup_groups(&[ProtocolChoice::NDI]).len(), 0);
    let avb = startup_groups(&[ProtocolChoice::AVB]);
    assert_eq!(avb.len(), 6);
    assert_eq!(avb[0].group, Ipv4Addr::new(224, 0, 1, 129));
    let all = startup_groups(&[ProtocolChoice::AES67]);
    assert_eq!(all.len(), 8);
    assert_eq!(all[7].group, Ipv4Addr::new(239, 255, 255, 255));
    assert_eq!(join_text(&all[6].label), "   ✓ Joined multicast group SAP (224.2.127.254)");
    assert_eq!(join_failed_text("x", "no route"), "   ⚠ Could not join x — no route");
    assert_eq!(stream_join_text(Ipv4Addr::new(239, 1, 2, 3)), "   ✓ Joined stream multicast 239.1.2.3");
}

#[test]
fn stream_groups_belong_to_protocols() {
    let dante = [ProtocolChoice::Dante];
    assert!(should_join_group(&Ipv4Addr::new(239, 255, 0, 1), &dante));
    assert!(!should_join_group(&Ipv4Addr::new(239, 1, 0, 1), &dante));
    assert!(!should_join_group(&Ipv4Addr::new(224, 0, 1, 129), &dante));
    assert!(should_join_group(&Ipv4Addr::new(239, 1, 0, 1), &[ProtocolChoice::ST2110]));
}

#[test]
fn a_group_is_joined_once() {
    let mut state = CaptureState::new();
    let g = Ipv4Addr::new(239, 69, 0, 1);
    for x in [Ipv4Addr::new(239, 1, 1, 1), g, g] {
        state.pending_join_groups.push(x);
    }
    let e = [ProtocolChoice::AES67];
    assert_eq!(drain_pending_joins(&mut state, true, &e), Some(g));
    record_join(&mut state, g);
    assert_eq!(drain_pending_joins(&mut state, true, &e), None);
    assert!(state.pending_join_groups.is_empty());
    assert_eq!(state.joined_multicast.len(), 1);
}

#[test]
fn the_probe_asks_for_the_chosen_services() {
    assert!(mdns_startup_probe(&[ProtocolChoice::AES67]).is_none());
    let p = mdns_startup_probe(&[ProtocolChoice::NDI]).unwrap();
    assert_eq!(p.services, "_ndi._tcp.local");
    let mut want = vec![0, 0, 0, 0, 0, 1, 0, 0, 0, 0, 0, 0];
    want.extend_from_slice(b"\x04_ndi\x04_tcp\x05local\x00\x00\x0c\x00\x01");
    assert_eq!(p.packet, want);
    let (ours, all) = (Ipv4Addr::new(10, 0, 0, 9), Ipv4Addr::new(224, 0, 0, 251));
    assert!(detect_udp(ours, all, 40_000, 5353, &p.packet).is_none(), "a question is no discovery");
    let both = mdns_startup_probe(&[ProtocolChoice::Dante, ProtocolChoice::NDI]).unwrap();
    assert_eq!(both.packet[5], 4);
    assert_eq!(both.services.matches(", ").count(), 3);
}

#[test]
fn banners_tell_what_is_monitored() {
    assert_eq!(live_banner("en0", "all protocols", "  (+ PTP)"), "📡 Listening on en0  —  all protocols");
    assert_eq!(live_banner("en0", "Dante", "  (+ PTP, IGMP)"), "📡 Listening on en0  for Dante  (+ PTP, IGMP)  streams");
    assert_eq!(replay_banner("a.pcap", "Dante", "  (+ PTP)"), "📁 Replaying a.pcap  —  Dante  (+ PTP)");
    assert_eq!(replay_banner("a.pcap", "all protocols", ""), "📁 Replaying a.pcap  —  all protocols");
    assert_eq!(capture_error_text("gone"), "❌ Capture error: gone — exiting");
}

#[test]
fn log_files_are_named_by_time_and_selection() {
    let t = LogTime { year: 2026, month: 1, day: 2, hour: 13, minute: 4, second: 59 };
    assert_eq!(log_file_name(t, "all", None), "avstreamlens_2026-01-02_13-04-59_all.log");
    assert_eq!(log_file_name(t, "NDI", Some(0xABC0_12EF)), "avstreamlens_2026-01-02_13-04-59_NDI_012ef.log");
}

#[test]
fn live_sessions_report_after_five_seconds_and_end_in_time() {
    let mut r = Run::start(false, Some(10), NOW);
    assert!(!r.is_report_due(NOW + 5 * SECOND));
    assert!(r.is_report_due(NOW + 5 * SECOND + 1));
    assert_eq!(r.reported(100_000_000, NOW + 6 * SECOND), None);
    assert!(!r.is_report_due(NOW + 6 * SECOND));
    assert_eq!(r.reported(100_000_000, NOW + 10 * SECOND), Some(0));
    assert_eq!(r.reported(99_999_999, NOW + 11 * SECOND), Some(1));
    let mut endless = Run::start(false, None, NOW);
    assert_eq!(endless.reported(0, NOW + 1_000 * SECOND), None);
    assert_eq!((exit_code(100_000_000), exit_code(0)), (0, 1));
}

#[test]
fn replays_report_by_the_packets_own_time() {
    let mut r = Run::start(true, Some(1), NOW);
    let mut state = CaptureState::new();
    let frame = [0u8; 60];
    let e = [ProtocolChoice::AES67];
    assert!(!r.is_report_due(NOW + 100 * SECOND));
    assert!(!r.on_packet(&mut state, &frame, 1_000, &e, NOW).1);
    assert!(!r.on_packet(&mut state, &frame, 1_004, &e, NOW).1);
    assert!(!r.on_packet(&mut state, &frame[..13], 1_009, &e, NOW).1, "too short for a frame");
    assert!(r.on_packet(&mut state, &frame, 1_005, &e, NOW).1);
    assert_eq!(state.packets_dispatched, 3);
    assert_eq!(r.reported(0, NOW + 100 * SECOND), None);
    let mut clock = OfflineReportClock::default();
    assert!(!clock.should_report(i64::MIN));
    assert!(clock.should_report(i64::MAX));
}

// ── Reports ──────────────────────────────────────────────────────────────────

fn logs(out: &[Output]) -> Vec<String> {
    out.iter()
        .filter_map(|o| match o {
            Output::Log(s) => Some(s.clone()),
            Output::Print(_) => None,
        })
        .collect()
}

fn prints(out: &[Output]) -> Vec<String> {
    out.iter()
        .filter_map(|o| match o {
            Output::Print(s) => Some(s.clone()),
            Output::Log(_) => None,
        })
        .collect()
}

fn report(state: &mut CaptureState, quiet: bool, color: bool) -> Vec<Output> {
    let mut session = ReportSession { quiet, no_flows_diagnostic_shown: false };
    let mut console = Console::new(color);
    let out = do_report(
        state, &[ProtocolChoice::Dante], true, None, &mut session, &mut console,
        "2026-01-02 03:04:05", NOW,
    );
    assert!(console.stdout_enabled());
    assert_eq!(console.color_enabled(), color);
    out
}

fn lossy() -> CaptureState {
    let mut state = CaptureState::new();
    let mut s = StreamStats::new("Dante", hertz(48_000), NOW);
    s.packets = 100;
    s.packets_this_window = 99;
    s.lost_this_window = 1;
    s.last_packet_time = Some(NOW);
    state.streams.insert("Dante a".into(), s);
    state
}

#[test]
fn a_report_reads_from_title_to_network() {
    let out = logs(&report(&mut CaptureState::new(), false, false));
    assert_eq!(out[0], "2026-01-02 03:04:05 | AVStreamLens report");
    assert_eq!(out[1].chars().filter(|c| *c == '─').count(), 66);
    assert_eq!(out[2], "  AVStreamLens  ·  2026-01-02 03:04:05");
    assert_eq!(out[4], "Network Health — 100%  |  no streams");
    assert!(out.contains(&"  Bandwidth: 0.0 Mbps (last 5s)".to_string()));
    assert!(out.contains(&"  📦 0 parsed".to_string()));
    assert_eq!(out.last().unwrap(), "");
}

#[test]
fn quiet_hides_no_trouble_and_logs_everything() {
    let loud = report(&mut lossy(), false, false);
    let quiet = report(&mut lossy(), true, false);
    assert_eq!(loud, quiet);
    assert!(prints(&quiet).iter().any(|l| l.contains("Dante: 1")));
    let shown = report(&mut CaptureState::new(), false, false);
    let hidden = report(&mut CaptureState::new(), true, false);
    assert_eq!(logs(&shown), logs(&hidden));
    assert!(prints(&hidden).is_empty() && !prints(&shown).is_empty());
}

#[test]
fn colour_changes_the_terminal_only() {
    let plain = report(&mut lossy(), false, false);
    let bright = report(&mut lossy(), false, true);
    assert_eq!(logs(&plain), logs(&bright));
    assert!(prints(&bright).iter().any(|l| l.starts_with("\x1b[36m")));
    assert!(!prints(&plain).iter().any(|l| l.contains('\x1b')));
    assert_eq!(ansi(true, "31", "x"), "\x1b[31mx\x1b[0m");
    assert_eq!(ansi(false, "31", "x"), "x");
}

#[test]
fn the_next_window_starts_after_the_report() {
    let mut state = lossy();
    state.bytes_this_window = 9;
    report(&mut state, false, false);
    assert_eq!(state.bytes_this_window, 0);
    let s = state.streams.get(&"Dante a".to_string()).unwrap();
    assert_eq!((s.packets, s.lost_this_window), (100, 0));
}

#[test]
fn a_lost_clock_with_lost_packets_is_told_once() {
    let mut state = lossy();
    let mut d = PtpStats::new(0, PTP_VERSION_V1, NOW);
    d.clock_valid = true;
    d.last_seen = 0;
    state.ptp.domains.insert((0, PTP_VERSION_V1), d);
    let out = prints(&report(&mut state, false, false));
    let told = out.iter().filter(|l| l.contains("Clock sync failure")).count();
    assert_eq!(told, 1);
    assert!(!out[1..].iter().any(|l| l.contains("CLOCK LOST")));
}

#[test]
fn avb_is_listed_by_its_own_identifiers() {
    let entity = |id: u8| AvdeccEntity {
        entity_id: [id; 8],
        entity_model_id: [0; 8],
        entity_capabilities: 0,
        talker_stream_sources: 0,
        talker_capabilities: 0,
        listener_stream_sinks: 0,
        listener_capabilities: 0,
        gptp_grandmaster_id: [0; 8],
        gptp_domain_number: 0,
        valid_time_secs: 10,
        available_index: 0,
        last_seen: NOW,
    };
    let (mut entities, mut avtp) = (Table::new(), Table::new());
    for (key, id) in [(1u8, 3u8), (2, 1), (3, 2)] {
        entities.insert([key; 8], entity(id));
        avtp.insert([key; 8], AvtpStreamStats::new([id; 8], 0, NOW));
    }
    let listed = render_avdecc_entities(&entities);
    for (i, id) in ["01:01", "02:02", "03:03"].iter().enumerate() {
        assert!(listed[2 * i].text.contains(id), "{:?}", listed[2 * i].text);
    }
    let lines = render_streams(
        &Table::new(), &Table::new(), &KeySet::new(), &Table::new(), &avtp, &Table::new(),
        &KeySet::new(), false, NOW,
    );
    let shown: Vec<&str> = lines.iter().filter(|l| l.text.contains("▸")).map(|l| l.text.as_str()).collect();
    for (i, id) in ["01:01", "02:02", "03:03"].iter().enumerate() {
        assert!(shown[i].contains(id), "{:?}", shown[i]);
    }
}

#[test]
fn a_dropout_hides_only_the_loss_of_clocked_streams() {
    let rendered = |state: &CaptureState, correlated: bool| -> Vec<String> {
        render_streams(
            &state.streams, &Table::new(), &KeySet::new(), &Table::new(), &Table::new(),
            &Table::new(), &KeySet::new(), correlated, NOW,
        )
        .into_iter()
        .map(|l| l.text)
        .collect()
    };
    let mut state = lossy();
    let mut ndi = StreamStats::new("NDI", 0, NOW);
    ndi.lost_this_window = 1;
    ndi.packets = 9;
    state.streams.insert("NDI a".into(), ndi);
    let (plain, hushed) = (rendered(&state, false), rendered(&state, true));
    assert_eq!(plain.iter().filter(|l| l.contains("Packet loss")).count(), 2);
    assert_eq!(hushed.iter().filter(|l| l.contains("Packet loss")).count(), 1, "NDI needs no clock");
    assert_eq!(plain.len(), hushed.len() + 1);
}

#[test]
fn idle_devices_are_told_of_once() {
    let mut ndi = KeySet::new();
    ndi.insert(Ipv4Addr::new(10, 0, 0, 1));
    let (none, names, conmon, streams) = (KeySet::new(), Table::new(), Table::new(), Table::new());
    let ndi_names = Table::new();
    let inputs = DiscoveryInputs {
        dante_sources: &none,
        dante_names: &names,
        dante_conmon: &conmon,
        dante_unverified: &none,
        ndi_sources: &ndi,
        ndi_names: &ndi_names,
        dante_active: 0,
        ndi_active: 0,
        streams: &streams,
    };
    let mut told = false;
    let first = render_discovery(&inputs, &mut told).unwrap();
    assert!(told && first.last().unwrap().text.contains("no active flows"));
    let second = render_discovery(&inputs, &mut told).unwrap();
    assert!(!second.iter().any(|l| l.text.contains("no active flows")));
}

#[test]
fn missing_clocks_are_listed_in_words() {
    let mut state = CaptureState::new();
    state.handle_st2110(Ipv4Addr::new(239, 1, 2, 3), 5006, avstreamlens::protocols::St2110Type::Audio, &[], None, NOW);
    state.handle_aes67(Ipv4Addr::new(239, 69, 0, 1), 5004, 96, &[], None, NOW);
    let m = state.missing_ptp_clocks(&[ProtocolChoice::AES67, ProtocolChoice::ST2110]);
    assert_eq!(format_missing_clock(&m[0]), "⚠  No PTPv2 clock — AES67 and ST2110 streams may lose sync");
}

#[test]
fn alerts_have_their_colours() {
    assert_eq!(ansi_color(&AlertLevel::Warn), Some("33"));
    assert_eq!(ansi_color(&AlertLevel::Error), Some("31"));
    let a = Alert::warn("x".to_string());
    assert_eq!(emitted(&a, true), "\x1b[33mx\x1b[0m");
    assert_eq!(emitted(&a, false), "x");
}
