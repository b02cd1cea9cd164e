//! What the command line and the menus mean.

use vstd::prelude::*;

use crate::cli::args::{asks_help, flag_of, parsed, read_on, stop_text, ArgsView, Flag, ParsedView, StopView};
use crate::cli::interfaces::{adapters, adapters_with, address_key, answer, interface_info, interface_text, is_virtual, offered, offered_places, ports, ports_with, real_addresses, shown_addresses, shown_desc, undotted, unmarked, virtual_words, with_address, within_text, Adapters, InterfaceChoice, InterfaceView, Ports};
use crate::cli::selection::{any_wants, banner_name, choices, expanded, extras, file_name, filter_for, filter_terms, flag_choice, flag_strange, log_name, menu_choice, menu_line, short_name, strange, vlan_arm, wants, Need};
use crate::net::{dotted, Ipv4Addr};
use crate::protocols::{any_igmp, any_ptp, choice_name, choice_of, chosen, included, ProtocolChoice};
use crate::scan::{alike, begins, parts, trim, whole};
use crate::table::{lemma_put_lookup, lookup};
use crate::text::{dec, joined};
use crate::text_laws::{law_numbers_are_digits, law_numbers_read_back, law_parts_stand_between, law_trimming_takes_the_ends};

verus! {

// ── Arguments ────────────────────────────────────────────────────────────────

proof fn lemma_flags()
    ensures
        flag_of("--interface"@) == Some(Flag::Interface),
        flag_of("-i"@) == Some(Flag::Interface),
        flag_of("--protocol"@) == Some(Flag::Protocol),
        flag_of("-p"@) == Some(Flag::Protocol),
        flag_of("--no-color"@) == Some(Flag::NoColor),
        flag_of("--no-colour"@) == Some(Flag::NoColor),
        flag_of("--quiet"@) == Some(Flag::Quiet),
        flag_of("-q"@) == Some(Flag::Quiet),
        flag_of("--duration"@) == Some(Flag::Duration),
        flag_of("-d"@) == Some(Flag::Duration),
        flag_of("--read"@) == Some(Flag::Read),
        flag_of("-r"@) == Some(Flag::Read),
{
    reveal_strlit("--interface");
    reveal_strlit("-i");
    reveal_strlit("--protocol");
    reveal_strlit("-p");
    reveal_strlit("--no-color");
    reveal_strlit("--no-colour");
    reveal_strlit("--quiet");
    reveal_strlit("-q");
    reveal_strlit("--duration");
    reveal_strlit("-d");
    reveal_strlit("--read");
    reveal_strlit("-r");
    assert("--interface"@[2] == 'i' && "--protocol"@[2] == 'p' && "--no-color"@[2] == 'n'
        && "--no-colour"@[2] == 'n' && "--quiet"@[2] == 'q' && "--duration"@[2] == 'd' && "--read"@[2]
        == 'r');
    assert("-i"@[1] == 'i' && "-p"@[1] == 'p' && "-q"@[1] == 'q' && "-d"@[1] == 'd' && "-r"@[1] == 'r');
    assert("-i"@.len() == 2 && "-p"@.len() == 2 && "-q"@.len() == 2 && "-d"@.len() == 2 && "-r"@.len() == 2);
    assert("--interface"@.len() > 2 && "--protocol"@.len() > 2 && "--no-color"@.len() > 2
        && "--no-colour"@.len() > 2 && "--quiet"@.len() > 2 && "--duration"@.len() > 2 && "--read"@.len()
        > 2);
}

/// A flag with a value, in its long and its short form, sets what it names and leaves the
/// rest to the other arguments.
pub proof fn law_flags_with_values(value: Seq<char>, rest: Seq<Seq<char>>, u: Seq<Seq<char>>, a: ArgsView)
    ensures
        read_on(seq!["--interface"@, value] + rest, u, a) == read_on(
            rest,
            u,
            ArgsView { interface: Some(value), ..a },
        ),
        read_on(seq!["-i"@, value] + rest, u, a) == read_on(
            rest,
            u,
            ArgsView { interface: Some(value), ..a },
        ),
        read_on(seq!["--protocol"@, value] + rest, u, a) == read_on(
            rest,
            u + flag_strange(value),
            ArgsView { protocols: Some(flag_choice(value)), ..a },
        ),
        read_on(seq!["-p"@, value] + rest, u, a) == read_on(
            rest,
            u + flag_strange(value),
            ArgsView { protocols: Some(flag_choice(value)), ..a },
        ),
        read_on(seq!["--read"@, value] + rest, u, a) == read_on(
            rest,
            u,
            ArgsView { read_file: Some(value), ..a },
        ),
        read_on(seq!["-r"@, value] + rest, u, a) == read_on(
            rest,
            u,
            ArgsView { read_file: Some(value), ..a },
        ),
{
    lemma_flags();
    lemma_two("--interface"@, value, rest);
    lemma_two("-i"@, value, rest);
    lemma_two("--protocol"@, value, rest);
    lemma_two("-p"@, value, rest);
    lemma_two("--read"@, value, rest);
    lemma_two("-r"@, value, rest);
}

proof fn lemma_two(f: Seq<char>, value: Seq<char>, rest: Seq<Seq<char>>)
    ensures
        ({
            let args = seq![f, value] + rest;
            args[0] == f && args[1] == value && args.skip(2) == rest && args.len() >= 2
        }),
{
    assert((seq![f, value] + rest).skip(2) =~= rest);
}

/// A duration is a number of seconds above zero; anything else is refused.
pub proof fn law_durations(n: nat, value: Seq<char>, rest: Seq<Seq<char>>, u: Seq<Seq<char>>, a: ArgsView)
    ensures
        0 < n <= u64::MAX ==> read_on(seq!["--duration"@, dec(n)] + rest, u, a) == read_on(
            rest,
            u,
            ArgsView { duration: Some(n as u64), ..a },
        ) && read_on(seq!["-d"@, dec(n)] + rest, u, a) == read_on(
            rest,
            u,
            ArgsView { duration: Some(n as u64), ..a },
        ),
        n == 0 || n > u64::MAX ==> read_on(seq!["--duration"@, dec(n)] + rest, u, a).outcome == Err::<
            ArgsView,
            StopView,
        >(StopView::BadDuration),
        whole(value, u64::MAX as nat) is None ==> read_on(seq!["-d"@, value] + rest, u, a).outcome == Err::<
            ArgsView,
            StopView,
        >(StopView::BadDuration),
{
    lemma_flags();
    lemma_two("--duration"@, dec(n), rest);
    lemma_two("-d"@, dec(n), rest);
    lemma_two("-d"@, value, rest);
    law_numbers_read_back(n, u64::MAX as nat);
}

/// A flag without a value is a switch.
pub proof fn law_switches(rest: Seq<Seq<char>>, u: Seq<Seq<char>>, a: ArgsView)
    ensures
        read_on(seq!["--no-color"@] + rest, u, a) == read_on(rest, u, ArgsView { no_color: true, ..a }),
        read_on(seq!["--no-colour"@] + rest, u, a) == read_on(rest, u, ArgsView { no_color: true, ..a }),
        read_on(seq!["--quiet"@] + rest, u, a) == read_on(rest, u, ArgsView { quiet: true, ..a }),
        read_on(seq!["-q"@] + rest, u, a) == read_on(rest, u, ArgsView { quiet: true, ..a }),
        read_on(Seq::empty(), u, a) == (ParsedView { unknown: u, outcome: Ok(a) }),
{
    lemma_flags();
    lemma_single("--no-color"@, rest);
    lemma_single("--no-colour"@, rest);
    lemma_single("--quiet"@, rest);
    lemma_single("-q"@, rest);
}

proof fn lemma_single(f: Seq<char>, rest: Seq<Seq<char>>)
    ensures
        ({
            let args = seq![f] + rest;
            args[0] == f && args.skip(1) == rest && args.len() >= 1
        }),
{
    assert((seq![f] + rest).skip(1) =~= rest);
}

/// A flag that lacks its value is refused for what it lacks, and what is no flag for what
/// it is.
pub proof fn law_refused_arguments(x: Seq<char>, rest: Seq<Seq<char>>, u: Seq<Seq<char>>, a: ArgsView)
    ensures
        read_on(seq!["--interface"@], u, a).outcome == Err::<ArgsView, StopView>(StopView::NoInterface),
        read_on(seq!["--protocol"@], u, a).outcome == Err::<ArgsView, StopView>(StopView::NoProtocol),
        read_on(seq!["--duration"@], u, a).outcome == Err::<ArgsView, StopView>(StopView::NoDuration),
        read_on(seq!["--read"@], u, a).outcome == Err::<ArgsView, StopView>(StopView::NoFile),
        x.len() > 0 && x[0] != '-' ==> read_on(seq![x] + rest, u, a).outcome == Err::<ArgsView, StopView>(
            StopView::Unknown(x),
        ),
{
    lemma_flags();
    lemma_single(x, rest);
    assert(seq!["--interface"@][0] == "--interface"@);
    assert(seq!["--protocol"@][0] == "--protocol"@);
    assert(seq!["--duration"@][0] == "--duration"@);
    assert(seq!["--read"@][0] == "--read"@);
    reveal_strlit("--interface");
    reveal_strlit("-i");
    reveal_strlit("--protocol");
    reveal_strlit("-p");
    reveal_strlit("--no-color");
    reveal_strlit("--no-colour");
    reveal_strlit("--quiet");
    reveal_strlit("-q");
    reveal_strlit("--duration");
    reveal_strlit("-d");
    reveal_strlit("--read");
    reveal_strlit("-r");
    assert("--interface"@[0] == '-' && "-i"@[0] == '-' && "--protocol"@[0] == '-' && "-p"@[0] == '-'
        && "--no-color"@[0] == '-' && "--no-colour"@[0] == '-' && "--quiet"@[0] == '-' && "-q"@[0] == '-'
        && "--duration"@[0] == '-' && "-d"@[0] == '-' && "--read"@[0] == '-' && "-r"@[0] == '-');
}

/// Whoever asks for help anywhere gets it, and nothing else; without asking, all is read
/// from the start, with nothing set but whether color is wanted.
pub proof fn law_help_comes_first(args: Seq<Seq<char>>, i: int, no_color: bool)
    ensures
        0 <= i < args.len() && (args[i] == "--help"@ || args[i] == "-h"@) ==> parsed(args, no_color).outcome
            == Err::<ArgsView, StopView>(StopView::Help),
        (forall|j: int| 0 <= j < args.len() ==> #[trigger] args[j] != "--help"@ && args[j] != "-h"@)
            ==> parsed(args, no_color) == read_on(
            args,
            Seq::empty(),
            ArgsView {
                interface: None,
                protocols: None,
                no_color,
                quiet: false,
                duration: None,
                read_file: None,
            },
        ),
{
    if 0 <= i < args.len() && (args[i] == "--help"@ || args[i] == "-h"@) {
        assert(asks_help(args[i]));
    }
}

// ── Protocols ────────────────────────────────────────────────────────────────

/// Each name in a list adds its protocol, once and in order; what is no name adds none.
pub proof fn law_lists_of_protocols(p: Seq<Seq<char>>, x: Seq<char>)
    ensures
        choice_of(trim(x)) matches Some(c) ==> (if choices(p).contains(c) {
            choices(p.push(x)) == choices(p)
        } else {
            choices(p.push(x)) == choices(p).push(c)
        }),
        choice_of(trim(x)) is None ==> choices(p.push(x)) == choices(p),
        choices(Seq::empty()) == Seq::<ProtocolChoice>::empty(),
{
    assert(p.push(x).drop_last() =~= p);
}

/// All is chosen by name, by the number 0, by an empty answer to the menu, among others, or
/// where nothing else is.
pub proof fn law_all_is_chosen(s: Seq<char>)
    ensures
        alike(trim(s), "all"@) ==> flag_choice(s) == seq![ProtocolChoice::All],
        trim(s) == "0"@ ==> flag_choice(s) == seq![ProtocolChoice::All] && menu_choice(s) == seq![
            ProtocolChoice::All,
        ],
        trim(s).len() == 0 ==> menu_choice(s) == seq![ProtocolChoice::All],
        choices(parts(trim(s), ',')).len() == 0 ==> flag_choice(s) == seq![ProtocolChoice::All],
        choices(parts(trim(s), ',')).contains(ProtocolChoice::All) ==> flag_choice(s) == seq![
            ProtocolChoice::All,
        ],
        trim(s) != "0"@ && !alike(trim(s), "all"@) && choices(parts(trim(s), ',')).len() > 0 && !choices(
            parts(trim(s), ','),
        ).contains(ProtocolChoice::All) ==> flag_choice(s) == choices(parts(trim(s), ',')),
        trim(s) != "0"@ && trim(s).len() > 0 && choices(parts(s, ',')).len() > 0 && !choices(
            parts(s, ','),
        ).contains(ProtocolChoice::All) ==> menu_choice(s) == choices(parts(s, ',')),
{
}

/// What is no name is told as it was written, up to where all was chosen.
pub proof fn law_strange_names(x: Seq<char>, rest: Seq<Seq<char>>)
    ensures
        choice_of(trim(x)) is None ==> strange(seq![x] + rest) == seq![trim(x)] + strange(rest),
        choice_of(trim(x)) == Some(ProtocolChoice::All) ==> strange(seq![x] + rest).len() == 0,
        choice_of(trim(x)) is Some && choice_of(trim(x)) != Some(ProtocolChoice::All) ==> strange(
            seq![x] + rest,
        ) == strange(rest),
        strange(Seq::empty()).len() == 0,
        trim(x) != "0"@ && !alike(trim(x), "all"@) ==> flag_strange(x) == strange(parts(trim(x), ',')),
{
    assert((seq![x] + rest)[0] == x);
    assert((seq![x] + rest).skip(1) =~= rest);
}

/// A selection stands for what each of its choices takes in, in order.
pub proof fn law_selections_take_in(s: Seq<ProtocolChoice>, c: ProtocolChoice)
    ensures
        expanded(s.push(c)) == expanded(s) + included(c),
        expanded(Seq::empty()) == Seq::<ProtocolChoice>::empty(),
{
    assert(s.push(c).drop_last() =~= s);
}

/// Everything over IP but AVB uses UDP, NDI also TCP, and AVB its own types of frames.
pub proof fn law_needs_of_protocols(c: ProtocolChoice)
    ensures
        wants(c, Need::Udp) <==> !(c is All) && !(c is AVB),
        wants(c, Need::Tcp) <==> c is NDI,
        wants(c, Need::Avb) <==> c is AVB,
{
}

/// The filter lets through what each protocol needs: UDP for all but AVB, TCP for NDI, the
/// three EtherTypes of AVB for AVB, and what concerns groups, links and clocks always.
pub proof fn law_filter_terms(e: Seq<ProtocolChoice>)
    ensures
        ({
            let udp = exists|i: int|
                0 <= i < e.len() && !(#[trigger] e[i] is All) && !(e[i] is AVB);
            let tcp = exists|i: int| 0 <= i < e.len() && #[trigger] e[i] is NDI;
            let avb = exists|i: int| 0 <= i < e.len() && #[trigger] e[i] is AVB;
            let t = filter_terms(e);
            let all = seq!["igmp"@] + (if udp {
                seq!["udp"@]
            } else {
                Seq::empty()
            }) + (if tcp {
                seq!["tcp"@]
            } else {
                Seq::empty()
            }) + (if avb {
                seq!["(ether proto 0x22f0) or (ether proto 0x22ea) or (ether proto 0x88f5)"@]
            } else {
                Seq::empty()
            }) + seq!["(ether proto 0x88cc)"@, "(ether proto 0x88f7)"@, "(ether proto 0x8808)"@];
            t == all
        }),
{
    reveal(filter_terms);
    lemma_needs(e);
}

proof fn lemma_needs(e: Seq<ProtocolChoice>)
    ensures
        any_wants(e, Need::Udp) <==> exists|i: int|
            0 <= i < e.len() && !(#[trigger] e[i] is All) && !(e[i] is AVB),
        any_wants(e, Need::Tcp) <==> exists|i: int| 0 <= i < e.len() && #[trigger] e[i] is NDI,
        any_wants(e, Need::Avb) <==> exists|i: int| 0 <= i < e.len() && #[trigger] e[i] is AVB,
{
    if any_wants(e, Need::Udp) {
        let i = choose|i: int| 0 <= i < e.len() && wants(#[trigger] e[i], Need::Udp);
        assert(!(e[i] is All));
    }
    if any_wants(e, Need::Tcp) {
        let i = choose|i: int| 0 <= i < e.len() && wants(#[trigger] e[i], Need::Tcp);
        assert(e[i] is NDI);
    }
    if any_wants(e, Need::Avb) {
        let i = choose|i: int| 0 <= i < e.len() && wants(#[trigger] e[i], Need::Avb);
        assert(e[i] is AVB);
    }
    if exists|i: int| 0 <= i < e.len() && !(#[trigger] e[i] is All) && !(e[i] is AVB) {
        let i = choose|i: int| 0 <= i < e.len() && !(#[trigger] e[i] is All) && !(e[i] is AVB);
        assert(wants(e[i], Need::Udp));
    }
    if exists|i: int| 0 <= i < e.len() && #[trigger] e[i] is NDI {
        let i = choose|i: int| 0 <= i < e.len() && #[trigger] e[i] is NDI;
        assert(wants(e[i], Need::Tcp));
    }
    if exists|i: int| 0 <= i < e.len() && #[trigger] e[i] is AVB {
        let i = choose|i: int| 0 <= i < e.len() && #[trigger] e[i] is AVB;
        assert(wants(e[i], Need::Avb));
    }
}

/// The filter lets through the same frames with and without a tag.
pub proof fn law_filters_know_tags(s: Seq<ProtocolChoice>, expr: Seq<char>)
    ensures
        vlan_arm(expr) == "("@ + expr + ") or (vlan and ("@ + expr + "))"@,
        expanded(s).len() > 0 && !expanded(s).contains(ProtocolChoice::All) ==> filter_for(s) == vlan_arm(
            joined(filter_terms(expanded(s)), " or "@),
        ),
        expanded(s).len() == 0 ==> filter_for(s) == vlan_arm(
            "igmp or udp or tcp or (ether proto 0x22f0) or (ether proto 0x22ea) or (ether proto 0x88f5) or (ether proto 0x88f7) or (ether proto 0x88cc) or (ether proto 0x8808)"@,
        ),
{
    if expanded(s).len() > 0 && !expanded(s).contains(ProtocolChoice::All) {
        assert(!chosen(expanded(s), ProtocolChoice::All)) by {
            if chosen(expanded(s), ProtocolChoice::All) {
                let i = choose|i: int|
                    0 <= i < expanded(s).len() && #[trigger] expanded(s)[i] == ProtocolChoice::All;
                assert(expanded(s).contains(ProtocolChoice::All));
            }
        }
    }
}

/// What comes with the protocols is told: clocks and groups, where any of them needs
/// those.
pub proof fn law_extras_are_told(e: Seq<ProtocolChoice>)
    ensures
        ({
            let ptp = exists|i: int|
                0 <= i < e.len() && (#[trigger] e[i] is AES67 || e[i] is ST2110 || e[i] is Dante || e[i]
                    is AVB);
            let igmp = exists|i: int|
                0 <= i < e.len() && (#[trigger] e[i] is AES67 || e[i] is ST2110 || e[i] is Dante);
            &&& ptp && igmp ==> extras(e) == "  (+ PTP, IGMP)"@
            &&& ptp && !igmp ==> extras(e) == "  (+ PTP)"@
            &&& !ptp ==> extras(e) == ""@
        }),
{
    if any_ptp(e) {
        let i = choose|i: int| 0 <= i < e.len() && crate::protocols::ptp_needed(#[trigger] e[i]);
        assert(e[i] is AES67 || e[i] is ST2110 || e[i] is Dante || e[i] is AVB);
    }
    if any_igmp(e) {
        let i = choose|i: int| 0 <= i < e.len() && crate::protocols::igmp_needed(#[trigger] e[i]);
        assert(e[i] is AES67 || e[i] is ST2110 || e[i] is Dante);
    }
    if exists|i: int|
        0 <= i < e.len() && (#[trigger] e[i] is AES67 || e[i] is ST2110 || e[i] is Dante || e[i] is AVB) {
        let i = choose|i: int|
            0 <= i < e.len() && (#[trigger] e[i] is AES67 || e[i] is ST2110 || e[i] is Dante || e[i]
                is AVB);
        assert(crate::protocols::ptp_needed(e[i]));
    }
    if exists|i: int| 0 <= i < e.len() && (#[trigger] e[i] is AES67 || e[i] is ST2110 || e[i] is Dante) {
        let i = choose|i: int|
            0 <= i < e.len() && (#[trigger] e[i] is AES67 || e[i] is ST2110 || e[i] is Dante);
        assert(crate::protocols::igmp_needed(e[i]));
    }
}

/// How selections are named on the screen and in the log.
pub proof fn law_selections_are_named(s: Seq<ProtocolChoice>, c: ProtocolChoice)
    ensures
        s.contains(ProtocolChoice::All) ==> banner_name(s) == "all protocols"@ && log_name(s) == "all"@,
        c is Audio ==> banner_name(seq![c]) == "Audio"@ && log_name(seq![c]) == "Audio_AES67 + Dante + AVB"@,
        c is Video ==> banner_name(seq![c]) == "Video"@ && log_name(seq![c]) == "Video_ST2110 + NDI"@,
        !(c is All) && !(c is Audio) && !(c is Video) ==> banner_name(seq![c]) == choice_name(c)
            && log_name(seq![c]) == choice_name(c),
{
    if s.contains(ProtocolChoice::All) {
        let i = choose|i: int| 0 <= i < s.len() && s[i] == ProtocolChoice::All;
        assert(chosen(s, ProtocolChoice::All));
    }
    if !(c is All) {
        let one = seq![c];
        assert(!chosen(one, ProtocolChoice::All));
        assert(one.map_values(|c: ProtocolChoice| short_name(c)) =~= seq![short_name(c)]);
        assert(one.map_values(|c: ProtocolChoice| file_name(c)) =~= seq![file_name(c)]);
    }
}

/// Several choices are named one behind the other.
pub proof fn law_selections_are_listed(a: ProtocolChoice, b: ProtocolChoice)
    requires
        !(a is All),
        !(b is All),
    ensures
        banner_name(seq![a, b]) == banner_name(seq![a]) + ", "@ + banner_name(seq![b]),
        log_name(seq![a, b]) == log_name(seq![a]) + "_"@ + log_name(seq![b]),
{
    let s = seq![a, b];
    assert(!chosen(s, ProtocolChoice::All));
    assert(!chosen(seq![a], ProtocolChoice::All));
    assert(!chosen(seq![b], ProtocolChoice::All));
    let x = s.map_values(|c: ProtocolChoice| short_name(c));
    let y = s.map_values(|c: ProtocolChoice| file_name(c));
    assert(x =~= seq![short_name(a), short_name(b)]);
    assert(y =~= seq![file_name(a), file_name(b)]);
    assert(x.drop_last() =~= seq![short_name(a)]);
    assert(y.drop_last() =~= seq![file_name(a)]);
    assert(seq![a].map_values(|c: ProtocolChoice| short_name(c)) =~= seq![short_name(a)]);
    assert(seq![a].map_values(|c: ProtocolChoice| file_name(c)) =~= seq![file_name(a)]);
    assert(seq![b].map_values(|c: ProtocolChoice| short_name(c)) =~= seq![short_name(b)]);
    assert(seq![b].map_values(|c: ProtocolChoice| file_name(c)) =~= seq![file_name(b)]);
    reveal_with_fuel(joined, 3);
}

/// The menu counts from one, in the order of its choices.
pub proof fn law_menu_lines()
    ensures
        menu_line(0) == "  "@ + dec(1) + ") "@ + "Audio (AES67 + Dante + AVB)"@,
        menu_line(1) == "  "@ + dec(2) + ") "@ + "Video (ST2110 + NDI)"@,
        menu_line(2) == "  "@ + dec(3) + ") "@ + "AES67"@,
        menu_line(3) == "  "@ + dec(4) + ") "@ + "AVB"@,
        menu_line(4) == "  "@ + dec(5) + ") "@ + "Dante"@,
        menu_line(5) == "  "@ + dec(6) + ") "@ + "NDI"@,
        menu_line(6) == "  "@ + dec(7) + ") "@ + "ST2110"@,
{
}

// ── Interfaces ───────────────────────────────────────────────────────────────

/// A name with any of these words in it is a virtual interface's.
pub proof fn law_virtual_interfaces(before: Seq<char>, behind: Seq<char>)
    ensures
        is_virtual(before + "utun"@ + behind),
        is_virtual(before + "awdl"@ + behind),
        is_virtual(before + "llw"@ + behind),
        is_virtual(before + "bridge"@ + behind),
        is_virtual(before + "vpn"@ + behind),
        is_virtual(before + "docker"@ + behind),
        is_virtual(before + "veth"@ + behind),
        is_virtual(before + "virbr"@ + behind),
        is_virtual(before + "ap1"@ + behind),
        is_virtual(before + "anpi"@ + behind),
        is_virtual(before + "gif"@ + behind),
        is_virtual(before + "stf"@ + behind),
{
    lemma_within(before, "utun"@, behind, 0);
    lemma_within(before, "awdl"@, behind, 1);
    lemma_within(before, "llw"@, behind, 2);
    lemma_within(before, "bridge"@, behind, 3);
    lemma_within(before, "vpn"@, behind, 4);
    lemma_within(before, "docker"@, behind, 5);
    lemma_within(before, "veth"@, behind, 6);
    lemma_within(before, "virbr"@, behind, 7);
    lemma_within(before, "ap1"@, behind, 8);
    lemma_within(before, "anpi"@, behind, 9);
    lemma_within(before, "gif"@, behind, 10);
    lemma_within(before, "stf"@, behind, 11);
}

proof fn lemma_within(before: Seq<char>, word: Seq<char>, behind: Seq<char>, i: int)
    requires
        0 <= i < virtual_words().len(),
        virtual_words()[i] == word,
    ensures
        is_virtual(before + word + behind),
{
    let s = before + word + behind;
    let n = before.len() as int;
    assert(s.skip(n).subrange(0, word.len() as int) =~= word);
    assert(begins(s.skip(n), word));
    assert(within_text(s, virtual_words()[i]));
}

/// An interface is offered unless it is the loopback, a virtual one, or without a link.
pub proof fn law_offered_interfaces(d: InterfaceView)
    ensures
        offered(d) <==> d.name != "lo"@ && d.name != "lo0"@ && !is_virtual(d.name) && !d.disconnected
            && d.desc != Some("Npcap Loopback Adapter"@),
{
}

/// Every interface that is offered is listed, in order.
pub proof fn law_all_offered_are_listed(d: Seq<InterfaceView>, x: InterfaceView)
    requires
        d.len() < usize::MAX,
    ensures
        offered(x) ==> offered_places(d.push(x)) == offered_places(d).push(d.len() as usize),
        !offered(x) ==> offered_places(d.push(x)) == offered_places(d),
        offered_places(Seq::empty()).len() == 0,
{
    assert(d.push(x).drop_last() =~= d);
}

/// The user picks the first interface by an empty answer, or one by its number, from zero.
pub proof fn law_answers(input: Seq<char>, k: nat, n: nat)
    requires
        n <= usize::MAX,
    ensures
        trim(input).len() == 0 ==> answer(input, n) == InterfaceChoice::Picked(0),
        k < n ==> answer(dec(k), n) == InterfaceChoice::Picked(k as usize),
        n <= k <= usize::MAX ==> answer(dec(k), n) == InterfaceChoice::OutOfRange,
        trim(input).len() > 0 && whole(trim(input), usize::MAX as nat) is None ==> answer(input, n)
            == InterfaceChoice::NotANumber,
{
    law_numbers_are_digits(k);
    law_numbers_read_back(k, usize::MAX as nat);
    let s = dec(k);
    assert(crate::scan::is_digit(s[0]) && crate::scan::is_digit(s[s.len() - 1]));
    law_trimming_takes_the_ends(s);
}

/// The addresses of an interface are told but for 0.0.0.0, and where it has none, those
/// that are known by its description.
pub proof fn law_interface_addresses(a: Seq<Ipv4Addr>, ip: Ipv4Addr, d: InterfaceView, found: Seq<(Seq<char>, Seq<char>)>)
    ensures
        ip == (Ipv4Addr { a: 0, b: 0, c: 0, d: 0 }) ==> real_addresses(a.push(ip)) == real_addresses(a),
        ip != (Ipv4Addr { a: 0, b: 0, c: 0, d: 0 }) ==> real_addresses(a.push(ip)) == real_addresses(
            a,
        ).push(dotted(ip)),
        ({
            let own = joined(real_addresses(d.ipv4), ", "@);
            &&& own.len() > 0 ==> shown_addresses(d, found) == own
            &&& own.len() == 0 && d.desc is Some && lookup(found, d.desc.unwrap()) is Some
                ==> shown_addresses(d, found) == lookup(found, d.desc.unwrap()).unwrap()
            &&& own.len() == 0 && d.desc is None ==> shown_addresses(d, found).len() == 0
        }),
{
    assert(a.push(ip).drop_last() =~= a);
}

/// An interface is described by its port where that is known, and else by its own
/// description.
pub proof fn law_interface_descriptions(d: InterfaceView, known: Seq<(Seq<char>, Seq<char>)>)
    ensures
        lookup(known, d.name) is Some ==> shown_desc(d, known) == lookup(known, d.name).unwrap(),
        lookup(known, d.name) is None && d.desc is Some ==> shown_desc(d, known) == d.desc.unwrap(),
        lookup(known, d.name) is None && d.desc is None ==> shown_desc(d, known).len() == 0,
{
}

/// What is told behind the name of an interface.
pub proof fn law_interface_info(desc: Seq<char>, ip: Seq<char>)
    ensures
        desc.len() > 0 && ip.len() > 0 ==> interface_info(desc, ip) == "  —  "@ + desc + "  ("@ + ip + ")"@,
        desc.len() > 0 && ip.len() == 0 ==> interface_info(desc, ip) == "  —  "@ + desc + "  (no IPv4)"@,
        desc.len() == 0 && ip.len() > 0 ==> interface_info(desc, ip) == "  —  "@ + ip,
        desc.len() == 0 && ip.len() == 0 ==> interface_info(desc, ip).len() == 0,
{
}

/// A hardware port names the device of the line behind it, once.
pub proof fn law_port_names(p: Ports, port: Seq<char>, dev: Seq<char>)
    requires
        trim(port).len() > 0,
        trim(dev).len() > 0,
    ensures
        ports_with(p, "Hardware Port: "@ + port) == (Ports { port: trim(port), ..p }),
        ({
            let q = ports_with(ports_with(p, "Hardware Port: "@ + port), "Device: "@ + dev);
            &&& lookup(q.names, trim(dev)) == Some(trim(port))
            &&& q.port.len() == 0
            &&& ports_with(q, "Device: "@ + dev) == q
        }),
{
    let a = "Hardware Port: "@;
    let b = "Device: "@;
    crate::text_laws::law_prefixes_are_taken_off(a, port);
    crate::text_laws::law_prefixes_are_taken_off(b, dev);
    reveal_strlit("Hardware Port: ");
    reveal_strlit("Device: ");
    assert((b + dev)[0] == 'D' && a[0] == 'H');
    crate::text_laws::law_prefixes_are_taken_off(a, b + dev);
    lemma_put_lookup(p.names, trim(dev), trim(port), trim(dev));
}

/// A line of ports that is of neither kind changes nothing, and lines are read in turn.
pub proof fn law_port_lines(lines: Seq<Seq<char>>, l: Seq<char>)
    ensures
        ports(lines.push(l)) == ports_with(ports(lines), l),
        ports(Seq::empty()).names.len() == 0,
        l.len() > 0 && l[0] != 'H' && l[0] != 'D' ==> ports(lines.push(l)) == ports(lines),
{
    assert(lines.push(l).drop_last() =~= lines);
    reveal_strlit("Hardware Port: ");
    reveal_strlit("Device: ");
    crate::text_laws::law_prefixes_are_taken_off("Hardware Port: "@, l);
    crate::text_laws::law_prefixes_are_taken_off("Device: "@, l);
}

/// An address belongs to the description before it, behind those that it has; an empty
/// line ends the adapter.
pub proof fn law_adapter_addresses(
    found: Seq<(Seq<char>, Seq<char>)>,
    desc: Seq<char>,
    ip: Seq<char>,
    a: Adapters,
    l: Seq<char>,
)
    ensures
        lookup(found, desc) is None ==> lookup(with_address(found, desc, ip), desc) == Some(ip),
        lookup(found, desc) is Some ==> lookup(with_address(found, desc, ip), desc) == Some(
            lookup(found, desc).unwrap() + ", "@ + ip,
        ),
        trim(l).len() == 0 ==> adapters_with(a, l) == (Adapters { desc: None, ..a }),
        address_key("IPv4 Address"@),
        address_key("Autoconfiguration IPv4 Address"@),
        !address_key("Description"@),
{
    let m = match lookup(found, desc) {
        Some(have) => have + ", "@ + ip,
        None => ip,
    };
    lemma_put_lookup(found, desc, m, desc);
    reveal_strlit("IPv4 Address");
    reveal_strlit("Autoconfiguration IPv4 Address");
    reveal_strlit("Description");
    assert("Description"@[0] == 'D' && "IPv4 Address"@[0] == 'I'
        && "Autoconfiguration IPv4 Address"@[0] == 'A');
}

/// A line of an adapter is a key, filled up with dots, a colon and a value. A description
/// starts what follows, and an address goes to it without its mark.
pub proof fn law_adapter_lines(a: Adapters, l: Seq<char>, k: Seq<char>, value: Seq<char>)
    requires
        trim(l) == k.push(':') + value,
        forall|i: int| 0 <= i < k.len() ==> k[i] != ':',
    ensures
        ({
            let key = trim(undotted(k));
            &&& key == "Description"@ ==> adapters_with(a, l) == (Adapters { desc: Some(trim(value)), ..a })
            &&& (key == "IPv4 Address"@ || key == "Autoconfiguration IPv4 Address"@) && a.desc is Some
                ==> adapters_with(a, l) == (Adapters {
                found: with_address(a.found, a.desc.unwrap(), trim(unmarked(trim(value)))),
                ..a
            })
            &&& (key == "IPv4 Address"@ || key == "Autoconfiguration IPv4 Address"@) && a.desc is None
                ==> adapters_with(a, l) == a
            &&& key != "Description"@ && key != "IPv4 Address"@ && key
                != "Autoconfiguration IPv4 Address"@ ==> adapters_with(a, l) == a
        }),
{
    law_parts_stand_between(k, ':', value);
    reveal_strlit("IPv4 Address");
    reveal_strlit("Autoconfiguration IPv4 Address");
    reveal_strlit("Description");
    assert("Description"@[0] == 'D' && "IPv4 Address"@[0] == 'I'
        && "Autoconfiguration IPv4 Address"@[0] == 'A');
}

/// A mark behind an address is taken off, as are dots and spaces behind a key.
pub proof fn law_marks_are_taken_off(s: Seq<char>)
    ensures
        unmarked(s + "(Preferred)"@) == unmarked(s),
        undotted(s.push('.')) == undotted(s),
        undotted(s.push(' ')) == undotted(s),
        s.len() > 0 && s.last() != '.' && s.last() != ' ' ==> undotted(s) == s,
        s.len() > 0 && s.last() != ')' ==> unmarked(s) == s,
{
    reveal_strlit("(Preferred)");
    let m = "(Preferred)"@;
    assert(m.len() == 11);
    assert((s + m).skip(s.len() as int) =~= m);
    assert((s + m).take(s.len() as int) =~= s);
    assert(s.push('.').drop_last() =~= s);
    assert(s.push(' ').drop_last() =~= s);
    if s.len() >= 11 && s.skip(s.len() - 11) == m {
        assert(s.skip(s.len() - 11)[10] == s.last());
        assert(m[10] == ')');
    }
}

/// Whether a word stands anywhere in a name.
pub open spec fn has_word(name: Seq<char>, word: Seq<char>) -> bool {
    exists|i: int|
        0 <= i && i + word.len() <= name.len() && #[trigger] name.subrange(i, i + word.len()) == word
}

/// Only a name with one of these words in it is a virtual interface's.
pub proof fn law_other_interfaces_are_real(name: Seq<char>)
    requires
        is_virtual(name),
    ensures
        has_word(name, "utun"@) || has_word(name, "awdl"@) || has_word(name, "llw"@) || has_word(
            name,
            "bridge"@,
        ) || has_word(name, "vpn"@) || has_word(name, "docker"@) || has_word(name, "veth"@) || has_word(
            name,
            "virbr"@,
        ) || has_word(name, "ap1"@) || has_word(name, "anpi"@) || has_word(name, "gif"@) || has_word(
            name,
            "stf"@,
        ),
{
    let w = virtual_words();
    let i = choose|i: int| 0 <= i < w.len() && within_text(name, #[trigger] w[i]);
    let p = w[i];
    let k = choose|k: int| 0 <= k <= name.len() && begins(#[trigger] name.skip(k), p);
    assert(name.subrange(k, k + p.len()) =~= name.skip(k).subrange(0, p.len() as int));
    assert(has_word(name, p));
    assert(p == w[0] || p == w[1] || p == w[2] || p == w[3] || p == w[4] || p == w[5] || p == w[6] || p
        == w[7] || p == w[8] || p == w[9] || p == w[10] || p == w[11]);
}

/// What a refused command line is answered.
pub proof fn law_refusals_are_worded(x: Seq<char>)
    ensures
        stop_text(StopView::NoInterface) == "❌ --interface requires a value (e.g. --interface en0)"@,
        stop_text(StopView::NoProtocol)
            == "❌ --protocol requires a value (e.g. --protocol aes67,dante)"@,
        stop_text(StopView::NoDuration) == "❌ --duration requires a value (e.g. --duration 30)"@,
        stop_text(StopView::BadDuration)
            == "❌ --duration requires a positive integer (e.g. --duration 30)"@,
        stop_text(StopView::NoFile) == "❌ --read requires a file path (e.g. --read capture.pcap)"@,
        stop_text(StopView::Unknown(x)) == "❌ Unknown argument: "@ + x
            + "  (run with --help for usage)"@,
        stop_text(StopView::Help) == ""@,
{
}

/// How an interface is told: by its number, its name and what is known of it; one of Npcap,
/// whose name says nothing, by its description.
pub proof fn law_interfaces_are_told(
    n: nat,
    d: InterfaceView,
    known: Seq<(Seq<char>, Seq<char>)>,
    found: Seq<(Seq<char>, Seq<char>)>,
)
    ensures
        ({
            let t = interface_text(n, d, known, found);
            let desc = shown_desc(d, known);
            let ip = shown_addresses(d, found);
            let npcap = begins(d.name, "\\Device\\NPF_"@);
            let name = if desc.len() == 0 {
                d.name
            } else {
                desc
            };
            &&& !npcap ==> t == "  "@ + dec(n) + ": "@ + (d.name + interface_info(desc, ip))
            &&& npcap && ip.len() == 0 ==> t == "  "@ + dec(n) + ": "@ + (name + "  (no IPv4)"@)
            &&& npcap && ip.len() > 0 ==> t == "  "@ + dec(n) + ": "@ + (name + ("  ("@ + ip + ")"@))
        }),
{
}

/// Adapters are read line by line.
pub proof fn law_adapters_in_turn(lines: Seq<Seq<char>>, l: Seq<char>)
    ensures
        adapters(lines.push(l)) == adapters_with(adapters(lines), l),
        adapters(Seq::empty()).found.len() == 0,
        adapters(Seq::empty()).desc is None,
{
    assert(lines.push(l).drop_last() =~= lines);
}

} // verus!
