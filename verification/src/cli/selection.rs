//! Which protocols were chosen, and what that asks of the capture.

use vstd::prelude::*;

use crate::protocols::{any_igmp, any_ptp, choice_name, choice_of, chosen, concrete, included, is_chosen, menu, wants_igmp, wants_ptp, ProtocolChoice};
use crate::scan::{alike, is_alike, parts, spellings, split, string_of, trim, trimmed, chars_of};
use crate::text::{dec, join, joined, prefixed, push_dec, texts};

verus! {

// ── Choosing ─────────────────────────────────────────────────────────────────

/// What a part of a list names.
pub open spec fn named(part: Seq<char>) -> Option<ProtocolChoice> {
    choice_of(trim(part))
}

/// The choices that a list names, each once, where it was first named.
pub open spec fn choices(p: Seq<Seq<char>>) -> Seq<ProtocolChoice>
    decreases p.len(),
{
    if p.len() == 0 {
        Seq::empty()
    } else {
        let before = choices(p.drop_last());
        match named(p.last()) {
            Some(c) => if before.contains(c) {
                before
            } else {
                before.push(c)
            },
            None => before,
        }
    }
}

/// What a list selects: everything if it says so or names nothing, else what it
/// names.
pub open spec fn picked_from(p: Seq<Seq<char>>) -> Seq<ProtocolChoice> {
    let c = choices(p);
    if c.len() == 0 || c.contains(ProtocolChoice::All) {
        seq![ProtocolChoice::All]
    } else {
        c
    }
}

/// What the value of a flag selects.
pub open spec fn flag_choice(s: Seq<char>) -> Seq<ProtocolChoice> {
    let t = trim(s);
    if alike(t, "all"@) || t == "0"@ {
        seq![ProtocolChoice::All]
    } else {
        picked_from(parts(t, ','))
    }
}

/// What an answer to the menu selects.
pub open spec fn menu_choice(s: Seq<char>) -> Seq<ProtocolChoice> {
    if trim(s).len() == 0 || trim(s) == "0"@ {
        seq![ProtocolChoice::All]
    } else {
        picked_from(parts(s, ','))
    }
}

/// The parts of a list that name nothing, as far as it is read: up to the part
/// that asks for everything.
pub open spec fn strange(p: Seq<Seq<char>>) -> Seq<Seq<char>>
    decreases p.len(),
{
    if p.len() == 0 || named(p[0]) == Some(ProtocolChoice::All) {
        Seq::empty()
    } else if named(p[0]) is None {
        seq![trim(p[0])] + strange(p.skip(1))
    } else {
        strange(p.skip(1))
    }
}

/// The parts of a flag's value that name nothing.
pub open spec fn flag_strange(s: Seq<char>) -> Seq<Seq<char>> {
    let t = trim(s);
    if alike(t, "all"@) || t == "0"@ {
        Seq::empty()
    } else {
        strange(parts(t, ','))
    }
}

proof fn lemma_all_stays(p: Seq<Seq<char>>, i: int)
    requires
        0 <= i < p.len(),
        named(p[i]) == Some(ProtocolChoice::All),
    ensures
        choices(p).contains(ProtocolChoice::All),
    decreases p.len(),
{
    let before = choices(p.drop_last());
    if i == p.len() - 1 {
        if !before.contains(ProtocolChoice::All) {
            let after = before.push(ProtocolChoice::All);
            assert(after[after.len() - 1] == ProtocolChoice::All);
        }
    } else {
        lemma_all_stays(p.drop_last(), i);
        let k = choose|k: int| 0 <= k < before.len() && before[k] == ProtocolChoice::All;
        if let Some(c) = named(p.last()) {
            if !before.contains(c) {
                assert(before.push(c)[k] == ProtocolChoice::All);
            }
        }
    }
}

fn select(list: &Vec<Vec<char>>) -> (r: Vec<ProtocolChoice>)
    ensures
        r@ == picked_from(spellings(list@)),
{
    let ghost p = spellings(list@);
    let mut r: Vec<ProtocolChoice> = Vec::new();
    let mut i: usize = 0;
    proof {
        assert(p.take(0) =~= Seq::empty());
        assert(r@ =~= choices(p.take(0)));
    }
    while i < list.len()
        invariant
            p == spellings(list@),
            i <= list@.len(),
            r@ == choices(p.take(i as int)),
            !r@.contains(ProtocolChoice::All),
        decreases list@.len() - i,
    {
        assert(p.take(i + 1).drop_last() =~= p.take(i as int));
        assert(p.take(i + 1).last() == list@[i as int]@);
        let part: &[char] = trimmed(list[i].as_slice());
        let ghost before = r@;
        if let Some(c) = ProtocolChoice::parse(string_of(part).as_str()) {
            if c == ProtocolChoice::All {
                proof {
                    lemma_all_stays(p, i as int);
                }
                let all: Vec<ProtocolChoice> = vec![ProtocolChoice::All];
                assert(all@ =~= seq![ProtocolChoice::All]);
                return all;
            }
            if !is_chosen(r.as_slice(), c) {
                r.push(c);
                assert forall|k: int| 0 <= k < r@.len() implies r@[k] != ProtocolChoice::All by {
                    if k < before.len() {
                        assert(r@[k] == before[k]);
                        assert(before.contains(before[k]));
                    }
                }
            }
        }
        i += 1;
    }
    assert(p.take(i as int) =~= p);
    if r.len() == 0 {
        let all: Vec<ProtocolChoice> = vec![ProtocolChoice::All];
        assert(all@ =~= seq![ProtocolChoice::All]);
        all
    } else {
        r
    }
}

fn everything() -> (r: Vec<ProtocolChoice>)
    ensures
        r@ == seq![ProtocolChoice::All],
{
    let r: Vec<ProtocolChoice> = vec![ProtocolChoice::All];
    assert(r@ =~= seq![ProtocolChoice::All]);
    r
}

/// Reads the value of the flag that chooses protocols: names in either case or
/// numbers of the menu, with commas between them.
pub fn parse_protocol_str(s: &str) -> (r: Vec<ProtocolChoice>)
    ensures
        r@ == flag_choice(s@),
{
    let c: Vec<char> = chars_of(s);
    let t: &[char] = trimmed(c.as_slice());
    let zero: Vec<char> = chars_of("0");
    if is_alike(t, "all") || same_chars(t, zero.as_slice()) {
        return everything();
    }
    select(&split(t, ','))
}

fn same_chars(a: &[char], b: &[char]) -> (r: bool)
    ensures
        r == (a@ == b@),
{
    if a.len() != b.len() {
        return false;
    }
    let mut i: usize = 0;
    while i < a.len()
        invariant
            a@.len() == b@.len(),
            i <= a@.len(),
            forall|j: int| 0 <= j < i ==> a@[j] == b@[j],
        decreases a@.len() - i,
    {
        if a[i] != b[i] {
            assert(a@[i as int] != b@[i as int]);
            return false;
        }
        i += 1;
    }
    assert(a@ =~= b@);
    true
}

/// The parts of a flag's value that name no protocol. They are passed over, and
/// the user is told.
pub fn unknown_protocols(s: &str) -> (r: Vec<String>)
    ensures
        texts(r@) == flag_strange(s@),
{
    let c: Vec<char> = chars_of(s);
    let t: &[char] = trimmed(c.as_slice());
    let zero: Vec<char> = chars_of("0");
    let mut r: Vec<String> = Vec::new();
    assert(texts(r@) =~= Seq::empty());
    if is_alike(t, "all") || same_chars(t, zero.as_slice()) {
        return r;
    }
    let list: Vec<Vec<char>> = split(t, ',');
    let ghost p = spellings(list@);
    let mut i: usize = 0;
    assert(p.skip(0) =~= p);
    assert(texts(r@) + strange(p.skip(0)) =~= strange(p));
    while i < list.len()
        invariant
            p == spellings(list@),
            p == parts(t@, ','),
            t@ == trim(s@),
            !(alike(t@, "all"@) || t@ == "0"@),
            i <= list@.len(),
            texts(r@) + strange(p.skip(i as int)) == strange(p),
        decreases list@.len() - i,
    {
        assert(p.skip(i as int)[0] == list@[i as int]@);
        assert(p.skip(i as int).skip(1) =~= p.skip(i + 1));
        let part: &[char] = trimmed(list[i].as_slice());
        let text: String = string_of(part);
        let ghost before = texts(r@);
        match ProtocolChoice::parse(text.as_str()) {
            Some(c) => {
                if c == ProtocolChoice::All {
                    assert(texts(r@) =~= strange(p));
                    return r;
                }
            },
            None => {
                r.push(text);
                assert(texts(r@) =~= before.push(text@));
                assert(texts(r@) + strange(p.skip(i + 1)) =~= before + (seq![text@] + strange(
                    p.skip(i + 1),
                )));
            },
        }
        i += 1;
    }
    assert(p.skip(i as int) =~= Seq::empty());
    assert(texts(r@) =~= strange(p));
    r
}

/// The menu's lines.
pub open spec fn menu_line(i: int) -> Seq<char> {
    "  "@ + dec((i + 1) as nat) + ") "@ + choice_name(menu()[i])
}

/// The lines of the menu of protocols.
pub fn protocol_menu() -> (r: Vec<String>)
    ensures
        texts(r@) == seq!["Choose the protocols to monitor:"@, "  0) All"@] + Seq::new(
            7,
            |i: int| menu_line(i),
        ) + seq!["  [Separate by commas, e.g. '1,2,3' or enter for all]"@],
{
    let mut r: Vec<String> = Vec::new();
    r.push(String::from_str("Choose the protocols to monitor:"));
    r.push(String::from_str("  0) All"));
    let all: Vec<ProtocolChoice> = ProtocolChoice::all_choices();
    let mut i: usize = 0;
    while i < all.len()
        invariant
            all@ == menu(),
            i <= 7,
            r@.len() == i + 2,
            r@[0]@ == "Choose the protocols to monitor:"@,
            r@[1]@ == "  0) All"@,
            forall|j: int| 2 <= j < i + 2 ==> (#[trigger] r@[j])@ == menu_line(j - 2),
        decreases 7 - i,
    {
        let mut s: String = String::from_str("  ");
        push_dec(&mut s, i as u64 + 1);
        s.append(") ");
        s.append(all[i].name());
        r.push(s);
        i += 1;
    }
    r.push(String::from_str("  [Separate by commas, e.g. '1,2,3' or enter for all]"));
    assert(texts(r@) =~= seq!["Choose the protocols to monitor:"@, "  0) All"@] + Seq::new(
        7,
        |i: int| menu_line(i),
    ) + seq!["  [Separate by commas, e.g. '1,2,3' or enter for all]"@]);
    r
}

/// Reads the answer to the menu of protocols.
pub fn prompt_protocol_selection(input: &str) -> (r: Vec<ProtocolChoice>)
    ensures
        r@ == menu_choice(input@),
{
    let c: Vec<char> = chars_of(input);
    let t: &[char] = trimmed(c.as_slice());
    let zero: Vec<char> = chars_of("0");
    if t.len() == 0 || same_chars(t, zero.as_slice()) {
        return everything();
    }
    select(&split(c.as_slice(), ','))
}

// ── What was chosen ──────────────────────────────────────────────────────────

/// The single protocols that choices stand for, in their order.
pub open spec fn expanded(s: Seq<ProtocolChoice>) -> Seq<ProtocolChoice>
    decreases s.len(),
{
    if s.len() == 0 {
        Seq::empty()
    } else {
        expanded(s.drop_last()) + included(s.last())
    }
}

/// The single protocols that choices stand for.
pub fn expand(selected: &[ProtocolChoice]) -> (r: Vec<ProtocolChoice>)
    ensures
        r@ == expanded(selected@),
{
    let mut r: Vec<ProtocolChoice> = Vec::new();
    let mut i: usize = 0;
    assert(selected@.take(0) =~= Seq::empty());
    while i < selected.len()
        invariant
            i <= selected@.len(),
            r@ == expanded(selected@.take(i as int)),
        decreases selected@.len() - i,
    {
        assert(selected@.take(i + 1).drop_last() =~= selected@.take(i as int));
        let mut more: Vec<ProtocolChoice> = selected[i].includes();
        r.append(&mut more);
        i += 1;
    }
    assert(selected@.take(i as int) =~= selected@);
    r
}

/// What a choice needs to be let through by the capture filter.
#[derive(Debug, Clone, Copy, PartialEq, Eq, Structural)]
pub enum Need {
    Udp,
    Tcp,
    Avb,
}

/// Whether a choice has a need.
pub open spec fn wants(c: ProtocolChoice, n: Need) -> bool {
    match n {
        Need::Udp => !(c is All || c is AVB),
        Need::Tcp => c is NDI,
        Need::Avb => c is AVB,
    }
}

/// Whether any choice has a need.
pub open spec fn any_wants(s: Seq<ProtocolChoice>, n: Need) -> bool {
    exists|i: int| 0 <= i < s.len() && wants(#[trigger] s[i], n)
}

fn any(s: &[ProtocolChoice], n: Need) -> (r: bool)
    ensures
        r == any_wants(s@, n),
{
    let mut i: usize = 0;
    while i < s.len()
        invariant
            i <= s@.len(),
            forall|j: int| 0 <= j < i ==> !wants(#[trigger] s@[j], n),
        decreases s@.len() - i,
    {
        let c: ProtocolChoice = s[i];
        let hit: bool = match n {
            Need::Udp => c.needs_udp(),
            Need::Tcp => c.needs_tcp(),
            Need::Avb => c.needs_avb(),
        };
        if hit {
            assert(wants(s@[i as int], n));
            return true;
        }
        i += 1;
    }
    false
}

// ── The capture filter ───────────────────────────────────────────────────────

/// An expression for frames without a VLAN tag and for those with one.
pub open spec fn vlan_arm(expr: Seq<char>) -> Seq<char> {
    "("@ + expr + ") or (vlan and ("@ + expr + "))"@
}

/// A term, if it is needed.
pub open spec fn term_if(c: bool, t: Seq<char>) -> Seq<Seq<char>> {
    if c {
        seq![t]
    } else {
        Seq::empty()
    }
}

/// The terms of a filter: IGMP, what the protocols need, and LLDP, gPTP and flow
/// control in any case.
#[verifier::opaque]
pub open spec fn filter_terms(e: Seq<ProtocolChoice>) -> Seq<Seq<char>> {
    seq!["igmp"@] + term_if(any_wants(e, Need::Udp), "udp"@) + term_if(
        any_wants(e, Need::Tcp),
        "tcp"@,
    ) + term_if(
        any_wants(e, Need::Avb),
        "(ether proto 0x22f0) or (ether proto 0x22ea) or (ether proto 0x88f5)"@,
    ) + seq!["(ether proto 0x88cc)"@, "(ether proto 0x88f7)"@, "(ether proto 0x8808)"@]
}

/// The filter that lets everything of interest through.
pub open spec fn full_filter() -> Seq<char> {
    vlan_arm(
        "igmp or udp or tcp or (ether proto 0x22f0) or (ether proto 0x22ea) or (ether proto 0x88f5) or (ether proto 0x88f7) or (ether proto 0x88cc) or (ether proto 0x8808)"@,
    )
}

/// The filter for a selection.
pub open spec fn filter_for(selected: Seq<ProtocolChoice>) -> Seq<char> {
    let e = expanded(selected);
    if e.len() == 0 || chosen(e, ProtocolChoice::All) {
        full_filter()
    } else {
        vlan_arm(joined(filter_terms(e), " or "@))
    }
}

/// Lets an expression match frames with a VLAN tag, too.
pub fn with_vlan_arm(expr: &str) -> (s: String)
    ensures
        s@ == vlan_arm(expr@),
{
    let mut s: String = prefixed("(", expr);
    s.append(") or (vlan and (");
    s.append(expr);
    s.append("))");
    s
}

/// The filter that lets everything of interest through.
pub fn all_protocols_filter() -> (s: String)
    ensures
        s@ == full_filter(),
{
    with_vlan_arm(
        "igmp or udp or tcp or (ether proto 0x22f0) or (ether proto 0x22ea) or (ether proto 0x88f5) or (ether proto 0x88f7) or (ether proto 0x88cc) or (ether proto 0x8808)",
    )
}

fn add_term(v: &mut Vec<String>, c: bool, t: &str)
    ensures
        texts(final(v)@) == texts(old(v)@) + term_if(c, t@),
{
    if c {
        v.push(String::from_str(t));
    }
    assert(texts(v@) =~= texts(old(v)@) + term_if(c, t@));
}

fn terms_of(e: &Vec<ProtocolChoice>) -> (v: Vec<String>)
    ensures
        texts(v@) == filter_terms(e@),
{
    reveal(filter_terms);
    let mut v: Vec<String> = Vec::new();
    v.push(String::from_str("igmp"));
    assert(texts(v@) =~= seq!["igmp"@]);
    add_term(&mut v, any(e.as_slice(), Need::Udp), "udp");
    add_term(&mut v, any(e.as_slice(), Need::Tcp), "tcp");
    add_term(
        &mut v,
        any(e.as_slice(), Need::Avb),
        "(ether proto 0x22f0) or (ether proto 0x22ea) or (ether proto 0x88f5)",
    );
    let ghost before = texts(v@);
    v.push(String::from_str("(ether proto 0x88cc)"));
    v.push(String::from_str("(ether proto 0x88f7)"));
    v.push(String::from_str("(ether proto 0x8808)"));
    assert(texts(v@) =~= before + seq![
        "(ether proto 0x88cc)"@,
        "(ether proto 0x88f7)"@,
        "(ether proto 0x8808)"@,
    ]);
    v
}

/// The capture filter for a selection.
pub fn build_bpf_filter(selected: &[ProtocolChoice]) -> (s: String)
    ensures
        s@ == filter_for(selected@),
{
    let e: Vec<ProtocolChoice> = expand(selected);
    if e.len() == 0 || is_chosen(e.as_slice(), ProtocolChoice::All) {
        return all_protocols_filter();
    }
    with_vlan_arm(join(&terms_of(&e), " or ").as_str())
}

// ── Names ────────────────────────────────────────────────────────────────────

/// What is monitored along with a selection.
pub open spec fn extras(e: Seq<ProtocolChoice>) -> Seq<char> {
    if any_ptp(e) && any_igmp(e) {
        "  (+ PTP, IGMP)"@
    } else if any_ptp(e) {
        "  (+ PTP)"@
    } else if any_igmp(e) {
        "  (+ IGMP)"@
    } else {
        ""@
    }
}

/// What is monitored along with a selection.
pub fn selected_extras_display(expanded: &[ProtocolChoice]) -> (s: String)
    ensures
        s@ == extras(expanded@),
{
    let ptp: bool = wants_ptp(expanded);
    let igmp: bool = wants_igmp(expanded);
    if ptp && igmp {
        String::from_str("  (+ PTP, IGMP)")
    } else if ptp {
        String::from_str("  (+ PTP)")
    } else if igmp {
        String::from_str("  (+ IGMP)")
    } else {
        String::from_str("")
    }
}

/// A choice's name without what it stands for.
pub open spec fn short_name(c: ProtocolChoice) -> Seq<char> {
    match c {
        ProtocolChoice::Audio => "Audio"@,
        ProtocolChoice::Video => "Video"@,
        _ => choice_name(c),
    }
}

/// A choice's name in a file name.
pub open spec fn file_name(c: ProtocolChoice) -> Seq<char> {
    match c {
        ProtocolChoice::Audio => "Audio_AES67 + Dante + AVB"@,
        ProtocolChoice::Video => "Video_ST2110 + NDI"@,
        _ => choice_name(c),
    }
}

/// What the banner calls a selection.
pub open spec fn banner_name(s: Seq<ProtocolChoice>) -> Seq<char> {
    if chosen(s, ProtocolChoice::All) {
        "all protocols"@
    } else {
        joined(s.map_values(|c: ProtocolChoice| short_name(c)), ", "@)
    }
}

/// What the log file calls a selection.
pub open spec fn log_name(s: Seq<ProtocolChoice>) -> Seq<char> {
    if chosen(s, ProtocolChoice::All) {
        "all"@
    } else {
        joined(s.map_values(|c: ProtocolChoice| file_name(c)), "_"@)
    }
}

/// What the banner calls a selection.
pub fn selected_protocol_display(selected: &[ProtocolChoice]) -> (s: String)
    ensures
        s@ == banner_name(selected@),
{
    if is_chosen(selected, ProtocolChoice::All) {
        return String::from_str("all protocols");
    }
    let mut v: Vec<String> = Vec::new();
    let mut i: usize = 0;
    while i < selected.len()
        invariant
            i <= selected@.len(),
            v@.len() == i,
            forall|j: int| 0 <= j < i ==> (#[trigger] v@[j])@ == short_name(selected@[j]),
        decreases selected@.len() - i,
    {
        let name: &str = match selected[i] {
            ProtocolChoice::Audio => "Audio",
            ProtocolChoice::Video => "Video",
            other => other.name(),
        };
        v.push(String::from_str(name));
        i += 1;
    }
    assert(texts(v@) =~= selected@.map_values(|c: ProtocolChoice| short_name(c)));
    join(&v, ", ")
}

/// What the log file calls a selection.
pub fn selected_protocol_names(selected: &[ProtocolChoice]) -> (s: String)
    ensures
        s@ == log_name(selected@),
{
    if is_chosen(selected, ProtocolChoice::All) {
        return String::from_str("all");
    }
    let mut v: Vec<String> = Vec::new();
    let mut i: usize = 0;
    while i < selected.len()
        invariant
            i <= selected@.len(),
            v@.len() == i,
            forall|j: int| 0 <= j < i ==> (#[trigger] v@[j])@ == file_name(selected@[j]),
        decreases selected@.len() - i,
    {
        let name: &str = match selected[i] {
            ProtocolChoice::Audio => "Audio_AES67 + Dante + AVB",
            ProtocolChoice::Video => "Video_ST2110 + NDI",
            other => other.name(),
        };
        v.push(String::from_str(name));
        i += 1;
    }
    assert(texts(v@) =~= selected@.map_values(|c: ProtocolChoice| file_name(c)));
    join(&v, "_")
}

// ── Laws ─────────────────────────────────────────────────────────────────────

/// The choices of a list are named once each.
proof fn lemma_choices_once(p: Seq<Seq<char>>)
    ensures
        choices(p).no_duplicates(),
    decreases p.len(),
{
    if p.len() > 0 {
        lemma_choices_once(p.drop_last());
        let before = choices(p.drop_last());
        if let Some(c) = named(p.last()) {
            if !before.contains(c) {
                let after = before.push(c);
                assert forall|i: int, j: int|
                    0 <= i < after.len() && 0 <= j < after.len() && i != j implies after[i]
                    != after[j] by {
                    if i < before.len() {
                        assert(before.contains(before[i]));
                    }
                    if j < before.len() {
                        assert(before.contains(before[j]));
                    }
                }
            }
        }
    }
}

/// Whatever the user writes, something is selected, nothing twice, and everything
/// only by itself.
pub proof fn law_selection_is_sound(s: Seq<char>)
    ensures
        flag_choice(s).len() > 0,
        flag_choice(s).no_duplicates(),
        flag_choice(s).contains(ProtocolChoice::All) ==> flag_choice(s) == seq![
            ProtocolChoice::All,
        ],
        menu_choice(s).len() > 0,
        menu_choice(s).no_duplicates(),
        menu_choice(s).contains(ProtocolChoice::All) ==> menu_choice(s) == seq![
            ProtocolChoice::All,
        ],
{
    lemma_choices_once(parts(trim(s), ','));
    lemma_choices_once(parts(s, ','));
}

/// A filter always asks for IGMP, LLDP, gPTP and flow control, whatever was
/// chosen.
pub proof fn law_infrastructure_is_captured(e: Seq<ProtocolChoice>)
    ensures
        filter_terms(e).contains("igmp"@),
        filter_terms(e).contains("(ether proto 0x88cc)"@),
        filter_terms(e).contains("(ether proto 0x88f7)"@),
        filter_terms(e).contains("(ether proto 0x8808)"@),
{
    reveal(filter_terms);
    let t = filter_terms(e);
    assert(t[0] == "igmp"@);
    assert(t[t.len() - 3] == "(ether proto 0x88cc)"@);
    assert(t[t.len() - 2] == "(ether proto 0x88f7)"@);
    assert(t[t.len() - 1] == "(ether proto 0x8808)"@);
}

/// Groups never stand among the single protocols of a selection, so handlers only
/// ever see single protocols.
pub proof fn law_expanded_is_single(s: Seq<ProtocolChoice>)
    ensures
        forall|i: int|
            0 <= i < expanded(s).len() ==> concrete(#[trigger] expanded(s)[i]),
        s.len() > 0 ==> expanded(s).len() > 0,
    decreases s.len(),
{
    if s.len() > 0 {
        law_expanded_is_single(s.drop_last());
        let front = expanded(s.drop_last());
        let more = included(s.last());
        assert forall|i: int| 0 <= i < expanded(s).len() implies concrete(
            #[trigger] expanded(s)[i],
        ) by {
            if i < front.len() {
                assert(expanded(s)[i] == front[i]);
            } else {
                assert(expanded(s)[i] == more[i - front.len()]);
            }
        }
    }
}

} // verus!
