//! The interfaces that can be captured on, and how they are shown.

use vstd::prelude::*;
use vstd::slice::slice_subrange;

use crate::net::{dotted, Ipv4Addr};
use crate::scan::{after, begins, begins_with, chars_of, cut, head, parts, read_whole, spellings, split, string_of, strip, tail, trim, trimmed, whole};
use crate::table::{lookup, put, Table};
use crate::text::{dec, join, joined, push_dec, same, texts};

verus! {

/// An interface that can be captured on.
#[derive(Debug)]
pub struct Interface {
    pub name: String,
    pub desc: Option<String>,
    /// Whether it is known to have no link.
    pub disconnected: bool,
    pub ipv4: Vec<Ipv4Addr>,
}

/// An interface, in specifications.
pub struct InterfaceView {
    pub name: Seq<char>,
    pub desc: Option<Seq<char>>,
    pub disconnected: bool,
    pub ipv4: Seq<Ipv4Addr>,
}

impl View for Interface {
    type V = InterfaceView;

    open spec fn view(&self) -> InterfaceView {
        InterfaceView {
            name: self.name@,
            desc: match self.desc {
                Some(d) => Some(d@),
                None => None,
            },
            disconnected: self.disconnected,
            ipv4: self.ipv4@,
        }
    }
}

// ── Which interfaces are offered ─────────────────────────────────────────────

/// Whether a text stands somewhere in another.
pub open spec fn within_text(s: Seq<char>, p: Seq<char>) -> bool {
    exists|i: int| 0 <= i <= s.len() && begins(#[trigger] s.skip(i), p)
}

/// Whether a text stands somewhere in another.
pub fn contains_text(s: &[char], p: &str) -> (r: bool)
    ensures
        r == within_text(s@, p@),
{
    let mut i: usize = 0;
    while i < s.len()
        invariant
            i <= s@.len(),
            forall|j: int| 0 <= j < i ==> !begins(#[trigger] s@.skip(j), p@),
        decreases s@.len() - i,
    {
        let rest: &[char] = slice_subrange(s, i, s.len());
        assert(rest@ =~= s@.skip(i as int));
        if begins_with(rest, p) {
            return true;
        }
        i += 1;
    }
    let rest: &[char] = slice_subrange(s, i, s.len());
    assert(rest@ =~= s@.skip(i as int));
    begins_with(rest, p)
}

/// What the names of virtual interfaces hold.
pub open spec fn virtual_words() -> Seq<Seq<char>> {
    seq![
        "utun"@,
        "awdl"@,
        "llw"@,
        "bridge"@,
        "vpn"@,
        "docker"@,
        "veth"@,
        "virbr"@,
        "ap1"@,
        "anpi"@,
        "gif"@,
        "stf"@,
    ]
}

/// Whether a name is a virtual interface's.
pub open spec fn is_virtual(name: Seq<char>) -> bool {
    exists|i: int|
        0 <= i < virtual_words().len() && within_text(name, #[trigger] virtual_words()[i])
}

/// Whether an interface is offered: not the loopback, not a virtual one, and not
/// one without a link.
pub open spec fn offered(d: InterfaceView) -> bool {
    &&& d.name != "lo"@
    &&& d.name != "lo0"@
    &&& !is_virtual(d.name)
    &&& !d.disconnected
    &&& d.desc != Some("Npcap Loopback Adapter"@)
}

fn named_virtual(name: &str) -> (r: bool)
    ensures
        r == is_virtual(name@),
{
    let c: Vec<char> = chars_of(name);
    let words: [&str; 12] = [
        "utun",
        "awdl",
        "llw",
        "bridge",
        "vpn",
        "docker",
        "veth",
        "virbr",
        "ap1",
        "anpi",
        "gif",
        "stf",
    ];
    let ghost all = virtual_words();
    assert forall|k: int| 0 <= k < 12 implies (#[trigger] all[k]) == words@[k]@ by {}
    let mut i: usize = 0;
    while i < 12
        invariant
            i <= 12,
            c@ == name@,
            all == virtual_words(),
            words@.len() == 12,
            forall|k: int| 0 <= k < 12 ==> (#[trigger] all[k]) == words@[k]@,
            forall|k: int| 0 <= k < i ==> !within_text(name@, #[trigger] all[k]),
        decreases 12 - i,
    {
        assert(all[i as int] == words@[i as int]@);
        if contains_text(c.as_slice(), words[i]) {
            return true;
        }
        i += 1;
    }
    assert(all.len() == 12);
    false
}

impl Interface {
    /// Whether the interface is offered.
    pub fn is_offered(&self) -> (r: bool)
        ensures
            r == offered(self@),
    {
        if same(self.name.as_str(), "lo") || same(self.name.as_str(), "lo0") {
            return false;
        }
        if named_virtual(self.name.as_str()) || self.disconnected {
            return false;
        }
        match &self.desc {
            Some(d) => !same(d.as_str(), "Npcap Loopback Adapter"),
            None => true,
        }
    }
}

/// The places of the interfaces that are offered, in their order.
pub open spec fn offered_places(d: Seq<InterfaceView>) -> Seq<usize>
    decreases d.len(),
{
    if d.len() == 0 {
        Seq::empty()
    } else if offered(d.last()) {
        offered_places(d.drop_last()).push((d.len() - 1) as usize)
    } else {
        offered_places(d.drop_last())
    }
}

/// The interfaces that are offered, by their places.
pub fn offered_interfaces(devices: &Vec<Interface>) -> (r: Vec<usize>)
    ensures
        r@ == offered_places(crate::order::views(devices@)),
{
    let ghost all = crate::order::views(devices@);
    let mut r: Vec<usize> = Vec::new();
    let mut i: usize = 0;
    assert(all.take(0) =~= Seq::empty());
    while i < devices.len()
        invariant
            all == crate::order::views(devices@),
            i <= devices@.len(),
            r@ == offered_places(all.take(i as int)),
        decreases devices@.len() - i,
    {
        assert(all.take(i + 1).drop_last() =~= all.take(i as int));
        assert(all.take(i + 1).last() == devices@[i as int]@);
        if devices[i].is_offered() {
            r.push(i);
        }
        i += 1;
    }
    assert(all.take(i as int) =~= all);
    r
}

/// Where the interface of that name stands, offered or not.
pub fn resolve_interface_by_name(devices: &Vec<Interface>, name: &str) -> (r: Option<usize>)
    ensures
        match r {
            Some(i) => i < devices@.len() && devices@[i as int]@.name == name@ && forall|j: int|
                0 <= j < i ==> (#[trigger] devices@[j])@.name != name@,
            None => forall|j: int|
                0 <= j < devices@.len() ==> (#[trigger] devices@[j])@.name != name@,
        },
{
    let mut i: usize = 0;
    while i < devices.len()
        invariant
            i <= devices@.len(),
            forall|j: int| 0 <= j < i ==> (#[trigger] devices@[j])@.name != name@,
        decreases devices@.len() - i,
    {
        if same(devices[i].name.as_str(), name) {
            return Some(i);
        }
        i += 1;
    }
    None
}

// ── How they are shown ───────────────────────────────────────────────────────

/// The addresses that mean anything.
pub open spec fn real_addresses(a: Seq<Ipv4Addr>) -> Seq<Seq<char>>
    decreases a.len(),
{
    if a.len() == 0 {
        Seq::empty()
    } else if a.last() == (Ipv4Addr { a: 0, b: 0, c: 0, d: 0 }) {
        real_addresses(a.drop_last())
    } else {
        real_addresses(a.drop_last()).push(dotted(a.last()))
    }
}

/// The addresses shown for an interface: its own, else those that its description
/// was found under.
pub open spec fn shown_addresses(
    d: InterfaceView,
    found: Seq<(Seq<char>, Seq<char>)>,
) -> Seq<char> {
    let own = joined(real_addresses(d.ipv4), ", "@);
    if own.len() == 0 {
        match d.desc {
            Some(desc) => match lookup(found, desc) {
                Some(ip) => ip,
                None => own,
            },
            None => own,
        }
    } else {
        own
    }
}

/// The description of an interface: the name of its port, else its own.
pub open spec fn shown_desc(d: InterfaceView, ports: Seq<(Seq<char>, Seq<char>)>) -> Seq<char> {
    match lookup(ports, d.name) {
        Some(p) => p,
        None => match d.desc {
            Some(desc) => desc,
            None => Seq::empty(),
        },
    }
}

/// What stands behind the name of an interface.
pub open spec fn interface_info(desc: Seq<char>, ipv4: Seq<char>) -> Seq<char> {
    if desc.len() > 0 && ipv4.len() > 0 {
        "  —  "@ + desc + "  ("@ + ipv4 + ")"@
    } else if desc.len() > 0 {
        "  —  "@ + desc + "  (no IPv4)"@
    } else if ipv4.len() > 0 {
        "  —  "@ + ipv4
    } else {
        Seq::empty()
    }
}

/// The line that offers an interface. A name that is only a number stays hidden
/// behind the description.
pub open spec fn interface_text(
    number: nat,
    d: InterfaceView,
    ports: Seq<(Seq<char>, Seq<char>)>,
    found: Seq<(Seq<char>, Seq<char>)>,
) -> Seq<char> {
    let desc = shown_desc(d, ports);
    let ipv4 = shown_addresses(d, found);
    "  "@ + dec(number) + ": "@ + (if begins(d.name, "\\Device\\NPF_"@) {
        (if desc.len() == 0 {
            d.name
        } else {
            desc
        }) + (if ipv4.len() == 0 {
            "  (no IPv4)"@
        } else {
            "  ("@ + ipv4 + ")"@
        })
    } else {
        d.name + interface_info(desc, ipv4)
    })
}

fn addresses_of(a: &Vec<Ipv4Addr>) -> (s: String)
    ensures
        s@ == joined(real_addresses(a@), ", "@),
{
    let mut v: Vec<String> = Vec::new();
    let mut i: usize = 0;
    assert(a@.take(0) =~= Seq::empty());
    assert(texts(v@) =~= real_addresses(a@.take(0)));
    while i < a.len()
        invariant
            i <= a@.len(),
            texts(v@) == real_addresses(a@.take(i as int)),
        decreases a@.len() - i,
    {
        assert(a@.take(i + 1).drop_last() =~= a@.take(i as int));
        let ghost before = texts(v@);
        if !is_unspecified(a[i]) {
            v.push(a[i].to_text());
            assert(texts(v@) =~= before.push(dotted(a@[i as int])));
        }
        i += 1;
    }
    assert(a@.take(i as int) =~= a@);
    join(&v, ", ")
}

fn is_unspecified(a: Ipv4Addr) -> (r: bool)
    ensures
        r == (a == (Ipv4Addr { a: 0, b: 0, c: 0, d: 0 })),
{
    a.a == 0 && a.b == 0 && a.c == 0 && a.d == 0
}

fn empty(s: &String) -> (r: bool)
    ensures
        r == (s@.len() == 0),
{
    s.as_str().unicode_len() == 0
}

/// The line that offers an interface.
pub fn interface_line(
    number: usize,
    d: &Interface,
    port_names: &Table<String, String>,
    windows_ips: &Table<String, String>,
) -> (s: String)
    ensures
        s@ == interface_text(number as nat, d@, port_names@, windows_ips@),
{
    let desc: String = match port_names.get(&d.name) {
        Some(p) => p.clone(),
        None => match &d.desc {
            Some(t) => t.clone(),
            None => String::new(),
        },
    };
    assert(desc@ =~= shown_desc(d@, port_names@));
    let mut ipv4: String = addresses_of(&d.ipv4);
    if empty(&ipv4) {
        if let Some(t) = &d.desc {
            if let Some(ip) = windows_ips.get(t) {
                ipv4 = ip.clone();
            }
        }
    }
    assert(ipv4@ == shown_addresses(d@, windows_ips@));
    let mut s: String = String::from_str("  ");
    push_dec(&mut s, number as u64);
    s.append(": ");
    let ghost front = s@;
    let name: Vec<char> = chars_of(d.name.as_str());
    if begins_with(name.as_slice(), "\\Device\\NPF_") {
        if empty(&desc) {
            s.append(d.name.as_str());
        } else {
            s.append(desc.as_str());
        }
        if empty(&ipv4) {
            s.append("  (no IPv4)");
        } else {
            s.append("  (");
            s.append(ipv4.as_str());
            s.append(")");
        }
    } else {
        s.append(d.name.as_str());
        if !empty(&desc) {
            s.append("  —  ");
            s.append(desc.as_str());
            if !empty(&ipv4) {
                s.append("  (");
                s.append(ipv4.as_str());
                s.append(")");
            } else {
                s.append("  (no IPv4)");
            }
        } else if !empty(&ipv4) {
            s.append("  —  ");
            s.append(ipv4.as_str());
        }
    }
    assert(s@ =~= interface_text(number as nat, d@, port_names@, windows_ips@));
    s
}

/// What an answer to the menu of interfaces means.
#[derive(Debug, Clone, Copy, PartialEq, Eq, Structural)]
pub enum InterfaceChoice {
    /// The interface of that number.
    Picked(usize),
    /// A number that no interface has.
    OutOfRange,
    /// No number.
    NotANumber,
}

/// What an answer to the menu of `n` interfaces means. An empty one is the first.
pub open spec fn answer(input: Seq<char>, n: nat) -> InterfaceChoice {
    let t = trim(input);
    if t.len() == 0 {
        InterfaceChoice::Picked(0)
    } else {
        match whole(t, usize::MAX as nat) {
            Some(k) => if k < n {
                InterfaceChoice::Picked(k as usize)
            } else {
                InterfaceChoice::OutOfRange
            },
            None => InterfaceChoice::NotANumber,
        }
    }
}

/// Reads the answer to the menu of interfaces.
pub fn select_interface(input: &str, n: usize) -> (r: InterfaceChoice)
    ensures
        r == answer(input@, n as nat),
{
    let c: Vec<char> = chars_of(input);
    let t: &[char] = trimmed(c.as_slice());
    if t.len() == 0 {
        return InterfaceChoice::Picked(0);
    }
    match read_whole(t, usize::MAX as u64) {
        Some(k) => {
            if k < n as u64 {
                InterfaceChoice::Picked(k as usize)
            } else {
                InterfaceChoice::OutOfRange
            }
        },
        None => InterfaceChoice::NotANumber,
    }
}

/// What the user is told of a number that no interface has.
pub fn out_of_range_text(n: usize) -> (s: String)
    requires
        n > 0,
    ensures
        s@ == "❌ Invalid selection. Must be between 0 and "@ + dec((n - 1) as nat) + "."@,
{
    let mut s: String = String::from_str("❌ Invalid selection. Must be between 0 and ");
    push_dec(&mut s, (n - 1) as u64);
    s.append(".");
    s
}

// ── Names and addresses from the system's own tools ──────────────────────────

/// Without dots and spaces at the end.
pub open spec fn undotted(s: Seq<char>) -> Seq<char>
    decreases s.len(),
{
    if s.len() > 0 && (s.last() == '.' || s.last() == ' ') {
        undotted(s.drop_last())
    } else {
        s
    }
}

/// Whether a text ends with another.
pub open spec fn ends(s: Seq<char>, p: Seq<char>) -> bool {
    s.len() >= p.len() && s.skip(s.len() - p.len()) == p
}

/// Without the mark of a preferred address at the end.
pub open spec fn unmarked(s: Seq<char>) -> Seq<char>
    decreases s.len(),
{
    if s.len() >= 11 && ends(s, "(Preferred)"@) {
        unmarked(s.take(s.len() - 11))
    } else {
        s
    }
}

/// What was read of the adapters: whose lines these are, and the addresses so far.
pub struct Adapters {
    pub desc: Option<Seq<char>>,
    pub found: Seq<(Seq<char>, Seq<char>)>,
}

/// The addresses with one more under a description.
pub open spec fn with_address(
    found: Seq<(Seq<char>, Seq<char>)>,
    desc: Seq<char>,
    ip: Seq<char>,
) -> Seq<(Seq<char>, Seq<char>)> {
    put(
        found,
        desc,
        match lookup(found, desc) {
            Some(have) => have + ", "@ + ip,
            None => ip,
        },
    )
}

/// Whether a key is that of an address.
pub open spec fn address_key(key: Seq<char>) -> bool {
    key == "IPv4 Address"@ || key == "Autoconfiguration IPv4 Address"@
}

/// What one line adds.
pub open spec fn adapters_with(a: Adapters, line: Seq<char>) -> Adapters {
    let t = trim(line);
    if t.len() == 0 {
        Adapters { desc: None, ..a }
    } else {
        match tail(t, ':') {
            None => a,
            Some(behind) => {
                let key = trim(undotted(head(t, ':')));
                let value = trim(behind);
                if key == "Description"@ {
                    Adapters { desc: Some(value), ..a }
                } else if address_key(key) {
                    match a.desc {
                        Some(d) => Adapters {
                            found: with_address(a.found, d, trim(unmarked(value))),
                            ..a
                        },
                        None => a,
                    }
                } else {
                    a
                }
            },
        }
    }
}

/// What lines add up to.
pub open spec fn adapters(lines: Seq<Seq<char>>) -> Adapters
    decreases lines.len(),
{
    if lines.len() == 0 {
        Adapters { desc: None, found: Seq::empty() }
    } else {
        adapters_with(adapters(lines.drop_last()), lines.last())
    }
}

fn without_dots<'a>(s: &'a [char]) -> (r: &'a [char])
    ensures
        r@ == undotted(s@),
{
    let mut hi: usize = s.len();
    proof {
        assert(s@.take(hi as int) =~= s@);
    }
    while hi > 0 && (s[hi - 1] == '.' || s[hi - 1] == ' ')
        invariant
            hi <= s@.len(),
            undotted(s@) == undotted(s@.take(hi as int)),
        decreases hi,
    {
        proof {
            assert(s@.take(hi as int).drop_last() =~= s@.take(hi - 1));
            assert(s@.take(hi as int).last() == s@[hi - 1]);
        }
        hi -= 1;
    }
    let r: &[char] = slice_subrange(s, 0, hi);
    proof {
        assert(r@ =~= s@.take(hi as int));
        if hi > 0 {
            assert(s@.take(hi as int).last() == s@[hi - 1]);
        }
    }
    r
}

fn without_mark<'a>(s: &'a [char]) -> (r: &'a [char])
    ensures
        r@ == unmarked(s@),
{
    let mut hi: usize = s.len();
    proof {
        reveal_strlit("(Preferred)");
        assert(s@.take(hi as int) =~= s@);
    }
    while hi >= 11
        invariant
            "(Preferred)"@.len() == 11,
            hi <= s@.len(),
            unmarked(s@) == unmarked(s@.take(hi as int)),
        decreases hi,
    {
        let end: &[char] = slice_subrange(s, hi - 11, hi);
        let ghost t = s@.take(hi as int);
        proof {
            assert(end@ =~= t.skip(t.len() - 11));
            assert(end@.subrange(0, 11) =~= end@);
        }
        if !begins_with(end, "(Preferred)") {
            let r: &[char] = slice_subrange(s, 0, hi);
            assert(r@ =~= t);
            return r;
        }
        assert(t.take(t.len() - 11) =~= s@.take(hi - 11));
        hi -= 11;
    }
    let r: &[char] = slice_subrange(s, 0, hi);
    assert(r@ =~= s@.take(hi as int));
    r
}

fn add_address(found: &mut Table<String, String>, desc: &String, ip: &[char])
    ensures
        final(found)@ == with_address(old(found)@, desc@, ip@),
{
    let mut text: String = String::new();
    if let Some(have) = found.get(desc) {
        text = have.clone();
        text.append(", ");
    }
    let ghost front = text@;
    text.append(string_of(ip).as_str());
    proof {
        if lookup(found@, desc@) is None {
            assert(text@ =~= ip@);
        }
    }
    found.insert(desc.clone(), text);
}

fn add_adapter_line(desc: Option<String>, found: &mut Table<String, String>, line: &[char]) -> (r:
    Option<String>)
    ensures
        adapters_with(
            Adapters { desc: crate::scan::opt_text(desc), found: old(found)@ },
            line@,
        ) == (Adapters { desc: crate::scan::opt_text(r), found: final(found)@ }),
{
    let t: &[char] = trimmed(line);
    if t.len() == 0 {
        return None;
    }
    let (before, behind): (&[char], Option<&[char]>) = cut(t, ':');
    if let Some(b) = behind {
        let key: String = string_of(trimmed(without_dots(before)));
        let value: &[char] = trimmed(b);
        if same(key.as_str(), "Description") {
            return Some(string_of(value));
        }
        if same(key.as_str(), "IPv4 Address") || same(
            key.as_str(),
            "Autoconfiguration IPv4 Address",
        ) {
            if let Some(d) = &desc {
                add_address(found, d, trimmed(without_mark(value)));
            }
        }
    }
    desc
}

/// The addresses of the adapters, by their descriptions, as `ipconfig /all` lists
/// them.
pub fn windows_ip_lookup(listing: &str) -> (r: Table<String, String>)
    ensures
        r@ == adapters(parts(listing@, '\n')).found,
{
    let c: Vec<char> = chars_of(listing);
    let lines: Vec<Vec<char>> = split(c.as_slice(), '\n');
    let ghost all = spellings(lines@);
    let mut found: Table<String, String> = Table::new();
    let mut desc: Option<String> = None;
    let mut i: usize = 0;
    assert(all.take(0) =~= Seq::empty());
    while i < lines.len()
        invariant
            all == spellings(lines@),
            i <= lines@.len(),
            adapters(all.take(i as int)) == (Adapters {
                desc: crate::scan::opt_text(desc),
                found: found@,
            }),
        decreases lines@.len() - i,
    {
        assert(all.take(i + 1).drop_last() =~= all.take(i as int));
        assert(all.take(i + 1).last() == lines@[i as int]@);
        desc = add_adapter_line(desc, &mut found, lines[i].as_slice());
        i += 1;
    }
    assert(all.take(i as int) =~= all);
    found
}

/// What was read of the ports: the last one named, and the names by device so far.
pub struct Ports {
    pub port: Seq<char>,
    pub names: Seq<(Seq<char>, Seq<char>)>,
}

/// What one line adds.
pub open spec fn ports_with(p: Ports, line: Seq<char>) -> Ports {
    match after(line, "Hardware Port: "@) {
        Some(port) => Ports { port: trim(port), ..p },
        None => match after(line, "Device: "@) {
            Some(dev) => if trim(dev).len() > 0 && p.port.len() > 0 {
                Ports { port: Seq::empty(), names: put(p.names, trim(dev), p.port) }
            } else {
                p
            },
            None => p,
        },
    }
}

/// What lines add up to.
pub open spec fn ports(lines: Seq<Seq<char>>) -> Ports
    decreases lines.len(),
{
    if lines.len() == 0 {
        Ports { port: Seq::empty(), names: Seq::empty() }
    } else {
        ports_with(ports(lines.drop_last()), lines.last())
    }
}

/// The names of hardware ports, by their devices, as `networksetup
/// -listallhardwareports` lists them.
pub fn macos_port_names(listing: &str) -> (r: Table<String, String>)
    ensures
        r@ == ports(parts(listing@, '\n')).names,
{
    let c: Vec<char> = chars_of(listing);
    let lines: Vec<Vec<char>> = split(c.as_slice(), '\n');
    let ghost all = spellings(lines@);
    let mut names: Table<String, String> = Table::new();
    let mut port: String = String::new();
    let mut i: usize = 0;
    assert(all.take(0) =~= Seq::empty());
    assert(port@ =~= Seq::empty());
    while i < lines.len()
        invariant
            all == spellings(lines@),
            i <= lines@.len(),
            ports(all.take(i as int)) == (Ports { port: port@, names: names@ }),
        decreases lines@.len() - i,
    {
        assert(all.take(i + 1).drop_last() =~= all.take(i as int));
        assert(all.take(i + 1).last() == lines@[i as int]@);
        match strip(lines[i].as_slice(), "Hardware Port: ") {
            Some(p) => {
                port = string_of(trimmed(p));
            },
            None => {
                if let Some(d) = strip(lines[i].as_slice(), "Device: ") {
                    let dev: String = string_of(trimmed(d));
                    if !empty(&dev) && !empty(&port) {
                        names.insert(dev, port);
                        port = String::new();
                        assert(port@ =~= Seq::empty());
                    }
                }
            },
        }
        i += 1;
    }
    assert(all.take(i as int) =~= all);
    names
}

// ── Laws ─────────────────────────────────────────────────────────────────────

/// Only interfaces that are there are offered, each once and in their order.
pub proof fn law_offered_are_there(d: Seq<InterfaceView>)
    requires
        d.len() <= usize::MAX,
    ensures
        forall|i: int|
            0 <= i < offered_places(d).len() ==> (#[trigger] offered_places(d)[i]) < d.len()
                && offered(d[offered_places(d)[i] as int]),
        forall|i: int, j: int|
            0 <= i < j < offered_places(d).len() ==> (#[trigger] offered_places(d)[i]) < (
            #[trigger] offered_places(d)[j]),
    decreases d.len(),
{
    if d.len() > 0 {
        law_offered_are_there(d.drop_last());
        let front = offered_places(d.drop_last());
        assert forall|i: int| 0 <= i < front.len() implies offered(
            d[(#[trigger] front[i]) as int],
        ) by {
            assert(d.drop_last()[front[i] as int] == d[front[i] as int]);
        }
    }
}

} // verus!
