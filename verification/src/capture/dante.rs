//! Dante: the devices, how they were found, and what is wrong between them.

use vstd::prelude::*;

use crate::capture::alert::{add_alert, add_alerts, error, only, quiet, warn, Alert, AlertView};
use crate::capture::avb::within;
use crate::capture::igmp::addresses;
use crate::capture::ndi::{evicted, insert_name, named, record_bounded_source, sources_with, spared, MAX_SOURCES};
use crate::capture::ptp::{PtpState, PtpStateView};
use crate::net::{dotted, push_ip, Ipv4Addr};
use crate::order::{sort, sorted, views};
use crate::parser::bytes::same_bytes;
use crate::protocols::{TransmitterClass, PTP_VERSION_V1, SECOND};
use crate::scan::opt_text;
use crate::stats::avtp::ConmonDevice;
use crate::stats::ptp::PtpStatsView;
use crate::stats::stream::{StreamStats, StreamView};
use crate::table::{holds, lemma_picked_filter, lookup, put, with, without, KeySet, Table};
use crate::text::{dec, hex_colons, join, joined, push_dec, push_hex_colons, texts};

verus! {

/// How long a device is kept without monitoring traffic, which comes many times a
/// second.
pub const CONMON_PRUNE_SECS: u64 = 60;

/// After how many windows a device that only answered a query is in doubt.
pub const UNVERIFIED_THRESHOLD: u32 = 3;

/// What is known of Dante devices.
#[derive(Debug)]
pub struct DanteState {
    /// Every device that was found, named or not.
    pub sources: KeySet<Ipv4Addr>,
    pub names: Table<Ipv4Addr, String>,
    /// Devices seen in their monitoring multicast.
    pub conmon: Table<Ipv4Addr, ConmonDevice>,
    /// For how many windows in a row a device was neither monitored nor sending.
    pub unverified_windows: Table<Ipv4Addr, u32>,
    /// What kind of transmitter the control ports gave away.
    pub transmitter_class: Table<Ipv4Addr, TransmitterClass>,
}

/// What is known of Dante devices, in specifications.
pub struct DanteView {
    pub sources: Seq<Ipv4Addr>,
    pub names: Seq<(Ipv4Addr, Seq<char>)>,
    pub conmon: Seq<(Ipv4Addr, ConmonDevice)>,
    pub unverified_windows: Seq<(Ipv4Addr, u32)>,
    pub transmitter_class: Seq<(Ipv4Addr, TransmitterClass)>,
}

impl View for DanteState {
    type V = DanteView;

    open spec fn view(&self) -> DanteView {
        DanteView {
            sources: self.sources@,
            names: self.names@,
            conmon: self.conmon@,
            unverified_windows: self.unverified_windows@,
            transmitter_class: self.transmitter_class@,
        }
    }
}

/// Nothing known yet.
pub open spec fn fresh_dante() -> DanteView {
    DanteView {
        sources: Seq::empty(),
        names: Seq::empty(),
        conmon: Seq::empty(),
        unverified_windows: Seq::empty(),
        transmitter_class: Seq::empty(),
    }
}

// ── Windows ──────────────────────────────────────────────────────────────────

/// The devices whose monitoring traffic was seen lately.
pub open spec fn live_conmon(
    t: Seq<(Ipv4Addr, ConmonDevice)>,
    now: u64,
) -> Seq<(Ipv4Addr, ConmonDevice)> {
    t.filter(|e: (Ipv4Addr, ConmonDevice)| within(now, e.1.last_seen, CONMON_PRUNE_SECS as nat))
}

/// Whether any stream comes from an address.
pub open spec fn sends<I>(streams: Seq<(I, StreamView)>, ip: Ipv4Addr) -> bool {
    exists|i: int| 0 <= i < streams.len() && (#[trigger] streams[i]).1.src_ip == Some(ip)
}

/// Whether a device shows itself by a stream or by its monitoring traffic.
pub open spec fn active<I>(
    streams: Seq<(I, StreamView)>,
    conmon: Seq<(Ipv4Addr, ConmonDevice)>,
    ip: Ipv4Addr,
) -> bool {
    sends(streams, ip) || holds(conmon, ip)
}

/// For how many windows a device was inactive.
pub open spec fn windows_of(t: Seq<(Ipv4Addr, u32)>, ip: Ipv4Addr) -> u32 {
    match lookup(t, ip) {
        Some(n) => n,
        None => 0,
    }
}

/// The counts of inactive windows after one more window.
pub open spec fn aged<I>(
    t: Seq<(Ipv4Addr, u32)>,
    sources: Seq<Ipv4Addr>,
    streams: Seq<(I, StreamView)>,
    conmon: Seq<(Ipv4Addr, ConmonDevice)>,
) -> Seq<(Ipv4Addr, u32)>
    decreases sources.len(),
{
    if sources.len() == 0 {
        t
    } else {
        let u = aged(t, sources.drop_last(), streams, conmon);
        let ip = sources.last();
        if active(streams, conmon, ip) {
            without(u, ip)
        } else {
            put(u, ip, windows_of(u, ip).wrapping_add(1))
        }
    }
}

/// The counts of devices that are known.
pub open spec fn known_only(
    t: Seq<(Ipv4Addr, u32)>,
    sources: Seq<Ipv4Addr>,
) -> Seq<(Ipv4Addr, u32)> {
    t.filter(|e: (Ipv4Addr, u32)| sources.contains(e.0))
}

/// The state at the start of the next window.
pub open spec fn dante_reset<I>(v: DanteView, streams: Seq<(I, StreamView)>, now: u64) -> DanteView {
    let conmon = live_conmon(v.conmon, now);
    DanteView {
        conmon,
        unverified_windows: known_only(
            aged(v.unverified_windows, v.sources, streams, conmon),
            v.sources,
        ),
        ..v
    }
}

/// The devices that were inactive for too many windows in a row.
pub open spec fn doubtful(v: DanteView) -> Seq<Ipv4Addr> {
    v.sources.filter(
        |ip: Ipv4Addr| windows_of(v.unverified_windows, ip) >= UNVERIFIED_THRESHOLD,
    )
}

fn has_stream(streams: &Table<String, StreamStats>, ip: Ipv4Addr) -> (r: bool)
    ensures
        r == sends(streams@, ip),
{
    let mut i: usize = 0;
    while i < streams.len()
        invariant
            i <= streams@.len(),
            forall|j: int| 0 <= j < i ==> (#[trigger] streams@[j]).1.src_ip != Some(ip),
        decreases streams@.len() - i,
    {
        if streams.value_at(i).src_ip == Some(ip) {
            assert(streams@[i as int].1.src_ip == Some(ip));
            return true;
        }
        i += 1;
    }
    false
}

// ── Discovery ────────────────────────────────────────────────────────────────

/// The devices after one was recorded. Who leaves for it leaves with its name and
/// its kind.
pub open spec fn dante_with(v: DanteView, ip: Ipv4Addr, name: Option<Seq<char>>) -> DanteView {
    let gone = evicted(v.sources, ip);
    DanteView {
        sources: sources_with(v.sources, ip),
        names: named(spared(v.names, gone), ip, name),
        transmitter_class: spared(v.transmitter_class, gone),
        ..v
    }
}

/// The devices after the kind of one was learned. Hardware never replaces what is
/// known to be software.
pub open spec fn dante_with_class(v: DanteView, ip: Ipv4Addr, class: TransmitterClass) -> DanteView {
    DanteView {
        transmitter_class: if class is Hardware && holds(v.transmitter_class, ip) {
            v.transmitter_class
        } else {
            put(v.transmitter_class, ip, class)
        },
        ..v
    }
}

// ── Bridged networks ─────────────────────────────────────────────────────────

/// The addresses under which a device with the given MAC is monitored.
pub open spec fn sharing(t: Seq<(Ipv4Addr, ConmonDevice)>, mac: Seq<u8>) -> Seq<Ipv4Addr>
    decreases t.len(),
{
    if t.len() == 0 {
        Seq::empty()
    } else if t.last().1.mac@ == mac {
        sharing(t.drop_last(), mac).push(t.last().0)
    } else {
        sharing(t.drop_last(), mac)
    }
}

/// The first name among addresses, in quotes behind two spaces.
pub open spec fn first_name(names: Seq<(Ipv4Addr, Seq<char>)>, ips: Seq<Ipv4Addr>) -> Seq<char>
    decreases ips.len(),
{
    if ips.len() == 0 {
        Seq::empty()
    } else {
        match lookup(names, ips[0]) {
            Some(n) => "  \""@ + n + "\""@,
            None => first_name(names, ips.skip(1)),
        }
    }
}

/// The alert on a device that is seen under several addresses.
pub open spec fn bridge_alert(
    names: Seq<(Ipv4Addr, Seq<char>)>,
    mac: Seq<u8>,
    ips: Seq<Ipv4Addr>,
) -> AlertView {
    error(
        "❌ Dante redundancy bridged: MAC "@ + hex_colons(mac) + first_name(names, ips)
            + "  seen from "@ + dec(ips.len()) + " IPs ("@ + joined(
            sorted::<String>(addresses(ips)),
            ", "@,
        ) + ") — primary and secondary networks are connected"@,
    )
}

/// An alert for each device that is seen under several addresses, in the order
/// in which the devices came.
pub open spec fn bridge_alerts(
    names: Seq<(Ipv4Addr, Seq<char>)>,
    conmon: Seq<(Ipv4Addr, ConmonDevice)>,
    n: nat,
) -> Seq<AlertView>
    decreases n,
{
    if n == 0 {
        Seq::empty()
    } else {
        let before = bridge_alerts(names, conmon, (n - 1) as nat);
        let mac = conmon[n - 1].1.mac@;
        if sharing(conmon.take(n - 1), mac).len() == 0 && sharing(conmon, mac).len() >= 2 {
            before.push(bridge_alert(names, mac, sharing(conmon, mac)))
        } else {
            before
        }
    }
}

fn sharers(t: &Table<Ipv4Addr, ConmonDevice>, mac: &[u8; 6], n: usize) -> (r: Vec<Ipv4Addr>)
    requires
        n <= t@.len(),
    ensures
        r@ == sharing(t@.take(n as int), mac@),
{
    let mut r: Vec<Ipv4Addr> = Vec::new();
    let mut i: usize = 0;
    assert(t@.take(0) =~= Seq::empty());
    while i < n
        invariant
            i <= n <= t@.len(),
            r@ == sharing(t@.take(i as int), mac@),
        decreases n - i,
    {
        assert(t@.take(i + 1).drop_last() =~= t@.take(i as int));
        if same_bytes(t.value_at(i).mac.as_slice(), mac.as_slice()) {
            r.push(*t.key_at(i));
        }
        i += 1;
    }
    r
}

/// The addresses in text, sorted as text.
fn sorted_texts(ips: &Vec<Ipv4Addr>) -> (r: Vec<String>)
    ensures
        texts(r@) == sorted::<String>(addresses(ips@)),
{
    let mut v: Vec<String> = Vec::new();
    let mut i: usize = 0;
    while i < ips.len()
        invariant
            i <= ips@.len(),
            v@.len() == i,
            forall|j: int| 0 <= j < i ==> (#[trigger] v@[j])@ == dotted(ips@[j]),
        decreases ips@.len() - i,
    {
        v.push(ips[i].to_text());
        i += 1;
    }
    assert(views(v@) =~= addresses(ips@));
    let r: Vec<String> = sort(v);
    assert(texts(r@) =~= views(r@));
    r
}

// ── Addresses ────────────────────────────────────────────────────────────────

/// An address that a device gave itself for want of another: 169.254.0.0/16, or
/// 172.31.0.0/16 on a secondary network.
pub open spec fn self_assigned(ip: Ipv4Addr) -> bool {
    (ip.a == 169 && ip.b == 254) || (ip.a == 172 && ip.b == 31)
}

/// The devices with addresses of their own making.
pub open spec fn unassigned(s: Seq<Ipv4Addr>) -> Seq<Ipv4Addr> {
    s.filter(|ip: Ipv4Addr| self_assigned(ip))
}

/// The devices with assigned addresses.
pub open spec fn routable(s: Seq<Ipv4Addr>) -> Seq<Ipv4Addr> {
    s.filter(|ip: Ipv4Addr| !self_assigned(ip))
}

/// The name of a device, in quotes before a space.
pub open spec fn quoted_name(names: Seq<(Ipv4Addr, Seq<char>)>, ip: Ipv4Addr) -> Seq<char> {
    match lookup(names, ip) {
        Some(n) => "\""@ + n + "\" "@,
        None => Seq::empty(),
    }
}

/// The alerts on devices without an assigned address.
pub open spec fn address_alerts(
    names: Seq<(Ipv4Addr, Seq<char>)>,
    ips: Seq<Ipv4Addr>,
) -> Seq<AlertView> {
    ips.map_values(
        |ip: Ipv4Addr|
            error(
                "❌ Dante device "@ + quoted_name(names, ip) + "("@ + dotted(ip)
                    + ") has no DHCP address — subscriptions to/from this device will fail"@,
            ),
    )
}

/// The /24 network of an address.
pub open spec fn subnet(ip: Ipv4Addr) -> Seq<char> {
    dec(ip.a as nat) + "."@ + dec(ip.b as nat) + "."@ + dec(ip.c as nat) + ".0/24"@
}

/// The /24 networks of addresses, each once.
pub open spec fn subnets(ips: Seq<Ipv4Addr>) -> Seq<Seq<char>>
    decreases ips.len(),
{
    if ips.len() == 0 {
        Seq::empty()
    } else {
        with(subnets(ips.drop_last()), subnet(ips.last()))
    }
}

/// The alert on devices in several networks.
pub open spec fn subnet_alerts(ips: Seq<Ipv4Addr>) -> Seq<AlertView> {
    if ips.len() >= 2 && subnets(ips).len() > 1 {
        seq![
            warn(
                "⚠ Dante devices span "@ + dec(subnets(ips).len()) + " subnets ("@ + joined(
                    sorted::<String>(subnets(ips)),
                    ", "@,
                )
                    + ") — mDNS discovery and PTP sync are multicast-only and cannot cross subnet boundaries; use Dante Domain Manager (DDM) or Dante Director for cross-subnet operation"@,
            ),
        ]
    } else {
        Seq::empty()
    }
}

/// The alerts on the addresses of the devices.
pub open spec fn ip_config_alerts(v: DanteView) -> Seq<AlertView> {
    if v.sources.len() < 2 {
        Seq::empty()
    } else {
        (if unassigned(v.sources).len() > 0 && routable(v.sources).len() > 0 {
            address_alerts(v.names, sorted::<Ipv4Addr>(unassigned(v.sources)))
        } else {
            Seq::empty()
        }) + subnet_alerts(routable(v.sources))
    }
}

fn split_sources(s: &KeySet<Ipv4Addr>) -> (r: (Vec<Ipv4Addr>, Vec<Ipv4Addr>))
    ensures
        r.0@ == unassigned(s@),
        r.1@ == routable(s@),
{
    let mut own: Vec<Ipv4Addr> = Vec::new();
    let mut rest: Vec<Ipv4Addr> = Vec::new();
    let mut i: usize = 0;
    proof {
        reveal(Seq::filter);
        assert(s@.take(0) =~= Seq::empty());
        assert(unassigned(s@.take(0)) =~= Seq::empty());
        assert(routable(s@.take(0)) =~= Seq::empty());
    }
    while i < s.len()
        invariant
            i <= s@.len(),
            own@ == unassigned(s@.take(i as int)),
            rest@ == routable(s@.take(i as int)),
        decreases s@.len() - i,
    {
        proof {
            reveal(Seq::filter);
            assert(s@.take(i + 1).drop_last() =~= s@.take(i as int));
        }
        let ip: Ipv4Addr = *s.at(i);
        if (ip.a == 169 && ip.b == 254) || (ip.a == 172 && ip.b == 31) {
            own.push(ip);
        } else {
            rest.push(ip);
        }
        i += 1;
    }
    assert(s@.take(i as int) =~= s@);
    (own, rest)
}

fn subnets_of(ips: &Vec<Ipv4Addr>) -> (r: KeySet<String>)
    ensures
        r@ == subnets(ips@),
{
    let mut r: KeySet<String> = KeySet::new();
    let mut i: usize = 0;
    assert(ips@.take(0) =~= Seq::empty());
    while i < ips.len()
        invariant
            i <= ips@.len(),
            r@ == subnets(ips@.take(i as int)),
        decreases ips@.len() - i,
    {
        assert(ips@.take(i + 1).drop_last() =~= ips@.take(i as int));
        let mut s: String = String::from_str("");
        push_dec(&mut s, ips[i].a as u64);
        s.append(".");
        push_dec(&mut s, ips[i].b as u64);
        s.append(".");
        push_dec(&mut s, ips[i].c as u64);
        s.append(".0/24");
        proof {
            reveal_strlit("");
            assert(""@ + dec(ips@[i as int].a as nat) =~= dec(ips@[i as int].a as nat));
        }
        r.insert(s);
        i += 1;
    }
    assert(ips@.take(i as int) =~= ips@);
    r
}

fn sorted_labels(s: &KeySet<String>) -> (r: Vec<String>)
    ensures
        texts(r@) == sorted::<String>(s@),
{
    let mut v: Vec<String> = Vec::new();
    let mut i: usize = 0;
    while i < s.len()
        invariant
            i <= s@.len(),
            v@.len() == i,
            forall|j: int| 0 <= j < i ==> (#[trigger] v@[j])@ == s@[j],
        decreases s@.len() - i,
    {
        v.push(s.at(i).clone());
        i += 1;
    }
    assert(views(v@) =~= s@);
    let r: Vec<String> = sort(v);
    assert(texts(r@) =~= views(r@));
    r
}

// ── Followers ────────────────────────────────────────────────────────────────

/// Whether there is a version 1 domain.
pub open spec fn has_v1(domains: Seq<((u8, u8), PtpStatsView)>) -> bool {
    exists|i: int| 0 <= i < domains.len() && (#[trigger] domains[i]).0.1 == PTP_VERSION_V1
}

/// The grandmaster of the first version 1 domain from `i` on that knows one.
pub open spec fn v1_grandmaster(domains: Seq<((u8, u8), PtpStatsView)>, i: int) -> Option<Ipv4Addr>
    decreases domains.len() - i,
{
    if i < 0 || i >= domains.len() {
        None
    } else if domains[i].0.1 == PTP_VERSION_V1 && domains[i].1.grandmaster_src_ip is Some {
        domains[i].1.grandmaster_src_ip
    } else {
        v1_grandmaster(domains, i + 1)
    }
}

/// The devices that do not follow a version 1 clock, in order.
pub open spec fn silent_devices(v: DanteView, ptp: PtpStateView) -> Seq<Ipv4Addr> {
    sorted::<Ipv4Addr>(v.sources.filter(|ip: Ipv4Addr| !holds(ptp.v1_followers, ip)))
}

/// The devices that should follow the clock and do not. One silent device may be
/// the grandmaster itself where that is not known.
pub open spec fn not_following(v: DanteView, ptp: PtpStateView) -> Seq<Ipv4Addr> {
    match v1_grandmaster(ptp.domains, 0) {
        Some(gm) => silent_devices(v, ptp).filter(|ip: Ipv4Addr| ip != gm),
        None => if silent_devices(v, ptp).len() <= 1 {
            Seq::empty()
        } else {
            silent_devices(v, ptp)
        },
    }
}

/// A device by name and address, or by address.
pub open spec fn device_text(names: Seq<(Ipv4Addr, Seq<char>)>, ip: Ipv4Addr) -> Seq<char> {
    match lookup(names, ip) {
        Some(n) => "\""@ + n + "\" ("@ + dotted(ip) + ")"@,
        None => dotted(ip),
    }
}

/// Devices in text.
pub open spec fn device_texts(
    names: Seq<(Ipv4Addr, Seq<char>)>,
    ips: Seq<Ipv4Addr>,
) -> Seq<Seq<char>> {
    ips.map_values(|ip: Ipv4Addr| device_text(names, ip))
}

/// The alert on devices that do not follow the clock.
pub open spec fn census_alerts(v: DanteView, ptp: PtpStateView) -> Seq<AlertView> {
    let missing = not_following(v, ptp);
    if !has_v1(ptp.domains) || v.sources.len() < 2 || ptp.v1_followers.len() == 0 || missing.len()
        == 0 {
        Seq::empty()
    } else {
        seq![
            warn(
                "⚠ "@ + dec(missing.len()) + " Dante device"@ + (if missing.len() == 1 {
                    ""@
                } else {
                    "s"@
                }) + " not syncing to clock: "@ + joined(device_texts(v.names, missing), ", "@),
            ),
        ]
    }
}

fn any_v1(ptp: &PtpState) -> (r: bool)
    ensures
        r == has_v1(ptp@.domains),
{
    let mut i: usize = 0;
    while i < ptp.domains.len()
        invariant
            i <= ptp.domains@.len(),
            forall|j: int| 0 <= j < i ==> (#[trigger] ptp.domains@[j]).0.1 != PTP_VERSION_V1,
        decreases ptp.domains@.len() - i,
    {
        if ptp.domains.key_at(i).1 == PTP_VERSION_V1 {
            assert(ptp@.domains[i as int].0.1 == PTP_VERSION_V1);
            return true;
        }
        i += 1;
    }
    false
}

fn find_v1_grandmaster(ptp: &PtpState) -> (r: Option<Ipv4Addr>)
    ensures
        r == v1_grandmaster(ptp@.domains, 0),
{
    let mut i: usize = 0;
    while i < ptp.domains.len()
        invariant
            i <= ptp.domains@.len(),
            v1_grandmaster(ptp@.domains, i as int) == v1_grandmaster(ptp@.domains, 0),
        decreases ptp.domains@.len() - i,
    {
        if ptp.domains.key_at(i).1 == PTP_VERSION_V1 {
            let gm: Option<Ipv4Addr> = ptp.domains.value_at(i).grandmaster_src_ip;
            if gm.is_some() {
                return gm;
            }
        }
        i += 1;
    }
    None
}

impl DanteState {
    /// Nothing known yet.
    pub fn new() -> (r: Self)
        ensures
            r@ == fresh_dante(),
    {
        DanteState {
            sources: KeySet::new(),
            names: Table::new(),
            conmon: Table::new(),
            unverified_windows: Table::new(),
            transmitter_class: Table::new(),
        }
    }

    fn prune_conmon(&mut self, now: u64)
        ensures
            final(self)@ == (DanteView {
                conmon: live_conmon(old(self)@.conmon, now),
                ..old(self)@
            }),
    {
        let ghost before = self.conmon@;
        let mut keep: Vec<bool> = Vec::new();
        let mut i: usize = 0;
        while i < self.conmon.len()
            invariant
                self.conmon@ == before,
                self@ == old(self)@,
                i <= before.len(),
                keep@.len() == i,
                forall|j: int|
                    0 <= j < i ==> #[trigger] keep@[j] == within(
                        now,
                        before[j].1.last_seen,
                        CONMON_PRUNE_SECS as nat,
                    ),
            decreases before.len() - i,
        {
            let t: u64 = self.conmon.value_at(i).last_seen;
            keep.push(now.saturating_sub(t) / SECOND < CONMON_PRUNE_SECS);
            i += 1;
        }
        self.conmon.retain(&keep);
        proof {
            lemma_picked_filter(
                before,
                keep@,
                |e: (Ipv4Addr, ConmonDevice)|
                    within(now, e.1.last_seen, CONMON_PRUNE_SECS as nat),
            );
        }
    }

    fn age_sources(&mut self, streams: &Table<String, StreamStats>)
        ensures
            final(self)@ == (DanteView {
                unverified_windows: aged(
                    old(self)@.unverified_windows,
                    old(self)@.sources,
                    streams@,
                    old(self)@.conmon,
                ),
                ..old(self)@
            }),
    {
        let ghost v = self@;
        let mut i: usize = 0;
        assert(v.sources.take(0) =~= Seq::empty());
        while i < self.sources.len()
            invariant
                i <= v.sources.len(),
                self.sources@ == v.sources,
                self@ == (DanteView {
                    unverified_windows: aged(
                        v.unverified_windows,
                        v.sources.take(i as int),
                        streams@,
                        v.conmon,
                    ),
                    ..v
                }),
            decreases v.sources.len() - i,
        {
            assert(v.sources.take(i + 1).drop_last() =~= v.sources.take(i as int));
            let ip: Ipv4Addr = *self.sources.at(i);
            if has_stream(streams, ip) || self.conmon.contains_key(&ip) {
                self.unverified_windows.remove(&ip);
            } else {
                let n: u32 = match self.unverified_windows.get(&ip) {
                    Some(n) => *n,
                    None => 0,
                };
                self.unverified_windows.insert(ip, n.wrapping_add(1));
            }
            i += 1;
        }
        assert(v.sources.take(i as int) =~= v.sources);
    }

    fn forget_unknown(&mut self)
        ensures
            final(self)@ == (DanteView {
                unverified_windows: known_only(
                    old(self)@.unverified_windows,
                    old(self)@.sources,
                ),
                ..old(self)@
            }),
    {
        let ghost before = self.unverified_windows@;
        let ghost sources = self.sources@;
        let mut keep: Vec<bool> = Vec::new();
        let mut i: usize = 0;
        while i < self.unverified_windows.len()
            invariant
                self.unverified_windows@ == before,
                self.sources@ == sources,
                self@ == old(self)@,
                i <= before.len(),
                keep@.len() == i,
                forall|j: int| 0 <= j < i ==> #[trigger] keep@[j] == sources.contains(before[j].0),
            decreases before.len() - i,
        {
            keep.push(self.sources.contains(self.unverified_windows.key_at(i)));
            i += 1;
        }
        self.unverified_windows.retain(&keep);
        proof {
            lemma_picked_filter(before, keep@, |e: (Ipv4Addr, u32)| sources.contains(e.0));
        }
    }

    /// Starts the next window, after the checks of this one.
    pub fn reset_window(&mut self, streams: &Table<String, StreamStats>, now: u64)
        ensures
            final(self)@ == dante_reset(old(self)@, streams@, now),
    {
        self.prune_conmon(now);
        self.age_sources(streams);
        self.forget_unknown();
    }

    /// The devices that were neither monitored nor sending for some windows in a
    /// row: perhaps no Dante devices at all.
    pub fn unverified(&self) -> (r: KeySet<Ipv4Addr>)
        ensures
            r@ == set_of(doubtful(self@)),
    {
        let mut r: KeySet<Ipv4Addr> = KeySet::new();
        let mut i: usize = 0;
        let ghost s = self.sources@;
        let ghost pred = |ip: Ipv4Addr|
            windows_of(self@.unverified_windows, ip) >= UNVERIFIED_THRESHOLD;
        proof {
            reveal(Seq::filter);
            assert(s.take(0) =~= Seq::empty());
            assert(s.take(0).filter(pred) =~= Seq::empty());
        }
        while i < self.sources.len()
            invariant
                i <= s.len(),
                s == self.sources@,
                pred == (|ip: Ipv4Addr|
                    windows_of(self@.unverified_windows, ip) >= UNVERIFIED_THRESHOLD),
                r@ == set_of(s.take(i as int).filter(pred)),
            decreases s.len() - i,
        {
            let ip: Ipv4Addr = *self.sources.at(i);
            let n: u32 = match self.unverified_windows.get(&ip) {
                Some(n) => *n,
                None => 0,
            };
            proof {
                reveal(Seq::filter);
                assert(s.take(i + 1).drop_last() =~= s.take(i as int));
                let kept = s.take(i as int).filter(pred);
                assert(kept.push(ip).drop_last() =~= kept);
            }
            if n >= UNVERIFIED_THRESHOLD {
                r.insert(ip);
            }
            i += 1;
        }
        assert(s.take(i as int) =~= s);
        r
    }

    /// Records a device and its name, and tells whether it is new.
    pub fn record_source(&mut self, ip: Ipv4Addr, name: &Option<String>) -> (new: bool)
        ensures
            final(self)@ == dante_with(old(self)@, ip, opt_text(*name)),
            new == !old(self)@.sources.contains(ip),
    {
        let (gone, new) = record_bounded_source(&mut self.sources, ip);
        if let Some(victim) = gone {
            self.names.remove(&victim);
            self.transmitter_class.remove(&victim);
        }
        insert_name(&mut self.names, ip, name);
        new
    }

    /// Records what kind of transmitter a device is.
    pub fn record_tx_class(&mut self, src: Ipv4Addr, class: TransmitterClass)
        ensures
            final(self)@ == dante_with_class(old(self)@, src, class),
    {
        if class == TransmitterClass::Hardware && self.transmitter_class.contains_key(&src) {
            return;
        }
        self.transmitter_class.insert(src, class);
    }

    fn named_of(&self, ips: &Vec<Ipv4Addr>) -> (s: String)
        ensures
            s@ == first_name(self@.names, ips@),
    {
        let mut i: usize = 0;
        assert(ips@.skip(0) =~= ips@);
        while i < ips.len()
            invariant
                i <= ips@.len(),
                first_name(self@.names, ips@.skip(i as int)) == first_name(self@.names, ips@),
            decreases ips@.len() - i,
        {
            assert(ips@.skip(i as int).skip(1) =~= ips@.skip(i + 1));
            if let Some(n) = self.names.get(&ips[i]) {
                let mut s: String = String::from_str("  \"");
                s.append(n.as_str());
                s.append("\"");
                return s;
            }
            i += 1;
        }
        String::new()
    }

    /// Tells of devices that are monitored under several addresses: their primary
    /// and secondary networks are connected.
    pub fn check_conmon_bridge(&self) -> (r: Vec<Alert>)
        ensures
            views(r@) == bridge_alerts(self@.names, self@.conmon, self@.conmon.len()),
    {
        let mut r: Vec<Alert> = quiet();
        let n: usize = self.conmon.len();
        let mut i: usize = 0;
        while i < n
            invariant
                n == self.conmon@.len(),
                i <= n,
                views(r@) == bridge_alerts(self@.names, self@.conmon, i as nat),
            decreases n - i,
        {
            let mac: [u8; 6] = self.conmon.value_at(i).mac;
            let before: Vec<Ipv4Addr> = sharers(&self.conmon, &mac, i);
            let ips: Vec<Ipv4Addr> = sharers(&self.conmon, &mac, n);
            assert(self.conmon@.take(n as int) =~= self.conmon@);
            if before.len() == 0 && ips.len() >= 2 {
                let mut s: String = String::from_str("❌ Dante redundancy bridged: MAC ");
                push_hex_colons(&mut s, mac.as_slice());
                s.append(self.named_of(&ips).as_str());
                s.append("  seen from ");
                push_dec(&mut s, ips.len() as u64);
                s.append(" IPs (");
                s.append(join(&sorted_texts(&ips), ", ").as_str());
                s.append(") — primary and secondary networks are connected");
                add_alert(&mut r, Alert::error(s));
            }
            i += 1;
        }
        r
    }

    fn address_alerts(&self, ips: &Vec<Ipv4Addr>) -> (r: Vec<Alert>)
        ensures
            views(r@) == address_alerts(self@.names, ips@),
    {
        let mut r: Vec<Alert> = Vec::new();
        let mut i: usize = 0;
        let ghost all = address_alerts(self@.names, ips@);
        while i < ips.len()
            invariant
                i <= ips@.len(),
                r@.len() == i,
                all == address_alerts(self@.names, ips@),
                forall|j: int| 0 <= j < i ==> (#[trigger] r@[j])@ == all[j],
            decreases ips@.len() - i,
        {
            let mut s: String = String::from_str("❌ Dante device ");
            let ghost before = s@;
            match self.names.get(&ips[i]) {
                Some(n) => {
                    s.append("\"");
                    s.append(n.as_str());
                    s.append("\" ");
                    assert(s@ =~= before + quoted_name(self@.names, ips@[i as int]));
                },
                None => {
                    assert(s@ =~= before + quoted_name(self@.names, ips@[i as int]));
                },
            }
            s.append("(");
            push_ip(&mut s, ips[i]);
            s.append(") has no DHCP address — subscriptions to/from this device will fail");
            r.push(Alert::error(s));
            i += 1;
        }
        assert(views(r@) =~= all);
        r
    }

    /// Tells of devices without an assigned address among others that have one,
    /// and of devices in several networks.
    pub fn check_ip_config(&self) -> (r: Vec<Alert>)
        ensures
            views(r@) == ip_config_alerts(self@),
    {
        if self.sources.len() < 2 {
            return quiet();
        }
        let (own, rest) = split_sources(&self.sources);
        let mut r: Vec<Alert> = quiet();
        let some_rest: bool = rest.len() > 0;
        if own.len() > 0 && some_rest {
            assert(views(own@) =~= own@);
            let own: Vec<Ipv4Addr> = sort(own);
            assert(views(own@) =~= own@);
            r = self.address_alerts(&own);
        }
        let ghost first = views(r@);
        if rest.len() >= 2 {
            let nets: KeySet<String> = subnets_of(&rest);
            if nets.len() > 1 {
                let mut s: String = String::from_str("⚠ Dante devices span ");
                push_dec(&mut s, nets.len() as u64);
                s.append(" subnets (");
                s.append(join(&sorted_labels(&nets), ", ").as_str());
                s.append(
                    ") — mDNS discovery and PTP sync are multicast-only and cannot cross subnet boundaries; use Dante Domain Manager (DDM) or Dante Director for cross-subnet operation",
                );
                add_alerts(&mut r, only(Alert::warn(s)));
            }
        }
        assert(views(r@) =~= first + subnet_alerts(rest@));
        r
    }

    fn not_following(&self, ptp: &PtpState) -> (r: Vec<Ipv4Addr>)
        ensures
            r@ == not_following(self@, ptp@),
    {
        let mut silent: Vec<Ipv4Addr> = Vec::new();
        let mut i: usize = 0;
        let ghost s = self.sources@;
        let ghost pred = |ip: Ipv4Addr| !holds(ptp@.v1_followers, ip);
        proof {
            reveal(Seq::filter);
            assert(s.take(0) =~= Seq::empty());
            assert(s.take(0).filter(pred) =~= Seq::empty());
        }
        while i < self.sources.len()
            invariant
                i <= s.len(),
                s == self.sources@,
                pred == (|ip: Ipv4Addr| !holds(ptp@.v1_followers, ip)),
                silent@ == s.take(i as int).filter(pred),
            decreases s.len() - i,
        {
            proof {
                reveal(Seq::filter);
                assert(s.take(i + 1).drop_last() =~= s.take(i as int));
            }
            let ip: Ipv4Addr = *self.sources.at(i);
            if !ptp.v1_followers.contains_key(&ip) {
                silent.push(ip);
            }
            i += 1;
        }
        assert(s.take(i as int) =~= s);
        assert(views(silent@) =~= silent@);
        let silent: Vec<Ipv4Addr> = sort(silent);
        assert(views(silent@) =~= silent@);
        match find_v1_grandmaster(ptp) {
            None => {
                if silent.len() <= 1 {
                    Vec::new()
                } else {
                    silent
                }
            },
            Some(gm) => {
                let mut r: Vec<Ipv4Addr> = Vec::new();
                let mut i: usize = 0;
                let ghost other = |ip: Ipv4Addr| ip != gm;
                proof {
                    reveal(Seq::filter);
                    assert(silent@.take(0) =~= Seq::empty());
                    assert(silent@.take(0).filter(other) =~= Seq::empty());
                }
                while i < silent.len()
                    invariant
                        i <= silent@.len(),
                        other == (|ip: Ipv4Addr| ip != gm),
                        r@ == silent@.take(i as int).filter(other),
                    decreases silent@.len() - i,
                {
                    proof {
                        reveal(Seq::filter);
                        assert(silent@.take(i + 1).drop_last() =~= silent@.take(i as int));
                    }
                    if silent[i] != gm {
                        r.push(silent[i]);
                    }
                    i += 1;
                }
                assert(silent@.take(i as int) =~= silent@);
                r
            },
        }
    }

    fn device_texts(&self, ips: &Vec<Ipv4Addr>) -> (r: Vec<String>)
        ensures
            texts(r@) == device_texts(self@.names, ips@),
    {
        let mut r: Vec<String> = Vec::new();
        let mut i: usize = 0;
        while i < ips.len()
            invariant
                i <= ips@.len(),
                r@.len() == i,
                forall|j: int|
                    0 <= j < i ==> (#[trigger] r@[j])@ == device_text(self@.names, ips@[j]),
            decreases ips@.len() - i,
        {
            match self.names.get(&ips[i]) {
                Some(n) => {
                    let mut s: String = String::from_str("\"");
                    s.append(n.as_str());
                    s.append("\" (");
                    push_ip(&mut s, ips[i]);
                    s.append(")");
                    r.push(s);
                },
                None => {
                    r.push(ips[i].to_text());
                },
            }
            i += 1;
        }
        assert(texts(r@) =~= device_texts(self@.names, ips@));
        r
    }

    /// Tells of devices that do not follow the version 1 clock.
    pub fn check_follower_census(&self, ptp: &PtpState) -> (r: Vec<Alert>)
        ensures
            views(r@) == census_alerts(self@, ptp@),
    {
        if !any_v1(ptp) || self.sources.len() < 2 || ptp.v1_followers.len() == 0 {
            return quiet();
        }
        let missing: Vec<Ipv4Addr> = self.not_following(ptp);
        if missing.len() == 0 {
            return quiet();
        }
        let mut s: String = String::from_str("⚠ ");
        push_dec(&mut s, missing.len() as u64);
        s.append(" Dante device");
        s.append(
            if missing.len() == 1 {
                ""
            } else {
                "s"
            },
        );
        s.append(" not syncing to clock: ");
        s.append(join(&self.device_texts(&missing), ", ").as_str());
        only(Alert::warn(s))
    }
}

/// A list as a set, each element where it first stood.
pub open spec fn set_of(s: Seq<Ipv4Addr>) -> Seq<Ipv4Addr>
    decreases s.len(),
{
    if s.len() == 0 {
        Seq::empty()
    } else {
        with(set_of(s.drop_last()), s.last())
    }
}

impl Default for DanteState {
    fn default() -> (r: Self)
        ensures
            r@ == fresh_dante(),
    {
        Self::new()
    }
}

// ── Laws ─────────────────────────────────────────────────────────────────────

/// The number of remembered devices stays bounded, whatever addresses come.
pub proof fn law_devices_stay_bounded(v: DanteView, ip: Ipv4Addr, name: Option<Seq<char>>)
    requires
        v.sources.len() <= MAX_SOURCES,
    ensures
        dante_with(v, ip, name).sources.len() <= MAX_SOURCES,
        dante_with(v, ip, name).sources.contains(ip),
{
    crate::capture::ndi::law_sources_stay_bounded(v.sources, ip);
}

/// What is known to be software stays software when hardware is inferred, and
/// what is known to be hardware gives way to what is more specific.
pub proof fn law_hardware_never_downgrades(v: DanteView, ip: Ipv4Addr, class: TransmitterClass)
    requires
        !(class is Hardware),
    ensures
        lookup(dante_with_class(v, ip, class).transmitter_class, ip) == Some(class),
        lookup(
            dante_with_class(
                dante_with_class(v, ip, class),
                ip,
                TransmitterClass::Hardware,
            ).transmitter_class,
            ip,
        ) == Some(class),
{
    crate::table::lemma_put_lookup(v.transmitter_class, ip, class, ip);
}

/// A device that shows itself is not in doubt after the window.
pub proof fn law_active_devices_are_trusted<I>(
    v: DanteView,
    streams: Seq<(I, StreamView)>,
    now: u64,
    ip: Ipv4Addr,
)
    requires
        crate::table::distinct(v.unverified_windows),
        active(streams, live_conmon(v.conmon, now), ip),
    ensures
        !doubtful(dante_reset(v, streams, now)).contains(ip),
{
    let conmon = live_conmon(v.conmon, now);
    let w = dante_reset(v, streams, now);
    let a = aged(v.unverified_windows, v.sources, streams, conmon);
    lemma_aged(v.unverified_windows, v.sources, streams, conmon, ip);
    let pred = |x: Ipv4Addr| windows_of(w.unverified_windows, x) >= UNVERIFIED_THRESHOLD;
    let d = doubtful(w);
    if d.contains(ip) {
        let i = choose|i: int| 0 <= i < d.len() && d[i] == ip;
        w.sources.lemma_filter_pred(pred, i);
        v.sources.lemma_filter_contains_rev(pred, ip);
        let known = |e: (Ipv4Addr, u32)| v.sources.contains(e.0);
        let k = known_only(a, v.sources);
        crate::table::lemma_slot(k, ip, 0);
        let at = crate::table::slot(k, ip).unwrap();
        assert(k.contains(k[at]));
        a.lemma_filter_contains_rev(known, k[at]);
        let p = choose|p: int| 0 <= p < a.len() && a[p] == k[at];
        crate::table::lemma_slot(a, ip, 0);
        assert(a[p].0 == ip);
    }
}

proof fn lemma_aged<I>(
    t: Seq<(Ipv4Addr, u32)>,
    sources: Seq<Ipv4Addr>,
    streams: Seq<(I, StreamView)>,
    conmon: Seq<(Ipv4Addr, ConmonDevice)>,
    ip: Ipv4Addr,
)
    requires
        crate::table::distinct(t),
        active(streams, conmon, ip),
    ensures
        crate::table::distinct(aged(t, sources, streams, conmon)),
        sources.contains(ip) ==> !holds(aged(t, sources, streams, conmon), ip),
    decreases sources.len(),
{
    if sources.len() > 0 {
        let front = sources.drop_last();
        let last = sources.last();
        lemma_aged(t, front, streams, conmon, ip);
        let u = aged(t, front, streams, conmon);
        let n = windows_of(u, last).wrapping_add(1);
        crate::table::lemma_without_distinct(u, last);
        crate::table::lemma_put_distinct(u, last, n);
        crate::table::lemma_put_lookup(u, last, n, ip);
        if last != ip {
            if sources.contains(ip) {
                let i = choose|i: int| 0 <= i < sources.len() && sources[i] == ip;
                assert(front[i] == ip);
            }
            lemma_without_other(u, last, ip);
        }
    }
}

proof fn lemma_without_other<M>(t: Seq<(Ipv4Addr, M)>, gone: Ipv4Addr, ip: Ipv4Addr)
    ensures
        !holds(t, ip) ==> !holds(without(t, gone), ip),
{
    crate::table::lemma_slot(t, ip, 0);
    crate::table::lemma_slot(t, gone, 0);
    let u = without(t, gone);
    crate::table::lemma_slot(u, ip, 0);
    if !holds(t, ip) && holds(u, ip) {
        let j = crate::table::slot(u, ip).unwrap();
        match crate::table::slot(t, gone) {
            Some(i) => {
                assert(u[j] == t[if j < i { j } else { j + 1 }]);
            },
            None => {},
        }
    }
}

} // verus!
