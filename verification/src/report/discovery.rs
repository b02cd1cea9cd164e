//! The sections on devices.

use vstd::prelude::*;

use crate::capture::handlers::{streams_of, streams_text};
use crate::net::{dotted, push_ip, Ipv4Addr};
use crate::order::{sort, sorted, views, Ranked};
use crate::parser::avdecc::{has_aem, not_ready, push_eui64, sr_class, sr_class_str};
use crate::protocols::{class_label, TransmitterConfidence, TransmitterVerdict};
use crate::report::line::{add_line, add_lines, detail, entry, line_if, no_lines, plain, status_detail, status_entry, warning, LineView, RenderedLine};
use crate::stats::avtp::{AvdeccEntity, ConmonDevice};
use crate::stats::stream::{StreamStats, StreamView};
use crate::table::{lookup, values, KeySet, Table};
use crate::text::{dec, hex_colons, push_dec, same};

verus! {

// ── Flows of a device ────────────────────────────────────────────────────────

/// How many Dante flows come from an address.
pub open spec fn flows_from<I>(t: Seq<(I, StreamView)>, ip: Ipv4Addr) -> nat
    decreases t.len(),
{
    if t.len() == 0 {
        0
    } else if t.last().1.protocol == "Dante"@ && t.last().1.src_ip == Some(ip) {
        flows_from(t.drop_last(), ip) + 1
    } else {
        flows_from(t.drop_last(), ip)
    }
}

/// Counts the Dante flows from an address, as far as they are seen.
pub fn dante_tx_flow_count(streams: &Table<String, StreamStats>, device_ip: Ipv4Addr) -> (n: usize)
    ensures
        n == flows_from(streams@, device_ip),
{
    let mut n: usize = 0;
    let mut i: usize = 0;
    let len: usize = streams.len();
    assert(streams@.take(0) =~= Seq::empty());
    while i < len
        invariant
            len == streams@.len(),
            i <= len,
            n <= i,
            n == flows_from(streams@.take(i as int), device_ip),
        decreases len - i,
    {
        assert(streams@.take(i + 1).drop_last() =~= streams@.take(i as int));
        let s: &StreamStats = streams.value_at(i);
        if same(s.protocol.as_str(), "Dante") && s.src_ip == Some(device_ip) {
            n += 1;
        }
        i += 1;
    }
    assert(streams@.take(i as int) =~= streams@);
    n
}

/// A note on the flows of a device, none where there is none.
pub open spec fn flow_note<I>(t: Seq<(I, StreamView)>, ip: Ipv4Addr) -> Seq<char> {
    if flows_from(t, ip) == 0 {
        Seq::empty()
    } else {
        "  ("@ + dec(flows_from(t, ip)) + " tx flows)"@
    }
}

/// A note on the flows of a device.
pub fn tx_flow_suffix(streams: &Table<String, StreamStats>, device_ip: Ipv4Addr) -> (s: String)
    ensures
        s@ == flow_note(streams@, device_ip),
{
    let n: usize = dante_tx_flow_count(streams, device_ip);
    let mut s: String = String::new();
    if n > 0 {
        s.append("  (");
        push_dec(&mut s, n as u64);
        s.append(" tx flows)");
    }
    assert(s@ =~= flow_note(streams@, device_ip));
    s
}

/// How sure a verdict is.
pub open spec fn confidence_text(v: TransmitterVerdict) -> Seq<char> {
    match v.confidence {
        TransmitterConfidence::Confirmed => "confirmed"@,
        TransmitterConfidence::Inferred => if v.signals > 1 {
            "likely, "@ + dec(v.signals as nat) + " signals"@
        } else {
            "likely"@
        },
        TransmitterConfidence::Hint => "possible — no QoS marking"@,
    }
}

/// A note on the kind of transmitter.
pub open spec fn verdict_note(v: Option<TransmitterVerdict>) -> Seq<char> {
    match v {
        Some(v) => "  ·  "@ + class_label(v.class) + " ("@ + confidence_text(v) + ")"@,
        None => Seq::empty(),
    }
}

fn confidence_of(v: &TransmitterVerdict) -> (s: String)
    ensures
        s@ == confidence_text(*v),
{
    match v.confidence {
        TransmitterConfidence::Confirmed => String::from_str("confirmed"),
        TransmitterConfidence::Inferred => {
            if v.signals > 1 {
                let mut s: String = String::from_str("likely, ");
                push_dec(&mut s, v.signals as u64);
                s.append(" signals");
                s
            } else {
                String::from_str("likely")
            }
        },
        TransmitterConfidence::Hint => String::from_str("possible — no QoS marking"),
    }
}

/// A note on the kind of transmitter, and on how sure it is.
pub fn transmitter_tag(verdict: Option<TransmitterVerdict>) -> (s: String)
    ensures
        s@ == verdict_note(verdict),
{
    match verdict {
        Some(v) => {
            let mut s: String = String::from_str("  ·  ");
            s.append(v.class.label());
            s.append(" (");
            s.append(confidence_of(&v).as_str());
            s.append(")");
            s
        },
        None => String::new(),
    }
}

// ── Discovered devices ───────────────────────────────────────────────────────

/// What the section on devices shows.
pub struct DiscoveryInputs<'a> {
    pub dante_sources: &'a KeySet<Ipv4Addr>,
    pub dante_names: &'a Table<Ipv4Addr, String>,
    pub dante_conmon: &'a Table<Ipv4Addr, ConmonDevice>,
    pub dante_unverified: &'a KeySet<Ipv4Addr>,
    pub ndi_sources: &'a KeySet<Ipv4Addr>,
    pub ndi_names: &'a Table<Ipv4Addr, String>,
    pub dante_active: usize,
    pub ndi_active: usize,
    pub streams: &'a Table<String, StreamStats>,
}

/// What the section on devices shows, in specifications.
pub struct DiscoveryView {
    pub dante_sources: Seq<Ipv4Addr>,
    pub dante_names: Seq<(Ipv4Addr, Seq<char>)>,
    pub dante_conmon: Seq<(Ipv4Addr, ConmonDevice)>,
    pub dante_unverified: Seq<Ipv4Addr>,
    pub ndi_sources: Seq<Ipv4Addr>,
    pub ndi_names: Seq<(Ipv4Addr, Seq<char>)>,
    pub dante_active: usize,
    pub ndi_active: usize,
    pub streams: Seq<(Seq<char>, StreamView)>,
}

impl<'a> View for DiscoveryInputs<'a> {
    type V = DiscoveryView;

    open spec fn view(&self) -> DiscoveryView {
        DiscoveryView {
            dante_sources: self.dante_sources@,
            dante_names: self.dante_names@,
            dante_conmon: self.dante_conmon@,
            dante_unverified: self.dante_unverified@,
            ndi_sources: self.ndi_sources@,
            ndi_names: self.ndi_names@,
            dante_active: self.dante_active,
            ndi_active: self.ndi_active,
            streams: self.streams@,
        }
    }
}

/// How many devices are not in doubt.
pub open spec fn verified_count(i: DiscoveryView) -> nat {
    (i.dante_sources.len() - i.dante_unverified.len()) as nat
}

/// Whether there is nothing to show.
pub open spec fn nothing_found(i: DiscoveryView) -> bool {
    verified_count(i) == 0 && i.dante_unverified.len() == 0 && i.ndi_sources.len() == 0
}

/// A note on how many devices are monitored.
pub open spec fn live_note(live: nat, verified: nat) -> Seq<char> {
    if live == 0 {
        ""@
    } else if live == verified {
        "  · all live"@
    } else {
        "  · "@ + dec(live) + " live"@
    }
}

/// A device by its name, or by its address while the name is not known.
pub open spec fn device_line(
    names: Seq<(Ipv4Addr, Seq<char>)>,
    ip: Ipv4Addr,
    note: Seq<char>,
) -> LineView {
    plain(
        entry(
            match lookup(names, ip) {
                Some(n) => "▸ \""@ + n + "\"   "@ + dotted(ip) + note,
                None => "▸ "@ + dotted(ip) + "   (name pending)"@ + note,
            },
        ),
    )
}

/// A device in doubt.
pub open spec fn doubt_line(
    names: Seq<(Ipv4Addr, Seq<char>)>,
    ip: Ipv4Addr,
    note: Seq<char>,
) -> LineView {
    warning(
        entry(
            match lookup(names, ip) {
                Some(n) => "⚠  \""@ + n + "\"   "@ + dotted(ip) + "   (mDNS only, no ConMon)"@
                    + note,
                None => "⚠  "@ + dotted(ip) + "   (mDNS only, no ConMon)"@ + note,
            },
        ),
    )
}

/// The devices not in doubt, in order.
pub open spec fn verified_devices(i: DiscoveryView) -> Seq<Ipv4Addr> {
    sorted::<Ipv4Addr>(i.dante_sources.filter(|ip: Ipv4Addr| !i.dante_unverified.contains(ip)))
}

/// The lines on Dante devices.
pub open spec fn dante_lines(i: DiscoveryView) -> Seq<LineView> {
    if verified_count(i) == 0 && i.dante_unverified.len() == 0 {
        Seq::empty()
    } else {
        seq![
            plain(
                entry(
                    "Dante ("@ + dec(verified_count(i)) + ")"@ + live_note(
                        i.dante_conmon.len(),
                        verified_count(i),
                    ),
                ),
            ),
        ] + verified_devices(i).map_values(
            |ip: Ipv4Addr| device_line(i.dante_names, ip, flow_note(i.streams, ip)),
        ) + sorted::<Ipv4Addr>(i.dante_unverified).map_values(
            |ip: Ipv4Addr| doubt_line(i.dante_names, ip, flow_note(i.streams, ip)),
        )
    }
}

/// The lines on NDI senders.
pub open spec fn ndi_lines(i: DiscoveryView) -> Seq<LineView> {
    if i.ndi_sources.len() == 0 {
        Seq::empty()
    } else {
        seq![plain(entry("NDI ("@ + dec(i.ndi_sources.len()) + ")"@))] + sorted::<Ipv4Addr>(
            i.ndi_sources,
        ).map_values(|ip: Ipv4Addr| device_line(i.ndi_names, ip, Seq::empty()))
    }
}

/// Whether devices are there but nothing flows.
pub open spec fn no_flows(i: DiscoveryView) -> bool {
    (verified_count(i) > 0 && i.dante_active == 0) || (i.ndi_sources.len() > 0 && i.ndi_active == 0)
}

/// The section on devices. That nothing flows is told once.
pub open spec fn discovery_lines(i: DiscoveryView, told: bool) -> Option<Seq<LineView>> {
    if nothing_found(i) {
        None
    } else {
        Some(
            dante_lines(i) + ndi_lines(i) + line_if(
                no_flows(i) && !told,
                warning(
                    entry("⚠  Devices announced but no active flows — mirror port may be needed"@),
                ),
            ),
        )
    }
}

fn sorted_set(s: &KeySet<Ipv4Addr>) -> (r: Vec<Ipv4Addr>)
    ensures
        r@ == sorted::<Ipv4Addr>(s@),
{
    let mut v: Vec<Ipv4Addr> = Vec::new();
    let mut i: usize = 0;
    while i < s.len()
        invariant
            i <= s@.len(),
            v@ == s@.take(i as int),
        decreases s@.len() - i,
    {
        v.push(*s.at(i));
        i += 1;
        assert(v@ =~= s@.take(i as int));
    }
    assert(views(v@) =~= s@);
    let r: Vec<Ipv4Addr> = sort(v);
    assert(views(r@) =~= r@);
    r
}

fn verified_of(i: &DiscoveryInputs) -> (r: Vec<Ipv4Addr>)
    ensures
        r@ == verified_devices(i@),
{
    let mut v: Vec<Ipv4Addr> = Vec::new();
    let mut k: usize = 0;
    let ghost s = i.dante_sources@;
    let ghost pred = |ip: Ipv4Addr| !i@.dante_unverified.contains(ip);
    proof {
        reveal(Seq::filter);
        assert(s.take(0) =~= Seq::empty());
        assert(s.take(0).filter(pred) =~= Seq::empty());
    }
    while k < i.dante_sources.len()
        invariant
            s == i.dante_sources@,
            k <= s.len(),
            pred == (|ip: Ipv4Addr| !i@.dante_unverified.contains(ip)),
            v@ == s.take(k as int).filter(pred),
        decreases s.len() - k,
    {
        proof {
            reveal(Seq::filter);
            assert(s.take(k + 1).drop_last() =~= s.take(k as int));
        }
        let ip: Ipv4Addr = *i.dante_sources.at(k);
        if !i.dante_unverified.contains(&ip) {
            v.push(ip);
        }
        k += 1;
    }
    assert(s.take(k as int) =~= s);
    assert(views(v@) =~= v@);
    let r: Vec<Ipv4Addr> = sort(v);
    assert(views(r@) =~= r@);
    r
}

fn device_of(
    names: &Table<Ipv4Addr, String>,
    ip: Ipv4Addr,
    streams: Option<&Table<String, StreamStats>>,
) -> (l: RenderedLine)
    ensures
        l@ == device_line(
            names@,
            ip,
            match streams {
                Some(t) => flow_note(t@, ip),
                None => Seq::empty(),
            },
        ),
{
    let mut s: String = String::new();
    let ghost note = match streams {
        Some(t) => flow_note(t@, ip),
        None => Seq::<char>::empty(),
    };
    match names.get(&ip) {
        Some(n) => {
            s = String::from_str("▸ \"");
            s.append(n.as_str());
            s.append("\"   ");
            push_ip(&mut s, ip);
        },
        None => {
            s = String::from_str("▸ ");
            push_ip(&mut s, ip);
            s.append("   (name pending)");
        },
    }
    let ghost before = s@;
    if let Some(t) = streams {
        s.append(tx_flow_suffix(t, ip).as_str());
    }
    assert(s@ =~= before + note);
    RenderedLine::plain(status_entry(s.as_str()))
}

fn doubt_of(
    names: &Table<Ipv4Addr, String>,
    ip: Ipv4Addr,
    streams: &Table<String, StreamStats>,
) -> (l: RenderedLine)
    ensures
        l@ == doubt_line(names@, ip, flow_note(streams@, ip)),
{
    let mut s: String = String::new();
    match names.get(&ip) {
        Some(n) => {
            s = String::from_str("⚠  \"");
            s.append(n.as_str());
            s.append("\"   ");
        },
        None => {
            s = String::from_str("⚠  ");
        },
    }
    push_ip(&mut s, ip);
    s.append("   (mDNS only, no ConMon)");
    s.append(tx_flow_suffix(streams, ip).as_str());
    RenderedLine::colored("33", status_entry(s.as_str()))
}

fn devices_of(
    names: &Table<Ipv4Addr, String>,
    ips: &Vec<Ipv4Addr>,
    streams: &Table<String, StreamStats>,
) -> (r: Vec<RenderedLine>)
    ensures
        views(r@) == ips@.map_values(
            |ip: Ipv4Addr| device_line(names@, ip, flow_note(streams@, ip)),
        ),
{
    let mut r: Vec<RenderedLine> = Vec::new();
    let mut i: usize = 0;
    while i < ips.len()
        invariant
            i <= ips@.len(),
            r@.len() == i,
            forall|j: int|
                0 <= j < i ==> (#[trigger] r@[j])@ == device_line(
                    names@,
                    ips@[j],
                    flow_note(streams@, ips@[j]),
                ),
        decreases ips@.len() - i,
    {
        r.push(device_of(names, ips[i], Some(streams)));
        i += 1;
    }
    assert(views(r@) =~= ips@.map_values(
        |ip: Ipv4Addr| device_line(names@, ip, flow_note(streams@, ip)),
    ));
    r
}

fn doubts_of(
    names: &Table<Ipv4Addr, String>,
    ips: &Vec<Ipv4Addr>,
    streams: &Table<String, StreamStats>,
) -> (r: Vec<RenderedLine>)
    ensures
        views(r@) == ips@.map_values(
            |ip: Ipv4Addr| doubt_line(names@, ip, flow_note(streams@, ip)),
        ),
{
    let mut r: Vec<RenderedLine> = Vec::new();
    let mut i: usize = 0;
    while i < ips.len()
        invariant
            i <= ips@.len(),
            r@.len() == i,
            forall|j: int|
                0 <= j < i ==> (#[trigger] r@[j])@ == doubt_line(
                    names@,
                    ips@[j],
                    flow_note(streams@, ips@[j]),
                ),
        decreases ips@.len() - i,
    {
        r.push(doubt_of(names, ips[i], streams));
        i += 1;
    }
    assert(views(r@) =~= ips@.map_values(
        |ip: Ipv4Addr| doubt_line(names@, ip, flow_note(streams@, ip)),
    ));
    r
}

fn senders_of(names: &Table<Ipv4Addr, String>, ips: &Vec<Ipv4Addr>) -> (r: Vec<RenderedLine>)
    ensures
        views(r@) == ips@.map_values(|ip: Ipv4Addr| device_line(names@, ip, Seq::empty())),
{
    let mut r: Vec<RenderedLine> = Vec::new();
    let mut i: usize = 0;
    while i < ips.len()
        invariant
            i <= ips@.len(),
            r@.len() == i,
            forall|j: int|
                0 <= j < i ==> (#[trigger] r@[j])@ == device_line(names@, ips@[j], Seq::empty()),
        decreases ips@.len() - i,
    {
        r.push(device_of(names, ips[i], None));
        i += 1;
    }
    assert(views(r@) =~= ips@.map_values(
        |ip: Ipv4Addr| device_line(names@, ip, Seq::empty()),
    ));
    r
}

fn render_dante(i: &DiscoveryInputs) -> (r: Vec<RenderedLine>)
    requires
        i@.dante_unverified.len() <= i@.dante_sources.len(),
    ensures
        views(r@) == dante_lines(i@),
{
    let verified: usize = i.dante_sources.len() - i.dante_unverified.len();
    let mut r: Vec<RenderedLine> = no_lines();
    if verified == 0 && i.dante_unverified.len() == 0 {
        return r;
    }
    let mut s: String = String::from_str("Dante (");
    push_dec(&mut s, verified as u64);
    s.append(")");
    let live: usize = i.dante_conmon.len();
    let ghost before = s@;
    if live == 0 {
        s.append("");
    } else if live == verified {
        s.append("  · all live");
    } else {
        s.append("  · ");
        push_dec(&mut s, live as u64);
        s.append(" live");
    }
    assert(s@ =~= before + live_note(i@.dante_conmon.len(), verified_count(i@)));
    add_line(&mut r, RenderedLine::plain(status_entry(s.as_str())));
    let ghost first = views(r@);
    assert(first =~= seq![first[0]]);
    add_lines(&mut r, devices_of(i.dante_names, &verified_of(i), i.streams));
    add_lines(&mut r, doubts_of(i.dante_names, &sorted_set(i.dante_unverified), i.streams));
    r
}

fn render_ndi(i: &DiscoveryInputs) -> (r: Vec<RenderedLine>)
    ensures
        views(r@) == ndi_lines(i@),
{
    let mut r: Vec<RenderedLine> = no_lines();
    if i.ndi_sources.len() == 0 {
        return r;
    }
    let mut s: String = String::from_str("NDI (");
    push_dec(&mut s, i.ndi_sources.len() as u64);
    s.append(")");
    add_line(&mut r, RenderedLine::plain(status_entry(s.as_str())));
    let ghost first = views(r@);
    assert(first =~= seq![first[0]]);
    add_lines(&mut r, senders_of(i.ndi_names, &sorted_set(i.ndi_sources)));
    r
}

/// Renders the section on devices, if there is any. That nothing flows is told
/// once in a session.
pub fn render_discovery(inputs: &DiscoveryInputs, no_flows_diagnostic_shown: &mut bool) -> (r:
    Option<Vec<RenderedLine>>)
    requires
        inputs@.dante_unverified.len() <= inputs@.dante_sources.len(),
    ensures
        match r {
            Some(l) => discovery_lines(inputs@, *old(no_flows_diagnostic_shown)) == Some(
                views(l@),
            ),
            None => discovery_lines(inputs@, *old(no_flows_diagnostic_shown)) is None,
        },
        *final(no_flows_diagnostic_shown) == (*old(no_flows_diagnostic_shown) || (!nothing_found(
            inputs@,
        ) && no_flows(inputs@))),
{
    let verified: usize = inputs.dante_sources.len() - inputs.dante_unverified.len();
    let ndi: usize = inputs.ndi_sources.len();
    if verified == 0 && inputs.dante_unverified.len() == 0 && ndi == 0 {
        return None;
    }
    let mut r: Vec<RenderedLine> = render_dante(inputs);
    add_lines(&mut r, render_ndi(inputs));
    let idle: bool = (verified > 0 && inputs.dante_active == 0) || (ndi > 0 && inputs.ndi_active
        == 0);
    let tell: bool = idle && !*no_flows_diagnostic_shown;
    crate::report::line::add_line_if(
        &mut r,
        tell,
        RenderedLine::colored(
            "33",
            status_entry("⚠  Devices announced but no active flows — mirror port may be needed"),
        ),
    );
    if tell {
        *no_flows_diagnostic_shown = true;
    }
    Some(r)
}

// ── AVDECC entities ──────────────────────────────────────────────────────────

/// What an entity does.
pub open spec fn entity_role(e: AvdeccEntity) -> Seq<char> {
    let talker = streams_text("T:"@, e.talker_stream_sources, e.talker_capabilities);
    let listener = streams_text("L:"@, e.listener_stream_sinks, e.listener_capabilities);
    if e.talker_stream_sources > 0 && e.listener_stream_sinks > 0 {
        talker + "  "@ + listener
    } else if e.talker_stream_sources > 0 {
        talker
    } else if e.listener_stream_sinks > 0 {
        listener
    } else {
        "controller"@
    }
}

/// The clock that an entity uses.
pub open spec fn entity_clock(e: AvdeccEntity) -> Seq<char> {
    if e.gptp_grandmaster_id@ == seq![0u8, 0, 0, 0, 0, 0, 0, 0] {
        "no grandmaster"@
    } else {
        "GM: "@ + hex_colons(e.gptp_grandmaster_id@) + "  domain "@ + dec(
            e.gptp_domain_number as nat,
        )
    }
}

/// The two lines on an entity.
pub open spec fn entity_lines(e: AvdeccEntity) -> Seq<LineView> {
    seq![
        plain(
            entry(
                "▸ "@ + hex_colons(e.entity_id@) + "  "@ + entity_role(e) + "  "@ + sr_class(
                    e.entity_capabilities,
                ) + (if has_aem(e.entity_capabilities) {
                    "  AEM"@
                } else {
                    ""@
                }) + (if not_ready(e.entity_capabilities) {
                    "  ⚠ not ready"@
                } else {
                    ""@
                }),
            ),
        ),
        plain(
            detail("model "@ + hex_colons(e.entity_model_id@) + "  "@ + entity_clock(e)),
        ),
    ]
}

/// The lines on entities, in turn.
pub open spec fn entities_lines(order: Seq<AvdeccEntity>) -> Seq<LineView>
    decreases order.len(),
{
    if order.len() == 0 {
        Seq::empty()
    } else {
        entities_lines(order.drop_last()) + entity_lines(order.last())
    }
}

fn role_of(e: &AvdeccEntity) -> (s: String)
    ensures
        s@ == entity_role(*e),
{
    let talker: String = streams_of("T:", e.talker_stream_sources, e.talker_capabilities);
    let listener: String = streams_of("L:", e.listener_stream_sinks, e.listener_capabilities);
    if e.talker_stream_sources > 0 && e.listener_stream_sinks > 0 {
        let mut s: String = talker;
        s.append("  ");
        s.append(listener.as_str());
        s
    } else if e.talker_stream_sources > 0 {
        talker
    } else if e.listener_stream_sinks > 0 {
        listener
    } else {
        String::from_str("controller")
    }
}

fn clock_of(e: &AvdeccEntity) -> (s: String)
    ensures
        s@ == entity_clock(*e),
{
    let zero: [u8; 8] = [0, 0, 0, 0, 0, 0, 0, 0];
    assert(zero@ =~= seq![0u8, 0, 0, 0, 0, 0, 0, 0]);
    if crate::parser::bytes::same_bytes(e.gptp_grandmaster_id.as_slice(), zero.as_slice()) {
        String::from_str("no grandmaster")
    } else {
        let mut s: String = String::from_str("GM: ");
        push_eui64(&mut s, &e.gptp_grandmaster_id);
        s.append("  domain ");
        push_dec(&mut s, e.gptp_domain_number as u64);
        s
    }
}

fn entity_of(e: &AvdeccEntity) -> (r: Vec<RenderedLine>)
    ensures
        views(r@) == entity_lines(*e),
{
    let mut s: String = String::from_str("▸ ");
    push_eui64(&mut s, &e.entity_id);
    s.append("  ");
    s.append(role_of(e).as_str());
    s.append("  ");
    s.append(sr_class_str(e.entity_capabilities));
    s.append(
        if e.entity_capabilities / 8 % 2 == 1 {
            "  AEM"
        } else {
            ""
        },
    );
    s.append(
        if e.entity_capabilities / 0x2_0000 % 2 == 1 {
            "  ⚠ not ready"
        } else {
            ""
        },
    );
    let mut t: String = String::from_str("model ");
    push_eui64(&mut t, &e.entity_model_id);
    t.append("  ");
    t.append(clock_of(e).as_str());
    let mut r: Vec<RenderedLine> = no_lines();
    add_line(&mut r, RenderedLine::plain(status_entry(s.as_str())));
    add_line(&mut r, RenderedLine::plain(status_detail(t.as_str())));
    assert(views(r@) =~= entity_lines(*e));
    r
}

/// The values of a table, in their own order.
pub fn values_in_order<V: Ranked + Copy>(t: &Table<[u8; 8], V>) -> (r: Vec<V>)
    ensures
        views(r@) == sorted::<V>(values(t@)),
{
    let mut v: Vec<V> = Vec::new();
    let mut i: usize = 0;
    while i < t.len()
        invariant
            i <= t@.len(),
            v@.len() == i,
            forall|j: int| 0 <= j < i ==> (#[trigger] v@[j])@ == t@[j].1,
        decreases t@.len() - i,
    {
        v.push(*t.value_at(i));
        i += 1;
    }
    assert(views(v@) =~= values(t@));
    sort(v)
}

/// Renders the AVDECC entities, in the order of their identifiers.
pub fn render_avdecc_entities(entities: &Table<[u8; 8], AvdeccEntity>) -> (r: Vec<RenderedLine>)
    ensures
        views(r@) == entities_lines(sorted::<AvdeccEntity>(values(entities@))),
{
    let order: Vec<AvdeccEntity> = values_in_order(entities);
    let ghost all = views(order@);
    let mut r: Vec<RenderedLine> = no_lines();
    let mut i: usize = 0;
    assert(all.take(0) =~= Seq::empty());
    while i < order.len()
        invariant
            all == views(order@),
            i <= order@.len(),
            views(r@) == entities_lines(all.take(i as int)),
        decreases order@.len() - i,
    {
        assert(all.take(i + 1).drop_last() =~= all.take(i as int));
        assert(all[i as int] == order@[i as int]@);
        add_lines(&mut r, entity_of(&order[i]));
        i += 1;
    }
    assert(all.take(i as int) =~= all);
    r
}

/// That nothing flows is told at most once: told already, it is not told again.
pub proof fn law_idle_is_told_once(i: DiscoveryView)
    requires
        !nothing_found(i),
    ensures
        discovery_lines(i, true) == Some(dante_lines(i) + ndi_lines(i)),
{
    assert(dante_lines(i) + ndi_lines(i) + Seq::<LineView>::empty() =~= dante_lines(i) + ndi_lines(
        i,
    ));
}

} // verus!
