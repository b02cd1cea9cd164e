//! The section on the network.

use vstd::prelude::*;

use crate::binary::{push_quotient, quotient_text, round, rounded};
use crate::net::{dotted, push_ip};
use crate::order::views;
use crate::protocols::SECOND;
use crate::report::line::{add_line, add_line_if, add_lines, detail, entry, failure, line_if, no_lines, plain, status_detail, status_entry, warning, LineView, RenderedLine};
use crate::report::streams::is_avb;
use crate::scan::{begins_with, chars_of};
use crate::stats::health::{querier_absent, NetworkHealth};
use crate::stats::stream::{since, StreamStats, StreamView};
use crate::table::Table;
use crate::text::{dec, hex_colons, push_dec, push_hex_colons, same};

verus! {

/// What the section on the network shows.
pub struct NetworkStatusInputs<'a> {
    pub bytes_this_window: u64,
    pub streams: &'a Table<String, StreamStats>,
    pub health: &'a NetworkHealth,
    pub pause_frames: u64,
    pub pfc_frames: u64,
    pub eee_ports: &'a Table<(String, String), (u16, u16)>,
    /// Packets received, dropped by the kernel and dropped by the interface.
    pub pcap_stats: Option<(u32, u32, u32)>,
    pub packets_dispatched: u64,
}

/// What the section on the network shows, in specifications.
pub struct StatusView {
    pub bytes_this_window: u64,
    pub streams: Seq<(Seq<char>, StreamView)>,
    pub health: NetworkHealth,
    pub pause_frames: u64,
    pub pfc_frames: u64,
    pub eee_ports: Seq<((Seq<char>, Seq<char>), (u16, u16))>,
    pub pcap_stats: Option<(u32, u32, u32)>,
    pub packets_dispatched: u64,
}

impl<'a> View for NetworkStatusInputs<'a> {
    type V = StatusView;

    open spec fn view(&self) -> StatusView {
        StatusView {
            bytes_this_window: self.bytes_this_window,
            streams: self.streams@,
            health: *self.health,
            pause_frames: self.pause_frames,
            pfc_frames: self.pfc_frames,
            eee_ports: self.eee_ports@,
            pcap_stats: self.pcap_stats,
            packets_dispatched: self.packets_dispatched,
        }
    }
}

/// The bandwidth over a window of five seconds.
pub open spec fn bandwidth_text(bytes: u64) -> Seq<char> {
    "Bandwidth: "@ + quotient_text(rounded(bytes as nat) * 8, 5_000_000, 1) + " Mbps (last 5s)"@
}

/// Whether no stream is marked at the IP level.
pub open spec fn unmarked_only(t: Seq<(Seq<char>, StreamView)>) -> bool {
    forall|i: int|
        0 <= i < t.len() ==> (#[trigger] t[i]).1.protocol == "NDI"@ || is_avb(t[i].1)
}

/// How many streams are marked wrongly.
pub open spec fn mismarked(t: Seq<(Seq<char>, StreamView)>) -> nat
    decreases t.len(),
{
    if t.len() == 0 {
        0
    } else if t.last().1.dscp_violations > 0 {
        mismarked(t.drop_last()) + 1
    } else {
        mismarked(t.drop_last())
    }
}

/// How the streams are marked.
pub open spec fn qos_text(t: Seq<(Seq<char>, StreamView)>) -> Seq<char> {
    if unmarked_only(t) {
        "QoS: – (no IP streams)"@
    } else if mismarked(t) == 0 {
        "QoS: ✓ all streams correctly marked"@
    } else {
        "QoS: ⚠ "@ + dec(mismarked(t)) + " stream(s) with incorrect DSCP"@
    }
}

/// Who the querier is.
pub open spec fn querier_note(h: NetworkHealth) -> Seq<char> {
    (match h.igmp_querier_ip {
        Some(ip) => " "@ + dotted(ip),
        None => Seq::empty(),
    }) + (match h.igmp_querier_mac {
        Some(m) => " ["@ + hex_colons(m@) + "]"@,
        None => Seq::empty(),
    })
}

/// How often the querier asks.
pub open spec fn interval_note(h: NetworkHealth) -> Seq<char> {
    match h.igmp_query_interval_secs {
        Some(i) => "  (interval "@ + dec(i as nat) + "s)"@,
        None => Seq::empty(),
    }
}

/// The state of the querier.
pub open spec fn querier_text(h: NetworkHealth, now: u64) -> Seq<char> {
    match h.last_igmp_query {
        None => "IGMP: – (no querier seen)"@,
        Some(t) => if querier_absent(h, now) {
            "IGMP: ⚠ querier silent "@ + dec((since(now, t) / SECOND) as nat) + "s"@
        } else {
            "IGMP: ✓ querier"@ + querier_note(h) + " "@ + dec((since(now, t) / SECOND) as nat)
                + "s ago"@ + interval_note(h)
        },
    }
}

/// The figures that are always quotient_text.
#[verifier::opaque]
pub open spec fn figure_lines(i: StatusView, now: u64) -> Seq<LineView> {
    seq![
        plain(entry(bandwidth_text(i.bytes_this_window))),
        plain(entry(qos_text(i.streams))),
        plain(entry(querier_text(i.health, now))),
    ]
}

/// The lines on congestion.
#[verifier::opaque]
pub open spec fn congestion_lines(i: StatusView) -> Seq<LineView> {
    Seq::empty() + line_if(
        i.health.ecn_congestion_marks > 0,
        warning(
            entry(
                "⚠  ECN: "@ + dec(i.health.ecn_congestion_marks as nat)
                    + " congestion mark(s) — router congestion detected on the path"@,
            ),
        ),
    ) + line_if(
        i.pause_frames > 0,
        warning(
            entry(
                "⚠  PAUSE frames: "@ + dec(i.pause_frames as nat)
                    + " in last 5s — upstream link congestion causing tx-side freezes"@,
            ),
        ),
    ) + line_if(
        i.pfc_frames > 0,
        warning(
            entry(
                "⚠  PFC frames: "@ + dec(i.pfc_frames as nat)
                    + " in last 5s — priority flow control engaged on upstream link"@,
            ),
        ),
    )
}

/// The line on an energy-saving port.
pub open spec fn port_line(e: ((Seq<char>, Seq<char>), (u16, u16))) -> LineView {
    plain(
        detail(
            "port \""@ + e.0.1 + "\"  chassis "@ + e.0.0 + "  Tx wake: "@ + dec(e.1.0 as nat)
                + "µs  Rx wake: "@ + dec(e.1.1 as nat) + "µs"@,
        ),
    )
}

/// The lines on energy-saving ports.
#[verifier::opaque]
pub open spec fn port_lines(i: StatusView) -> Seq<LineView> {
    if i.eee_ports.len() == 0 {
        Seq::empty()
    } else {
        seq![
            warning(
                entry(
                    "⚠  EEE active on "@ + dec(i.eee_ports.len())
                        + " switch port(s) — may cause audio/video glitches  (disable EEE on all AV switch ports)"@,
                ),
            ),
        ] + i.eee_ports.map_values(|e: ((Seq<char>, Seq<char>), (u16, u16))| port_line(e))
    }
}

/// A count of dropped packets, in the colour of a failure where there are any.
pub open spec fn drop_line(n: u32, what: Seq<char>) -> LineView {
    let text = detail(dec(n as nat) + what);
    if n > 0 {
        failure(text)
    } else {
        plain(text)
    }
}

/// The lines on the capture itself.
#[verifier::opaque]
pub open spec fn capture_lines(i: StatusView) -> Seq<LineView> {
    match i.pcap_stats {
        Some((received, dropped, if_dropped)) => seq![
            plain(entry("📦 "@ + dec(received as nat) + " pkts received"@)),
            drop_line(dropped, " kernel drop(s)"@),
            drop_line(if_dropped, " interface drop(s)"@),
            plain(detail(dec(i.packets_dispatched as nat) + " parsed"@)),
        ] + line_if(
            dropped > 0 || if_dropped > 0,
            failure(
                entry(
                    "❌ Capture drops detected — loss/jitter figures may be understated. Reduce load or increase pcap buffer size."@,
                ),
            ),
        ),
        None => seq![plain(entry("📦 "@ + dec(i.packets_dispatched as nat) + " parsed"@))],
    }
}

/// The section on the network.
pub open spec fn status_lines(i: StatusView, now: u64) -> Seq<LineView> {
    figure_lines(i, now) + congestion_lines(i) + port_lines(i) + capture_lines(i)
}

fn only_unmarked(t: &Table<String, StreamStats>) -> (r: bool)
    ensures
        r == unmarked_only(t@),
{
    let mut i: usize = 0;
    while i < t.len()
        invariant
            i <= t@.len(),
            forall|j: int|
                0 <= j < i ==> (#[trigger] t@[j]).1.protocol == "NDI"@ || is_avb(t@[j].1),
        decreases t@.len() - i,
    {
        let p: &str = t.value_at(i).protocol.as_str();
        let c: Vec<char> = chars_of(p);
        if !(same(p, "NDI") || same(p, "AVB") || begins_with(c.as_slice(), "AVB ")) {
            assert(!(t@[i as int].1.protocol == "NDI"@ || is_avb(t@[i as int].1)));
            return false;
        }
        i += 1;
    }
    true
}

fn count_mismarked(t: &Table<String, StreamStats>) -> (n: u64)
    ensures
        n == mismarked(t@),
{
    let mut n: u64 = 0;
    let mut i: usize = 0;
    let len: usize = t.len();
    assert(t@.take(0) =~= Seq::empty());
    while i < len
        invariant
            len == t@.len(),
            i <= len,
            n <= i,
            n == mismarked(t@.take(i as int)),
        decreases len - i,
    {
        assert(t@.take(i + 1).drop_last() =~= t@.take(i as int));
        if t.value_at(i).dscp_violations > 0 {
            n += 1;
        }
        i += 1;
    }
    assert(t@.take(i as int) =~= t@);
    n
}

fn qos_of(t: &Table<String, StreamStats>) -> (s: String)
    ensures
        s@ == qos_text(t@),
{
    if only_unmarked(t) {
        return String::from_str("QoS: – (no IP streams)");
    }
    let n: u64 = count_mismarked(t);
    if n == 0 {
        String::from_str("QoS: ✓ all streams correctly marked")
    } else {
        let mut s: String = String::from_str("QoS: ⚠ ");
        push_dec(&mut s, n);
        s.append(" stream(s) with incorrect DSCP");
        s
    }
}

fn push_querier(s: &mut String, h: &NetworkHealth)
    ensures
        final(s)@ == old(s)@ + querier_note(*h),
{
    if let Some(ip) = h.igmp_querier_ip {
        s.append(" ");
        push_ip(s, ip);
    }
    if let Some(m) = h.igmp_querier_mac {
        s.append(" [");
        push_hex_colons(s, m.as_slice());
        s.append("]");
    }
    assert(s@ =~= old(s)@ + querier_note(*h));
}

fn querier_of(h: &NetworkHealth, now: u64) -> (s: String)
    ensures
        s@ == querier_text(*h, now),
{
    match h.last_igmp_query {
        None => String::from_str("IGMP: – (no querier seen)"),
        Some(t) => {
            let secs: u64 = now.saturating_sub(t) / SECOND;
            if h.is_querier_absent(now) {
                let mut s: String = String::from_str("IGMP: ⚠ querier silent ");
                push_dec(&mut s, secs);
                s.append("s");
                s
            } else {
                let mut s: String = String::from_str("IGMP: ✓ querier");
                push_querier(&mut s, h);
                s.append(" ");
                push_dec(&mut s, secs);
                s.append("s ago");
                let ghost before = s@;
                if let Some(i) = h.igmp_query_interval_secs {
                    s.append("  (interval ");
                    push_dec(&mut s, i);
                    s.append("s)");
                }
                assert(s@ =~= before + interval_note(*h));
                s
            }
        },
    }
}

fn render_figures(i: &NetworkStatusInputs, now: u64) -> (r: Vec<RenderedLine>)
    ensures
        views(r@) == figure_lines(i@, now),
{
    reveal(figure_lines);
    let mut r: Vec<RenderedLine> = no_lines();
    let mut s: String = String::from_str("Bandwidth: ");
    push_quotient(&mut s, round(i.bytes_this_window as u128) * 8, 5_000_000, 1);
    s.append(" Mbps (last 5s)");
    add_line(&mut r, RenderedLine::plain(status_entry(s.as_str())));
    add_line(&mut r, RenderedLine::plain(status_entry(qos_of(i.streams).as_str())));
    add_line(&mut r, RenderedLine::plain(status_entry(querier_of(i.health, now).as_str())));
    assert(views(r@) =~= figure_lines(i@, now));
    r
}

fn counted_line(before: &str, n: u64, after: &str) -> (l: RenderedLine)
    ensures
        l@ == warning(entry(before@ + dec(n as nat) + after@)),
{
    let mut s: String = String::from_str(before);
    push_dec(&mut s, n);
    s.append(after);
    RenderedLine::colored("33", status_entry(s.as_str()))
}

fn render_congestion(i: &NetworkStatusInputs) -> (r: Vec<RenderedLine>)
    ensures
        views(r@) == congestion_lines(i@),
{
    reveal(congestion_lines);
    let mut r: Vec<RenderedLine> = no_lines();
    add_line_if(
        &mut r,
        i.health.ecn_congestion_marks > 0,
        counted_line(
            "⚠  ECN: ",
            i.health.ecn_congestion_marks,
            " congestion mark(s) — router congestion detected on the path",
        ),
    );
    add_line_if(
        &mut r,
        i.pause_frames > 0,
        counted_line(
            "⚠  PAUSE frames: ",
            i.pause_frames,
            " in last 5s — upstream link congestion causing tx-side freezes",
        ),
    );
    add_line_if(
        &mut r,
        i.pfc_frames > 0,
        counted_line(
            "⚠  PFC frames: ",
            i.pfc_frames,
            " in last 5s — priority flow control engaged on upstream link",
        ),
    );
    r
}

fn render_port(key: &(String, String), wake: &(u16, u16)) -> (l: RenderedLine)
    ensures
        l@ == port_line(((key.0@, key.1@), *wake)),
{
    let mut s: String = String::from_str("port \"");
    s.append(key.1.as_str());
    s.append("\"  chassis ");
    s.append(key.0.as_str());
    s.append("  Tx wake: ");
    push_dec(&mut s, wake.0 as u64);
    s.append("µs  Rx wake: ");
    push_dec(&mut s, wake.1 as u64);
    s.append("µs");
    RenderedLine::plain(status_detail(s.as_str()))
}

fn render_ports(i: &NetworkStatusInputs) -> (r: Vec<RenderedLine>)
    ensures
        views(r@) == port_lines(i@),
{
    reveal(port_lines);
    let n: usize = i.eee_ports.len();
    let mut r: Vec<RenderedLine> = no_lines();
    if n == 0 {
        return r;
    }
    add_line(
        &mut r,
        counted_line(
            "⚠  EEE active on ",
            n as u64,
            " switch port(s) — may cause audio/video glitches  (disable EEE on all AV switch ports)",
        ),
    );
    let ghost head = views(r@);
    assert(head =~= seq![head[0]]);
    let ghost all = i.eee_ports@.map_values(
        |e: ((Seq<char>, Seq<char>), (u16, u16))| port_line(e),
    );
    let mut k: usize = 0;
    assert(head + all.take(0) =~= head);
    while k < n
        invariant
            n == i.eee_ports@.len(),
            all == i.eee_ports@.map_values(
                |e: ((Seq<char>, Seq<char>), (u16, u16))| port_line(e),
            ),
            k <= n,
            views(r@) == head + all.take(k as int),
        decreases n - k,
    {
        let ghost before = views(r@);
        add_line(&mut r, render_port(i.eee_ports.key_at(k), i.eee_ports.value_at(k)));
        assert(all.take(k + 1) =~= all.take(k as int).push(all[k as int]));
        k += 1;
        assert(views(r@) =~= head + all.take(k as int));
    }
    assert(all.take(n as int) =~= all);
    r
}

fn render_drop(n: u32, what: &str) -> (l: RenderedLine)
    ensures
        l@ == drop_line(n, what@),
{
    let mut s: String = String::new();
    push_dec(&mut s, n as u64);
    assert(s@ =~= dec(n as nat));
    s.append(what);
    if n > 0 {
        RenderedLine::colored("31", status_detail(s.as_str()))
    } else {
        RenderedLine::plain(status_detail(s.as_str()))
    }
}

fn render_capture(i: &NetworkStatusInputs) -> (r: Vec<RenderedLine>)
    ensures
        views(r@) == capture_lines(i@),
{
    reveal(capture_lines);
    let mut r: Vec<RenderedLine> = no_lines();
    match i.pcap_stats {
        Some((received, dropped, if_dropped)) => {
            let mut s: String = String::from_str("📦 ");
            push_dec(&mut s, received as u64);
            s.append(" pkts received");
            add_line(&mut r, RenderedLine::plain(status_entry(s.as_str())));
            add_line(&mut r, render_drop(dropped, " kernel drop(s)"));
            add_line(&mut r, render_drop(if_dropped, " interface drop(s)"));
            let mut t: String = String::new();
            push_dec(&mut t, i.packets_dispatched);
            assert(t@ =~= dec(i.packets_dispatched as nat));
            t.append(" parsed");
            add_line(&mut r, RenderedLine::plain(status_detail(t.as_str())));
            let ghost v = views(r@);
            assert(v =~= seq![v[0], v[1], v[2], v[3]]);
            add_line_if(
                &mut r,
                dropped > 0 || if_dropped > 0,
                RenderedLine::colored(
                    "31",
                    status_entry(
                        "❌ Capture drops detected — loss/jitter figures may be understated. Reduce load or increase pcap buffer size.",
                    ),
                ),
            );
        },
        None => {
            let mut s: String = String::from_str("📦 ");
            push_dec(&mut s, i.packets_dispatched);
            s.append(" parsed");
            add_line(&mut r, RenderedLine::plain(status_entry(s.as_str())));
            assert(views(r@) =~= capture_lines(i@));
        },
    }
    r
}

/// Renders the section on the network.
pub fn render_network_status(inputs: &NetworkStatusInputs, now: u64) -> (r: Vec<RenderedLine>)
    ensures
        views(r@) == status_lines(inputs@, now),
{
    let mut r: Vec<RenderedLine> = render_figures(inputs, now);
    add_lines(&mut r, render_congestion(inputs));
    add_lines(&mut r, render_ports(inputs));
    add_lines(&mut r, render_capture(inputs));
    r
}

} // verus!
