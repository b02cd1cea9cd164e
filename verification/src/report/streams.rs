//! The section on streams.

use vstd::prelude::*;

use crate::binary::{push_seconds, quotient_text, rounded, seconds};
use crate::capture::alert::{clock_kind, stream_clock_kind};
use crate::capture::media::{endpoint, push_endpoint};
use crate::net::{dotted, push_ip, Ipv4Addr};
use crate::order::{lemma_text_total, lemma_text_transitive, sort, sorted, text_le, text_leq, views, Ranked};
use crate::protocols::{avtp_subtype_name, failure_reason, msrp_failure_reason, subtype_name, MsrpDeclType, MsrpDeclaration, SECOND, STREAM_TIMEOUT_SECS};
use crate::report::discovery::{transmitter_tag, values_in_order, verdict_note};
use crate::report::line::{add_line, add_line_if, add_lines, detail, entry, line_if, no_lines, plain, push_mbps, status_detail, status_entry, warning, failure, LineView, RenderedLine};
use crate::scan::{begins, begins_with, chars_of};
use crate::stats::avtp::{push_stream_id, stream_id_text, AvtpStreamStats};
use crate::stats::diagnostic::{jitter_text, message_text, pct_text, Pct, StreamDiagnostic};
use crate::stats::stream::{diagnosed, law_old_loss_is_forgiven, lifetime_loss, since, StreamStats, StreamView};
use crate::stats::tcp::{StreamQuality, TcpStreamStats};
use crate::table::{keys, lookup, values, KeySet, Table};
use crate::text::{dec, fixed, push_dec, same};

verus! {

// ── Order ────────────────────────────────────────────────────────────────────

/// The place of a stream's protocol in the report, by the start of its key.
pub open spec fn group(key: Seq<char>) -> nat {
    if begins(key, "AES67"@) {
        0
    } else if begins(key, "Dante"@) {
        1
    } else if begins(key, "NDI"@) {
        2
    } else if begins(key, "ST"@) {
        3
    } else if begins(key, "AVB"@) {
        4
    } else {
        5
    }
}

/// The key of a stream, ordered by its protocol and then by its text.
#[derive(Debug)]
pub struct StreamKey {
    pub text: String,
}

impl View for StreamKey {
    type V = Seq<char>;

    open spec fn view(&self) -> Seq<char> {
        self.text@
    }
}

fn group_of(key: &str) -> (g: u8)
    ensures
        g == group(key@),
{
    let c: Vec<char> = chars_of(key);
    if begins_with(c.as_slice(), "AES67") {
        0
    } else if begins_with(c.as_slice(), "Dante") {
        1
    } else if begins_with(c.as_slice(), "NDI") {
        2
    } else if begins_with(c.as_slice(), "ST") {
        3
    } else if begins_with(c.as_slice(), "AVB") {
        4
    } else {
        5
    }
}

impl Ranked for StreamKey {
    open spec fn leq(a: Seq<char>, b: Seq<char>) -> bool {
        group(a) < group(b) || (group(a) == group(b) && text_leq(a, b))
    }

    proof fn total(a: Seq<char>, b: Seq<char>) {
        lemma_text_total(a, b);
    }

    proof fn transitive(a: Seq<char>, b: Seq<char>, c: Seq<char>) {
        if group(a) == group(b) && group(b) == group(c) {
            lemma_text_transitive(a, b, c);
        }
    }

    fn le(&self, other: &Self) -> (r: bool) {
        let a: u8 = group_of(self.text.as_str());
        let b: u8 = group_of(other.text.as_str());
        a < b || (a == b && text_le(self.text.as_str(), other.text.as_str()))
    }
}

fn stream_order(t: &Table<String, StreamStats>) -> (r: Vec<StreamKey>)
    ensures
        views(r@) == sorted::<StreamKey>(keys(t@)),
{
    let mut v: Vec<StreamKey> = Vec::new();
    let mut i: usize = 0;
    while i < t.len()
        invariant
            i <= t@.len(),
            v@.len() == i,
            forall|j: int| 0 <= j < i ==> (#[trigger] v@[j])@ == t@[j].0,
        decreases t@.len() - i,
    {
        v.push(StreamKey { text: t.key_at(i).clone() });
        i += 1;
    }
    assert(views(v@) =~= keys(t@));
    sort(v)
}

// ── One stream ───────────────────────────────────────────────────────────────

/// The protocol of a stream as it is shown. AES67 from a Dante device tells so.
pub open spec fn protocol_label(
    s: StreamView,
    sources: Seq<Ipv4Addr>,
    names: Seq<(Ipv4Addr, Seq<char>)>,
) -> Seq<char> {
    if begins(s.protocol, "2110-"@) {
        "ST"@ + s.protocol
    } else {
        match s.src_ip {
            Some(ip) => if s.protocol == "AES67"@ && sources.contains(ip) {
                match lookup(names, ip) {
                    Some(n) => "AES67 (Dante: \""@ + n + "\")"@,
                    None => "AES67 (Dante)"@,
                }
            } else {
                s.protocol
            },
            None => s.protocol,
        }
    }
}

/// How a stream is addressed, for Dante.
pub open spec fn cast_note(s: StreamView) -> Seq<char> {
    if s.protocol == "Dante"@ {
        if s.is_multicast {
            "  [multicast]"@
        } else {
            "  [unicast]"@
        }
    } else {
        ""@
    }
}

/// The name of a stream.
pub open spec fn name_note(s: StreamView) -> Seq<char> {
    match s.sdp_name {
        Some(n) => "  \""@ + n + "\""@,
        None => Seq::empty(),
    }
}

/// The codec of a stream.
pub open spec fn codec_note(s: StreamView) -> Seq<char> {
    match s.sdp_rtpmap {
        Some(r) => "  ["@ + r + "]"@,
        None => Seq::empty(),
    }
}

/// The destination of a stream.
pub open spec fn target_note(s: StreamView) -> Seq<char> {
    match s.dst_ip {
        Some(ip) => if s.dst_port > 0 {
            "  —  "@ + endpoint(ip, s.dst_port)
        } else {
            "  —  "@ + dotted(ip)
        },
        None => Seq::empty(),
    }
}

/// The title of a stream.
pub open spec fn title(
    s: StreamView,
    sources: Seq<Ipv4Addr>,
    names: Seq<(Ipv4Addr, Seq<char>)>,
) -> Seq<char> {
    "▸ "@ + protocol_label(s, sources, names) + cast_note(s) + name_note(s) + codec_note(s)
        + target_note(s) + verdict_note(s.transmitter)
}

/// The first TCP flow from `i` on to or from an address.
pub open spec fn flow_of(
    t: Seq<(Seq<char>, TcpStreamStats)>,
    ip: Ipv4Addr,
    i: int,
) -> Option<TcpStreamStats>
    decreases t.len() - i,
{
    if i < 0 || i >= t.len() {
        None
    } else if t[i].1.src_ip == ip || t[i].1.dst_ip == ip {
        Some(t[i].1)
    } else {
        flow_of(t, ip, i + 1)
    }
}

/// How well a flow does, in text.
pub open spec fn quality_text(q: StreamQuality) -> Seq<char> {
    match q {
        StreamQuality::Healthy => "healthy"@,
        StreamQuality::Degrading => "degrading"@,
        StreamQuality::Critical => "critical"@,
        StreamQuality::Terminated => "terminated"@,
    }
}

/// A bitrate in Mbps.
pub open spec fn mbps(bps: u64) -> Seq<char> {
    quotient_text(rounded(bps as nat), 1_000_000, 1)
}

/// The figures of a stream.
pub open spec fn figures(s: StreamView, flows: Seq<(Seq<char>, TcpStreamStats)>) -> Seq<char> {
    if s.protocol == "NDI"@ {
        let flow = match s.dst_ip {
            Some(ip) => flow_of(flows, ip, 0),
            None => None,
        };
        match flow {
            Some(t) => quality_text(t.stream_quality) + "  |  "@ + mbps(t.bitrate_bps)
                + " Mbps  |  retrans: "@ + dec(t.retransmissions as nat),
            None => mbps(s.bitrate_bps) + " Mbps"@,
        }
    } else if s.protocol == "Dante"@ && !s.rtp_seen {
        dec(s.packets as nat) + " pkts  |  "@ + mbps(s.bitrate_bps)
            + " Mbps  (ATP framing — loss/jitter unavailable)"@
    } else {
        "loss: "@ + pct_text(lifetime_loss(s), 1) + "%  |  jitter: "@ + jitter_text(s.jitter)
            + " ms  |  "@ + mbps(s.bitrate_bps) + " Mbps"@
    }
}

/// The line on a diagnostic. Lost packets are not told of where they were told of
/// together with a lost clock.
pub open spec fn diagnostic_line(s: StreamView, d: StreamDiagnostic, correlated: bool) -> Seq<
    LineView,
> {
    if correlated && clock_kind(s.protocol) is Some && d is PacketLoss {
        Seq::empty()
    } else {
        match message_text(d) {
            Some(m) => seq![
                if d is Dead {
                    failure(m)
                } else {
                    warning(m)
                },
            ],
            None => Seq::empty(),
        }
    }
}

/// The lines on diagnostics.
pub open spec fn diagnostic_lines(
    s: StreamView,
    ds: Seq<StreamDiagnostic>,
    correlated: bool,
) -> Seq<LineView>
    decreases ds.len(),
{
    if ds.len() == 0 {
        Seq::empty()
    } else {
        diagnostic_lines(s, ds.drop_last(), correlated) + diagnostic_line(
            s,
            ds.last(),
            correlated,
        )
    }
}

/// Whether a stream is AVB's, which has lines of its own.
pub open spec fn is_avb(s: StreamView) -> bool {
    s.protocol == "AVB"@ || begins(s.protocol, "AVB "@)
}

/// The lines that a stream always has.
#[verifier::opaque]
pub open spec fn heading(
    s: StreamView,
    flows: Seq<(Seq<char>, TcpStreamStats)>,
    sources: Seq<Ipv4Addr>,
    names: Seq<(Ipv4Addr, Seq<char>)>,
) -> Seq<LineView> {
    seq![plain(entry(title(s, sources, names))), plain(detail(figures(s, flows)))]
}

/// The lines on a stream.
pub open spec fn stream_lines(
    s: StreamView,
    flows: Seq<(Seq<char>, TcpStreamStats)>,
    sources: Seq<Ipv4Addr>,
    names: Seq<(Ipv4Addr, Seq<char>)>,
    correlated: bool,
    now: u64,
) -> Seq<LineView> {
    if is_avb(s) {
        Seq::empty()
    } else {
        heading(s, flows, sources, names) + diagnostic_lines(s, diagnosed(s, now), correlated)
    }
}

/// The lines on the streams with the given keys, in turn.
pub open spec fn listed_streams(
    order: Seq<Seq<char>>,
    t: Seq<(Seq<char>, StreamView)>,
    flows: Seq<(Seq<char>, TcpStreamStats)>,
    sources: Seq<Ipv4Addr>,
    names: Seq<(Ipv4Addr, Seq<char>)>,
    correlated: bool,
    now: u64,
) -> Seq<LineView>
    decreases order.len(),
{
    if order.len() == 0 {
        Seq::empty()
    } else {
        listed_streams(order.drop_last(), t, flows, sources, names, correlated, now) + (
        match lookup(t, order.last()) {
            Some(s) => stream_lines(s, flows, sources, names, correlated, now),
            None => Seq::empty(),
        })
    }
}

fn push_protocol_label(
    out: &mut String,
    s: &StreamStats,
    sources: &KeySet<Ipv4Addr>,
    names: &Table<Ipv4Addr, String>,
)
    ensures
        final(out)@ == old(out)@ + protocol_label(s@, sources@, names@),
{
    let c: Vec<char> = chars_of(s.protocol.as_str());
    if begins_with(c.as_slice(), "2110-") {
        out.append("ST");
        out.append(s.protocol.as_str());
        assert(out@ =~= old(out)@ + protocol_label(s@, sources@, names@));
        return;
    }
    if let Some(ip) = s.src_ip {
        if same(s.protocol.as_str(), "AES67") && sources.contains(&ip) {
            match names.get(&ip) {
                Some(n) => {
                    out.append("AES67 (Dante: \"");
                    out.append(n.as_str());
                    out.append("\")");
                },
                None => {
                    out.append("AES67 (Dante)");
                },
            }
            assert(out@ =~= old(out)@ + protocol_label(s@, sources@, names@));
            return;
        }
    }
    out.append(s.protocol.as_str());
}

fn push_notes(out: &mut String, s: &StreamStats)
    ensures
        final(out)@ == old(out)@ + cast_note(s@) + name_note(s@) + codec_note(s@) + target_note(s@),
{
    if same(s.protocol.as_str(), "Dante") {
        out.append(
            if s.is_multicast {
                "  [multicast]"
            } else {
                "  [unicast]"
            },
        );
    } else {
        out.append("");
    }
    assert(out@ =~= old(out)@ + cast_note(s@));
    let ghost a = out@;
    if let Some(n) = &s.sdp_name {
        out.append("  \"");
        out.append(n.as_str());
        out.append("\"");
    }
    assert(out@ =~= a + name_note(s@));
    let ghost b = out@;
    if let Some(r) = &s.sdp_rtpmap {
        out.append("  [");
        out.append(r.as_str());
        out.append("]");
    }
    assert(out@ =~= b + codec_note(s@));
    let ghost c = out@;
    if let Some(ip) = s.dst_ip {
        out.append("  —  ");
        if s.dst_port > 0 {
            push_endpoint(out, ip, s.dst_port);
        } else {
            push_ip(out, ip);
        }
    }
    assert(out@ =~= c + target_note(s@));
}

fn title_of(
    s: &StreamStats,
    sources: &KeySet<Ipv4Addr>,
    names: &Table<Ipv4Addr, String>,
) -> (r: String)
    ensures
        r@ == title(s@, sources@, names@),
{
    let mut r: String = String::from_str("▸ ");
    push_protocol_label(&mut r, s, sources, names);
    push_notes(&mut r, s);
    r.append(transmitter_tag(s.transmitter).as_str());
    r
}

fn find_flow<'a>(t: &'a Table<String, TcpStreamStats>, ip: Ipv4Addr) -> (r: Option<
    &'a TcpStreamStats,
>)
    ensures
        match r {
            Some(f) => flow_of(t@, ip, 0) == Some(*f),
            None => flow_of(t@, ip, 0) is None,
        },
{
    let mut i: usize = 0;
    while i < t.len()
        invariant
            i <= t@.len(),
            flow_of(t@, ip, i as int) == flow_of(t@, ip, 0),
        decreases t@.len() - i,
    {
        let f: &TcpStreamStats = t.value_at(i);
        if f.src_ip == ip || f.dst_ip == ip {
            return Some(f);
        }
        i += 1;
    }
    None
}

fn quality_of(q: StreamQuality) -> (s: &'static str)
    ensures
        s@ == quality_text(q),
{
    match q {
        StreamQuality::Healthy => "healthy",
        StreamQuality::Degrading => "degrading",
        StreamQuality::Critical => "critical",
        StreamQuality::Terminated => "terminated",
    }
}

fn figures_of(s: &StreamStats, flows: &Table<String, TcpStreamStats>) -> (r: String)
    ensures
        r@ == figures(s@, flows@),
{
    let mut r: String = String::new();
    if same(s.protocol.as_str(), "NDI") {
        let flow: Option<&TcpStreamStats> = match s.dst_ip {
            Some(ip) => find_flow(flows, ip),
            None => None,
        };
        match flow {
            Some(t) => {
                r = String::from_str(quality_of(t.stream_quality));
                r.append("  |  ");
                push_mbps(&mut r, t.bitrate_bps);
                r.append(" Mbps  |  retrans: ");
                push_dec(&mut r, t.retransmissions);
            },
            None => {
                push_mbps(&mut r, s.bitrate_bps);
                assert(r@ =~= mbps(s.bitrate_bps));
                r.append(" Mbps");
            },
        }
    } else if same(s.protocol.as_str(), "Dante") && !s.rtp_seen {
        push_dec(&mut r, s.packets);
        assert(r@ =~= dec(s.packets as nat));
        r.append(" pkts  |  ");
        push_mbps(&mut r, s.bitrate_bps);
        r.append(" Mbps  (ATP framing — loss/jitter unavailable)");
    } else {
        r = String::from_str("loss: ");
        s.loss_pct().push(&mut r, 1);
        r.append("%  |  jitter: ");
        s.jitter.push(&mut r);
        r.append(" ms  |  ");
        push_mbps(&mut r, s.bitrate_bps);
        r.append(" Mbps");
    }
    r
}

fn render_diagnostics(s: &StreamStats, correlated: bool, now: u64) -> (r: Vec<RenderedLine>)
    ensures
        views(r@) == diagnostic_lines(s@, diagnosed(s@, now), correlated),
{
    let ds: Vec<StreamDiagnostic> = s.diagnostics(now);
    let hushed: bool = correlated && stream_clock_kind(s.protocol.as_str()).is_some();
    let mut r: Vec<RenderedLine> = no_lines();
    let mut i: usize = 0;
    assert(ds@.take(0) =~= Seq::empty());
    while i < ds.len()
        invariant
            hushed == (correlated && clock_kind(s@.protocol) is Some),
            i <= ds@.len(),
            views(r@) == diagnostic_lines(s@, ds@.take(i as int), correlated),
        decreases ds@.len() - i,
    {
        assert(ds@.take(i + 1).drop_last() =~= ds@.take(i as int));
        let d: StreamDiagnostic = ds[i];
        let loss: bool = match d {
            StreamDiagnostic::PacketLoss { .. } => true,
            _ => false,
        };
        let ghost before = views(r@);
        if !(hushed && loss) {
            if let Some(m) = d.message() {
                add_line(
                    &mut r,
                    RenderedLine::colored(
                        if d.is_critical() {
                            "31"
                        } else {
                            "33"
                        },
                        m,
                    ),
                );
            }
        }
        assert(views(r@) =~= before + diagnostic_line(s@, d, correlated));
        i += 1;
    }
    assert(ds@.take(i as int) =~= ds@);
    r
}

fn render_stream(
    s: &StreamStats,
    flows: &Table<String, TcpStreamStats>,
    sources: &KeySet<Ipv4Addr>,
    names: &Table<Ipv4Addr, String>,
    correlated: bool,
    now: u64,
) -> (r: Vec<RenderedLine>)
    ensures
        views(r@) == stream_lines(s@, flows@, sources@, names@, correlated, now),
{
    let mut r: Vec<RenderedLine> = no_lines();
    let c: Vec<char> = chars_of(s.protocol.as_str());
    if same(s.protocol.as_str(), "AVB") || begins_with(c.as_slice(), "AVB ") {
        return r;
    }
    add_line(&mut r, RenderedLine::plain(status_entry(title_of(s, sources, names).as_str())));
    add_line(&mut r, RenderedLine::plain(status_detail(figures_of(s, flows).as_str())));
    assert(views(r@) =~= heading(s@, flows@, sources@, names@)) by {
        reveal(heading);
    }
    add_lines(&mut r, render_diagnostics(s, correlated, now));
    r
}

// ── AVB ──────────────────────────────────────────────────────────────────────

/// The first declaration of a listener for a stream, from `i` on.
pub open spec fn listener_of(
    t: Seq<(Seq<u8>, MsrpDeclaration)>,
    id: Seq<u8>,
    i: int,
) -> Option<MsrpDeclaration>
    decreases t.len() - i,
{
    if i < 0 || i >= t.len() {
        None
    } else if t[i].1.stream_id@ == id && t[i].1.decl_type is Listener {
        Some(t[i].1)
    } else {
        listener_of(t, id, i + 1)
    }
}

/// The state of a listener.
pub open spec fn listener_note(l: Option<MsrpDeclaration>) -> Seq<char> {
    match l {
        Some(d) => if d.listener_state == Some(2u8) {
            "  ✓  Listener Ready"@
        } else if d.listener_state == Some(1u8) {
            "  ⚠  Listener AskingFailed"@
        } else if d.listener_state == Some(3u8) {
            "  ⚠  Listener ReadyFailed"@
        } else {
            "  Listener Unknown"@
        },
        None => ""@,
    }
}

/// The VLAN of a reservation.
pub open spec fn vlan_note(v: Option<u16>) -> Seq<char> {
    match v {
        Some(n) => "  VLAN "@ + dec(n as nat),
        None => Seq::empty(),
    }
}

/// The priority of a reservation.
pub open spec fn priority_note(p: Option<u8>) -> Seq<char> {
    match p {
        Some(n) => "  prio "@ + dec(n as nat),
        None => Seq::empty(),
    }
}

/// Why a reservation failed.
pub open spec fn failure_note(code: Option<u8>) -> Seq<char> {
    match code {
        Some(c) => "code "@ + dec(c as nat) + ": "@ + failure_reason(c),
        None => "failed"@,
    }
}

/// The line on the reservation of a stream.
pub open spec fn reservation_lines(
    s: AvtpStreamStats,
    msrp: Seq<(Seq<u8>, MsrpDeclaration)>,
    vlans: Seq<u16>,
) -> Seq<LineView> {
    match lookup(msrp, s.stream_id@) {
        Some(d) => match d.decl_type {
            MsrpDeclType::TalkerAdvertise => seq![
                plain(
                    detail(
                        "✓  Reserved"@ + vlan_note(d.vlan_id) + priority_note(d.priority)
                            + listener_note(listener_of(msrp, s.stream_id@, 0)),
                    ),
                ),
            ],
            MsrpDeclType::TalkerFailed => seq![
                warning(detail("⚠  Reservation failed — "@ + failure_note(d.failure_code))),
            ],
            MsrpDeclType::Listener => Seq::empty(),
        },
        None => line_if(
            vlans.len() == 0,
            warning(
                detail("⚠  No VLAN registration — L2 QoS may not be configured"@),
            ),
        ),
    }
}

/// The line on frames of another priority than reserved.
pub open spec fn mismatch_lines(s: AvtpStreamStats) -> Seq<LineView> {
    line_if(
        s.pcp_violations > 0,
        warning(
            detail(
                "⚠  AVTP stream using PCP "@ + dec(
                    match s.observed_pcp {
                        Some(p) => p as nat,
                        None => 0,
                    },
                ) + ", MSRP reservation declared PCP "@ + dec(
                    match s.msrp_declared_pcp {
                        Some(p) => p as nat,
                        None => 3,
                    },
                ) + " — frame lands in wrong CBS queue"@,
            ),
        ),
    )
}

/// The line on a stream that went silent.
pub open spec fn silence_lines(s: AvtpStreamStats, now: u64) -> Seq<LineView> {
    line_if(
        since(now, s.last_seen) > STREAM_TIMEOUT_SECS * SECOND,
        failure(
            detail(
                "💀 No signal for "@ + fixed(
                    seconds(since(now, s.last_seen)).0,
                    seconds(since(now, s.last_seen)).1,
                    0,
                ) + "s"@,
            ),
        ),
    )
}

/// The lines on an AVB stream.
pub open spec fn avtp_lines(
    s: AvtpStreamStats,
    msrp: Seq<(Seq<u8>, MsrpDeclaration)>,
    vlans: Seq<u16>,
    now: u64,
) -> Seq<LineView> {
    seq![
        plain(
            entry("▸ AVB  "@ + subtype_name(s.subtype) + "  —  "@ + stream_id_text(s.stream_id@)),
        ),
        plain(
            detail(
                "loss: "@ + pct_text(
                    Pct { part: s.lost_frames, received: s.packets, lost: s.lost_frames },
                    1,
                ) + "%  |  "@ + mbps(s.bitrate_bps) + " Mbps"@,
            ),
        ),
    ] + reservation_lines(s, msrp, vlans) + mismatch_lines(s) + silence_lines(s, now)
}

/// The lines on AVB streams, in turn.
pub open spec fn listed_avtp(
    order: Seq<AvtpStreamStats>,
    msrp: Seq<(Seq<u8>, MsrpDeclaration)>,
    vlans: Seq<u16>,
    now: u64,
) -> Seq<LineView>
    decreases order.len(),
{
    if order.len() == 0 {
        Seq::empty()
    } else {
        listed_avtp(order.drop_last(), msrp, vlans, now) + avtp_lines(
            order.last(),
            msrp,
            vlans,
            now,
        )
    }
}

fn find_listener<'a>(t: &'a Table<[u8; 8], MsrpDeclaration>, id: &[u8; 8]) -> (r: Option<
    &'a MsrpDeclaration,
>)
    ensures
        match r {
            Some(d) => listener_of(t@, id@, 0) == Some(*d),
            None => listener_of(t@, id@, 0) is None,
        },
{
    let mut i: usize = 0;
    while i < t.len()
        invariant
            i <= t@.len(),
            listener_of(t@, id@, i as int) == listener_of(t@, id@, 0),
        decreases t@.len() - i,
    {
        let d: &MsrpDeclaration = t.value_at(i);
        if crate::parser::bytes::same_bytes(d.stream_id.as_slice(), id.as_slice()) && d.decl_type
            == MsrpDeclType::Listener {
            return Some(d);
        }
        i += 1;
    }
    None
}

fn listener_note_of(l: Option<&MsrpDeclaration>) -> (s: &'static str)
    ensures
        s@ == listener_note(
            match l {
                Some(d) => Some(*d),
                None => None,
            },
        ),
{
    match l {
        Some(d) => match d.listener_state {
            Some(2) => "  ✓  Listener Ready",
            Some(1) => "  ⚠  Listener AskingFailed",
            Some(3) => "  ⚠  Listener ReadyFailed",
            _ => "  Listener Unknown",
        },
        None => "",
    }
}

fn reserved_text(d: &MsrpDeclaration, listener: &str) -> (s: String)
    ensures
        s@ == "✓  Reserved"@ + vlan_note(d.vlan_id) + priority_note(d.priority) + listener@,
{
    let mut s: String = String::from_str("✓  Reserved");
    let ghost a = s@;
    if let Some(n) = d.vlan_id {
        s.append("  VLAN ");
        push_dec(&mut s, n as u64);
    }
    assert(s@ =~= a + vlan_note(d.vlan_id));
    let ghost b = s@;
    if let Some(n) = d.priority {
        s.append("  prio ");
        push_dec(&mut s, n as u64);
    }
    assert(s@ =~= b + priority_note(d.priority));
    s.append(listener);
    s
}

fn render_reservation(
    s: &AvtpStreamStats,
    msrp: &Table<[u8; 8], MsrpDeclaration>,
    vlans: &KeySet<u16>,
) -> (r: Vec<RenderedLine>)
    ensures
        views(r@) == reservation_lines(*s, msrp@, vlans@),
{
    let mut r: Vec<RenderedLine> = no_lines();
    match msrp.get(&s.stream_id) {
        Some(d) => match d.decl_type {
            MsrpDeclType::TalkerAdvertise => {
                let note: &str = listener_note_of(find_listener(msrp, &s.stream_id));
                add_line(
                    &mut r,
                    RenderedLine::plain(status_detail(reserved_text(d, note).as_str())),
                );
            },
            MsrpDeclType::TalkerFailed => {
                let mut t: String = String::from_str("⚠  Reservation failed — ");
                let ghost before = t@;
                match d.failure_code {
                    Some(c) => {
                        t.append("code ");
                        push_dec(&mut t, c as u64);
                        t.append(": ");
                        t.append(msrp_failure_reason(c));
                    },
                    None => {
                        t.append("failed");
                    },
                }
                assert(t@ =~= before + failure_note(d.failure_code));
                add_line(&mut r, RenderedLine::colored("33", status_detail(t.as_str())));
            },
            MsrpDeclType::Listener => {},
        },
        None => {
            add_line_if(
                &mut r,
                vlans.is_empty(),
                RenderedLine::colored(
                    "33",
                    status_detail("⚠  No VLAN registration — L2 QoS may not be configured"),
                ),
            );
        },
    }
    assert(views(r@) =~= reservation_lines(*s, msrp@, vlans@));
    r
}

fn render_mismatch(s: &AvtpStreamStats) -> (r: Vec<RenderedLine>)
    ensures
        views(r@) == mismatch_lines(*s),
{
    let mut r: Vec<RenderedLine> = no_lines();
    let mut t: String = String::from_str("⚠  AVTP stream using PCP ");
    push_dec(
        &mut t,
        match s.observed_pcp {
            Some(p) => p as u64,
            None => 0,
        },
    );
    t.append(", MSRP reservation declared PCP ");
    push_dec(
        &mut t,
        match s.msrp_declared_pcp {
            Some(p) => p as u64,
            None => 3,
        },
    );
    t.append(" — frame lands in wrong CBS queue");
    add_line_if(
        &mut r,
        s.pcp_violations > 0,
        RenderedLine::colored("33", status_detail(t.as_str())),
    );
    assert(views(r@) =~= mismatch_lines(*s));
    r
}

fn render_silence(s: &AvtpStreamStats, now: u64) -> (r: Vec<RenderedLine>)
    ensures
        views(r@) == silence_lines(*s, now),
{
    let mut r: Vec<RenderedLine> = no_lines();
    let silent: u64 = now.saturating_sub(s.last_seen);
    let mut t: String = String::from_str("💀 No signal for ");
    push_seconds(&mut t, silent);
    t.append("s");
    add_line_if(
        &mut r,
        silent > STREAM_TIMEOUT_SECS * SECOND,
        RenderedLine::colored("31", status_detail(t.as_str())),
    );
    assert(views(r@) =~= silence_lines(*s, now));
    r
}

fn render_avtp(
    s: &AvtpStreamStats,
    msrp: &Table<[u8; 8], MsrpDeclaration>,
    vlans: &KeySet<u16>,
    now: u64,
) -> (r: Vec<RenderedLine>)
    ensures
        views(r@) == avtp_lines(*s, msrp@, vlans@, now),
{
    let mut r: Vec<RenderedLine> = no_lines();
    let mut t: String = String::from_str("▸ AVB  ");
    t.append(avtp_subtype_name(s.subtype));
    t.append("  —  ");
    push_stream_id(&mut t, &s.stream_id);
    add_line(&mut r, RenderedLine::plain(status_entry(t.as_str())));
    let mut u: String = String::from_str("loss: ");
    s.loss_pct().push(&mut u, 1);
    u.append("%  |  ");
    push_mbps(&mut u, s.bitrate_bps);
    u.append(" Mbps");
    add_line(&mut r, RenderedLine::plain(status_detail(u.as_str())));
    assert(views(r@) =~= seq![views(r@)[0], views(r@)[1]]);
    add_lines(&mut r, render_reservation(s, msrp, vlans));
    add_lines(&mut r, render_mismatch(s));
    add_lines(&mut r, render_silence(s, now));
    r
}

/// Renders the section on streams: all but AVB's by protocol and key, then AVB's
/// by identifier with their reservations.
#[allow(clippy::too_many_arguments)]
pub fn render_streams(
    streams: &Table<String, StreamStats>,
    tcp_streams: &Table<String, TcpStreamStats>,
    dante_sources: &KeySet<Ipv4Addr>,
    dante_names: &Table<Ipv4Addr, String>,
    avtp_streams: &Table<[u8; 8], AvtpStreamStats>,
    msrp_state: &Table<[u8; 8], MsrpDeclaration>,
    mvrp_vlans: &KeySet<u16>,
    clock_dropout_correlated: bool,
    now: u64,
) -> (r: Vec<RenderedLine>)
    ensures
        views(r@) == listed_streams(
            sorted::<StreamKey>(keys(streams@)),
            streams@,
            tcp_streams@,
            dante_sources@,
            dante_names@,
            clock_dropout_correlated,
            now,
        ) + listed_avtp(
            sorted::<AvtpStreamStats>(values(avtp_streams@)),
            msrp_state@,
            mvrp_vlans@,
            now,
        ),
{
    let order: Vec<StreamKey> = stream_order(streams);
    let ghost all = views(order@);
    let mut r: Vec<RenderedLine> = no_lines();
    let mut i: usize = 0;
    assert(all.take(0) =~= Seq::empty());
    while i < order.len()
        invariant
            all == views(order@),
            i <= order@.len(),
            views(r@) == listed_streams(
                all.take(i as int),
                streams@,
                tcp_streams@,
                dante_sources@,
                dante_names@,
                clock_dropout_correlated,
                now,
            ),
        decreases order@.len() - i,
    {
        assert(all.take(i + 1).drop_last() =~= all.take(i as int));
        assert(all[i as int] == order@[i as int]@);
        match streams.get(&order[i].text) {
            Some(s) => {
                add_lines(
                    &mut r,
                    render_stream(
                        s,
                        tcp_streams,
                        dante_sources,
                        dante_names,
                        clock_dropout_correlated,
                        now,
                    ),
                );
            },
            None => {
                assert(views(r@) + Seq::<LineView>::empty() =~= views(r@));
            },
        }
        i += 1;
    }
    assert(all.take(i as int) =~= all);
    add_lines(&mut r, render_all_avtp(avtp_streams, msrp_state, mvrp_vlans, now));
    r
}

fn render_all_avtp(
    avtp_streams: &Table<[u8; 8], AvtpStreamStats>,
    msrp_state: &Table<[u8; 8], MsrpDeclaration>,
    mvrp_vlans: &KeySet<u16>,
    now: u64,
) -> (r: Vec<RenderedLine>)
    ensures
        views(r@) == listed_avtp(
            sorted::<AvtpStreamStats>(values(avtp_streams@)),
            msrp_state@,
            mvrp_vlans@,
            now,
        ),
{
    let order: Vec<AvtpStreamStats> = values_in_order(avtp_streams);
    let ghost all = views(order@);
    let mut r: Vec<RenderedLine> = no_lines();
    let mut i: usize = 0;
    assert(all.take(0) =~= Seq::empty());
    while i < order.len()
        invariant
            all == views(order@),
            i <= order@.len(),
            views(r@) == listed_avtp(
                all.take(i as int),
                msrp_state@,
                mvrp_vlans@,
                now,
            ),
        decreases order@.len() - i,
    {
        assert(all.take(i + 1).drop_last() =~= all.take(i as int));
        assert(all[i as int] == order@[i as int]@);
        add_lines(&mut r, render_avtp(&order[i], msrp_state, mvrp_vlans, now));
        i += 1;
    }
    assert(all.take(i as int) =~= all);
    r
}

/// The diagnostics of a stream without the loss that the clock explains.
pub open spec fn unexplained(s: StreamView, ds: Seq<StreamDiagnostic>) -> Seq<StreamDiagnostic> {
    ds.filter(|d: StreamDiagnostic| !(clock_kind(s.protocol) is Some && d is PacketLoss))
}

proof fn lemma_hushed(s: StreamView, ds: Seq<StreamDiagnostic>)
    ensures
        diagnostic_lines(s, ds, true) == diagnostic_lines(s, unexplained(s, ds), false),
    decreases ds.len(),
{
    reveal(Seq::filter);
    if ds.len() > 0 {
        lemma_hushed(s, ds.drop_last());
        let rest = unexplained(s, ds.drop_last());
        if clock_kind(s.protocol) is Some && ds.last() is PacketLoss {
            assert(unexplained(s, ds) =~= rest);
            assert(diagnostic_lines(s, ds, true) =~= diagnostic_lines(s, ds.drop_last(), true));
        } else {
            assert(unexplained(s, ds) =~= rest.push(ds.last()));
            assert(rest.push(ds.last()).drop_last() =~= rest);
        }
    }
}

/// Where a lost clock was told of together with lost packets, the section on streams
/// is the plain one without the loss of streams that need a clock: nothing else of a
/// stream is left out, and a stream that needs none, or lost nothing, reads the same.
pub proof fn law_dropout_hides_only_loss(
    s: StreamView,
    flows: Seq<(Seq<char>, TcpStreamStats)>,
    sources: Seq<Ipv4Addr>,
    names: Seq<(Ipv4Addr, Seq<char>)>,
    now: u64,
)
    ensures
        stream_lines(s, flows, sources, names, true, now) == (if is_avb(s) {
            Seq::empty()
        } else {
            heading(s, flows, sources, names) + diagnostic_lines(
                s,
                unexplained(s, diagnosed(s, now)),
                false,
            )
        }),
        clock_kind(s.protocol) is None || s.lost_this_window == 0 ==> stream_lines(
            s,
            flows,
            sources,
            names,
            true,
            now,
        ) == stream_lines(s, flows, sources, names, false, now),
{
    let ds = diagnosed(s, now);
    lemma_hushed(s, ds);
    if s.lost_this_window == 0 {
        law_old_loss_is_forgiven(s, now);
    }
    if clock_kind(s.protocol) is None || s.lost_this_window == 0 {
        lemma_nothing_hushed(s, ds);
    }
}

proof fn lemma_nothing_hushed(s: StreamView, ds: Seq<StreamDiagnostic>)
    requires
        clock_kind(s.protocol) is None || forall|i: int|
            0 <= i < ds.len() ==> !((#[trigger] ds[i]) is PacketLoss),
    ensures
        unexplained(s, ds) == ds,
    decreases ds.len(),
{
    reveal(Seq::filter);
    if ds.len() > 0 {
        assert forall|i: int| clock_kind(s.protocol) is Some && 0 <= i < ds.drop_last().len() implies !((
        #[trigger] ds.drop_last()[i]) is PacketLoss) by {
            assert(ds.drop_last()[i] == ds[i]);
        }
        lemma_nothing_hushed(s, ds.drop_last());
        assert(ds[ds.len() - 1] == ds.last());
        assert(ds.drop_last().push(ds.last()) =~= ds);
    } else {
        assert(unexplained(s, ds) =~= ds);
    }
}

} // verus!
