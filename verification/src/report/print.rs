//! The whole of a report.

use vstd::prelude::*;

use crate::capture::alert::{Alert, AlertView, MissingClock, MissingClockView};
use crate::capture::avb::AvbView;
use crate::capture::checks::{ChecksView, WindowChecks};
use crate::capture::state::{CaptureState, StateView};
use crate::net::Ipv4Addr;
use crate::order::{sorted, views};
use crate::protocols::MsrpDeclaration;
use crate::report::clocks::{clock_section, render_clock_sources};
use crate::report::discovery::{discovery_lines, entities_lines, no_flows, nothing_found, render_avdecc_entities, render_discovery, DiscoveryInputs, DiscoveryView};
use crate::report::line::{alert_out, alerts_out, ansi, emit_alerts, emit_lines, escaped, header_out, law_quiet_lines_are_only_logged, line_out, lines_out, no_output, section_header, warning, Console, LineView, Output, OutputView, RenderedLine};
use crate::report::status::{render_network_status, status_lines, NetworkStatusInputs, StatusView};
use crate::report::streams::{listed_avtp, listed_streams, render_streams, StreamKey};
use crate::scan::{begins, begins_with, chars_of};
use crate::stats::avtp::{AvdeccEntity, AvtpStreamStats, ConmonDevice};
use crate::stats::health::{bullets, penalties, NetworkHealth};
use crate::stats::ptp::{PtpStats, PtpStatsView};
use crate::stats::stream::{StreamStats, StreamView};
use crate::stats::tcp::TcpStreamStats;
use crate::table::{keys, values, KeySet, Table};
use crate::text::{dec, fixed, join, joined, prefixed, push_dec, push_fixed, same, texts};

verus! {

// ── What a report shows ──────────────────────────────────────────────────────

/// The Dante devices that a report shows.
pub struct DanteSnapshot<'a> {
    pub sources: &'a KeySet<Ipv4Addr>,
    pub names: &'a Table<Ipv4Addr, String>,
    pub conmon: &'a Table<Ipv4Addr, ConmonDevice>,
    pub unverified: &'a KeySet<Ipv4Addr>,
}

/// The AVB streams, reservations and entities that a report shows.
pub struct AvbSnapshot<'a> {
    pub avtp_streams: &'a Table<[u8; 8], AvtpStreamStats>,
    pub msrp_state: &'a Table<[u8; 8], MsrpDeclaration>,
    pub mvrp_vlans: &'a KeySet<u16>,
    pub avdecc_entities: &'a Table<[u8; 8], AvdeccEntity>,
}

/// The alerts that belong to sections of a report.
pub struct PeriodicAlerts<'a> {
    pub ip_config: &'a Vec<Alert>,
    pub conmon_bridge: &'a Vec<Alert>,
    pub follower_census: &'a Vec<Alert>,
    pub ptp_sync: &'a Vec<Alert>,
}

/// Everything that a report shows.
pub struct ReportSnapshot<'a> {
    pub streams: &'a Table<String, StreamStats>,
    pub tcp_streams: &'a Table<String, TcpStreamStats>,
    pub ptp_domains: &'a Table<(u8, u8), PtpStats>,
    pub missing_ptp: &'a Vec<MissingClock>,
    pub health: &'a NetworkHealth,
    pub bytes_this_window: u64,
    pub eee_ports: &'a Table<(String, String), (u16, u16)>,
    pub dante: DanteSnapshot<'a>,
    pub avb: AvbSnapshot<'a>,
    pub ndi_sources: &'a KeySet<Ipv4Addr>,
    pub ndi_names: &'a Table<Ipv4Addr, String>,
    pub pause_frames: u64,
    pub pfc_frames: u64,
    /// Packets received, dropped by the kernel and dropped by the interface.
    pub pcap_stats: Option<(u32, u32, u32)>,
    pub packets_dispatched: u64,
    pub periodic_alerts: PeriodicAlerts<'a>,
    pub clock_dropout_correlated: bool,
}

/// What lasts from one report to the next.
#[derive(Debug, Clone, Copy, PartialEq, Eq, Structural)]
pub struct ReportSession {
    pub quiet: bool,
    pub no_flows_diagnostic_shown: bool,
}

/// Everything that a report shows, in specifications.
pub struct SnapshotView {
    pub streams: Seq<(Seq<char>, StreamView)>,
    pub tcp_streams: Seq<(Seq<char>, TcpStreamStats)>,
    pub ptp_domains: Seq<((u8, u8), PtpStatsView)>,
    pub missing_ptp: Seq<MissingClockView>,
    pub health: NetworkHealth,
    pub bytes_this_window: u64,
    pub eee_ports: Seq<((Seq<char>, Seq<char>), (u16, u16))>,
    pub dante_sources: Seq<Ipv4Addr>,
    pub dante_names: Seq<(Ipv4Addr, Seq<char>)>,
    pub dante_conmon: Seq<(Ipv4Addr, ConmonDevice)>,
    pub dante_unverified: Seq<Ipv4Addr>,
    pub avb: AvbView,
    pub ndi_sources: Seq<Ipv4Addr>,
    pub ndi_names: Seq<(Ipv4Addr, Seq<char>)>,
    pub pause_frames: u64,
    pub pfc_frames: u64,
    pub pcap_stats: Option<(u32, u32, u32)>,
    pub packets_dispatched: u64,
    pub ip_config: Seq<AlertView>,
    pub conmon_bridge: Seq<AlertView>,
    pub follower_census: Seq<AlertView>,
    pub ptp_sync: Seq<AlertView>,
    pub clock_dropout_correlated: bool,
}

impl<'a> View for ReportSnapshot<'a> {
    type V = SnapshotView;

    open spec fn view(&self) -> SnapshotView {
        SnapshotView {
            streams: self.streams@,
            tcp_streams: self.tcp_streams@,
            ptp_domains: self.ptp_domains@,
            missing_ptp: views(self.missing_ptp@),
            health: *self.health,
            bytes_this_window: self.bytes_this_window,
            eee_ports: self.eee_ports@,
            dante_sources: self.dante.sources@,
            dante_names: self.dante.names@,
            dante_conmon: self.dante.conmon@,
            dante_unverified: self.dante.unverified@,
            avb: AvbView {
                avtp_streams: self.avb.avtp_streams@,
                msrp_state: self.avb.msrp_state@,
                mvrp_vlans: self.avb.mvrp_vlans@,
                avdecc_entities: self.avb.avdecc_entities@,
            },
            ndi_sources: self.ndi_sources@,
            ndi_names: self.ndi_names@,
            pause_frames: self.pause_frames,
            pfc_frames: self.pfc_frames,
            pcap_stats: self.pcap_stats,
            packets_dispatched: self.packets_dispatched,
            ip_config: views(self.periodic_alerts.ip_config@),
            conmon_bridge: views(self.periodic_alerts.conmon_bridge@),
            follower_census: views(self.periodic_alerts.follower_census@),
            ptp_sync: views(self.periodic_alerts.ptp_sync@),
            clock_dropout_correlated: self.clock_dropout_correlated,
        }
    }
}

/// What a report on a state shows, once its checks were made.
pub open spec fn snapshot(
    v: StateView,
    checks: ChecksView,
    pcap_stats: Option<(u32, u32, u32)>,
) -> SnapshotView {
    SnapshotView {
        streams: v.streams,
        tcp_streams: v.tcp_streams,
        ptp_domains: v.ptp.domains,
        missing_ptp: checks.missing_ptp,
        health: v.network_health,
        bytes_this_window: v.bytes_this_window,
        eee_ports: v.eee_ports,
        dante_sources: v.dante.sources,
        dante_names: v.dante.names,
        dante_conmon: v.dante.conmon,
        dante_unverified: checks.dante_unverified,
        avb: v.avb,
        ndi_sources: v.ndi.sources,
        ndi_names: v.ndi.names,
        pause_frames: v.pause_frames_this_window,
        pfc_frames: v.pfc_frames_this_window,
        pcap_stats,
        packets_dispatched: v.packets_dispatched,
        ip_config: checks.ip_config_alerts,
        conmon_bridge: checks.conmon_bridge_alerts,
        follower_census: checks.follower_census_alerts,
        ptp_sync: checks.ptp_sync_alerts,
        clock_dropout_correlated: v.clock_dropout_correlated,
    }
}

impl<'a> ReportSnapshot<'a> {
    /// What a report on a state shows, once its checks were made.
    pub fn from_state(
        state: &'a CaptureState,
        checks: &'a WindowChecks,
        pcap_stats: Option<(u32, u32, u32)>,
    ) -> (r: Self)
        ensures
            r@ == snapshot(state@, checks@, pcap_stats),
    {
        ReportSnapshot {
            streams: &state.streams,
            tcp_streams: &state.tcp_streams,
            ptp_domains: &state.ptp.domains,
            missing_ptp: &checks.missing_ptp,
            health: &state.network_health,
            bytes_this_window: state.bytes_this_window,
            eee_ports: &state.eee_ports,
            dante: DanteSnapshot {
                sources: &state.dante.sources,
                names: &state.dante.names,
                conmon: &state.dante.conmon,
                unverified: &checks.dante_unverified,
            },
            avb: AvbSnapshot {
                avtp_streams: &state.avb.avtp_streams,
                msrp_state: &state.avb.msrp_state,
                mvrp_vlans: &state.avb.mvrp_vlans,
                avdecc_entities: &state.avb.avdecc_entities,
            },
            ndi_sources: &state.ndi.sources,
            ndi_names: &state.ndi.names,
            pause_frames: state.pause_frames_this_window,
            pfc_frames: state.pfc_frames_this_window,
            pcap_stats,
            packets_dispatched: state.packets_dispatched,
            periodic_alerts: PeriodicAlerts {
                ip_config: &checks.ip_config_alerts,
                conmon_bridge: &checks.conmon_bridge_alerts,
                follower_census: &checks.follower_census_alerts,
                ptp_sync: &checks.ptp_sync_alerts,
            },
            clock_dropout_correlated: state.clock_dropout_correlated,
        }
    }
}

// ── Counts ───────────────────────────────────────────────────────────────────

/// The kinds of streams that are counted apart.
#[derive(Debug, Clone, Copy, PartialEq, Eq, Structural)]
pub enum Group {
    Aes67,
    St2110,
    Dante,
    Ndi,
}

/// Whether a stream is counted with a group.
pub open spec fn in_group(s: StreamView, g: Group) -> bool {
    match g {
        Group::Aes67 => s.protocol == "AES67"@,
        Group::St2110 => begins(s.protocol, "2110-"@),
        Group::Dante => s.protocol == "Dante"@,
        Group::Ndi => s.protocol == "NDI"@,
    }
}

/// How many streams a group has.
pub open spec fn members(t: Seq<(Seq<char>, StreamView)>, g: Group) -> nat
    decreases t.len(),
{
    if t.len() == 0 {
        0
    } else if in_group(t.last().1, g) {
        members(t.drop_last(), g) + 1
    } else {
        members(t.drop_last(), g)
    }
}

/// A count with its label, where there is anything to count.
pub open spec fn part(label: Seq<char>, n: nat) -> Seq<Seq<char>> {
    if n > 0 {
        seq![label + dec(n)]
    } else {
        Seq::empty()
    }
}

/// The counts by protocol.
#[verifier::opaque]
pub open spec fn parts(i: SnapshotView) -> Seq<Seq<char>> {
    part("AES67: "@, members(i.streams, Group::Aes67)) + part(
        "ST2110: "@,
        members(i.streams, Group::St2110),
    ) + part("Dante: "@, members(i.streams, Group::Dante)) + part(
        "NDI: "@,
        members(i.streams, Group::Ndi),
    ) + part("AVB: "@, i.avb.avtp_streams.len()) + part("TCP: "@, i.tcp_streams.len())
}

/// How many streams there are, by protocol.
pub open spec fn counts_text(i: SnapshotView) -> Seq<char> {
    if parts(i).len() == 0 {
        "no streams"@
    } else {
        joined(parts(i), "  |  "@)
    }
}

fn grouped(s: &StreamStats, g: Group) -> (r: bool)
    ensures
        r == in_group(s@, g),
{
    match g {
        Group::Aes67 => same(s.protocol.as_str(), "AES67"),
        Group::St2110 => {
            let c: Vec<char> = chars_of(s.protocol.as_str());
            begins_with(c.as_slice(), "2110-")
        },
        Group::Dante => same(s.protocol.as_str(), "Dante"),
        Group::Ndi => same(s.protocol.as_str(), "NDI"),
    }
}

fn count_group(t: &Table<String, StreamStats>, g: Group) -> (n: usize)
    ensures
        n == members(t@, g),
{
    let mut n: usize = 0;
    let mut i: usize = 0;
    let len: usize = t.len();
    assert(t@.take(0) =~= Seq::empty());
    while i < len
        invariant
            len == t@.len(),
            i <= len,
            n <= i,
            n == members(t@.take(i as int), g),
        decreases len - i,
    {
        assert(t@.take(i + 1).drop_last() =~= t@.take(i as int));
        if grouped(t.value_at(i), g) {
            n += 1;
        }
        i += 1;
    }
    assert(t@.take(i as int) =~= t@);
    n
}

fn add_part(v: &mut Vec<String>, label: &str, n: usize)
    ensures
        texts(final(v)@) == texts(old(v)@) + part(label@, n as nat),
{
    if n > 0 {
        let mut s: String = String::from_str(label);
        push_dec(&mut s, n as u64);
        v.push(s);
    }
    assert(texts(v@) =~= texts(old(v)@) + part(label@, n as nat));
}

fn count_parts(i: &ReportSnapshot) -> (v: Vec<String>)
    ensures
        texts(v@) == parts(i@),
{
    reveal(parts);
    let mut v: Vec<String> = Vec::new();
    assert(texts(v@) =~= Seq::empty());
    add_part(&mut v, "AES67: ", count_group(i.streams, Group::Aes67));
    assert(texts(v@) =~= part("AES67: "@, members(i@.streams, Group::Aes67)));
    add_part(&mut v, "ST2110: ", count_group(i.streams, Group::St2110));
    add_part(&mut v, "Dante: ", count_group(i.streams, Group::Dante));
    add_part(&mut v, "NDI: ", count_group(i.streams, Group::Ndi));
    add_part(&mut v, "AVB: ", i.avb.avtp_streams.len());
    add_part(&mut v, "TCP: ", i.tcp_streams.len());
    v
}

// ── Quiet reports ────────────────────────────────────────────────────────────

/// Whether nothing was dropped on the way to us.
pub open spec fn nothing_dropped(pcap_stats: Option<(u32, u32, u32)>) -> bool {
    match pcap_stats {
        Some((_, dropped, if_dropped)) => dropped == 0 && if_dropped == 0,
        None => true,
    }
}

/// What brings the score down.
pub open spec fn summary(i: SnapshotView, now: u64) -> Seq<Seq<char>> {
    bullets(
        penalties(
            i.health,
            i.streams,
            i.tcp_streams,
            i.ptp_domains,
            i.avb.msrp_state,
            i.eee_ports.len(),
            i.avb.avtp_streams,
            now,
        ),
    )
}

/// Whether there is nothing to tell.
pub open spec fn all_well(i: SnapshotView, now: u64) -> bool {
    &&& summary(i, now).len() == 0
    &&& nothing_dropped(i.pcap_stats)
    &&& i.missing_ptp.len() == 0
    &&& i.ip_config.len() == 0
    &&& i.conmon_bridge.len() == 0
    &&& i.follower_census.len() == 0
    &&& i.ptp_sync.len() == 0
}

/// Whether a quiet report may stay off the terminal: nothing brings the score
/// down, nothing was dropped, no clock is missing and no section has an alert.
pub fn quiet_suppressible(
    health_summary: &[String],
    pcap_stats: Option<(u32, u32, u32)>,
    missing_ptp: &[MissingClock],
    section_alerts: &[&Vec<Alert>],
) -> (r: bool)
    ensures
        r == (health_summary@.len() == 0 && nothing_dropped(pcap_stats) && missing_ptp@.len() == 0
            && forall|i: int|
            0 <= i < section_alerts@.len() ==> (#[trigger] section_alerts@[i])@.len() == 0),
{
    let mut calm: bool = true;
    let mut i: usize = 0;
    while i < section_alerts.len()
        invariant
            i <= section_alerts@.len(),
            calm == forall|j: int|
                0 <= j < i ==> (#[trigger] section_alerts@[j])@.len() == 0,
        decreases section_alerts@.len() - i,
    {
        if section_alerts[i].len() > 0 {
            assert(section_alerts@[i as int]@.len() > 0);
            calm = false;
        }
        i += 1;
    }
    let kept: bool = match pcap_stats {
        Some((_, dropped, if_dropped)) => dropped == 0 && if_dropped == 0,
        None => true,
    };
    health_summary.len() == 0 && kept && missing_ptp.len() == 0 && calm
}

// ── The sections ─────────────────────────────────────────────────────────────

/// The line over and under the title.
pub open spec fn rule() -> Seq<char> {
    "──────────────────────────────────────────────────────────────────"@
}

/// The title with the date and the time.
#[verifier::opaque]
pub open spec fn title_out(c: Console, timestamp: Seq<char>) -> Seq<OutputView> {
    let title = "  AVStreamLens  ·  "@ + timestamp;
    let logged = seq![
        OutputView::Log("\n"@ + rule()),
        OutputView::Log(title),
        OutputView::Log(rule()),
    ];
    if c.stdout {
        logged + seq![
            OutputView::Print("\n"@ + escaped(c.color, "36"@, rule())),
            OutputView::Print(escaped(c.color, "36"@, title)),
            OutputView::Print(escaped(c.color, "36"@, rule())),
        ]
    } else {
        logged
    }
}

/// The score and the counts.
#[verifier::opaque]
pub open spec fn score_out(c: Console, i: SnapshotView) -> Seq<OutputView> {
    let score = fixed(i.health.network_score as nat, 1_000_000, 0) + "%"@;
    let logged = seq![
        OutputView::Log("Network Health — "@ + score + "  |  "@ + counts_text(i)),
    ];
    if c.stdout {
        let header = "\n🔬 Network Health — "@ + score + (if parts(i).len() == 0 {
            Seq::empty()
        } else {
            "  |  "@ + counts_text(i)
        });
        logged + seq![OutputView::Print(escaped(c.color, "36"@, header))]
    } else {
        logged
    }
}

/// What brings the score down, line by line.
pub open spec fn summary_lines(b: Seq<Seq<char>>) -> Seq<LineView> {
    b.map_values(|s: Seq<char>| warning(s))
}

/// What the section on devices shows.
pub open spec fn discovered(i: SnapshotView) -> DiscoveryView {
    DiscoveryView {
        dante_sources: i.dante_sources,
        dante_names: i.dante_names,
        dante_conmon: i.dante_conmon,
        dante_unverified: i.dante_unverified,
        ndi_sources: i.ndi_sources,
        ndi_names: i.ndi_names,
        dante_active: members(i.streams, Group::Dante) as usize,
        ndi_active: members(i.streams, Group::Ndi) as usize,
        streams: i.streams,
    }
}

/// The section on devices.
#[verifier::opaque]
pub open spec fn discovered_out(c: Console, i: SnapshotView, told: bool) -> Seq<OutputView> {
    match discovery_lines(discovered(i), told) {
        Some(l) => header_out(c, "Discovered:"@, "📇 Discovered:"@) + lines_out(c, l)
            + alerts_out(c, i.ip_config) + alerts_out(c, i.conmon_bridge),
        None => Seq::empty(),
    }
}

/// The header of the section on AVDECC's entities.
pub open spec fn entities_label(n: nat) -> Seq<char> {
    "Discovered (AVDECC — "@ + dec(n) + (if n == 1 {
        " entity):"@
    } else {
        " entities):"@
    })
}

/// The section on AVDECC's entities.
#[verifier::opaque]
pub open spec fn entities_out(c: Console, i: SnapshotView) -> Seq<OutputView> {
    let t = i.avb.avdecc_entities;
    if t.len() == 0 {
        Seq::empty()
    } else {
        header_out(c, entities_label(t.len()), "📡 "@ + entities_label(t.len())) + lines_out(
            c,
            entities_lines(sorted::<AvdeccEntity>(values(t))),
        )
    }
}

/// Whether there is anything to say of clocks.
pub open spec fn has_clocks(i: SnapshotView) -> bool {
    i.ptp_domains.len() > 0 || i.missing_ptp.len() > 0 || i.follower_census.len() > 0
        || i.ptp_sync.len() > 0
}

/// The section on clocks.
#[verifier::opaque]
pub open spec fn clocks_out(c: Console, i: SnapshotView) -> Seq<OutputView> {
    if has_clocks(i) {
        header_out(c, "Clock Sources:"@, "🕐 Clock Sources:"@) + (match clock_section(
            i.ptp_domains,
            i.missing_ptp,
            i.dante_names,
            i.clock_dropout_correlated,
        ) {
            Some(l) => lines_out(c, l),
            None => Seq::empty(),
        }) + alerts_out(c, i.follower_census) + alerts_out(c, i.ptp_sync)
    } else {
        Seq::empty()
    }
}

/// The section on streams.
#[verifier::opaque]
pub open spec fn streams_out(c: Console, i: SnapshotView, now: u64) -> Seq<OutputView> {
    header_out(c, "Streams:"@, "📡 Streams:"@) + lines_out(
        c,
        listed_streams(
            sorted::<StreamKey>(keys(i.streams)),
            i.streams,
            i.tcp_streams,
            i.dante_sources,
            i.dante_names,
            i.clock_dropout_correlated,
            now,
        ) + listed_avtp(
            sorted::<AvtpStreamStats>(values(i.avb.avtp_streams)),
            i.avb.msrp_state,
            i.avb.mvrp_vlans,
            now,
        ),
    )
}

/// What the section on the network shows.
pub open spec fn network(i: SnapshotView) -> StatusView {
    StatusView {
        bytes_this_window: i.bytes_this_window,
        streams: i.streams,
        health: i.health,
        pause_frames: i.pause_frames,
        pfc_frames: i.pfc_frames,
        eee_ports: i.eee_ports,
        pcap_stats: i.pcap_stats,
        packets_dispatched: i.packets_dispatched,
    }
}

/// The section on the network.
#[verifier::opaque]
pub open spec fn network_out(c: Console, i: SnapshotView, now: u64) -> Seq<OutputView> {
    header_out(c, "Network Status:"@, "📊 Network Status:"@) + lines_out(
        c,
        status_lines(network(i), now),
    )
}

/// Everything that a report puts out on a console.
pub open spec fn report_out(
    c: Console,
    i: SnapshotView,
    told: bool,
    timestamp: Seq<char>,
    now: u64,
) -> Seq<OutputView> {
    seq![OutputView::Log(timestamp + " | AVStreamLens report"@)] + title_out(c, timestamp)
        + score_out(c, i) + lines_out(c, summary_lines(summary(i, now))) + discovered_out(c, i, told)
        + entities_out(c, i) + clocks_out(c, i) + streams_out(c, i, now) + network_out(c, i, now)
        + seq![OutputView::Log(""@)]
}

/// The console that a report goes to: a quiet report with nothing to tell stays
/// off the terminal.
pub open spec fn console_for(c: Console, i: SnapshotView, quiet: bool, now: u64) -> Console {
    Console { stdout: !(quiet && all_well(i, now)), ..c }
}

fn emit_title(out: &mut Vec<Output>, c: &Console, timestamp: &str)
    ensures
        views(final(out)@) == views(old(out)@) + title_out(*c, timestamp@),
{
    reveal(title_out);
    let title: String = prefixed("  AVStreamLens  ·  ", timestamp);
    let line: String = String::from_str(
        "──────────────────────────────────────────────────────────────────",
    );
    let printed: String = ansi(c.color, "36", line.as_str());
    out.push(Output::Log(prefixed("\n", line.as_str())));
    out.push(Output::Log(title.clone()));
    out.push(Output::Log(line));
    if c.stdout {
        out.push(Output::Print(prefixed("\n", printed.as_str())));
        out.push(Output::Print(ansi(c.color, "36", title.as_str())));
        out.push(Output::Print(printed));
    }
    assert(views(out@) =~= views(old(out)@) + title_out(*c, timestamp@));
}

fn emit_score(out: &mut Vec<Output>, c: &Console, i: &ReportSnapshot)
    ensures
        views(final(out)@) == views(old(out)@) + score_out(*c, i@),
{
    reveal(score_out);
    let found: Vec<String> = count_parts(i);
    let counts: String = if found.len() == 0 {
        String::from_str("no streams")
    } else {
        join(&found, "  |  ")
    };
    let mut score: String = String::new();
    push_fixed(&mut score, i.health.network_score as u128, 1_000_000, 0);
    assert(score@ =~= fixed(i@.health.network_score as nat, 1_000_000, 0));
    score.append("%");
    let mut logged: String = prefixed("Network Health — ", score.as_str());
    logged.append("  |  ");
    logged.append(counts.as_str());
    out.push(Output::Log(logged));
    if c.stdout {
        let mut header: String = prefixed("\n🔬 Network Health — ", score.as_str());
        let ghost front = header@;
        if found.len() > 0 {
            header.append("  |  ");
            header.append(counts.as_str());
        }
        assert(header@ =~= front + (if parts(i@).len() == 0 {
            Seq::empty()
        } else {
            "  |  "@ + counts_text(i@)
        }));
        out.push(Output::Print(ansi(c.color, "36", header.as_str())));
    }
    assert(views(out@) =~= views(old(out)@) + score_out(*c, i@));
}

fn emit_summary(out: &mut Vec<Output>, c: &Console, b: &Vec<String>)
    ensures
        views(final(out)@) == views(old(out)@) + lines_out(*c, summary_lines(texts(b@))),
{
    let mut l: Vec<RenderedLine> = Vec::new();
    let mut i: usize = 0;
    while i < b.len()
        invariant
            i <= b@.len(),
            l@.len() == i,
            forall|j: int| 0 <= j < i ==> (#[trigger] l@[j])@ == warning(b@[j]@),
        decreases b@.len() - i,
    {
        l.push(RenderedLine::colored("33", b[i].clone()));
        i += 1;
    }
    assert(views(l@) =~= summary_lines(texts(b@)));
    emit_lines(out, c, &l);
}

fn emit_discovered(
    out: &mut Vec<Output>,
    c: &Console,
    i: &ReportSnapshot,
    told: &mut bool,
)
    requires
        i@.dante_unverified.len() <= i@.dante_sources.len(),
    ensures
        views(final(out)@) == views(old(out)@) + discovered_out(*c, i@, *old(told)),
        *final(told) == (*old(told) || (!nothing_found(discovered(i@)) && no_flows(discovered(i@)))),
{
    reveal(discovered_out);
    let inputs: DiscoveryInputs = DiscoveryInputs {
        dante_sources: i.dante.sources,
        dante_names: i.dante.names,
        dante_conmon: i.dante.conmon,
        dante_unverified: i.dante.unverified,
        ndi_sources: i.ndi_sources,
        ndi_names: i.ndi_names,
        dante_active: count_group(i.streams, Group::Dante),
        ndi_active: count_group(i.streams, Group::Ndi),
        streams: i.streams,
    };
    assert(inputs@ == discovered(i@));
    if let Some(l) = render_discovery(&inputs, told) {
        section_header(out, c, "Discovered:", "📇 Discovered:");
        emit_lines(out, c, &l);
        emit_alerts(out, c, i.periodic_alerts.ip_config);
        emit_alerts(out, c, i.periodic_alerts.conmon_bridge);
    }
    assert(views(out@) =~= views(old(out)@) + discovered_out(*c, i@, *old(told)));
}

fn emit_entities(out: &mut Vec<Output>, c: &Console, i: &ReportSnapshot)
    ensures
        views(final(out)@) == views(old(out)@) + entities_out(*c, i@),
{
    reveal(entities_out);
    let n: usize = i.avb.avdecc_entities.len();
    if n > 0 {
        let mut label: String = String::from_str("Discovered (AVDECC — ");
        push_dec(&mut label, n as u64);
        if n == 1 {
            label.append(" entity):");
        } else {
            label.append(" entities):");
        }
        let decorated: String = prefixed("📡 ", label.as_str());
        section_header(out, c, label.as_str(), decorated.as_str());
        emit_lines(out, c, &render_avdecc_entities(i.avb.avdecc_entities));
    }
    assert(views(out@) =~= views(old(out)@) + entities_out(*c, i@));
}

fn emit_clocks(out: &mut Vec<Output>, c: &Console, i: &ReportSnapshot)
    ensures
        views(final(out)@) == views(old(out)@) + clocks_out(*c, i@),
{
    reveal(clocks_out);
    if i.ptp_domains.len() > 0 || i.missing_ptp.len() > 0
        || i.periodic_alerts.follower_census.len() > 0 || i.periodic_alerts.ptp_sync.len() > 0 {
        section_header(out, c, "Clock Sources:", "🕐 Clock Sources:");
        if let Some(l) = render_clock_sources(
            i.ptp_domains,
            i.missing_ptp,
            i.dante.names,
            i.clock_dropout_correlated,
        ) {
            emit_lines(out, c, &l);
        }
        emit_alerts(out, c, i.periodic_alerts.follower_census);
        emit_alerts(out, c, i.periodic_alerts.ptp_sync);
    }
    assert(views(out@) =~= views(old(out)@) + clocks_out(*c, i@));
}

fn emit_streams(out: &mut Vec<Output>, c: &Console, i: &ReportSnapshot, now: u64)
    ensures
        views(final(out)@) == views(old(out)@) + streams_out(*c, i@, now),
{
    reveal(streams_out);
    section_header(out, c, "Streams:", "📡 Streams:");
    emit_lines(
        out,
        c,
        &render_streams(
            i.streams,
            i.tcp_streams,
            i.dante.sources,
            i.dante.names,
            i.avb.avtp_streams,
            i.avb.msrp_state,
            i.avb.mvrp_vlans,
            i.clock_dropout_correlated,
            now,
        ),
    );
    assert(views(out@) =~= views(old(out)@) + streams_out(*c, i@, now));
}

fn emit_network(out: &mut Vec<Output>, c: &Console, i: &ReportSnapshot, now: u64)
    ensures
        views(final(out)@) == views(old(out)@) + network_out(*c, i@, now),
{
    reveal(network_out);
    section_header(out, c, "Network Status:", "📊 Network Status:");
    let inputs: NetworkStatusInputs = NetworkStatusInputs {
        bytes_this_window: i.bytes_this_window,
        streams: i.streams,
        health: i.health,
        pause_frames: i.pause_frames,
        pfc_frames: i.pfc_frames,
        eee_ports: i.eee_ports,
        pcap_stats: i.pcap_stats,
        packets_dispatched: i.packets_dispatched,
    };
    assert(inputs@ == network(i@));
    emit_lines(out, c, &render_network_status(&inputs, now));
    assert(views(out@) =~= views(old(out)@) + network_out(*c, i@, now));
}

/// Lays out a report: its title, the score with what brings it down, the devices,
/// the entities, the clocks, the streams and the network.
///
/// The log gets all of it. A quiet report with nothing to tell stays off the
/// terminal; afterwards the console shows again what comes next.
pub fn print_report(
    snap: &ReportSnapshot,
    session: &mut ReportSession,
    console: &mut Console,
    timestamp: &str,
    now: u64,
) -> (out: Vec<Output>)
    requires
        snap@.dante_unverified.len() <= snap@.dante_sources.len(),
    ensures
        views(out@) == report_out(
            console_for(*old(console), snap@, old(session).quiet, now),
            snap@,
            old(session).no_flows_diagnostic_shown,
            timestamp@,
            now,
        ),
        *final(session) == (ReportSession {
            no_flows_diagnostic_shown: old(session).no_flows_diagnostic_shown || (!nothing_found(
                discovered(snap@),
            ) && no_flows(discovered(snap@))),
            ..*old(session)
        }),
        *final(console) == (Console { stdout: true, ..*old(console) }),
{
    let ghost told = session.no_flows_diagnostic_shown;
    let health_summary: Vec<String> = snap.health.build_health_summary(
        snap.streams,
        snap.tcp_streams,
        snap.ptp_domains,
        snap.avb.msrp_state,
        snap.eee_ports,
        snap.avb.avtp_streams,
        now,
    );
    assert(texts(health_summary@) == summary(snap@, now));
    let alerts: [&Vec<Alert>; 4] = [
        snap.periodic_alerts.ip_config,
        snap.periodic_alerts.conmon_bridge,
        snap.periodic_alerts.follower_census,
        snap.periodic_alerts.ptp_sync,
    ];
    let calm: bool = quiet_suppressible(
        health_summary.as_slice(),
        snap.pcap_stats,
        snap.missing_ptp.as_slice(),
        alerts.as_slice(),
    );
    proof {
        let a = alerts@;
        assert(a[0]@.len() == snap@.ip_config.len());
        assert(a[1]@.len() == snap@.conmon_bridge.len());
        assert(a[2]@.len() == snap@.follower_census.len());
        assert(a[3]@.len() == snap@.ptp_sync.len());
        assert(calm == all_well(snap@, now));
    }
    console.set_stdout_enabled(!(session.quiet && calm));
    let ghost c = *console;
    assert(c == console_for(*old(console), snap@, old(session).quiet, now));
    let mut out: Vec<Output> = no_output();
    let mut header: String = String::from_str(timestamp);
    header.append(" | AVStreamLens report");
    out.push(Output::Log(header));
    assert(views(out@) =~= seq![OutputView::Log(timestamp@ + " | AVStreamLens report"@)]);
    emit_title(&mut out, console, timestamp);
    emit_score(&mut out, console, snap);
    emit_summary(&mut out, console, &health_summary);
    emit_discovered(&mut out, console, snap, &mut session.no_flows_diagnostic_shown);
    emit_entities(&mut out, console, snap);
    emit_clocks(&mut out, console, snap);
    emit_streams(&mut out, console, snap, now);
    emit_network(&mut out, console, snap, now);
    let ghost before = views(out@);
    out.push(Output::Log(String::from_str("")));
    assert(views(out@) =~= before + seq![OutputView::Log(""@)]);
    console.set_stdout_enabled(true);
    out
}

// ── Laws ─────────────────────────────────────────────────────────────────────

/// What of an output goes to the log.
pub open spec fn logged(o: Seq<OutputView>) -> Seq<Seq<char>>
    decreases o.len(),
{
    if o.len() == 0 {
        Seq::empty()
    } else {
        logged(o.drop_last()) + (match o.last() {
            OutputView::Log(s) => seq![s],
            OutputView::Print(_) => Seq::empty(),
        })
    }
}

/// Whether nothing of an output goes to the terminal.
pub open spec fn silent(o: Seq<OutputView>) -> bool {
    forall|i: int| 0 <= i < o.len() ==> (#[trigger] o[i]) is Log
}

proof fn lemma_logged_add(a: Seq<OutputView>, b: Seq<OutputView>)
    ensures
        logged(a + b) == logged(a) + logged(b),
    decreases b.len(),
{
    if b.len() == 0 {
        assert(a + b =~= a);
        assert(logged(a) + logged(b) =~= logged(a));
    } else {
        lemma_logged_add(a, b.drop_last());
        assert((a + b).drop_last() =~= a + b.drop_last());
        assert((a + b).last() == b.last());
        assert(logged(a + b) =~= logged(a) + logged(b));
    }
}

proof fn lemma_logged_one(s: Seq<char>)
    ensures
        logged(seq![OutputView::Log(s)]) == seq![s],
{
    let o = seq![OutputView::Log(s)];
    assert(o.drop_last() =~= Seq::empty());
    assert(logged(o.drop_last()) + seq![s] =~= seq![s]);
}

proof fn lemma_logged_none(s: Seq<char>)
    ensures
        logged(seq![OutputView::Print(s)]) == Seq::<Seq<char>>::empty(),
{
    let o = seq![OutputView::Print(s)];
    assert(o.drop_last() =~= Seq::empty());
    assert(logged(o.drop_last()) + Seq::empty() =~= Seq::<Seq<char>>::empty());
}

/// Printed lines after logged ones leave the log as it is.
proof fn lemma_logged_front(a: Seq<OutputView>, b: Seq<OutputView>)
    requires
        forall|i: int| 0 <= i < b.len() ==> (#[trigger] b[i]) is Print,
    ensures
        logged(a + b) == logged(a),
    decreases b.len(),
{
    if b.len() == 0 {
        assert(a + b =~= a);
    } else {
        let short = b.drop_last();
        assert forall|i: int| 0 <= i < short.len() implies (#[trigger] short[i]) is Print by {
            assert(short[i] == b[i]);
        }
        lemma_logged_front(a, short);
        assert((a + b).drop_last() =~= a + short);
        assert((a + b).last() == b.last());
        assert(b[b.len() - 1] is Print);
        assert(logged(a + b) =~= logged(a + short));
    }
}

proof fn lemma_line_logged(c: Console, d: Console, l: LineView)
    ensures
        logged(line_out(c, l)) == logged(line_out(d, l)),
{
    let one = seq![OutputView::Log(l.text)];
    assert(line_out(c, l) =~= one + line_out(c, l).skip(1));
    assert(line_out(d, l) =~= one + line_out(d, l).skip(1));
    lemma_logged_front(one, line_out(c, l).skip(1));
    lemma_logged_front(one, line_out(d, l).skip(1));
}

proof fn lemma_lines_logged(c: Console, d: Console, l: Seq<LineView>)
    ensures
        logged(lines_out(c, l)) == logged(lines_out(d, l)),
    decreases l.len(),
{
    if l.len() > 0 {
        lemma_lines_logged(c, d, l.drop_last());
        lemma_line_logged(c, d, l.last());
        lemma_logged_add(lines_out(c, l.drop_last()), line_out(c, l.last()));
        lemma_logged_add(lines_out(d, l.drop_last()), line_out(d, l.last()));
    }
}

proof fn lemma_header_logged(c: Console, d: Console, label: Seq<char>, decorated: Seq<char>)
    ensures
        logged(header_out(c, label, decorated)) == logged(header_out(d, label, decorated)),
{
    let one = seq![OutputView::Log("\n"@ + label)];
    let x = header_out(c, label, decorated);
    let y = header_out(d, label, decorated);
    assert(x =~= one + x.skip(1));
    assert(y =~= one + y.skip(1));
    lemma_logged_front(one, x.skip(1));
    lemma_logged_front(one, y.skip(1));
}

proof fn lemma_alerts_logged(c: Console, d: Console, a: Seq<AlertView>)
    ensures
        logged(alerts_out(c, a)) == logged(alerts_out(d, a)),
    decreases a.len(),
{
    if a.len() > 0 {
        lemma_alerts_logged(c, d, a.drop_last());
        let x = alert_out(c, a.last());
        let y = alert_out(d, a.last());
        lemma_logged_add(alerts_out(c, a.drop_last()), x);
        lemma_logged_add(alerts_out(d, a.drop_last()), y);
        let tail = seq![OutputView::Log(a.last().message)];
        assert(x =~= x.take(1) + tail);
        assert(y =~= y.take(1) + tail);
        lemma_logged_add(x.take(1), tail);
        lemma_logged_add(y.take(1), tail);
        assert(x.take(1) =~= seq![x[0]]);
        assert(y.take(1) =~= seq![y[0]]);
        lemma_logged_none(x[0]->Print_0);
        lemma_logged_none(y[0]->Print_0);
    }
}

proof fn lemma_top_logged(c: Console, d: Console, i: SnapshotView, timestamp: Seq<char>)
    ensures
        logged(title_out(c, timestamp)) == logged(title_out(d, timestamp)),
        logged(score_out(c, i)) == logged(score_out(d, i)),
{
    reveal(title_out);
    reveal(score_out);
    let x = title_out(c, timestamp);
    let y = title_out(d, timestamp);
    assert(x =~= x.take(3) + x.skip(3));
    assert(y =~= y.take(3) + y.skip(3));
    assert(x.take(3) =~= y.take(3));
    lemma_logged_front(x.take(3), x.skip(3));
    lemma_logged_front(y.take(3), y.skip(3));
    let p = score_out(c, i);
    let q = score_out(d, i);
    assert(p =~= p.take(1) + p.skip(1));
    assert(q =~= q.take(1) + q.skip(1));
    assert(p.take(1) =~= q.take(1));
    lemma_logged_front(p.take(1), p.skip(1));
    lemma_logged_front(q.take(1), q.skip(1));
}

proof fn lemma_found_logged(c: Console, d: Console, i: SnapshotView, told: bool)
    ensures
        logged(discovered_out(c, i, told)) == logged(discovered_out(d, i, told)),
        logged(entities_out(c, i)) == logged(entities_out(d, i)),
{
    reveal(discovered_out);
    reveal(entities_out);
    if let Some(l) = discovery_lines(discovered(i), told) {
        let label = "Discovered:"@;
        let decorated = "📇 Discovered:"@;
        lemma_header_logged(c, d, label, decorated);
        lemma_lines_logged(c, d, l);
        lemma_alerts_logged(c, d, i.ip_config);
        lemma_alerts_logged(c, d, i.conmon_bridge);
        lemma_four(
            header_out(c, label, decorated),
            lines_out(c, l),
            alerts_out(c, i.ip_config),
            alerts_out(c, i.conmon_bridge),
        );
        lemma_four(
            header_out(d, label, decorated),
            lines_out(d, l),
            alerts_out(d, i.ip_config),
            alerts_out(d, i.conmon_bridge),
        );
    }
    let t = i.avb.avdecc_entities;
    if t.len() > 0 {
        let label = entities_label(t.len());
        let l = entities_lines(sorted::<AvdeccEntity>(values(t)));
        lemma_header_logged(c, d, label, "📡 "@ + label);
        lemma_lines_logged(c, d, l);
        lemma_logged_add(header_out(c, label, "📡 "@ + label), lines_out(c, l));
        lemma_logged_add(header_out(d, label, "📡 "@ + label), lines_out(d, l));
    }
}

proof fn lemma_four(
    a: Seq<OutputView>,
    b: Seq<OutputView>,
    x: Seq<OutputView>,
    y: Seq<OutputView>,
)
    ensures
        logged(a + b + x + y) == logged(a) + logged(b) + logged(x) + logged(y),
{
    lemma_logged_add(a, b);
    lemma_logged_add(a + b, x);
    lemma_logged_add(a + b + x, y);
}

proof fn lemma_clocks_logged(c: Console, d: Console, i: SnapshotView)
    ensures
        logged(clocks_out(c, i)) == logged(clocks_out(d, i)),
{
    reveal(clocks_out);
    if has_clocks(i) {
        let label = "Clock Sources:"@;
        let decorated = "🕐 Clock Sources:"@;
        let l = clock_section(
            i.ptp_domains,
            i.missing_ptp,
            i.dante_names,
            i.clock_dropout_correlated,
        );
        let x = match l {
            Some(v) => lines_out(c, v),
            None => Seq::empty(),
        };
        let y = match l {
            Some(v) => lines_out(d, v),
            None => Seq::empty(),
        };
        if let Some(v) = l {
            lemma_lines_logged(c, d, v);
        }
        lemma_header_logged(c, d, label, decorated);
        lemma_alerts_logged(c, d, i.follower_census);
        lemma_alerts_logged(c, d, i.ptp_sync);
        lemma_four(
            header_out(c, label, decorated),
            x,
            alerts_out(c, i.follower_census),
            alerts_out(c, i.ptp_sync),
        );
        lemma_four(
            header_out(d, label, decorated),
            y,
            alerts_out(d, i.follower_census),
            alerts_out(d, i.ptp_sync),
        );
    }
}

proof fn lemma_rest_logged(c: Console, d: Console, i: SnapshotView, now: u64)
    ensures
        logged(streams_out(c, i, now)) == logged(streams_out(d, i, now)),
        logged(network_out(c, i, now)) == logged(network_out(d, i, now)),
{
    reveal(streams_out);
    reveal(network_out);
    let l = listed_streams(
        sorted::<StreamKey>(keys(i.streams)),
        i.streams,
        i.tcp_streams,
        i.dante_sources,
        i.dante_names,
        i.clock_dropout_correlated,
        now,
    ) + listed_avtp(
        sorted::<AvtpStreamStats>(values(i.avb.avtp_streams)),
        i.avb.msrp_state,
        i.avb.mvrp_vlans,
        now,
    );
    lemma_header_logged(c, d, "Streams:"@, "📡 Streams:"@);
    lemma_lines_logged(c, d, l);
    lemma_logged_add(header_out(c, "Streams:"@, "📡 Streams:"@), lines_out(c, l));
    lemma_logged_add(header_out(d, "Streams:"@, "📡 Streams:"@), lines_out(d, l));
    let m = status_lines(network(i), now);
    lemma_header_logged(c, d, "Network Status:"@, "📊 Network Status:"@);
    lemma_lines_logged(c, d, m);
    lemma_logged_add(header_out(c, "Network Status:"@, "📊 Network Status:"@), lines_out(c, m));
    lemma_logged_add(header_out(d, "Network Status:"@, "📊 Network Status:"@), lines_out(d, m));
}

proof fn lemma_report_logged(
    c: Console,
    i: SnapshotView,
    told: bool,
    timestamp: Seq<char>,
    now: u64,
)
    ensures
        logged(report_out(c, i, told, timestamp, now)) == seq![
            timestamp + " | AVStreamLens report"@,
        ] + logged(title_out(c, timestamp)) + logged(score_out(c, i)) + logged(
            lines_out(c, summary_lines(summary(i, now))),
        ) + logged(discovered_out(c, i, told)) + logged(entities_out(c, i)) + logged(
            clocks_out(c, i),
        ) + logged(streams_out(c, i, now)) + logged(network_out(c, i, now)) + seq![""@],
{
    let p0 = seq![OutputView::Log(timestamp + " | AVStreamLens report"@)];
    let p1 = p0 + title_out(c, timestamp);
    let p2 = p1 + score_out(c, i);
    let p3 = p2 + lines_out(c, summary_lines(summary(i, now)));
    let p4 = p3 + discovered_out(c, i, told);
    let p5 = p4 + entities_out(c, i);
    let p6 = p5 + clocks_out(c, i);
    let p7 = p6 + streams_out(c, i, now);
    let p8 = p7 + network_out(c, i, now);
    lemma_logged_one(timestamp + " | AVStreamLens report"@);
    lemma_logged_one(""@);
    lemma_logged_add(p0, title_out(c, timestamp));
    lemma_logged_add(p1, score_out(c, i));
    lemma_logged_add(p2, lines_out(c, summary_lines(summary(i, now))));
    lemma_logged_add(p3, discovered_out(c, i, told));
    lemma_logged_add(p4, entities_out(c, i));
    lemma_logged_add(p5, clocks_out(c, i));
    lemma_logged_add(p6, streams_out(c, i, now));
    lemma_logged_add(p7, network_out(c, i, now));
    lemma_logged_add(p8, seq![OutputView::Log(""@)]);
}

/// The log gets the same report whatever the console: neither quietness nor
/// colour changes a line of it.
pub proof fn law_log_gets_every_report(
    c: Console,
    d: Console,
    i: SnapshotView,
    told: bool,
    timestamp: Seq<char>,
    now: u64,
)
    ensures
        logged(report_out(c, i, told, timestamp, now)) == logged(
            report_out(d, i, told, timestamp, now),
        ),
{
    lemma_report_logged(c, i, told, timestamp, now);
    lemma_report_logged(d, i, told, timestamp, now);
    lemma_top_logged(c, d, i, timestamp);
    lemma_lines_logged(c, d, summary_lines(summary(i, now)));
    lemma_found_logged(c, d, i, told);
    lemma_clocks_logged(c, d, i);
    lemma_rest_logged(c, d, i, now);
}

proof fn lemma_silent_add(a: Seq<OutputView>, b: Seq<OutputView>)
    requires
        silent(a),
        silent(b),
    ensures
        silent(a + b),
{
    assert forall|i: int| 0 <= i < (a + b).len() implies (#[trigger] (a + b)[i]) is Log by {
        if i < a.len() {
            assert((a + b)[i] == a[i]);
        } else {
            assert((a + b)[i] == b[i - a.len()]);
        }
    }
}

/// A quiet report with nothing to tell puts nothing on the terminal.
pub proof fn law_quiet_report_is_silent(
    c: Console,
    i: SnapshotView,
    told: bool,
    timestamp: Seq<char>,
    now: u64,
)
    requires
        all_well(i, now),
    ensures
        silent(report_out(console_for(c, i, true, now), i, told, timestamp, now)),
{
    let q = console_for(c, i, true, now);
    assert(q == Console { color: c.color, stdout: false });
    reveal(title_out);
    reveal(score_out);
    reveal(discovered_out);
    reveal(entities_out);
    reveal(clocks_out);
    reveal(streams_out);
    reveal(network_out);
    let none = Seq::<OutputView>::empty();
    assert(alerts_out(q, i.ip_config) =~= none);
    assert(alerts_out(q, i.conmon_bridge) =~= none);
    assert(alerts_out(q, i.follower_census) =~= none);
    assert(alerts_out(q, i.ptp_sync) =~= none);
    lemma_section_silent(q, summary_lines(summary(i, now)));
    if let Some(l) = discovery_lines(discovered(i), told) {
        lemma_section_silent(q, l);
        lemma_silent_add(header_out(q, "Discovered:"@, "📇 Discovered:"@), lines_out(q, l));
        assert(discovered_out(q, i, told) =~= header_out(q, "Discovered:"@, "📇 Discovered:"@)
            + lines_out(q, l));
    }
    assert(silent(discovered_out(q, i, told)));
    let t = i.avb.avdecc_entities;
    let es = entities_lines(sorted::<AvdeccEntity>(values(t)));
    lemma_section_silent(q, es);
    lemma_silent_add(
        header_out(q, entities_label(t.len()), "📡 "@ + entities_label(t.len())),
        lines_out(q, es),
    );
    assert(silent(entities_out(q, i)));
    let cl = clock_section(i.ptp_domains, i.missing_ptp, i.dante_names, i.clock_dropout_correlated);
    if has_clocks(i) {
        let h = header_out(q, "Clock Sources:"@, "🕐 Clock Sources:"@);
        if let Some(l) = cl {
            lemma_section_silent(q, l);
            lemma_silent_add(h, lines_out(q, l));
            assert(clocks_out(q, i) =~= h + lines_out(q, l));
        } else {
            assert(clocks_out(q, i) =~= h);
        }
    }
    assert(silent(clocks_out(q, i)));
    let l = listed_streams(
        sorted::<StreamKey>(keys(i.streams)),
        i.streams,
        i.tcp_streams,
        i.dante_sources,
        i.dante_names,
        i.clock_dropout_correlated,
        now,
    ) + listed_avtp(
        sorted::<AvtpStreamStats>(values(i.avb.avtp_streams)),
        i.avb.msrp_state,
        i.avb.mvrp_vlans,
        now,
    );
    lemma_section_silent(q, l);
    lemma_silent_add(header_out(q, "Streams:"@, "📡 Streams:"@), lines_out(q, l));
    let m = status_lines(network(i), now);
    lemma_section_silent(q, m);
    lemma_silent_add(header_out(q, "Network Status:"@, "📊 Network Status:"@), lines_out(q, m));
    let p0 = seq![OutputView::Log(timestamp + " | AVStreamLens report"@)];
    let p1 = p0 + title_out(q, timestamp);
    let p2 = p1 + score_out(q, i);
    let p3 = p2 + lines_out(q, summary_lines(summary(i, now)));
    let p4 = p3 + discovered_out(q, i, told);
    let p5 = p4 + entities_out(q, i);
    let p6 = p5 + clocks_out(q, i);
    let p7 = p6 + streams_out(q, i, now);
    let p8 = p7 + network_out(q, i, now);
    lemma_silent_add(p0, title_out(q, timestamp));
    lemma_silent_add(p1, score_out(q, i));
    lemma_silent_add(p2, lines_out(q, summary_lines(summary(i, now))));
    lemma_silent_add(p3, discovered_out(q, i, told));
    lemma_silent_add(p4, entities_out(q, i));
    lemma_silent_add(p5, clocks_out(q, i));
    lemma_silent_add(p6, streams_out(q, i, now));
    lemma_silent_add(p7, network_out(q, i, now));
    lemma_silent_add(p8, seq![OutputView::Log(""@)]);
}

proof fn lemma_section_silent(c: Console, l: Seq<LineView>)
    requires
        !c.stdout,
    ensures
        silent(lines_out(c, l)),
{
    law_quiet_lines_are_only_logged(c.color, l);
    assert(c == Console { color: c.color, stdout: false });
}

/// A report with anything to tell reads the same whether quiet or not.
pub proof fn law_quiet_hides_no_trouble(
    c: Console,
    i: SnapshotView,
    told: bool,
    timestamp: Seq<char>,
    now: u64,
)
    requires
        !all_well(i, now),
    ensures
        report_out(console_for(c, i, true, now), i, told, timestamp, now) == report_out(
            console_for(c, i, false, now),
            i,
            told,
            timestamp,
            now,
        ),
{
}

} // verus!
