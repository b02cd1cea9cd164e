//! The section on clocks.

use vstd::prelude::*;

use crate::capture::alert::{MissingClock, MissingClockKind, MissingClockView};
use crate::capture::handlers::{ip_note, push_ip_note};
use crate::net::Ipv4Addr;
use crate::order::views;
use crate::protocols::PTP_VERSION_V1;
use crate::report::line::{add_line, add_line_if, add_lines, detail, entry, failure, line_if, microseconds, no_lines, plain, push_microseconds, status_detail, status_entry, warning, LineView, RenderedLine};
use crate::stats::ptp::{gptp, hops, or_else, path_delay_hop_estimate, path_delay_spread_unstable, path_delay_too_many_hops, PtpStats, PtpStatsView};
use crate::table::{lookup, Table};
use crate::text::{dec, join, joined, push_dec, push_signed, signed_dec, texts};

verus! {

// ── Missing clocks ───────────────────────────────────────────────────────────

/// The clock that is missing.
pub open spec fn kind_name(k: MissingClockKind) -> Seq<char> {
    match k {
        MissingClockKind::Ptpv2 => "PTPv2"@,
        MissingClockKind::Ptp => "PTPv1 or PTPv2"@,
        MissingClockKind::Gptp => "L2 gPTP"@,
    }
}

/// A list in words.
pub open spec fn listed(v: Seq<Seq<char>>) -> Seq<char> {
    if v.len() == 0 {
        "(none)"@
    } else if v.len() == 1 {
        v[0]
    } else if v.len() == 2 {
        v[0] + " and "@ + v[1]
    } else {
        joined(v.drop_last(), ", "@) + ", and "@ + v.last()
    }
}

/// The line on a missing clock.
pub open spec fn missing_text(m: MissingClockView) -> Seq<char> {
    "⚠  No "@ + kind_name(m.kind) + " clock — "@ + listed(m.affected) + " streams may lose sync"@
}

fn list_of(v: &Vec<String>) -> (s: String)
    ensures
        s@ == listed(texts(v@)),
{
    let n: usize = v.len();
    if n == 0 {
        String::from_str("(none)")
    } else if n == 1 {
        v[0].clone()
    } else if n == 2 {
        let mut s: String = v[0].clone();
        s.append(" and ");
        s.append(v[1].as_str());
        s
    } else {
        let mut front: Vec<String> = Vec::new();
        let mut i: usize = 0;
        while i + 1 < n
            invariant
                n == v@.len(),
                n >= 3,
                i < n,
                front@.len() == i,
                forall|j: int| 0 <= j < i ==> (#[trigger] front@[j])@ == v@[j]@,
            decreases n - i,
        {
            front.push(v[i].clone());
            i += 1;
        }
        assert(texts(front@) =~= texts(v@).drop_last());
        let mut s: String = join(&front, ", ");
        s.append(", and ");
        s.append(v[n - 1].as_str());
        s
    }
}

/// Words a missing clock.
pub fn format_missing_clock(mc: &MissingClock) -> (s: String)
    ensures
        s@ == missing_text(mc@),
{
    let mut s: String = String::from_str("⚠  No ");
    match mc.kind {
        MissingClockKind::Ptpv2 => {
            s.append("PTPv2");
        },
        MissingClockKind::Ptp => {
            s.append("PTPv1 or PTPv2");
        },
        MissingClockKind::Gptp => {
            s.append("L2 gPTP");
        },
    }
    s.append(" clock — ");
    s.append(list_of(&mc.affected).as_str());
    s.append(" streams may lose sync");
    s
}

// ── One domain ───────────────────────────────────────────────────────────────

/// The label of a domain.
pub open spec fn domain_label(d: PtpStatsView, number: u8, several: bool) -> Seq<char> {
    (match d.protocol_kind {
        Some(k) => k,
        None => "PTP"@,
    }) + (if several || number > 0 {
        "  (domain "@ + dec(number as nat) + ")"@
    } else {
        Seq::empty()
    })
}

/// Where the grandmaster is.
pub open spec fn grandmaster_ip(d: PtpStatsView) -> Option<Ipv4Addr> {
    or_else(d.grandmaster_src_ip, d.last_src_ip)
}

/// The grandmaster by its name, or by its identity. Version 1 has no identity
/// worth showing.
pub open spec fn grandmaster_text(
    d: PtpStatsView,
    gm: Seq<char>,
    names: Seq<(Ipv4Addr, Seq<char>)>,
) -> Seq<char> {
    let name = match grandmaster_ip(d) {
        Some(ip) => lookup(names, ip),
        None => None,
    };
    match name {
        Some(n) => "  grandmaster \""@ + n + "\""@,
        None => if d.version == PTP_VERSION_V1 {
            "  grandmaster"@
        } else {
            "  grandmaster "@ + gm
        },
    }
}

/// The state of the clock of a domain.
pub open spec fn clock_text(
    d: PtpStatsView,
    number: u8,
    several: bool,
    names: Seq<(Ipv4Addr, Seq<char>)>,
) -> Seq<char> {
    let label = domain_label(d, number, several);
    match d.last_grandmaster {
        Some(gm) => if d.clock_valid {
            "✓  "@ + label + "  —"@ + grandmaster_text(d, gm, names) + ip_note(grandmaster_ip(d))
        } else {
            "⚠  "@ + label + "  —  clock lost"@
        },
        None => match d.last_clock_id {
            Some(id) => if d.seen_sync {
                "○  "@ + label + "  —  clock source: "@ + id
                    + "  (Sync seen, no Announce — no grandmaster elected)"@
            } else {
                "○  "@ + label + "  —  clock source: "@ + id
                    + "  (peer-delay requests only — no Sync/grandmaster; link partner may not be gPTP-capable)"@
            },
            None => (if d.clock_valid {
                "✓  "@
            } else {
                "❌  "@
            }) + label + "  —  no clock detected"@,
        },
    }
}

/// A time in microseconds or nanoseconds.
pub open spec fn delay_text(ns: int) -> Seq<char> {
    if ns >= 1_000 || ns <= -1_000 {
        microseconds(ns) + "µs"@
    } else {
        signed_dec(ns) + "ns"@
    }
}

/// A note on the number of hops.
pub open spec fn hops_note(n: u32) -> Seq<char> {
    if n == 0 {
        Seq::empty()
    } else {
        "  ~"@ + dec(n as nat) + " hop"@ + (if n == 1 {
            ""@
        } else {
            "s"@
        })
    }
}

/// The path delays of a domain.
pub open spec fn path_text(min: i64, max: i64) -> Seq<char> {
    if min == max {
        "path delay: "@ + delay_text(max as int) + hops_note(hops(min))
    } else {
        "path delay: "@ + delay_text(min as int) + " – "@ + delay_text(max as int) + "  (spread "@
            + delay_text(max - min) + ")"@ + hops_note(hops(min))
    }
}

/// The first lines on a domain: its clock, and how good it is.
#[verifier::opaque]
pub open spec fn clock_lines(
    d: PtpStatsView,
    number: u8,
    several: bool,
    names: Seq<(Ipv4Addr, Seq<char>)>,
) -> Seq<LineView> {
    seq![plain(entry(clock_text(d, number, several, names)))] + line_if(
        gptp(d) && d.last_grandmaster is None && !d.seen_sync && d.last_clock_id is Some,
        plain(
            detail(
                "ℹ  gPTP is link-local — the grandmaster is only visible on a time-aware (AVB-enabled) port"@,
            ),
        ),
    ) + (match d.last_quality {
        Some(q) => seq![plain(detail("clock quality: "@ + q))],
        None => Seq::empty(),
    })
}

/// The lines on the correction field of a domain.
#[verifier::opaque]
pub open spec fn offset_lines(d: PtpStatsView) -> Seq<LineView> {
    match d.last_offset_ns {
        Some(ns) => if ns == 0 {
            Seq::empty()
        } else {
            seq![
                plain(
                    detail(
                        if ns >= 1_000 || ns <= -1_000 {
                            "correction: "@ + microseconds(ns as int) + " µs"@
                        } else {
                            "correction: "@ + signed_dec(ns as int) + " ns"@
                        },
                    ),
                ),
            ] + line_if(
                ns > 1_000 || ns < -1_000,
                warning(
                    detail("⚠  Large PTP correction field — transparent clock or path issue"@),
                ),
            )
        },
        None => Seq::empty(),
    }
}

/// The lines on the path delays of a domain.
#[verifier::opaque]
pub open spec fn path_lines(d: PtpStatsView) -> Seq<LineView> {
    match (d.min_path_delay_ns, d.max_path_delay_ns) {
        (Some(min), Some(max)) => seq![plain(detail(path_text(min, max)))] + line_if(
            max - min > 10_000,
            warning(
                detail(
                    "⚠  PTP path-delay variance > 10µs — unstable link (EEE, half-duplex, or cable)"@,
                ),
            ),
        ) + line_if(
            max > 1_000_000,
            warning(
                detail(
                    "⚠  PTP path delay > 1ms — too many hops between this node and grandmaster"@,
                ),
            ),
        ),
        _ => Seq::empty(),
    }
}

/// The lines on changes of the clock of a domain.
#[verifier::opaque]
pub open spec fn change_lines(d: PtpStatsView) -> Seq<LineView> {
    Seq::empty() + line_if(
        d.protocol_clock_lost,
        warning(detail("⚠  Clock lost — grandmaster disappeared"@)),
    ) + line_if(
        d.protocol_changes_count > 0,
        warning(
            detail(
                "⚠  Clock source changed "@ + dec(d.protocol_changes_count as nat) + " time(s)"@,
            ),
        ),
    )
}

/// The lines on a domain.
pub open spec fn domain_lines(
    d: PtpStatsView,
    number: u8,
    several: bool,
    names: Seq<(Ipv4Addr, Seq<char>)>,
) -> Seq<LineView> {
    clock_lines(d, number, several, names) + offset_lines(d) + path_lines(d) + change_lines(d)
}

/// The lines on the first `n` domains.
pub open spec fn domains_lines(
    t: Seq<((u8, u8), PtpStatsView)>,
    n: nat,
    names: Seq<(Ipv4Addr, Seq<char>)>,
) -> Seq<LineView>
    decreases n,
{
    if n == 0 {
        Seq::empty()
    } else {
        domains_lines(t, (n - 1) as nat, names) + domain_lines(
            t[n - 1].1,
            t[n - 1].0.0,
            t.len() > 1,
            names,
        )
    }
}

/// The lines on missing clocks.
pub open spec fn missing_lines(m: Seq<MissingClockView>) -> Seq<LineView> {
    m.map_values(|c: MissingClockView| failure(missing_text(c)))
}

/// The section on clocks. Where a lost clock was told of together with lost
/// packets, missing clocks are not told of again.
pub open spec fn clock_section(
    t: Seq<((u8, u8), PtpStatsView)>,
    m: Seq<MissingClockView>,
    names: Seq<(Ipv4Addr, Seq<char>)>,
    correlated: bool,
) -> Option<Seq<LineView>> {
    if t.len() == 0 && m.len() == 0 {
        None
    } else {
        Some(
            domains_lines(t, t.len(), names) + (if correlated {
                Seq::empty()
            } else {
                missing_lines(m)
            }),
        )
    }
}

fn push_label(s: &mut String, d: &PtpStats, number: u8, several: bool)
    ensures
        final(s)@ == old(s)@ + domain_label(d@, number, several),
{
    match &d.protocol_kind {
        Some(k) => {
            s.append(k.as_str());
        },
        None => {
            s.append("PTP");
        },
    }
    if several || number > 0 {
        s.append("  (domain ");
        push_dec(s, number as u64);
        s.append(")");
    }
    assert(s@ =~= old(s)@ + domain_label(d@, number, several));
}

fn push_grandmaster(
    s: &mut String,
    d: &PtpStats,
    gm: &str,
    ip: Option<Ipv4Addr>,
    names: &Table<Ipv4Addr, String>,
)
    requires
        ip == grandmaster_ip(d@),
    ensures
        final(s)@ == old(s)@ + grandmaster_text(d@, gm@, names@),
{
    let name: Option<&String> = match ip {
        Some(ip) => names.get(&ip),
        None => None,
    };
    match name {
        Some(n) => {
            s.append("  grandmaster \"");
            s.append(n.as_str());
            s.append("\"");
        },
        None => {
            if d.version == PTP_VERSION_V1 {
                s.append("  grandmaster");
            } else {
                s.append("  grandmaster ");
                s.append(gm);
            }
        },
    }
    assert(s@ =~= old(s)@ + grandmaster_text(d@, gm@, names@));
}

fn clock_text_of(
    d: &PtpStats,
    number: u8,
    several: bool,
    names: &Table<Ipv4Addr, String>,
) -> (s: String)
    ensures
        s@ == clock_text(d@, number, several, names@),
{
    match &d.last_grandmaster {
        Some(gm) => {
            if d.clock_valid {
                let ip: Option<Ipv4Addr> = if d.grandmaster_src_ip.is_some() {
                    d.grandmaster_src_ip
                } else {
                    d.last_src_ip
                };
                let mut s: String = String::from_str("✓  ");
                push_label(&mut s, d, number, several);
                s.append("  —");
                push_grandmaster(&mut s, d, gm.as_str(), ip, names);
                push_ip_note(&mut s, ip);
                s
            } else {
                let mut s: String = String::from_str("⚠  ");
                push_label(&mut s, d, number, several);
                s.append("  —  clock lost");
                s
            }
        },
        None => match &d.last_clock_id {
            Some(id) => {
                let mut s: String = String::from_str("○  ");
                push_label(&mut s, d, number, several);
                s.append("  —  clock source: ");
                s.append(id.as_str());
                if d.seen_sync {
                    s.append("  (Sync seen, no Announce — no grandmaster elected)");
                } else {
                    s.append(
                        "  (peer-delay requests only — no Sync/grandmaster; link partner may not be gPTP-capable)",
                    );
                }
                s
            },
            None => {
                let mut s: String = String::from_str(
                    if d.clock_valid {
                        "✓  "
                    } else {
                        "❌  "
                    },
                );
                push_label(&mut s, d, number, several);
                s.append("  —  no clock detected");
                s
            },
        },
    }
}

fn push_delay(s: &mut String, ns: i128)
    requires
        -0x1_0000_0000_0000_0000 <= ns <= 0x1_0000_0000_0000_0000,
    ensures
        final(s)@ == old(s)@ + delay_text(ns as int),
{
    if ns >= 1_000 || ns <= -1_000 {
        push_microseconds(s, ns);
        s.append("µs");
    } else {
        push_signed(s, ns as i64);
        s.append("ns");
    }
    assert(s@ =~= old(s)@ + delay_text(ns as int));
}

fn push_hops(s: &mut String, n: u32)
    ensures
        final(s)@ == old(s)@ + hops_note(n),
{
    if n > 0 {
        s.append("  ~");
        push_dec(s, n as u64);
        s.append(" hop");
        s.append(
            if n == 1 {
                ""
            } else {
                "s"
            },
        );
    }
    assert(s@ =~= old(s)@ + hops_note(n));
}

fn path_text_of(min: i64, max: i64) -> (s: String)
    ensures
        s@ == path_text(min, max),
{
    let n: u32 = path_delay_hop_estimate(min);
    let mut s: String = String::from_str("path delay: ");
    if min == max {
        push_delay(&mut s, max as i128);
    } else {
        push_delay(&mut s, min as i128);
        s.append(" – ");
        push_delay(&mut s, max as i128);
        s.append("  (spread ");
        push_delay(&mut s, max as i128 - min as i128);
        s.append(")");
    }
    push_hops(&mut s, n);
    s
}

fn render_clock(
    d: &PtpStats,
    number: u8,
    several: bool,
    names: &Table<Ipv4Addr, String>,
) -> (r: Vec<RenderedLine>)
    ensures
        views(r@) == clock_lines(d@, number, several, names@),
{
    reveal(clock_lines);
    let mut r: Vec<RenderedLine> = no_lines();
    let text: String = clock_text_of(d, number, several, names);
    add_line(&mut r, RenderedLine::plain(status_entry(text.as_str())));
    assert(views(r@) =~= seq![plain(entry(clock_text(d@, number, several, names@)))]);
    add_line_if(
        &mut r,
        d.is_gptp_domain() && d.last_grandmaster.is_none() && !d.seen_sync
            && d.last_clock_id.is_some(),
        RenderedLine::plain(
            status_detail(
                "ℹ  gPTP is link-local — the grandmaster is only visible on a time-aware (AVB-enabled) port",
            ),
        ),
    );
    let ghost before = views(r@);
    if let Some(q) = &d.last_quality {
        let mut s: String = String::from_str("clock quality: ");
        s.append(q.as_str());
        add_line(&mut r, RenderedLine::plain(status_detail(s.as_str())));
    }
    assert(views(r@) =~= before + (match d@.last_quality {
        Some(q) => seq![plain(detail("clock quality: "@ + q))],
        None => Seq::empty(),
    }));
    r
}

fn render_offset(d: &PtpStats) -> (r: Vec<RenderedLine>)
    ensures
        views(r@) == offset_lines(d@),
{
    reveal(offset_lines);
    let mut r: Vec<RenderedLine> = no_lines();
    if let Some(ns) = d.last_offset_ns {
        if ns != 0 {
            let mut s: String = String::from_str("correction: ");
            if ns >= 1_000 || ns <= -1_000 {
                push_microseconds(&mut s, ns as i128);
                s.append(" µs");
            } else {
                push_signed(&mut s, ns);
                s.append(" ns");
            }
            add_line(&mut r, RenderedLine::plain(status_detail(s.as_str())));
            assert(views(r@) =~= seq![views(r@)[0]]);
            add_line_if(
                &mut r,
                ns > 1_000 || ns < -1_000,
                RenderedLine::colored(
                    "33",
                    status_detail(
                        "⚠  Large PTP correction field — transparent clock or path issue",
                    ),
                ),
            );
        }
    }
    r
}

fn render_path(d: &PtpStats) -> (r: Vec<RenderedLine>)
    ensures
        views(r@) == path_lines(d@),
{
    reveal(path_lines);
    let mut r: Vec<RenderedLine> = no_lines();
    if let Some(min) = d.min_path_delay_ns {
        if let Some(max) = d.max_path_delay_ns {
            let text: String = path_text_of(min, max);
            add_line(&mut r, RenderedLine::plain(status_detail(text.as_str())));
            assert(views(r@) =~= seq![views(r@)[0]]);
            add_line_if(
                &mut r,
                path_delay_spread_unstable(min, max),
                RenderedLine::colored(
                    "33",
                    status_detail(
                        "⚠  PTP path-delay variance > 10µs — unstable link (EEE, half-duplex, or cable)",
                    ),
                ),
            );
            add_line_if(
                &mut r,
                path_delay_too_many_hops(max),
                RenderedLine::colored(
                    "33",
                    status_detail(
                        "⚠  PTP path delay > 1ms — too many hops between this node and grandmaster",
                    ),
                ),
            );
        }
    }
    r
}

fn render_changes(d: &PtpStats) -> (r: Vec<RenderedLine>)
    ensures
        views(r@) == change_lines(d@),
{
    reveal(change_lines);
    let mut r: Vec<RenderedLine> = no_lines();
    add_line_if(
        &mut r,
        d.protocol_clock_lost,
        RenderedLine::colored("33", status_detail("⚠  Clock lost — grandmaster disappeared")),
    );
    let mut s: String = String::from_str("⚠  Clock source changed ");
    push_dec(&mut s, d.protocol_changes_count);
    s.append(" time(s)");
    add_line_if(
        &mut r,
        d.protocol_changes_count > 0,
        RenderedLine::colored("33", status_detail(s.as_str())),
    );
    r
}

fn render_domain(
    d: &PtpStats,
    number: u8,
    several: bool,
    names: &Table<Ipv4Addr, String>,
) -> (r: Vec<RenderedLine>)
    ensures
        views(r@) == domain_lines(d@, number, several, names@),
{
    let mut r: Vec<RenderedLine> = render_clock(d, number, several, names);
    add_lines(&mut r, render_offset(d));
    add_lines(&mut r, render_path(d));
    add_lines(&mut r, render_changes(d));
    r
}

fn render_missing(m: &Vec<MissingClock>) -> (r: Vec<RenderedLine>)
    ensures
        views(r@) == missing_lines(views(m@)),
{
    let mut r: Vec<RenderedLine> = Vec::new();
    let mut i: usize = 0;
    while i < m.len()
        invariant
            i <= m@.len(),
            r@.len() == i,
            forall|j: int| 0 <= j < i ==> (#[trigger] r@[j])@ == failure(missing_text(m@[j]@)),
        decreases m@.len() - i,
    {
        r.push(RenderedLine::colored("31", format_missing_clock(&m[i])));
        i += 1;
    }
    assert(views(r@) =~= missing_lines(views(m@)));
    r
}

/// Renders the section on clocks, if there is anything to show.
pub fn render_clock_sources(
    ptp_domains: &Table<(u8, u8), PtpStats>,
    missing_ptp: &Vec<MissingClock>,
    dante_names: &Table<Ipv4Addr, String>,
    clock_dropout_correlated: bool,
) -> (r: Option<Vec<RenderedLine>>)
    ensures
        match r {
            Some(l) => clock_section(
                ptp_domains@,
                views(missing_ptp@),
                dante_names@,
                clock_dropout_correlated,
            ) == Some(views(l@)),
            None => clock_section(
                ptp_domains@,
                views(missing_ptp@),
                dante_names@,
                clock_dropout_correlated,
            ) is None,
        },
{
    if ptp_domains.is_empty() && missing_ptp.len() == 0 {
        return None;
    }
    let several: bool = ptp_domains.len() > 1;
    let mut r: Vec<RenderedLine> = no_lines();
    let mut i: usize = 0;
    while i < ptp_domains.len()
        invariant
            several == (ptp_domains@.len() > 1),
            i <= ptp_domains@.len(),
            views(r@) == domains_lines(ptp_domains@, i as nat, dante_names@),
        decreases ptp_domains@.len() - i,
    {
        let number: u8 = ptp_domains.key_at(i).0;
        add_lines(
            &mut r,
            render_domain(ptp_domains.value_at(i), number, several, dante_names),
        );
        i += 1;
    }
    let ghost before = views(r@);
    if !clock_dropout_correlated {
        add_lines(&mut r, render_missing(missing_ptp));
    } else {
        assert(before + Seq::<LineView>::empty() =~= before);
    }
    Some(r)
}

/// Where a lost clock was told of together with lost packets, the section on clocks
/// is the plain one without the clocks that are missing.
pub proof fn law_dropout_hides_only_missing_clocks(
    t: Seq<((u8, u8), PtpStatsView)>,
    m: Seq<MissingClockView>,
    names: Seq<(Ipv4Addr, Seq<char>)>,
)
    requires
        t.len() > 0,
    ensures
        clock_section(t, m, names, true) == clock_section(t, Seq::empty(), names, false),
{
    assert(missing_lines(Seq::empty()) =~= Seq::empty());
}

} // verus!
