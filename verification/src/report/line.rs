//! Lines, their colours, and where they go.

use vstd::prelude::*;

use crate::binary::{push_quotient, quotient_text, round, rounded};
use crate::capture::alert::{emitted, shown, Alert, AlertView};
use crate::order::views;
use crate::text::prefixed;

verus! {

/// The colour of a warning.
pub open spec fn yellow() -> Option<Seq<char>> {
    Some("33"@)
}

/// The colour of a failure.
pub open spec fn red() -> Option<Seq<char>> {
    Some("31"@)
}

/// One line of a report.
#[derive(Debug, Clone, PartialEq, Eq)]
pub struct RenderedLine {
    pub text: String,
    /// The terminal colour.
    pub color: Option<&'static str>,
}

/// One line of a report, in specifications.
pub struct LineView {
    pub text: Seq<char>,
    pub color: Option<Seq<char>>,
}

impl View for RenderedLine {
    type V = LineView;

    open spec fn view(&self) -> LineView {
        LineView {
            text: self.text@,
            color: match self.color {
                Some(c) => Some(c@),
                None => None,
            },
        }
    }
}

/// A line without a colour.
pub open spec fn plain(text: Seq<char>) -> LineView {
    LineView { text, color: None }
}

/// A line in the colour of a warning.
pub open spec fn warning(text: Seq<char>) -> LineView {
    LineView { text, color: yellow() }
}

/// A line in the colour of a failure.
pub open spec fn failure(text: Seq<char>) -> LineView {
    LineView { text, color: red() }
}

impl RenderedLine {
    /// A line without a colour.
    pub fn plain(text: String) -> (r: Self)
        ensures
            r@ == plain(text@),
    {
        RenderedLine { text, color: None }
    }

    /// A line in a colour.
    pub fn colored(color: &'static str, text: String) -> (r: Self)
        ensures
            r@ == (LineView { text: text@, color: Some(color@) }),
    {
        RenderedLine { text, color: Some(color) }
    }
}

/// No line.
pub fn no_lines() -> (r: Vec<RenderedLine>)
    ensures
        views(r@) == Seq::<LineView>::empty(),
{
    let r: Vec<RenderedLine> = Vec::new();
    assert(views(r@) =~= Seq::empty());
    r
}

/// Adds a line.
pub fn add_line(v: &mut Vec<RenderedLine>, l: RenderedLine)
    ensures
        views(final(v)@) == views(old(v)@).push(l@),
{
    v.push(l);
    assert(views(v@) =~= views(old(v)@).push(l@));
}

/// A line, if its condition holds.
pub open spec fn line_if(c: bool, l: LineView) -> Seq<LineView> {
    if c {
        seq![l]
    } else {
        Seq::empty()
    }
}

/// Adds a line, if its condition holds.
pub fn add_line_if(v: &mut Vec<RenderedLine>, c: bool, l: RenderedLine)
    ensures
        views(final(v)@) == views(old(v)@) + line_if(c, l@),
{
    if c {
        v.push(l);
    }
    assert(views(v@) =~= views(old(v)@) + line_if(c, l@));
}

/// Adds lines.
pub fn add_lines(v: &mut Vec<RenderedLine>, more: Vec<RenderedLine>)
    ensures
        views(final(v)@) == views(old(v)@) + views(more@),
{
    let mut more: Vec<RenderedLine> = more;
    let ghost added = more@;
    v.append(&mut more);
    assert(views(v@) =~= views(old(v)@) + views(added));
}

/// What stands before an entry of a section.
pub const ENTRY_INDENT: &'static str = "  ";

/// What stands before a line under an entry.
pub const DETAIL_INDENT: &'static str = "    ";

/// An entry of a section.
pub open spec fn entry(text: Seq<char>) -> Seq<char> {
    ENTRY_INDENT@ + text
}

/// A line under an entry.
pub open spec fn detail(text: Seq<char>) -> Seq<char> {
    DETAIL_INDENT@ + text
}

/// Indents an entry of a section.
pub fn status_entry(text: &str) -> (s: String)
    ensures
        s@ == entry(text@),
{
    prefixed(ENTRY_INDENT, text)
}

/// Indents a line under an entry.
pub fn status_detail(text: &str) -> (s: String)
    ensures
        s@ == detail(text@),
{
    prefixed(DETAIL_INDENT, text)
}

/// Text between the escapes of a colour.
pub open spec fn escaped(color: bool, code: Seq<char>, text: Seq<char>) -> Seq<char> {
    if color {
        "\x1b["@ + code + "m"@ + text + "\x1b[0m"@
    } else {
        text
    }
}

/// Puts text between the escapes of a colour, where colours are on.
pub fn ansi(color: bool, code: &str, text: &str) -> (s: String)
    ensures
        s@ == escaped(color, code@, text@),
{
    if color {
        let mut s: String = String::from_str("\x1b[");
        s.append(code);
        s.append("m");
        s.append(text);
        s.append("\x1b[0m");
        s
    } else {
        String::from_str(text)
    }
}

/// A time in nanoseconds as microseconds with one decimal.
pub open spec fn microseconds(ns: int) -> Seq<char> {
    if ns < 0 {
        "-"@ + quotient_text(rounded((-ns) as nat), 1_000, 1)
    } else {
        quotient_text(rounded(ns as nat), 1_000, 1)
    }
}

/// Appends a time in microseconds.
pub fn push_microseconds(s: &mut String, ns: i128)
    requires
        -0x1_0000_0000_0000_0000 <= ns <= 0x1_0000_0000_0000_0000,
    ensures
        final(s)@ == old(s)@ + microseconds(ns as int),
{
    if ns < 0 {
        s.append("-");
        push_quotient(s, round((-ns) as u128), 1_000, 1);
    } else {
        push_quotient(s, round(ns as u128), 1_000, 1);
    }
    assert(s@ =~= old(s)@ + microseconds(ns as int));
}

/// Appends a bitrate in Mbps.
pub fn push_mbps(s: &mut String, bps: u64)
    ensures
        final(s)@ == old(s)@ + quotient_text(rounded(bps as nat), 1_000_000, 1),
{
    push_quotient(s, round(bps as u128), 1_000_000, 1);
}

// ── Output ───────────────────────────────────────────────────────────────────

/// A line for the log, or one for the terminal.
#[derive(Debug, Clone, PartialEq, Eq)]
pub enum Output {
    Log(String),
    Print(String),
}

/// A line for the log or the terminal, in specifications.
pub enum OutputView {
    Log(Seq<char>),
    Print(Seq<char>),
}

impl View for Output {
    type V = OutputView;

    open spec fn view(&self) -> OutputView {
        match self {
            Output::Log(s) => OutputView::Log(s@),
            Output::Print(s) => OutputView::Print(s@),
        }
    }
}

/// Whether colours are on, and whether a report is shown on the terminal. The log
/// gets it either way.
#[derive(Debug, Clone, Copy, PartialEq, Eq, Structural)]
pub struct Console {
    pub color: bool,
    pub stdout: bool,
}

impl Console {
    /// A terminal that shows reports.
    pub fn new(color: bool) -> (c: Self)
        ensures
            c == (Console { color, stdout: true }),
    {
        Console { color, stdout: true }
    }

    /// Whether colours are on.
    pub fn color_enabled(&self) -> (r: bool)
        ensures
            r == self.color,
    {
        self.color
    }

    /// Whether a report is shown.
    pub fn stdout_enabled(&self) -> (r: bool)
        ensures
            r == self.stdout,
    {
        self.stdout
    }

    /// Shows reports, or keeps them to the log.
    pub fn set_stdout_enabled(&mut self, v: bool)
        ensures
            *final(self) == (Console { stdout: v, ..*old(self) }),
    {
        self.stdout = v;
    }
}

/// A line for the log, and the same in its colour for the terminal.
pub open spec fn line_out(c: Console, l: LineView) -> Seq<OutputView> {
    let printed = match l.color {
        Some(code) => escaped(c.color, code, l.text),
        None => l.text,
    };
    if c.stdout {
        seq![OutputView::Log(l.text), OutputView::Print(printed)]
    } else {
        seq![OutputView::Log(l.text)]
    }
}

/// Lines for the log and the terminal.
pub open spec fn lines_out(c: Console, l: Seq<LineView>) -> Seq<OutputView>
    decreases l.len(),
{
    if l.len() == 0 {
        Seq::empty()
    } else {
        lines_out(c, l.drop_last()) + line_out(c, l.last())
    }
}

/// An alert for the terminal and the log. It is always shown.
pub open spec fn alert_out(c: Console, a: AlertView) -> Seq<OutputView> {
    seq![OutputView::Print(shown(a, c.color)), OutputView::Log(a.message)]
}

/// Alerts for the terminal and the log.
pub open spec fn alerts_out(c: Console, a: Seq<AlertView>) -> Seq<OutputView>
    decreases a.len(),
{
    if a.len() == 0 {
        Seq::empty()
    } else {
        alerts_out(c, a.drop_last()) + alert_out(c, a.last())
    }
}

/// A section's header: plain in the log, decorated and in colour on the terminal.
pub open spec fn header_out(c: Console, label: Seq<char>, decorated: Seq<char>) -> Seq<OutputView> {
    if c.stdout {
        seq![
            OutputView::Log("\n"@ + label),
            OutputView::Print(escaped(c.color, "36"@, "\n"@ + decorated)),
        ]
    } else {
        seq![OutputView::Log("\n"@ + label)]
    }
}

/// Nothing to put out.
pub fn no_output() -> (r: Vec<Output>)
    ensures
        views(r@) == Seq::<OutputView>::empty(),
{
    let r: Vec<Output> = Vec::new();
    assert(views(r@) =~= Seq::empty());
    r
}

/// Puts out a line.
pub fn emit_line(out: &mut Vec<Output>, c: &Console, l: &RenderedLine)
    ensures
        views(final(out)@) == views(old(out)@) + line_out(*c, l@),
{
    out.push(Output::Log(l.text.clone()));
    if c.stdout {
        match l.color {
            Some(code) => {
                out.push(Output::Print(ansi(c.color, code, l.text.as_str())));
            },
            None => {
                out.push(Output::Print(l.text.clone()));
            },
        }
    }
    assert(views(out@) =~= views(old(out)@) + line_out(*c, l@));
}

/// Puts out lines.
pub fn emit_lines(out: &mut Vec<Output>, c: &Console, l: &Vec<RenderedLine>)
    ensures
        views(final(out)@) == views(old(out)@) + lines_out(*c, views(l@)),
{
    let ghost before = views(out@);
    let ghost all = views(l@);
    let mut i: usize = 0;
    assert(all.take(0) =~= Seq::empty());
    assert(before + lines_out(*c, all.take(0)) =~= before);
    while i < l.len()
        invariant
            all == views(l@),
            i <= l@.len(),
            views(out@) == before + lines_out(*c, all.take(i as int)),
        decreases l@.len() - i,
    {
        assert(all.take(i + 1).drop_last() =~= all.take(i as int));
        assert(all[i as int] == l@[i as int]@);
        emit_line(out, c, &l[i]);
        i += 1;
        assert(views(out@) =~= before + lines_out(*c, all.take(i as int)));
    }
    assert(all.take(i as int) =~= all);
}

/// Puts out alerts.
pub fn emit_alerts(out: &mut Vec<Output>, c: &Console, a: &Vec<Alert>)
    ensures
        views(final(out)@) == views(old(out)@) + alerts_out(*c, views(a@)),
{
    let ghost before = views(out@);
    let ghost all = views(a@);
    let mut i: usize = 0;
    assert(all.take(0) =~= Seq::empty());
    assert(before + alerts_out(*c, all.take(0)) =~= before);
    while i < a.len()
        invariant
            all == views(a@),
            i <= a@.len(),
            views(out@) == before + alerts_out(*c, all.take(i as int)),
        decreases a@.len() - i,
    {
        assert(all.take(i + 1).drop_last() =~= all.take(i as int));
        assert(all[i as int] == a@[i as int]@);
        let ghost now = views(out@);
        out.push(Output::Print(emitted(&a[i], c.color)));
        out.push(Output::Log(a[i].message.clone()));
        assert(views(out@) =~= now + alert_out(*c, all[i as int]));
        i += 1;
        assert(views(out@) =~= before + alerts_out(*c, all.take(i as int)));
    }
    assert(all.take(i as int) =~= all);
}

/// Puts out a section's header.
pub fn section_header(out: &mut Vec<Output>, c: &Console, label: &str, decorated: &str)
    ensures
        views(final(out)@) == views(old(out)@) + header_out(*c, label@, decorated@),
{
    out.push(Output::Log(prefixed("\n", label)));
    if c.stdout {
        out.push(Output::Print(ansi(c.color, "36", prefixed("\n", decorated).as_str())));
    }
    assert(views(out@) =~= views(old(out)@) + header_out(*c, label@, decorated@));
}

/// Lines of a report that is not shown go to the log alone, each once.
pub proof fn law_quiet_lines_are_only_logged(color: bool, l: Seq<LineView>)
    ensures
        forall|i: int|
            0 <= i < lines_out(Console { color, stdout: false }, l).len() ==> (
            #[trigger] lines_out(Console { color, stdout: false }, l)[i]) is Log,
        lines_out(Console { color, stdout: false }, l).len() == l.len(),
    decreases l.len(),
{
    if l.len() > 0 {
        law_quiet_lines_are_only_logged(color, l.drop_last());
        let c = Console { color, stdout: false };
        let front = lines_out(c, l.drop_last());
        assert forall|i: int| 0 <= i < lines_out(c, l).len() implies (#[trigger] lines_out(
            c,
            l,
        )[i]) is Log by {
            if i < front.len() {
                assert(lines_out(c, l)[i] == front[i]);
            }
        }
    }
}

} // verus!
