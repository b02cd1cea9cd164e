//! The command line's flags.

use vstd::prelude::*;

use crate::cli::selection::{flag_choice, flag_strange, parse_protocol_str, unknown_protocols};
use crate::protocols::ProtocolChoice;
use crate::scan::{chars_of, opt_text, read_whole, whole};
use crate::text::{prefixed, same, texts};

verus! {

/// What the flags ask for.
#[derive(Debug)]
pub struct CliArgs {
    /// The interface to capture on.
    pub interface: Option<String>,
    pub protocols: Option<Vec<ProtocolChoice>>,
    pub no_color: bool,
    /// Keeps reports with nothing to tell off the terminal.
    pub quiet: bool,
    /// After how many seconds to stop.
    pub duration: Option<u64>,
    /// The capture file to replay.
    pub read_file: Option<String>,
}

/// What the flags ask for, in specifications.
pub struct ArgsView {
    pub interface: Option<Seq<char>>,
    pub protocols: Option<Seq<ProtocolChoice>>,
    pub no_color: bool,
    pub quiet: bool,
    pub duration: Option<u64>,
    pub read_file: Option<Seq<char>>,
}

impl View for CliArgs {
    type V = ArgsView;

    open spec fn view(&self) -> ArgsView {
        ArgsView {
            interface: opt_text(self.interface),
            protocols: match self.protocols {
                Some(p) => Some(p@),
                None => None,
            },
            no_color: self.no_color,
            quiet: self.quiet,
            duration: self.duration,
            read_file: opt_text(self.read_file),
        }
    }
}

/// Why the program stops before it starts.
#[derive(Debug)]
pub enum CliStop {
    /// Help was asked for.
    Help,
    NoInterface,
    NoProtocol,
    NoDuration,
    BadDuration,
    NoFile,
    Unknown(String),
}

/// Why the program stops, in specifications.
pub enum StopView {
    Help,
    NoInterface,
    NoProtocol,
    NoDuration,
    BadDuration,
    NoFile,
    Unknown(Seq<char>),
}

impl View for CliStop {
    type V = StopView;

    open spec fn view(&self) -> StopView {
        match self {
            CliStop::Help => StopView::Help,
            CliStop::NoInterface => StopView::NoInterface,
            CliStop::NoProtocol => StopView::NoProtocol,
            CliStop::NoDuration => StopView::NoDuration,
            CliStop::BadDuration => StopView::BadDuration,
            CliStop::NoFile => StopView::NoFile,
            CliStop::Unknown(s) => StopView::Unknown(s@),
        }
    }
}

/// What the user is told of a stop; help has a text of its own.
pub open spec fn stop_text(s: StopView) -> Seq<char> {
    match s {
        StopView::Help => ""@,
        StopView::NoInterface => "❌ --interface requires a value (e.g. --interface en0)"@,
        StopView::NoProtocol => "❌ --protocol requires a value (e.g. --protocol aes67,dante)"@,
        StopView::NoDuration => "❌ --duration requires a value (e.g. --duration 30)"@,
        StopView::BadDuration => "❌ --duration requires a positive integer (e.g. --duration 30)"@,
        StopView::NoFile => "❌ --read requires a file path (e.g. --read capture.pcap)"@,
        StopView::Unknown(a) => "❌ Unknown argument: "@ + a + "  (run with --help for usage)"@,
    }
}

impl CliStop {
    /// What the user is told.
    pub fn message(&self) -> (s: String)
        ensures
            s@ == stop_text(self@),
    {
        match self {
            CliStop::Help => String::from_str(""),
            CliStop::NoInterface => String::from_str(
                "❌ --interface requires a value (e.g. --interface en0)",
            ),
            CliStop::NoProtocol => String::from_str(
                "❌ --protocol requires a value (e.g. --protocol aes67,dante)",
            ),
            CliStop::NoDuration => String::from_str(
                "❌ --duration requires a value (e.g. --duration 30)",
            ),
            CliStop::BadDuration => String::from_str(
                "❌ --duration requires a positive integer (e.g. --duration 30)",
            ),
            CliStop::NoFile => String::from_str(
                "❌ --read requires a file path (e.g. --read capture.pcap)",
            ),
            CliStop::Unknown(a) => {
                let mut s: String = prefixed("❌ Unknown argument: ", a.as_str());
                s.append("  (run with --help for usage)");
                s
            },
        }
    }

    /// What the program exits with: nothing is wrong with asking for help.
    pub fn exit_code(&self) -> (r: i32)
        ensures
            r == if self@ is Help {
                0i32
            } else {
                1i32
            },
    {
        match self {
            CliStop::Help => 0,
            _ => 1,
        }
    }
}

/// What was read: parts of protocol lists that name nothing, and what is asked for
/// or why the program stops.
#[derive(Debug)]
pub struct Parsed {
    pub unknown: Vec<String>,
    pub outcome: Result<CliArgs, CliStop>,
}

/// What was read, in specifications.
pub struct ParsedView {
    pub unknown: Seq<Seq<char>>,
    pub outcome: Result<ArgsView, StopView>,
}

impl View for Parsed {
    type V = ParsedView;

    open spec fn view(&self) -> ParsedView {
        ParsedView {
            unknown: texts(self.unknown@),
            outcome: match self.outcome {
                Ok(a) => Ok(a@),
                Err(e) => Err(e@),
            },
        }
    }
}

/// A flag, if an argument is one.
#[derive(Debug, Clone, Copy, PartialEq, Eq, Structural)]
pub enum Flag {
    Interface,
    Protocol,
    NoColor,
    Quiet,
    Duration,
    Read,
}

/// The flag that an argument is.
pub open spec fn flag_of(a: Seq<char>) -> Option<Flag> {
    if a == "--interface"@ || a == "-i"@ {
        Some(Flag::Interface)
    } else if a == "--protocol"@ || a == "-p"@ {
        Some(Flag::Protocol)
    } else if a == "--no-color"@ || a == "--no-colour"@ {
        Some(Flag::NoColor)
    } else if a == "--quiet"@ || a == "-q"@ {
        Some(Flag::Quiet)
    } else if a == "--duration"@ || a == "-d"@ {
        Some(Flag::Duration)
    } else if a == "--read"@ || a == "-r"@ {
        Some(Flag::Read)
    } else {
        None
    }
}

/// Whether help is asked for.
pub open spec fn asks_help(a: Seq<char>) -> bool {
    a == "--help"@ || a == "-h"@
}

/// Why a flag without its value stops the program.
pub open spec fn missing_value(f: Flag) -> StopView {
    match f {
        Flag::Interface => StopView::NoInterface,
        Flag::Protocol => StopView::NoProtocol,
        Flag::Duration => StopView::NoDuration,
        _ => StopView::NoFile,
    }
}

/// A stop.
pub open spec fn stopped(unknown: Seq<Seq<char>>, s: StopView) -> ParsedView {
    ParsedView { unknown, outcome: Err(s) }
}

/// Reads arguments one after another. A flag given twice counts as given last.
pub open spec fn read_on(
    args: Seq<Seq<char>>,
    unknown: Seq<Seq<char>>,
    so_far: ArgsView,
) -> ParsedView
    decreases args.len(),
{
    if args.len() == 0 {
        ParsedView { unknown, outcome: Ok(so_far) }
    } else {
        match flag_of(args[0]) {
            None => stopped(unknown, StopView::Unknown(args[0])),
            Some(Flag::NoColor) => read_on(
                args.skip(1),
                unknown,
                ArgsView { no_color: true, ..so_far },
            ),
            Some(Flag::Quiet) => read_on(args.skip(1), unknown, ArgsView { quiet: true, ..so_far }),
            Some(f) => if args.len() == 1 {
                stopped(unknown, missing_value(f))
            } else {
                let value = args[1];
                let rest = args.skip(2);
                match f {
                    Flag::Interface => read_on(
                        rest,
                        unknown,
                        ArgsView { interface: Some(value), ..so_far },
                    ),
                    Flag::Protocol => read_on(
                        rest,
                        unknown + flag_strange(value),
                        ArgsView { protocols: Some(flag_choice(value)), ..so_far },
                    ),
                    Flag::Duration => match whole(value, u64::MAX as nat) {
                        Some(n) => if n > 0 {
                            read_on(
                                rest,
                                unknown,
                                ArgsView { duration: Some(n as u64), ..so_far },
                            )
                        } else {
                            stopped(unknown, StopView::BadDuration)
                        },
                        None => stopped(unknown, StopView::BadDuration),
                    },
                    _ => read_on(rest, unknown, ArgsView { read_file: Some(value), ..so_far }),
                }
            },
        }
    }
}

/// What the arguments ask for. Help anywhere among them comes first.
pub open spec fn parsed(args: Seq<Seq<char>>, no_color: bool) -> ParsedView {
    if exists|i: int| 0 <= i < args.len() && asks_help(#[trigger] args[i]) {
        stopped(Seq::empty(), StopView::Help)
    } else {
        read_on(
            args,
            Seq::empty(),
            ArgsView {
                interface: None,
                protocols: None,
                no_color,
                quiet: false,
                duration: None,
                read_file: None,
            },
        )
    }
}

fn read_flag(a: &str) -> (r: Option<Flag>)
    ensures
        r == flag_of(a@),
{
    if same(a, "--interface") || same(a, "-i") {
        Some(Flag::Interface)
    } else if same(a, "--protocol") || same(a, "-p") {
        Some(Flag::Protocol)
    } else if same(a, "--no-color") || same(a, "--no-colour") {
        Some(Flag::NoColor)
    } else if same(a, "--quiet") || same(a, "-q") {
        Some(Flag::Quiet)
    } else if same(a, "--duration") || same(a, "-d") {
        Some(Flag::Duration)
    } else if same(a, "--read") || same(a, "-r") {
        Some(Flag::Read)
    } else {
        None
    }
}

fn wants_help(args: &Vec<String>) -> (r: bool)
    ensures
        r == exists|i: int| 0 <= i < texts(args@).len() && asks_help(#[trigger] texts(args@)[i]),
{
    let mut i: usize = 0;
    let ghost all = texts(args@);
    while i < args.len()
        invariant
            all == texts(args@),
            i <= args@.len(),
            forall|j: int| 0 <= j < i ==> !asks_help(#[trigger] all[j]),
        decreases args@.len() - i,
    {
        assert(all[i as int] == args@[i as int]@);
        if same(args[i].as_str(), "--help") || same(args[i].as_str(), "-h") {
            return true;
        }
        i += 1;
    }
    false
}

fn stop(unknown: Vec<String>, s: CliStop) -> (r: Parsed)
    ensures
        r@ == stopped(texts(unknown@), s@),
{
    Parsed { unknown, outcome: Err(s) }
}

fn no_value(f: Flag) -> (s: CliStop)
    ensures
        s@ == missing_value(f),
{
    match f {
        Flag::Interface => CliStop::NoInterface,
        Flag::Protocol => CliStop::NoProtocol,
        Flag::Duration => CliStop::NoDuration,
        _ => CliStop::NoFile,
    }
}

/// Reads the arguments behind the program's name. `no_color` tells whether the
/// environment asks for no colour.
pub fn parse_cli_args(args: &Vec<String>, no_color: bool) -> (r: Parsed)
    ensures
        r@ == parsed(texts(args@), no_color),
{
    let mut unknown: Vec<String> = Vec::new();
    assert(texts(unknown@) =~= Seq::empty());
    if wants_help(args) {
        return stop(unknown, CliStop::Help);
    }
    let ghost all = texts(args@);
    let mut a: CliArgs = CliArgs {
        interface: None,
        protocols: None,
        no_color,
        quiet: false,
        duration: None,
        read_file: None,
    };
    let n: usize = args.len();
    let mut i: usize = 0;
    assert(all.skip(0) =~= all);
    while i < n
        invariant
            all == texts(args@),
            n == args@.len(),
            i <= n,
            read_on(all.skip(i as int), texts(unknown@), a@) == parsed(all, no_color),
        decreases n - i,
    {
        let ghost rest = all.skip(i as int);
        assert(rest[0] == args@[i as int]@);
        assert(rest.skip(1) =~= all.skip(i + 1));
        match read_flag(args[i].as_str()) {
            None => {
                return stop(unknown, CliStop::Unknown(args[i].clone()));
            },
            Some(Flag::NoColor) => {
                a.no_color = true;
                i += 1;
            },
            Some(Flag::Quiet) => {
                a.quiet = true;
                i += 1;
            },
            Some(f) => {
                if n - i == 1 {
                    return stop(unknown, no_value(f));
                }
                assert(rest[1] == args@[i + 1]@);
                assert(rest.skip(2) =~= all.skip(i + 2));
                let value: &String = &args[i + 1];
                match f {
                    Flag::Interface => {
                        a.interface = Some(value.clone());
                    },
                    Flag::Protocol => {
                        a.protocols = Some(parse_protocol_str(value.as_str()));
                        let mut more: Vec<String> = unknown_protocols(value.as_str());
                        let ghost before = unknown@;
                        let ghost added = more@;
                        unknown.append(&mut more);
                        assert(texts(unknown@) =~= texts(before) + texts(added));
                    },
                    Flag::Duration => {
                        let c: Vec<char> = chars_of(value.as_str());
                        match read_whole(c.as_slice(), u64::MAX) {
                            Some(k) => {
                                if k == 0 {
                                    return stop(unknown, CliStop::BadDuration);
                                }
                                a.duration = Some(k);
                            },
                            None => {
                                return stop(unknown, CliStop::BadDuration);
                            },
                        }
                    },
                    _ => {
                        a.read_file = Some(value.clone());
                    },
                }
                i += 2;
            },
        }
    }
    assert(all.skip(i as int) =~= Seq::empty());
    Parsed { unknown, outcome: Ok(a) }
}

/// What the user is told of a part of a list that names no protocol.
pub fn unknown_protocol_text(part: &str) -> (s: String)
    ensures
        s@ == "⚠  Unknown protocol '"@ + part@ + "' — ignored"@,
{
    let mut s: String = prefixed("⚠  Unknown protocol '", part);
    s.append("' — ignored");
    s
}

/// Whether colours are on: nobody asked for none, and somebody is watching.
pub fn resolve_color_enabled(no_color_requested: bool, stdout_is_tty: bool) -> (r: bool)
    ensures
        r == (!no_color_requested && stdout_is_tty),
{
    !no_color_requested && stdout_is_tty
}

// ── Laws ─────────────────────────────────────────────────────────────────────

/// Colours, once asked off, stay off whatever else is given.
pub proof fn law_no_color_sticks(args: Seq<Seq<char>>, unknown: Seq<Seq<char>>, a: ArgsView)
    requires
        a.no_color,
    ensures
        read_on(args, unknown, a).outcome matches Ok(r) ==> r.no_color,
    decreases args.len(),
{
    if args.len() > 0 {
        match flag_of(args[0]) {
            None => {},
            Some(Flag::NoColor) => {
                law_no_color_sticks(args.skip(1), unknown, ArgsView { no_color: true, ..a });
            },
            Some(Flag::Quiet) => {
                law_no_color_sticks(args.skip(1), unknown, ArgsView { quiet: true, ..a });
            },
            Some(f) => {
                if args.len() > 1 {
                    let v = args[1];
                    let rest = args.skip(2);
                    match f {
                        Flag::Interface => {
                            law_no_color_sticks(
                                rest,
                                unknown,
                                ArgsView { interface: Some(v), ..a },
                            );
                        },
                        Flag::Protocol => {
                            law_no_color_sticks(
                                rest,
                                unknown + flag_strange(v),
                                ArgsView { protocols: Some(flag_choice(v)), ..a },
                            );
                        },
                        Flag::Duration => {
                            if let Some(n) = whole(v, u64::MAX as nat) {
                                law_no_color_sticks(
                                    rest,
                                    unknown,
                                    ArgsView { duration: Some(n as u64), ..a },
                                );
                            }
                        },
                        _ => {
                            law_no_color_sticks(
                                rest,
                                unknown,
                                ArgsView { read_file: Some(v), ..a },
                            );
                        },
                    }
                }
            },
        }
    }
}

/// A duration that is taken is never nothing.
pub proof fn law_duration_is_positive(args: Seq<Seq<char>>, unknown: Seq<Seq<char>>, a: ArgsView)
    requires
        a.duration matches Some(d) ==> d > 0,
    ensures
        read_on(args, unknown, a).outcome matches Ok(r) ==> (r.duration matches Some(d) ==> d > 0),
    decreases args.len(),
{
    if args.len() > 0 {
        match flag_of(args[0]) {
            None => {},
            Some(Flag::NoColor) => {
                law_duration_is_positive(args.skip(1), unknown, ArgsView { no_color: true, ..a });
            },
            Some(Flag::Quiet) => {
                law_duration_is_positive(args.skip(1), unknown, ArgsView { quiet: true, ..a });
            },
            Some(f) => {
                if args.len() > 1 {
                    let v = args[1];
                    let rest = args.skip(2);
                    match f {
                        Flag::Interface => {
                            law_duration_is_positive(
                                rest,
                                unknown,
                                ArgsView { interface: Some(v), ..a },
                            );
                        },
                        Flag::Protocol => {
                            law_duration_is_positive(
                                rest,
                                unknown + flag_strange(v),
                                ArgsView { protocols: Some(flag_choice(v)), ..a },
                            );
                        },
                        Flag::Duration => {
                            if let Some(n) = whole(v, u64::MAX as nat) {
                                if n > 0 {
                                    law_duration_is_positive(
                                        rest,
                                        unknown,
                                        ArgsView { duration: Some(n as u64), ..a },
                                    );
                                }
                            }
                        },
                        _ => {
                            law_duration_is_positive(
                                rest,
                                unknown,
                                ArgsView { read_file: Some(v), ..a },
                            );
                        },
                    }
                }
            },
        }
    }
}

} // verus!
