//! Alerts, and which clock a stream needs.

use vstd::prelude::*;

use crate::order::views;
use crate::scan::{begins, begins_with, chars_of};
use crate::text::{same, texts};

verus! {

/// Which clock is missing.
#[derive(Debug, Clone, Copy, PartialEq, Eq, Structural)]
pub enum MissingClockKind {
    /// For AES67 and ST 2110, which version 1 does not serve.
    Ptpv2,
    /// For Dante, which either version serves.
    Ptp,
    /// For AVB, directly over Ethernet.
    Gptp,
}

/// The clock that a stream of a protocol needs.
pub open spec fn clock_kind(protocol: Seq<char>) -> Option<MissingClockKind> {
    if protocol == "AES67"@ || begins(protocol, "2110-"@) {
        Some(MissingClockKind::Ptpv2)
    } else if protocol == "Dante"@ {
        Some(MissingClockKind::Ptp)
    } else {
        None
    }
}

/// The clock that a stream of a protocol needs. AVB's need is told by its own
/// streams, not here.
pub fn stream_clock_kind(protocol: &str) -> (r: Option<MissingClockKind>)
    ensures
        r == clock_kind(protocol@),
{
    let chars: Vec<char> = chars_of(protocol);
    if same(protocol, "AES67") || begins_with(chars.as_slice(), "2110-") {
        Some(MissingClockKind::Ptpv2)
    } else if same(protocol, "Dante") {
        Some(MissingClockKind::Ptp)
    } else {
        None
    }
}

/// A clock that is missing, and the protocols that need it.
#[derive(Debug)]
pub struct MissingClock {
    pub kind: MissingClockKind,
    pub affected: Vec<String>,
}

/// A clock that is missing, in specifications.
#[verifier::ext_equal]
pub struct MissingClockView {
    pub kind: MissingClockKind,
    pub affected: Seq<Seq<char>>,
}

impl View for MissingClock {
    type V = MissingClockView;

    open spec fn view(&self) -> MissingClockView {
        MissingClockView { kind: self.kind, affected: texts(self.affected@) }
    }
}

/// How serious an alert is.
#[derive(Debug, Clone, Copy, PartialEq, Eq, Structural)]
pub enum AlertLevel {
    Info,
    Good,
    Warn,
    Error,
}

/// One line for the user.
#[derive(Debug, Clone, PartialEq, Eq)]
pub struct Alert {
    pub level: AlertLevel,
    pub message: String,
}

/// One line for the user, in specifications.
pub struct AlertView {
    pub level: AlertLevel,
    pub message: Seq<char>,
}

impl View for Alert {
    type V = AlertView;

    open spec fn view(&self) -> AlertView {
        AlertView { level: self.level, message: self.message@ }
    }
}

pub open spec fn info(message: Seq<char>) -> AlertView {
    AlertView { level: AlertLevel::Info, message }
}

pub open spec fn good(message: Seq<char>) -> AlertView {
    AlertView { level: AlertLevel::Good, message }
}

pub open spec fn warn(message: Seq<char>) -> AlertView {
    AlertView { level: AlertLevel::Warn, message }
}

pub open spec fn error(message: Seq<char>) -> AlertView {
    AlertView { level: AlertLevel::Error, message }
}

impl Alert {
    /// A plain line.
    pub fn info(s: String) -> (a: Self)
        ensures
            a@ == info(s@),
    {
        Alert { level: AlertLevel::Info, message: s }
    }

    /// Something came right.
    pub fn good(s: String) -> (a: Self)
        ensures
            a@ == good(s@),
    {
        Alert { level: AlertLevel::Good, message: s }
    }

    /// Something is not as it should be.
    pub fn warn(s: String) -> (a: Self)
        ensures
            a@ == warn(s@),
    {
        Alert { level: AlertLevel::Warn, message: s }
    }

    /// Something has failed.
    pub fn error(s: String) -> (a: Self)
        ensures
            a@ == error(s@),
    {
        Alert { level: AlertLevel::Error, message: s }
    }
}

/// No alert.
pub fn quiet() -> (r: Vec<Alert>)
    ensures
        views(r@) == Seq::<AlertView>::empty(),
{
    let r: Vec<Alert> = Vec::new();
    assert(views(r@) =~= Seq::empty());
    r
}

/// One alert.
pub fn only(a: Alert) -> (r: Vec<Alert>)
    ensures
        views(r@) == seq![a@],
{
    let mut r: Vec<Alert> = Vec::new();
    r.push(a);
    assert(views(r@) =~= seq![a@]);
    r
}

/// Adds an alert.
pub fn add_alert(v: &mut Vec<Alert>, a: Alert)
    ensures
        views(final(v)@) == views(old(v)@).push(a@),
{
    v.push(a);
    assert(views(v@) =~= views(old(v)@).push(a@));
}

/// Adds alerts.
pub fn add_alerts(v: &mut Vec<Alert>, more: Vec<Alert>)
    ensures
        views(final(v)@) == views(old(v)@) + views(more@),
{
    let mut more: Vec<Alert> = more;
    let ghost added = more@;
    v.append(&mut more);
    assert(views(v@) =~= views(old(v)@) + views(added));
}

/// The terminal colour of an alert.
pub open spec fn level_color(level: AlertLevel) -> Option<Seq<char>> {
    match level {
        AlertLevel::Info => None,
        AlertLevel::Good => Some("32"@),
        AlertLevel::Warn => Some("33"@),
        AlertLevel::Error => Some("31"@),
    }
}

/// The terminal colour of an alert.
pub fn ansi_color(level: &AlertLevel) -> (r: Option<&'static str>)
    ensures
        match r {
            Some(c) => level_color(*level) == Some(c@),
            None => level_color(*level) is None,
        },
{
    match level {
        AlertLevel::Info => None,
        AlertLevel::Good => Some("32"),
        AlertLevel::Warn => Some("33"),
        AlertLevel::Error => Some("31"),
    }
}

/// What the terminal is sent for an alert; the log gets the plain message.
pub open spec fn shown(a: AlertView, color: bool) -> Seq<char> {
    match level_color(a.level) {
        Some(c) => if color {
            "\x1b["@ + c + "m"@ + a.message + "\x1b[0m"@
        } else {
            a.message
        },
        None => a.message,
    }
}

/// What the terminal is sent for an alert.
pub fn emitted(a: &Alert, color: bool) -> (s: String)
    ensures
        s@ == shown(a@, color),
{
    match ansi_color(&a.level) {
        Some(c) => {
            if color {
                let mut s: String = String::from_str("\x1b[");
                s.append(c);
                s.append("m");
                s.append(a.message.as_str());
                s.append("\x1b[0m");
                s
            } else {
                a.message.clone()
            }
        },
        None => a.message.clone(),
    }
}

} // verus!
