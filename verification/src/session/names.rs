//! The banner, and the name of the log file.

use vstd::prelude::*;

use crate::text::{dec, digit, prefixed, push_dec, push_hex_digit, push_signed, same, signed_dec};

verus! {

// ── The banner ───────────────────────────────────────────────────────────────

/// The banner of a live capture.
pub open spec fn live_text(device: Seq<char>, names: Seq<char>, extras: Seq<char>) -> Seq<char> {
    if names == "all protocols"@ {
        "📡 Listening on "@ + device + "  —  all protocols"@
    } else {
        "📡 Listening on "@ + device + "  for "@ + names + extras + "  streams"@
    }
}

/// The banner of a replay.
pub open spec fn replay_text(path: Seq<char>, names: Seq<char>, extras: Seq<char>) -> Seq<char> {
    if names == "all protocols"@ {
        "📁 Replaying "@ + path + "  —  all protocols"@
    } else {
        "📁 Replaying "@ + path + "  —  "@ + names + extras
    }
}

/// The banner of a live capture.
pub fn live_banner(device: &str, proto_display: &str, extras: &str) -> (s: String)
    ensures
        s@ == live_text(device@, proto_display@, extras@),
{
    let mut s: String = prefixed("📡 Listening on ", device);
    if same(proto_display, "all protocols") {
        s.append("  —  all protocols");
    } else {
        s.append("  for ");
        s.append(proto_display);
        s.append(extras);
        s.append("  streams");
    }
    s
}

/// The banner of a replay.
pub fn replay_banner(path: &str, proto_display: &str, extras: &str) -> (s: String)
    ensures
        s@ == replay_text(path@, proto_display@, extras@),
{
    let mut s: String = prefixed("📁 Replaying ", path);
    if same(proto_display, "all protocols") {
        s.append("  —  all protocols");
    } else {
        s.append("  —  ");
        s.append(proto_display);
        s.append(extras);
    }
    s
}

// ── The log file ─────────────────────────────────────────────────────────────

/// When a log was begun.
#[derive(Debug, Clone, Copy, PartialEq, Eq, Structural)]
pub struct LogTime {
    pub year: i32,
    pub month: u32,
    pub day: u32,
    pub hour: u32,
    pub minute: u32,
    pub second: u32,
}

/// A number with two digits at least.
pub open spec fn two(n: u32) -> Seq<char> {
    if n < 10 {
        "0"@ + dec(n as nat)
    } else {
        dec(n as nat)
    }
}

/// The last five hexadecimal digits of a number.
pub open spec fn hex5(n: u32) -> Seq<char> {
    seq![
        digit((n / 0x1_0000 % 16) as nat),
        digit((n / 0x1000 % 16) as nat),
        digit((n / 0x100 % 16) as nat),
        digit((n / 0x10 % 16) as nat),
        digit((n % 16) as nat),
    ]
}

/// The name of a log file: when it was begun, what was chosen, and where the name
/// was taken some salt.
pub open spec fn log_file(t: LogTime, prefix: Seq<char>, salt: Option<u32>) -> Seq<char> {
    "avstreamlens_"@ + signed_dec(t.year as int) + "-"@ + two(t.month) + "-"@ + two(t.day) + "_"@
        + two(t.hour) + "-"@ + two(t.minute) + "-"@ + two(t.second) + "_"@ + prefix + (match salt {
        Some(n) => "_"@ + hex5(n),
        None => Seq::empty(),
    }) + ".log"@
}

fn push_two(s: &mut String, n: u32)
    ensures
        final(s)@ == old(s)@ + two(n),
{
    if n < 10 {
        s.append("0");
    }
    push_dec(s, n as u64);
    assert(s@ =~= old(s)@ + two(n));
}

fn push_hex5(s: &mut String, n: u32)
    ensures
        final(s)@ == old(s)@ + hex5(n),
{
    push_hex_digit(s, (n / 0x1_0000 % 16) as u8);
    push_hex_digit(s, (n / 0x1000 % 16) as u8);
    push_hex_digit(s, (n / 0x100 % 16) as u8);
    push_hex_digit(s, (n / 0x10 % 16) as u8);
    push_hex_digit(s, (n % 16) as u8);
    assert(s@ =~= old(s)@ + hex5(n));
}

/// The name of a log file. The first try takes no salt; where that name is taken,
/// the next ones do.
pub fn log_file_name(t: LogTime, prefix: &str, salt: Option<u32>) -> (s: String)
    ensures
        s@ == log_file(t, prefix@, salt),
{
    let mut s: String = String::from_str("avstreamlens_");
    push_signed(&mut s, t.year as i64);
    s.append("-");
    push_two(&mut s, t.month);
    s.append("-");
    push_two(&mut s, t.day);
    s.append("_");
    push_two(&mut s, t.hour);
    s.append("-");
    push_two(&mut s, t.minute);
    s.append("-");
    push_two(&mut s, t.second);
    s.append("_");
    s.append(prefix);
    let ghost front = s@;
    if let Some(n) = salt {
        s.append("_");
        push_hex5(&mut s, n);
    }
    assert(s@ =~= front + (match salt {
        Some(n) => "_"@ + hex5(n),
        None => Seq::empty(),
    }));
    s.append(".log");
    s
}

} // verus!
