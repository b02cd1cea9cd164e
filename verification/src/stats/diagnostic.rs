//! What can be wrong with a stream, how it is worded, and what it costs.

use vstd::prelude::*;

use crate::binary::{lemma_rounded_positive, milliseconds, picoseconds, push_milliseconds, push_picoseconds, push_seconds, push_quotient, quotient_text, round, rounded, seconds};
use crate::text::{dec, fixed, push_dec};

verus! {

/// One point of the health score. Deductions are in millionths of a point.
pub const POINT: u64 = 1_000_000;

/// Nanoseconds in a millisecond.
pub const MILLISECOND_NS: u64 = 1_000_000;

/// A percentage: `part` of the packets of a stream, received and lost. Where
/// there were none at all, they count as one.
#[derive(Debug, Clone, Copy, PartialEq, Eq, Structural)]
pub struct Pct {
    pub part: u64,
    pub received: u64,
    pub lost: u64,
}

/// The packets that a percentage is of.
pub open spec fn pct_whole(p: Pct) -> nat {
    if p.received + p.lost == 0 {
        1
    } else {
        (p.received + p.lost) as nat
    }
}

/// Whether a percentage is above `num / den`.
pub open spec fn pct_above(p: Pct, num: nat, den: nat) -> bool {
    100 * p.part * den > num * pct_whole(p)
}

/// A percentage in text.
pub open spec fn pct_text(p: Pct, decimals: nat) -> Seq<char> {
    quotient_text(rounded(100 * rounded(p.part as nat)), rounded(pct_whole(p)), decimals)
}

/// A percentage in millionths, rounded up, so that it is zero only of nothing.
pub open spec fn pct_millionths(p: Pct) -> nat {
    ((100_000_000 * p.part + pct_whole(p) - 1) / pct_whole(p) as int) as nat
}

impl Pct {
    /// The packets that the percentage is of.
    pub fn whole(&self) -> (r: u128)
        ensures
            r == pct_whole(*self),
            0 < r < 0x2_0000_0000_0000_0000,
    {
        let w: u128 = self.received as u128 + self.lost as u128;
        if w == 0 {
            1
        } else {
            w
        }
    }

    /// Whether the percentage is above `num / den`.
    pub fn above(&self, num: u32, den: u32) -> (r: bool)
        ensures
            r == pct_above(*self, num as nat, den as nat),
    {
        let w: u128 = self.whole();
        assert(100 * self.part * den <= 100 * 0xFFFF_FFFF_FFFF_FFFF * 0xFFFF_FFFF)
            by (nonlinear_arith)
            requires
                0 <= self.part <= 0xFFFF_FFFF_FFFF_FFFF,
                0 <= den <= 0xFFFF_FFFF,
        ;
        assert(num * w <= 0xFFFF_FFFF * 0x2_0000_0000_0000_0000) by (nonlinear_arith)
            requires
                0 <= num <= 0xFFFF_FFFF,
                0 <= w <= 0x2_0000_0000_0000_0000,
        ;
        100 * (self.part as u128) * (den as u128) > (num as u128) * w
    }

    /// The percentage in millionths, rounded up.
    pub fn millionths(&self) -> (r: u128)
        ensures
            r == pct_millionths(*self),
    {
        let w: u128 = self.whole();
        (100_000_000 * (self.part as u128) + w - 1) / w
    }

    /// Appends the percentage.
    pub fn push(&self, s: &mut String, decimals: u32)
        requires
            decimals <= 3,
        ensures
            final(s)@ == old(s)@ + pct_text(*self, decimals as nat),
    {
        let w: u128 = self.whole();
        let part: u128 = round(self.part as u128);
        assert(rounded(pct_whole(*self)) > 0) by {
            lemma_rounded_positive(pct_whole(*self));
        }
        push_quotient(s, round(100 * part), round(w), decimals);
    }
}

/// The variation of transit times. Measured against a rate of zero it is beyond
/// all bounds, or, where the media did not move, no number at all.
#[derive(Debug, Clone, Copy, PartialEq, Eq, Structural)]
pub enum Jitter {
    /// In picoseconds.
    Ps(u64),
    Infinite,
    Undefined,
}

/// Whether jitter is above a number of milliseconds.
pub open spec fn jitter_above(j: Jitter, ms: nat) -> bool {
    match j {
        Jitter::Ps(ps) => ps > 1_000_000_000 * ms,
        Jitter::Infinite => true,
        Jitter::Undefined => false,
    }
}

/// Jitter in milliseconds.
pub open spec fn jitter_text(j: Jitter) -> Seq<char> {
    match j {
        Jitter::Ps(ps) => picoseconds(ps),
        Jitter::Infinite => "inf"@,
        Jitter::Undefined => "NaN"@,
    }
}

impl Jitter {
    /// Whether the jitter is above a number of milliseconds.
    pub fn above(&self, ms: u32) -> (r: bool)
        ensures
            r == jitter_above(*self, ms as nat),
    {
        match self {
            Jitter::Ps(ps) => *ps > 1_000_000_000 * ms as u64,
            Jitter::Infinite => true,
            Jitter::Undefined => false,
        }
    }

    /// Appends the jitter in milliseconds.
    pub fn push(&self, s: &mut String)
        ensures
            final(s)@ == old(s)@ + jitter_text(*self),
    {
        match self {
            Jitter::Ps(ps) => {
                push_picoseconds(s, *ps);
            },
            Jitter::Infinite => {
                s.append("inf");
            },
            Jitter::Undefined => {
                s.append("NaN");
            },
        }
    }
}

/// Which DSCP markings a stream should carry.
#[derive(Debug, Clone, Copy, PartialEq, Eq, Structural)]
pub enum DscpMarking {
    Ef,
    EfAf41OrCs5,
}

pub open spec fn marking_text(m: DscpMarking) -> Seq<char> {
    match m {
        DscpMarking::Ef => "EF (46)"@,
        DscpMarking::EfAf41OrCs5 => "EF (46), AF41 (34), or CS5 (40)"@,
    }
}

impl DscpMarking {
    /// The markings in text.
    pub fn text(&self) -> (s: &'static str)
        ensures
            s@ == marking_text(*self),
    {
        match self {
            DscpMarking::Ef => "EF (46)",
            DscpMarking::EfAf41OrCs5 => "EF (46), AF41 (34), or CS5 (40)",
        }
    }
}

/// A condition of one stream, judged anew in every window. Some lower the health
/// score; the others are only shown.
#[derive(Debug, Clone, Copy, PartialEq, Eq, Structural)]
pub enum StreamDiagnostic {
    PacketLoss { window_count: u64, window_pct: Pct, lifetime_pct: Pct },
    HighJitter { jitter: Jitter },
    TsDiscontinuity { window_count: u64 },
    SsrcChange { count: u64 },
    SignalGap { window_count: u64, max_iat_ns: u64 },
    DscpViolation { count: u64, expected: DscpMarking },
    Dead { silent_ns: u64 },
    Reorder { window_count: u64, pct: Pct },
    TtlRouted { ttl: u8 },
    PtMismatch { count: u64 },
    NotAnnounced,
    UnknownStreamType,
    Aes67PtpLockHint,
    DanteClockOrSubscriptionHint,
    /// An AES67 or ST 2110 frame with a priority other than the recommended one.
    PcpAdvisory { observed: u8 },
}

pub open spec fn least(a: nat, b: nat) -> nat {
    if a <= b {
        a
    } else {
        b
    }
}

/// What a diagnostic of one stream takes off the score.
pub open spec fn cost(d: StreamDiagnostic) -> nat {
    match d {
        StreamDiagnostic::PacketLoss { window_pct, .. } => least(
            pct_millionths(window_pct),
            (10 * POINT) as nat,
        ),
        StreamDiagnostic::HighJitter { jitter } => if jitter_above(jitter, 20) {
            (5 * POINT) as nat
        } else {
            (2 * POINT) as nat
        },
        StreamDiagnostic::TsDiscontinuity { window_count } => 3_000_000 * least(
            window_count as nat,
            5,
        ),
        StreamDiagnostic::SsrcChange { count } => 10_000_000 * least(count as nat, 3),
        StreamDiagnostic::SignalGap { .. } => (10 * POINT) as nat,
        StreamDiagnostic::DscpViolation { .. } => (5 * POINT) as nat,
        StreamDiagnostic::Dead { .. } => (30 * POINT) as nat,
        _ => 0,
    }
}

/// The name of what is wrong.
pub open spec fn category_text(d: StreamDiagnostic) -> Seq<char> {
    match d {
        StreamDiagnostic::PacketLoss { .. } => "packet loss"@,
        StreamDiagnostic::HighJitter { .. } => "high jitter"@,
        StreamDiagnostic::TsDiscontinuity { .. } => "timestamp discontinuities"@,
        StreamDiagnostic::SsrcChange { .. } => "SSRC changes"@,
        StreamDiagnostic::SignalGap { .. } => "signal gaps"@,
        StreamDiagnostic::DscpViolation { .. } => "incorrect DSCP"@,
        StreamDiagnostic::Dead { .. } => "silent"@,
        StreamDiagnostic::Reorder { .. } => "packet reorder"@,
        StreamDiagnostic::TtlRouted { .. } => "routed traffic (TTL)"@,
        StreamDiagnostic::PtMismatch { .. } => "payload type mismatch"@,
        StreamDiagnostic::NotAnnounced => "no SAP announcement"@,
        StreamDiagnostic::UnknownStreamType => "unknown stream type"@,
        StreamDiagnostic::Aes67PtpLockHint => "PTP lock"@,
        StreamDiagnostic::DanteClockOrSubscriptionHint => "clock or subscription issue"@,
        StreamDiagnostic::PcpAdvisory { .. } => "PCP advisory"@,
    }
}

/// The line shown under the stream. Jitter of up to twenty milliseconds has none.
pub open spec fn message_text(d: StreamDiagnostic) -> Option<Seq<char>> {
    match d {
        StreamDiagnostic::TsDiscontinuity { window_count } => Some(
            "    ⚠  Audio glitch risk — timing discontinuity detected ("@ + dec(window_count as nat)
                + " in last 5s)"@,
        ),
        StreamDiagnostic::PacketLoss { window_count, window_pct, lifetime_pct } => Some(
            "    ⚠  Packet loss detected ("@ + dec(window_count as nat) + " in last 5s, "@
                + pct_text(lifetime_pct, 2) + "% cumulative)"@,
        ),
        StreamDiagnostic::Reorder { window_count, pct } => Some(
            "    ⚠  Packet reorder "@ + pct_text(pct, 1) + "% ("@ + dec(window_count as nat)
                + " in last 5s) — possible per-packet load-balancing"@,
        ),
        StreamDiagnostic::DscpViolation { count, expected } => Some(
            "    ⚠  QoS: "@ + dec(count as nat) + " packet(s) not marked "@ + marking_text(expected)
                + " — may be deprioritised by switches"@,
        ),
        StreamDiagnostic::TtlRouted { ttl } => Some(
            "    ⚠  Dante traffic routed (TTL "@ + dec(ttl as nat)
                + ") — Dante is L2-only; a router is in the path"@,
        ),
        StreamDiagnostic::HighJitter { jitter } => if jitter_above(jitter, 20) {
            Some("    ⚠  High jitter — stream quality at risk"@)
        } else {
            None
        },
        StreamDiagnostic::Aes67PtpLockHint => Some("    ⚠  AES67 timing issue — check PTP lock"@),
        StreamDiagnostic::DanteClockOrSubscriptionHint => Some(
            "    ⚠  Dante clock or subscription issue"@,
        ),
        StreamDiagnostic::SsrcChange { count } => Some(
            "    ⚠  Source interrupted and reconnected ("@ + dec(count as nat) + " time(s))"@,
        ),
        StreamDiagnostic::PtMismatch { count } => Some(
            "    ⚠  RTP payload type mismatch ("@ + dec(count as nat)
                + " packet(s)) — encoder/SDP misconfiguration"@,
        ),
        StreamDiagnostic::NotAnnounced => Some(
            "    ⚠  Stream not announced (no SAP) — audio glitch detection unavailable"@,
        ),
        StreamDiagnostic::UnknownStreamType => Some(
            "    ⚠  Stream type unknown — SDP required to classify as video/audio/ancillary"@,
        ),
        StreamDiagnostic::SignalGap { window_count, max_iat_ns } => Some(
            "    ⚠  Signal gap detected ("@ + dec(window_count as nat) + " in last 5s, worst "@
                + milliseconds(max_iat_ns)
                + " ms) — stream interrupted"@,
        ),
        StreamDiagnostic::Dead { silent_ns } => Some(
            "    💀 No signal for "@ + fixed(seconds(silent_ns).0, seconds(silent_ns).1, 0) + "s"@,
        ),
        StreamDiagnostic::PcpAdvisory { observed } => Some(
            "    ⚠  Stream uses PCP "@ + dec(observed as nat)
                + " — PCP 6 recommended for AES67/ST2110 on managed switches"@,
        ),
    }
}

impl StreamDiagnostic {
    /// What this takes off the health score for its stream, caps of one stream
    /// included.
    pub fn deduction(&self) -> (r: u64)
        ensures
            r == cost(*self),
            r <= 30 * POINT,
    {
        match self {
            StreamDiagnostic::PacketLoss { window_pct, .. } => {
                let m: u128 = window_pct.millionths();
                if m <= 10 * POINT as u128 {
                    m as u64
                } else {
                    10 * POINT
                }
            },
            StreamDiagnostic::HighJitter { jitter } => if jitter.above(20) {
                5 * POINT
            } else {
                2 * POINT
            },
            StreamDiagnostic::TsDiscontinuity { window_count } => {
                let n: u64 = if *window_count <= 5 {
                    *window_count
                } else {
                    5
                };
                3_000_000 * n
            },
            StreamDiagnostic::SsrcChange { count } => {
                let n: u64 = if *count <= 3 {
                    *count
                } else {
                    3
                };
                10_000_000 * n
            },
            StreamDiagnostic::SignalGap { .. } => 10 * POINT,
            StreamDiagnostic::DscpViolation { .. } => 5 * POINT,
            StreamDiagnostic::Dead { .. } => 30 * POINT,
            _ => 0,
        }
    }

    /// Whether this is shown as an outage rather than a warning.
    pub fn is_critical(&self) -> (r: bool)
        ensures
            r == (*self is Dead),
    {
        match self {
            StreamDiagnostic::Dead { .. } => true,
            _ => false,
        }
    }

    /// The name of what is wrong, as summaries use it.
    pub fn category(&self) -> (s: &'static str)
        ensures
            s@ == category_text(*self),
    {
        match self {
            StreamDiagnostic::PacketLoss { .. } => "packet loss",
            StreamDiagnostic::HighJitter { .. } => "high jitter",
            StreamDiagnostic::TsDiscontinuity { .. } => "timestamp discontinuities",
            StreamDiagnostic::SsrcChange { .. } => "SSRC changes",
            StreamDiagnostic::SignalGap { .. } => "signal gaps",
            StreamDiagnostic::DscpViolation { .. } => "incorrect DSCP",
            StreamDiagnostic::Dead { .. } => "silent",
            StreamDiagnostic::Reorder { .. } => "packet reorder",
            StreamDiagnostic::TtlRouted { .. } => "routed traffic (TTL)",
            StreamDiagnostic::PtMismatch { .. } => "payload type mismatch",
            StreamDiagnostic::NotAnnounced => "no SAP announcement",
            StreamDiagnostic::UnknownStreamType => "unknown stream type",
            StreamDiagnostic::Aes67PtpLockHint => "PTP lock",
            StreamDiagnostic::DanteClockOrSubscriptionHint => "clock or subscription issue",
            StreamDiagnostic::PcpAdvisory { .. } => "PCP advisory",
        }
    }

    /// The line shown under the stream, with its indent and mark.
    pub fn message(&self) -> (r: Option<String>)
        ensures
            match r {
                Some(s) => message_text(*self) == Some(s@),
                None => message_text(*self) is None,
            },
    {
        let mut s: String = String::from_str("    ⚠  ");
        match self {
            StreamDiagnostic::TsDiscontinuity { window_count } => {
                s = String::from_str(
                    "    ⚠  Audio glitch risk — timing discontinuity detected (",
                );
                push_dec(&mut s, *window_count);
                s.append(" in last 5s)");
            },
            StreamDiagnostic::PacketLoss { window_count, lifetime_pct, .. } => {
                s = String::from_str("    ⚠  Packet loss detected (");
                push_dec(&mut s, *window_count);
                s.append(" in last 5s, ");
                lifetime_pct.push(&mut s, 2);
                s.append("% cumulative)");
            },
            StreamDiagnostic::Reorder { window_count, pct } => {
                s = String::from_str("    ⚠  Packet reorder ");
                pct.push(&mut s, 1);
                s.append("% (");
                push_dec(&mut s, *window_count);
                s.append(" in last 5s) — possible per-packet load-balancing");
            },
            StreamDiagnostic::DscpViolation { count, expected } => {
                s = String::from_str("    ⚠  QoS: ");
                push_dec(&mut s, *count);
                s.append(" packet(s) not marked ");
                s.append(expected.text());
                s.append(" — may be deprioritised by switches");
            },
            StreamDiagnostic::TtlRouted { ttl } => {
                s = String::from_str("    ⚠  Dante traffic routed (TTL ");
                push_dec(&mut s, *ttl as u64);
                s.append(") — Dante is L2-only; a router is in the path");
            },
            StreamDiagnostic::HighJitter { jitter } => {
                if !jitter.above(20) {
                    return None;
                }
                s = String::from_str("    ⚠  High jitter — stream quality at risk");
            },
            StreamDiagnostic::Aes67PtpLockHint => {
                s = String::from_str("    ⚠  AES67 timing issue — check PTP lock");
            },
            StreamDiagnostic::DanteClockOrSubscriptionHint => {
                s = String::from_str("    ⚠  Dante clock or subscription issue");
            },
            StreamDiagnostic::SsrcChange { count } => {
                s = String::from_str("    ⚠  Source interrupted and reconnected (");
                push_dec(&mut s, *count);
                s.append(" time(s))");
            },
            StreamDiagnostic::PtMismatch { count } => {
                s = String::from_str("    ⚠  RTP payload type mismatch (");
                push_dec(&mut s, *count);
                s.append(" packet(s)) — encoder/SDP misconfiguration");
            },
            StreamDiagnostic::NotAnnounced => {
                s = String::from_str(
                    "    ⚠  Stream not announced (no SAP) — audio glitch detection unavailable",
                );
            },
            StreamDiagnostic::UnknownStreamType => {
                s = String::from_str(
                    "    ⚠  Stream type unknown — SDP required to classify as video/audio/ancillary",
                );
            },
            StreamDiagnostic::SignalGap { window_count, max_iat_ns } => {
                s = String::from_str("    ⚠  Signal gap detected (");
                push_dec(&mut s, *window_count);
                s.append(" in last 5s, worst ");
                push_milliseconds(&mut s, *max_iat_ns);
                s.append(" ms) — stream interrupted");
            },
            StreamDiagnostic::Dead { silent_ns } => {
                s = String::from_str("    💀 No signal for ");
                push_seconds(&mut s, *silent_ns);
                s.append("s");
            },
            StreamDiagnostic::PcpAdvisory { observed } => {
                s = String::from_str("    ⚠  Stream uses PCP ");
                push_dec(&mut s, *observed as u64);
                s.append(" — PCP 6 recommended for AES67/ST2110 on managed switches");
            },
        }
        Some(s)
    }
}

/// Loss costs something exactly where packets were lost, and never more than ten
/// points.
pub proof fn law_loss_costs(window_count: u64, window_pct: Pct, lifetime_pct: Pct)
    ensures
        ({
            let c = cost(StreamDiagnostic::PacketLoss { window_count, window_pct, lifetime_pct });
            c <= 10 * POINT && (c > 0 <==> window_pct.part > 0)
        }),
{
    let w = pct_whole(window_pct) as int;
    let n = 100_000_000 * window_pct.part + w - 1;
    if window_pct.part > 0 {
        assert(n / w >= 1) by (nonlinear_arith)
            requires
                n >= w,
                w > 0,
        ;
    } else {
        assert(n / w == 0) by (nonlinear_arith)
            requires
                0 <= n < w,
        ;
    }
}

/// What is only shown costs nothing; an outage costs thirty points.
pub proof fn law_informational_is_free(d: StreamDiagnostic)
    ensures
        (d is Reorder || d is TtlRouted || d is PtMismatch || d is NotAnnounced
            || d is UnknownStreamType || d is Aes67PtpLockHint || d is DanteClockOrSubscriptionHint
            || d is PcpAdvisory) ==> cost(d) == 0,
        d is Dead ==> cost(d) == 30 * POINT,
{
}

} // verus!
