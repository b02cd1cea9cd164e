//! Counters of one audio or video stream.

use vstd::prelude::*;

use crate::binary::{capped, each_second, per_second, round, rounded};
use crate::net::Ipv4Addr;
use crate::protocols::{hertz, microhertz, SdpMedia, SdpMediaView, TransmitterVerdict, SECOND, STREAM_TIMEOUT_SECS};
use crate::scan::{begins, begins_with, chars_of, opt_text, ENDLESS};
use crate::stats::diagnostic::{jitter_above, pct_above, DscpMarking, Jitter, Pct, StreamDiagnostic, MILLISECOND_NS};
use crate::text::same;

verus! {

/// What is known of one stream.
#[derive(Debug)]
pub struct StreamStats {
    pub protocol: String,
    pub packets: u64,
    pub lost_packets: u64,
    pub last_seq: Option<u16>,
    /// The smoothed variation of transit times.
    pub jitter: Jitter,
    pub last_rtp_ts: Option<u32>,
    pub last_arrival: Option<u64>,
    /// The media clock rate in microhertz, zero for a stream without one.
    pub clock_uhz: i64,
    pub sdp_name: Option<String>,
    pub sdp_rtpmap: Option<String>,
    pub is_multicast: bool,
    /// The sender, kept for Dante flows so that a name found later can be given.
    pub src_ip: Option<Ipv4Addr>,
    pub dst_ip: Option<Ipv4Addr>,
    pub dst_port: u16,
    /// "audio", "video", "ancillary" or "unknown".
    pub media_type: String,
    pub channels: u8,
    pub bitrate_bps: u64,
    pub last_bitrate_check: u64,
    pub packets_at_check: u64,
    pub ts_discontinuities: u64,
    pub last_ts_diff: Option<i64>,
    /// The announced packet time in nanoseconds, zero while unknown.
    pub ptime_ns: i64,
    pub bytes_total: u64,
    pub bytes_at_check: u64,
    pub last_ssrc: Option<u32>,
    pub ssrc_changes: u64,
    pub last_packet_time: Option<u64>,
    /// The announced payload type.
    pub expected_pt: Option<u8>,
    pub pt_mismatches: u64,
    /// Whether the clock rate was announced or inferred rather than assumed.
    pub clock_hz_confirmed: bool,
    /// Arrivals more than fifty milliseconds apart in this window.
    pub gap_events: u64,
    /// The longest time between arrivals in this window.
    pub max_iat_ns: u64,
    pub dscp_violations: u64,
    pub lost_this_window: u64,
    pub ts_discontinuities_this_window: u64,
    pub reorders_this_window: u64,
    pub packets_this_window: u64,
    /// Whether any packet was RTP. Dante's own transport is not.
    pub rtp_seen: bool,
    /// The lowest TTL seen.
    pub min_ttl: Option<u8>,
    /// Timestamp steps gathered to infer the clock rate.
    pub ts_delta_samples: Vec<i64>,
    pub transmitter: Option<TransmitterVerdict>,
    /// Recent times between arrivals, in nanoseconds.
    pub iat_samples: IatRing,
    /// The DSCP of the first packet.
    pub observed_dscp: Option<u8>,
    pub pcp_violations: u64,
    /// The first priority that was not the recommended one.
    pub observed_pcp: Option<u8>,
}

/// What is known of one stream, in specifications.
pub struct StreamView {
    pub protocol: Seq<char>,
    pub packets: u64,
    pub lost_packets: u64,
    pub last_seq: Option<u16>,
    pub jitter: Jitter,
    pub last_rtp_ts: Option<u32>,
    pub last_arrival: Option<u64>,
    pub clock_uhz: i64,
    pub sdp_name: Option<Seq<char>>,
    pub sdp_rtpmap: Option<Seq<char>>,
    pub is_multicast: bool,
    pub src_ip: Option<Ipv4Addr>,
    pub dst_ip: Option<Ipv4Addr>,
    pub dst_port: u16,
    pub media_type: Seq<char>,
    pub channels: u8,
    pub bitrate_bps: u64,
    pub last_bitrate_check: u64,
    pub packets_at_check: u64,
    pub ts_discontinuities: u64,
    pub last_ts_diff: Option<i64>,
    pub ptime_ns: i64,
    pub bytes_total: u64,
    pub bytes_at_check: u64,
    pub last_ssrc: Option<u32>,
    pub ssrc_changes: u64,
    pub last_packet_time: Option<u64>,
    pub expected_pt: Option<u8>,
    pub pt_mismatches: u64,
    pub clock_hz_confirmed: bool,
    pub gap_events: u64,
    pub max_iat_ns: u64,
    pub dscp_violations: u64,
    pub lost_this_window: u64,
    pub ts_discontinuities_this_window: u64,
    pub reorders_this_window: u64,
    pub packets_this_window: u64,
    pub rtp_seen: bool,
    pub min_ttl: Option<u8>,
    pub ts_delta_samples: Seq<i64>,
    pub transmitter: Option<TransmitterVerdict>,
    pub iat_samples: Seq<u64>,
    pub observed_dscp: Option<u8>,
    pub pcp_violations: u64,
    pub observed_pcp: Option<u8>,
}

impl View for StreamStats {
    type V = StreamView;

    open spec fn view(&self) -> StreamView {
        StreamView {
            protocol: self.protocol@,
            packets: self.packets,
            lost_packets: self.lost_packets,
            last_seq: self.last_seq,
            jitter: self.jitter,
            last_rtp_ts: self.last_rtp_ts,
            last_arrival: self.last_arrival,
            clock_uhz: self.clock_uhz,
            sdp_name: opt_text(self.sdp_name),
            sdp_rtpmap: opt_text(self.sdp_rtpmap),
            is_multicast: self.is_multicast,
            src_ip: self.src_ip,
            dst_ip: self.dst_ip,
            dst_port: self.dst_port,
            media_type: self.media_type@,
            channels: self.channels,
            bitrate_bps: self.bitrate_bps,
            last_bitrate_check: self.last_bitrate_check,
            packets_at_check: self.packets_at_check,
            ts_discontinuities: self.ts_discontinuities,
            last_ts_diff: self.last_ts_diff,
            ptime_ns: self.ptime_ns,
            bytes_total: self.bytes_total,
            bytes_at_check: self.bytes_at_check,
            last_ssrc: self.last_ssrc,
            ssrc_changes: self.ssrc_changes,
            last_packet_time: self.last_packet_time,
            expected_pt: self.expected_pt,
            pt_mismatches: self.pt_mismatches,
            clock_hz_confirmed: self.clock_hz_confirmed,
            gap_events: self.gap_events,
            max_iat_ns: self.max_iat_ns,
            dscp_violations: self.dscp_violations,
            lost_this_window: self.lost_this_window,
            ts_discontinuities_this_window: self.ts_discontinuities_this_window,
            reorders_this_window: self.reorders_this_window,
            packets_this_window: self.packets_this_window,
            rtp_seen: self.rtp_seen,
            min_ttl: self.min_ttl,
            ts_delta_samples: self.ts_delta_samples@,
            transmitter: self.transmitter,
            iat_samples: self.iat_samples@,
            observed_dscp: self.observed_dscp,
            pcp_violations: self.pcp_violations,
            observed_pcp: self.observed_pcp,
        }
    }
}

// ── Sequence numbers ─────────────────────────────────────────────────────────

/// How far a sequence number is beyond the one that was due, modulo 2^16.
pub open spec fn seq_step(last: u16, seq: u16) -> u16 {
    seq.wrapping_sub(last.wrapping_add(1))
}

/// The stream after a packet with the given sequence number.
pub open spec fn with_seq(v: StreamView, seq: u16) -> StreamView {
    StreamView {
        packets: v.packets.wrapping_add(1),
        packets_this_window: v.packets_this_window.wrapping_add(1),
        rtp_seen: true,
        last_seq: Some(seq),
        ..v
    }
}

/// The stream with what a sequence number tells of: a step ahead is a loss of as
/// many packets, a step back is a packet out of order.
pub open spec fn with_losses(v: StreamView, seq: u16) -> StreamView {
    match v.last_seq {
        Some(last) => {
            let step = seq_step(last, seq);
            if step == 0 {
                v
            } else if step < 0x8000 {
                StreamView {
                    lost_packets: v.lost_packets.wrapping_add(step as u64),
                    lost_this_window: v.lost_this_window.wrapping_add(step as u64),
                    ..v
                }
            } else {
                StreamView { reorders_this_window: v.reorders_this_window.wrapping_add(1), ..v }
            }
        },
        None => v,
    }
}

// ── Timestamps ───────────────────────────────────────────────────────────────

/// The step between two RTP timestamps, which wrap.
pub open spec fn ts_step(last: u32, ts: u32) -> int {
    let d = ts.wrapping_sub(last);
    if d < 0x8000_0000 {
        d as int
    } else {
        d - 0x1_0000_0000
    }
}

fn ts_delta(last: u32, ts: u32) -> (r: i64)
    ensures
        r == ts_step(last, ts),
        -0x8000_0000 <= r < 0x8000_0000,
{
    let d: u32 = ts.wrapping_sub(last);
    if d < 0x8000_0000 {
        d as i64
    } else {
        d as i64 - 0x1_0000_0000
    }
}

/// The timestamp step due for one packet; a packet time that is not announced
/// counts as a millisecond, a clock rate that is not known as 48 kHz. In an endless
/// time, and at an endless rate, more is due than ever comes.
pub open spec fn due_step(v: StreamView) -> nat {
    let ptime = if v.ptime_ns > 0 {
        v.ptime_ns
    } else {
        1_000_000
    };
    if v.clock_uhz == ENDLESS || ptime == ENDLESS {
        i64::MAX as nat
    } else if v.clock_uhz > 0 {
        ((v.clock_uhz * ptime) / 1_000_000_000_000_000) as nat
    } else {
        48
    }
}

/// Whether a step is under half or over one and a half of what is due.
pub open spec fn discontinuous(due: nat, step: int) -> bool {
    due > 0 && (2 * step < due || 2 * step > 3 * due)
}

/// The stream after its timestamp was checked. Only a confirmed clock rate is
/// checked against.
pub open spec fn with_ts_check(v: StreamView, ts: u32) -> StreamView {
    match v.last_rtp_ts {
        Some(last) => if v.clock_hz_confirmed {
            let step = ts_step(last, ts);
            if discontinuous(due_step(v), step) {
                StreamView {
                    ts_discontinuities: v.ts_discontinuities.wrapping_add(1),
                    ts_discontinuities_this_window: v.ts_discontinuities_this_window.wrapping_add(
                        1,
                    ),
                    last_ts_diff: Some(step as i64),
                    ..v
                }
            } else {
                StreamView { last_ts_diff: Some(step as i64), ..v }
            }
        } else {
            v
        },
        None => v,
    }
}

// ── Clock rate inference ─────────────────────────────────────────────────────

/// How often a value occurs.
pub open spec fn times(s: Seq<i64>, x: i64) -> nat
    decreases s.len(),
{
    if s.len() == 0 {
        0
    } else if s.last() == x {
        times(s.drop_last(), x) + 1
    } else {
        times(s.drop_last(), x)
    }
}

/// Whether `a` is more common than `b`, or as common and smaller.
pub open spec fn outranks(s: Seq<i64>, a: i64, b: i64) -> bool {
    times(s, a) > times(s, b) || (times(s, a) == times(s, b) && a < b)
}

/// The most common of the first `n` values, counted over all of `s`.
pub open spec fn leader(s: Seq<i64>, n: int) -> i64
    decreases n,
{
    if n <= 1 {
        s[0]
    } else if outranks(s, s[n - 1], leader(s, n - 1)) {
        s[n - 1]
    } else {
        leader(s, n - 1)
    }
}

/// The most common value, the smallest of equally common ones.
pub open spec fn mode(s: Seq<i64>) -> i64 {
    leader(s, s.len() as int)
}

/// The mode is one of the values, and none is more common.
pub proof fn law_mode_is_most_common(s: Seq<i64>)
    requires
        s.len() > 0,
    ensures
        s.contains(mode(s)),
        forall|i: int| 0 <= i < s.len() ==> !outranks(s, #[trigger] s[i], mode(s)),
{
    lemma_leader(s, s.len() as int);
}

proof fn lemma_leader(s: Seq<i64>, n: int)
    requires
        1 <= n <= s.len(),
    ensures
        s.contains(leader(s, n)),
        forall|i: int| 0 <= i < n ==> !outranks(s, #[trigger] s[i], leader(s, n)),
    decreases n,
{
    if n > 1 {
        lemma_leader(s, n - 1);
        assert(s.contains(s[n - 1]));
    } else {
        assert(s.contains(s[0]));
    }
}

/// The clock rate and packet time that a timestamp step stands for.
pub open spec fn known_rate(step: i64) -> Option<(u32, u64)> {
    if step == 48 {
        Some((48_000, 1_000_000))
    } else if step == 24 {
        Some((48_000, 500_000))
    } else if step == 96 {
        Some((48_000, 2_000_000))
    } else if step == 192 {
        Some((48_000, 4_000_000))
    } else if step == 384 {
        Some((48_000, 8_000_000))
    } else if step == 480 {
        Some((48_000, 10_000_000))
    } else if step == 960 {
        Some((48_000, 20_000_000))
    } else if step == 12 {
        Some((48_000, 250_000))
    } else if step == 6 {
        Some((48_000, 125_000))
    } else if step == 441 {
        Some((44_100, 10_000_000))
    } else if step == 882 {
        Some((44_100, 20_000_000))
    } else {
        None
    }
}

/// The step that a rate and a packet time give is the step they are known by.
pub proof fn law_known_rates_fit(step: i64)
    ensures
        known_rate(step) matches Some((hz, ptime)) ==> hz * ptime == step * SECOND,
{
}

fn rate_of(step: i64) -> (r: Option<(u32, u64)>)
    ensures
        r == known_rate(step),
{
    match step {
        48 => Some((48_000, 1_000_000)),
        24 => Some((48_000, 500_000)),
        96 => Some((48_000, 2_000_000)),
        192 => Some((48_000, 4_000_000)),
        384 => Some((48_000, 8_000_000)),
        480 => Some((48_000, 10_000_000)),
        960 => Some((48_000, 20_000_000)),
        12 => Some((48_000, 250_000)),
        6 => Some((48_000, 125_000)),
        441 => Some((44_100, 10_000_000)),
        882 => Some((44_100, 20_000_000)),
        _ => None,
    }
}

fn count_of(s: &Vec<i64>, x: i64) -> (n: usize)
    ensures
        n == times(s@, x),
        n <= s@.len(),
{
    let mut n: usize = 0;
    let mut i: usize = 0;
    assert(s@.take(0) =~= Seq::empty());
    while i < s.len()
        invariant
            i <= s@.len(),
            n <= i,
            n == times(s@.take(i as int), x),
        decreases s@.len() - i,
    {
        assert(s@.take(i + 1).drop_last() =~= s@.take(i as int));
        if s[i] == x {
            n += 1;
        }
        i += 1;
    }
    assert(s@.take(i as int) =~= s@);
    n
}

fn most_common(s: &Vec<i64>) -> (r: i64)
    requires
        s@.len() > 0,
    ensures
        r == mode(s@),
{
    let mut best: i64 = s[0];
    let mut count: usize = count_of(s, best);
    let mut i: usize = 1;
    while i < s.len()
        invariant
            1 <= i <= s@.len(),
            best == leader(s@, i as int),
            count == times(s@, best),
        decreases s@.len() - i,
    {
        let n: usize = count_of(s, s[i]);
        if n > count || (n == count && s[i] < best) {
            best = s[i];
            count = n;
        }
        i += 1;
    }
    best
}

/// The stream with the clock rate that its steps stand for.
pub open spec fn with_inferred(v: StreamView) -> StreamView {
    match known_rate(mode(v.ts_delta_samples)) {
        Some((hz, ptime)) => StreamView {
            clock_uhz: microhertz(hz),
            ptime_ns: ptime as i64,
            clock_hz_confirmed: true,
            ..v
        },
        None => v,
    }
}

/// The stream after a step was gathered. Eight steps make a verdict.
pub open spec fn with_sample(v: StreamView, ts: u32) -> StreamView {
    match v.last_rtp_ts {
        Some(last) => if !v.clock_hz_confirmed && ts_step(last, ts) > 0 {
            let w = StreamView {
                ts_delta_samples: v.ts_delta_samples.push(ts_step(last, ts) as i64),
                ..v
            };
            if w.ts_delta_samples.len() >= 8 {
                StreamView { ts_delta_samples: Seq::empty(), ..with_inferred(w) }
            } else {
                w
            }
        } else {
            v
        },
        None => v,
    }
}

// ── Arrival times ────────────────────────────────────────────────────────────

/// How many arrival times are kept.
pub const MAX_IAT_SAMPLES: usize = 64;

/// How many arrival times a verdict on regularity takes.
pub const MIN_IAT_SAMPLES: usize = 16;

/// The time since `then`.
pub open spec fn since(now: u64, then: u64) -> u64 {
    now.saturating_sub(then)
}

/// The times between arrivals with one more; the oldest leaves.
pub open spec fn iats_with(s: Seq<u64>, iat: u64) -> Seq<u64> {
    if iat == 0 {
        s
    } else if s.len() >= MAX_IAT_SAMPLES {
        s.skip(1).push(iat)
    } else {
        s.push(iat)
    }
}

/// A number in two parts, the first counting for 2^64 each.
pub open spec fn wide(hi: u128, lo: u128) -> int {
    hi * 0x1_0000_0000_0000_0000 + lo
}

fn wide_less(h1: u128, l1: u128, h2: u128, l2: u128) -> (r: bool)
    requires
        h1 < 0x1_0000_0000_0000_0000_0000_0000,
        h2 < 0x1_0000_0000_0000_0000_0000_0000,
    ensures
        r == (wide(h1, l1) < wide(h2, l2)),
{
    let a: u128 = h1 + l1 / 0x1_0000_0000_0000_0000;
    let b: u128 = h2 + l2 / 0x1_0000_0000_0000_0000;
    a < b || (a == b && l1 % 0x1_0000_0000_0000_0000 < l2 % 0x1_0000_0000_0000_0000)
}

/// The square of a number below 2^70, in two parts.
fn wide_square(n: u128) -> (r: (u128, u128))
    requires
        n < 0x40_0000_0000_0000_0000,
    ensures
        wide(r.0, r.1) == n * n,
        r.0 < 0x4000_0000_0000_0000_0000,
        r.1 < 0x1_0000_0000_0000_0000,
{
    let a: u128 = n / 0x1_0000_0000_0000_0000;
    let b: u128 = n % 0x1_0000_0000_0000_0000;
    assert(n * n == a * a * 0x1_0000_0000_0000_0000 * 0x1_0000_0000_0000_0000 + 2 * (a * b)
        * 0x1_0000_0000_0000_0000 + b * b) by (nonlinear_arith)
        requires
            n == a * 0x1_0000_0000_0000_0000 + b,
    ;
    assert(0 <= a * a <= 63 * 63 && 0 <= a * b <= 63 * 0xFFFF_FFFF_FFFF_FFFF && 0 <= b * b
        <= 0xFFFF_FFFF_FFFF_FFFF * 0xFFFF_FFFF_FFFF_FFFF) by (nonlinear_arith)
        requires
            0 <= a <= 63,
            0 <= b <= 0xFFFF_FFFF_FFFF_FFFF,
    ;
    let c: u128 = b * b;
    (
        a * a * 0x1_0000_0000_0000_0000 + 2 * (a * b) + c / 0x1_0000_0000_0000_0000,
        c % 0x1_0000_0000_0000_0000,
    )
}

/// Recent times between arrivals, in nanoseconds.
#[derive(Debug)]
pub struct IatRing {
    samples: Vec<u64>,
}

impl View for IatRing {
    type V = Seq<u64>;

    closed spec fn view(&self) -> Seq<u64> {
        self.samples@
    }
}

impl IatRing {
    #[verifier::type_invariant]
    spec fn bounded(self) -> bool {
        self.samples@.len() <= MAX_IAT_SAMPLES
    }

    /// No sample yet.
    pub fn new() -> (r: Self)
        ensures
            r@ == Seq::<u64>::empty(),
    {
        IatRing { samples: Vec::new() }
    }

    /// How many samples there are.
    pub fn len(&self) -> (n: usize)
        ensures
            n == self@.len(),
    {
        self.samples.len()
    }

    /// Adds a time; the oldest leaves. No time at all is no sample.
    pub fn push(&mut self, iat: u64)
        ensures
            final(self)@ == iats_with(old(self)@, iat),
    {
        proof {
            use_type_invariant(&*self);
        }
        if iat == 0 {
            return;
        }
        let mut v: Vec<u64> = Vec::new();
        std::mem::swap(&mut v, &mut self.samples);
        let ghost before = v@;
        if v.len() >= MAX_IAT_SAMPLES {
            v.remove(0);
            assert(v@ =~= before.skip(1));
        }
        v.push(iat);
        self.samples = v;
    }

    /// Whether the times are regular.
    pub fn metronomic(&self) -> (r: Option<bool>)
        ensures
            r == regularity(self@),
    {
        proof {
            use_type_invariant(self);
        }
        let s: &Vec<u64> = &self.samples;
        let n: usize = s.len();
        if n < MIN_IAT_SAMPLES {
            return None;
        }
        let mut total: u128 = 0;
        let mut hi: u128 = 0;
        let mut lo: u128 = 0;
        let mut i: usize = 0;
        assert(s@.take(0) =~= Seq::empty());
        while i < n
            invariant
                n == s@.len(),
                n <= 64,
                i <= n,
                total == sum(s@.take(i as int)),
                wide(hi, lo) == squares(s@.take(i as int)),
                total <= i * 0xFFFF_FFFF_FFFF_FFFF,
                hi <= i * 0xFFFF_FFFF_FFFF_FFFF,
                lo <= i * 0xFFFF_FFFF_FFFF_FFFF,
            decreases n - i,
        {
            let x: u128 = s[i] as u128;
            assert(s@.take(i + 1).drop_last() =~= s@.take(i as int));
            assert(x * x <= 0xFFFF_FFFF_FFFF_FFFF * 0xFFFF_FFFF_FFFF_FFFF) by (nonlinear_arith)
                requires
                    0 <= x <= 0xFFFF_FFFF_FFFF_FFFF,
            ;
            let p: u128 = x * x;
            total = total + x;
            hi = hi + p / 0x1_0000_0000_0000_0000;
            lo = lo + p % 0x1_0000_0000_0000_0000;
            i += 1;
        }
        assert(s@.take(n as int) =~= s@);
        if total == 0 {
            return None;
        }
        let (sum_hi, sum_lo) = wide_square(total);
        let k: u128 = n as u128;
        assert(0 <= k * hi <= 64 * hi && 0 <= k * lo <= 64 * lo && wide(
            (k * hi) as u128,
            (k * lo) as u128,
        ) == k * wide(hi, lo)) by (nonlinear_arith)
            requires
                0 <= k <= 64,
                0 <= hi <= 64 * 0xFFFF_FFFF_FFFF_FFFF,
                0 <= lo <= 64 * 0xFFFF_FFFF_FFFF_FFFF,
        ;
        let scaled_hi: u128 = k * hi;
        let scaled_lo: u128 = k * lo;
        if wide_less(100 * scaled_hi, 100 * scaled_lo, 101 * sum_hi, 101 * sum_lo) {
            Some(true)
        } else if wide_less(109 * sum_hi, 109 * sum_lo, 100 * scaled_hi, 100 * scaled_lo) {
            Some(false)
        } else {
            None
        }
    }
}

/// The stream with the time since its last arrival among the samples.
pub open spec fn with_iat(v: StreamView, now: u64) -> StreamView {
    match v.last_arrival {
        Some(last) => StreamView {
            iat_samples: iats_with(v.iat_samples, since(now, last)),
            ..v
        },
        None => v,
    }
}

/// The stream after its gaps were judged, which takes an announced packet time.
pub open spec fn with_gap(v: StreamView, now: u64) -> StreamView {
    match v.last_arrival {
        Some(last) => if v.ptime_ns > 0 {
            let iat = since(now, last);
            StreamView {
                max_iat_ns: if iat > v.max_iat_ns {
                    iat
                } else {
                    v.max_iat_ns
                },
                gap_events: if iat > 50 * MILLISECOND_NS {
                    v.gap_events.wrapping_add(1)
                } else {
                    v.gap_events
                },
                ..v
            }
        } else {
            v
        },
        None => v,
    }
}

pub open spec fn magnitude(n: int) -> nat {
    if n < 0 {
        (-n) as nat
    } else {
        n as nat
    }
}

/// How many picoseconds of media time a number of timestamp steps lasts at a rate of
/// either sign. At an endless rate they take no time.
pub open spec fn media_time(steps: nat, uhz: nat) -> nat {
    if uhz == ENDLESS {
        0
    } else {
        steps * 1_000_000_000_000_000_000 / uhz
    }
}

/// By how many picoseconds the arrival differs from the media time, at most what
/// the counter holds. The media goes back by a step back, or by a step at a rate below
/// zero.
pub open spec fn transit_change(iat: u64, step: int, uhz: i64) -> u64 {
    let media = media_time(magnitude(step), magnitude(uhz as int));
    capped(
        if (step < 0) != (uhz < 0) {
            (iat * 1000 + media) as nat
        } else {
            magnitude(iat * 1000 - media)
        },
    )
}

/// The jitter moved by a sixteenth of its distance to `d`, rounded towards where
/// it was.
pub open spec fn smoothed(j: u64, d: u64) -> u64 {
    if d >= j {
        (j + (d - j) / 16) as u64
    } else {
        (j - (j - d) / 16) as u64
    }
}

/// The jitter after a packet. A rate of zero makes the media time of any step
/// endless, and that of none undefined; what is not finite never becomes so again.
pub open spec fn jitter_after(j: Jitter, iat: u64, step: int, uhz: i64) -> Jitter {
    match j {
        Jitter::Ps(ps) => if uhz != 0 {
            Jitter::Ps(smoothed(ps, transit_change(iat, step, uhz)))
        } else if step != 0 {
            Jitter::Infinite
        } else {
            Jitter::Undefined
        },
        _ => Jitter::Undefined,
    }
}

/// The stream after its jitter was updated.
pub open spec fn with_jitter(v: StreamView, ts: u32, now: u64) -> StreamView {
    match (v.last_rtp_ts, v.last_arrival) {
        (Some(last_ts), Some(last)) => StreamView {
            jitter: jitter_after(v.jitter, since(now, last), ts_step(last_ts, ts), v.clock_uhz),
            ..v
        },
        _ => v,
    }
}

fn change_of(iat: u64, step: i64, uhz: i64) -> (r: u64)
    requires
        uhz != 0,
        -0x8000_0000 <= step < 0x8000_0000,
    ensures
        r == transit_change(iat, step as int, uhz),
{
    let steps: u128 = if step < 0 {
        (-step) as u128
    } else {
        step as u128
    };
    let speed: u128 = if uhz < 0 {
        (-(uhz as i128)) as u128
    } else {
        uhz as u128
    };
    let media: u128 = if speed == ENDLESS as u128 {
        0
    } else {
        steps * 1_000_000_000_000_000_000 / speed
    };
    assert(media <= steps * 1_000_000_000_000_000_000) by (nonlinear_arith)
        requires
            speed > 0,
            media == 0 || media == (steps * 1_000_000_000_000_000_000) / speed as int,
            steps >= 0,
    ;
    let arrival: u128 = iat as u128 * 1000;
    let d: u128 = if (step < 0) != (uhz < 0) {
        arrival + media
    } else if arrival >= media {
        arrival - media
    } else {
        media - arrival
    };
    if d > u64::MAX as u128 {
        u64::MAX
    } else {
        d as u64
    }
}

fn next_jitter(j: Jitter, iat: u64, step: i64, uhz: i64) -> (r: Jitter)
    requires
        -0x8000_0000 <= step < 0x8000_0000,
    ensures
        r == jitter_after(j, iat, step as int, uhz),
{
    match j {
        Jitter::Ps(ps) => if uhz != 0 {
            let d: u64 = change_of(iat, step, uhz);
            Jitter::Ps(
                if d >= ps {
                    ps + (d - ps) / 16
                } else {
                    ps - (ps - d) / 16
                },
            )
        } else if step != 0 {
            Jitter::Infinite
        } else {
            Jitter::Undefined
        },
        _ => Jitter::Undefined,
    }
}

/// The sum of the samples.
pub open spec fn sum(s: Seq<u64>) -> nat
    decreases s.len(),
{
    if s.len() == 0 {
        0
    } else {
        sum(s.drop_last()) + s.last() as nat
    }
}

/// The sum of the squares of the samples.
pub open spec fn squares(s: Seq<u64>) -> nat
    decreases s.len(),
{
    if s.len() == 0 {
        0
    } else {
        squares(s.drop_last()) + s.last() as nat * s.last() as nat
    }
}

/// The square of the standard deviation times `n²`, for `n` samples: with the
/// square of the sum it gives the square of the coefficient of variation.
pub open spec fn spread(s: Seq<u64>) -> int {
    s.len() * squares(s) - sum(s) * sum(s)
}

/// Whether arrivals are regular: a coefficient of variation under a tenth is, one
/// over three tenths is not, and between them there is no verdict.
pub open spec fn regularity(s: Seq<u64>) -> Option<bool> {
    if s.len() < MIN_IAT_SAMPLES || sum(s) == 0 {
        None
    } else if 100 * spread(s) < sum(s) * sum(s) {
        Some(true)
    } else if 100 * spread(s) > 9 * (sum(s) * sum(s)) {
        Some(false)
    } else {
        None
    }
}

// ── Source and bitrate ───────────────────────────────────────────────────────

/// Bits per second of `bytes` in `elapsed` nanoseconds, at most what the counter
/// holds.
#[verifier::opaque]
pub open spec fn rate(bytes: u64, elapsed: u64) -> u64 {
    per_second(rounded(bytes as nat) * 8, elapsed)
}

/// Bits per second of `bytes` in `elapsed` nanoseconds, a second at least.
pub fn bits_per_second(bytes: u64, elapsed: u64) -> (r: u64)
    requires
        elapsed >= 1_000_000_000,
    ensures
        r == rate(bytes, elapsed),
{
    reveal(rate);
    each_second(round(bytes as u128) * 8, elapsed)
}

/// The stream after the source of a packet was noted.
pub open spec fn with_source(v: StreamView, ssrc: u32) -> StreamView {
    StreamView {
        ssrc_changes: match v.last_ssrc {
            Some(prev) => if prev != ssrc {
                v.ssrc_changes.wrapping_add(1)
            } else {
                v.ssrc_changes
            },
            None => v.ssrc_changes,
        },
        last_ssrc: Some(ssrc),
        ..v
    }
}

/// The stream after the bytes of a packet were counted. The bitrate is measured
/// over spans of more than a second.
pub open spec fn with_bytes(v: StreamView, len: u64, now: u64) -> StreamView {
    let total = v.bytes_total.wrapping_add(len);
    let elapsed = since(now, v.last_bitrate_check);
    if elapsed > SECOND {
        StreamView {
            bytes_total: total,
            bitrate_bps: rate(total.saturating_sub(v.bytes_at_check), elapsed),
            bytes_at_check: total,
            packets_at_check: v.packets,
            last_bitrate_check: now,
            ..v
        }
    } else {
        StreamView { bytes_total: total, ..v }
    }
}

/// The stream after an RTP packet.
pub open spec fn updated(v: StreamView, seq: u16, ts: u32, ssrc: u32, len: u64, now: u64) -> StreamView {
    let a = with_seq(with_losses(v, seq), seq);
    let b = with_sample(with_ts_check(a, ts), ts);
    let c = with_jitter(with_gap(with_iat(b, now), now), ts, now);
    let d = StreamView { last_rtp_ts: Some(ts), last_arrival: Some(now), ..c };
    let e = StreamView { last_packet_time: Some(now), ..with_source(d, ssrc) };
    with_bytes(e, len, now)
}

/// The stream after a packet that is not RTP.
pub open spec fn updated_non_rtp(v: StreamView, len: u64, now: u64) -> StreamView {
    let a = StreamView {
        packets: v.packets.wrapping_add(1),
        packets_this_window: v.packets_this_window.wrapping_add(1),
        ..v
    };
    let b = StreamView {
        last_arrival: Some(now),
        last_packet_time: Some(now),
        ..with_iat(a, now)
    };
    with_bytes(b, len, now)
}

/// A stream of which nothing is known yet.
pub open spec fn fresh(protocol: Seq<char>, uhz: i64, now: u64) -> StreamView {
    StreamView {
        protocol,
        packets: 0,
        lost_packets: 0,
        last_seq: None,
        jitter: Jitter::Ps(0),
        last_rtp_ts: None,
        last_arrival: None,
        clock_uhz: uhz,
        sdp_name: None,
        sdp_rtpmap: None,
        is_multicast: false,
        src_ip: None,
        dst_ip: None,
        dst_port: 0,
        media_type: "unknown"@,
        channels: 0,
        bitrate_bps: 0,
        last_bitrate_check: now,
        packets_at_check: 0,
        ts_discontinuities: 0,
        last_ts_diff: None,
        ptime_ns: 0,
        bytes_total: 0,
        bytes_at_check: 0,
        last_ssrc: None,
        ssrc_changes: 0,
        last_packet_time: None,
        expected_pt: None,
        pt_mismatches: 0,
        clock_hz_confirmed: false,
        gap_events: 0,
        max_iat_ns: 0,
        dscp_violations: 0,
        lost_this_window: 0,
        ts_discontinuities_this_window: 0,
        reorders_this_window: 0,
        packets_this_window: 0,
        rtp_seen: false,
        min_ttl: None,
        ts_delta_samples: Seq::empty(),
        transmitter: None,
        iat_samples: Seq::empty(),
        observed_dscp: None,
        pcp_violations: 0,
        observed_pcp: None,
    }
}

/// A stream with an announcement applied. The name is kept once it is known;
/// what the announcement leaves open stays.
pub open spec fn with_sdp(v: StreamView, m: SdpMediaView, name: Seq<char>) -> StreamView {
    StreamView {
        sdp_name: if v.sdp_name is Some {
            v.sdp_name
        } else {
            Some(name)
        },
        sdp_rtpmap: Some(m.rtpmap),
        clock_uhz: if m.clock_uhz > 0 {
            m.clock_uhz
        } else {
            v.clock_uhz
        },
        clock_hz_confirmed: v.clock_hz_confirmed || m.clock_uhz > 0,
        ptime_ns: if m.ptime_ns > 0 {
            m.ptime_ns
        } else {
            v.ptime_ns
        },
        channels: if m.channels > 0 {
            m.channels
        } else {
            v.channels
        },
        expected_pt: if m.payload_types.len() > 0 {
            Some(m.payload_types[0])
        } else {
            v.expected_pt
        },
        ..v
    }
}

/// A stream after the priority of a frame was noted. Untagged frames have none.
pub open spec fn with_pcp(v: StreamView, pcp: Option<u8>) -> StreamView {
    match pcp {
        Some(p) => if p != 6 {
            StreamView {
                pcp_violations: v.pcp_violations.wrapping_add(1),
                observed_pcp: if v.observed_pcp is Some {
                    v.observed_pcp
                } else {
                    Some(p)
                },
                ..v
            }
        } else {
            v
        },
        None => v,
    }
}

impl StreamStats {
    /// A stream of which nothing is known yet.
    pub fn new(protocol: &str, clock_uhz: i64, now: u64) -> (r: Self)
        ensures
            r@ == fresh(protocol@, clock_uhz, now),
    {
        let r: Self = StreamStats {
            protocol: String::from_str(protocol),
            packets: 0,
            lost_packets: 0,
            last_seq: None,
            jitter: Jitter::Ps(0),
            last_rtp_ts: None,
            last_arrival: None,
            clock_uhz,
            sdp_name: None,
            sdp_rtpmap: None,
            is_multicast: false,
            src_ip: None,
            dst_ip: None,
            dst_port: 0,
            media_type: String::from_str("unknown"),
            channels: 0,
            bitrate_bps: 0,
            last_bitrate_check: now,
            packets_at_check: 0,
            ts_discontinuities: 0,
            last_ts_diff: None,
            ptime_ns: 0,
            bytes_total: 0,
            bytes_at_check: 0,
            last_ssrc: None,
            ssrc_changes: 0,
            last_packet_time: None,
            expected_pt: None,
            pt_mismatches: 0,
            clock_hz_confirmed: false,
            gap_events: 0,
            max_iat_ns: 0,
            dscp_violations: 0,
            lost_this_window: 0,
            ts_discontinuities_this_window: 0,
            reorders_this_window: 0,
            packets_this_window: 0,
            rtp_seen: false,
            min_ttl: None,
            ts_delta_samples: Vec::new(),
            transmitter: None,
            iat_samples: IatRing::new(),
            observed_dscp: None,
            pcp_violations: 0,
            observed_pcp: None,
        };
        assert(r@.ts_delta_samples =~= Seq::empty());
        assert(r@.iat_samples =~= Seq::empty());
        r
    }

    /// A stream whose destination is known.
    pub fn new_with_info(
        protocol: &str,
        clock_uhz: i64,
        is_multicast: bool,
        dst_ip: Ipv4Addr,
        dst_port: u16,
        now: u64,
    ) -> (r: Self)
        ensures
            r@ == (StreamView {
                is_multicast,
                dst_ip: Some(dst_ip),
                dst_port,
                ..fresh(protocol@, clock_uhz, now)
            }),
    {
        let mut stats: Self = Self::new(protocol, clock_uhz, now);
        stats.is_multicast = is_multicast;
        stats.dst_ip = Some(dst_ip);
        stats.dst_port = dst_port;
        stats
    }

    /// Adds the time since the last arrival to the samples.
    fn sample_arrival(&mut self, now: u64)
        ensures
            final(self)@ == with_iat(old(self)@, now),
    {
        if let Some(last) = self.last_arrival {
            self.iat_samples.push(now.saturating_sub(last));
        }
    }

    /// Whether packets arrive regularly, as hardware sends them, or scattered, as
    /// a general-purpose system does. Independent of how they are marked.
    pub fn timing_metronomic(&self) -> (r: Option<bool>)
        ensures
            r == regularity(self@.iat_samples),
    {
        self.iat_samples.metronomic()
    }

    /// Applies an announcement and tells whether it confirmed the clock rate.
    pub fn apply_sdp(&mut self, media: &SdpMedia, session_name: &str) -> (confirmed: bool)
        ensures
            final(self)@ == with_sdp(old(self)@, media@, session_name@),
            confirmed == (media@.clock_uhz > 0),
    {
        if self.sdp_name.is_none() {
            self.sdp_name = Some(String::from_str(session_name));
        }
        self.sdp_rtpmap = Some(media.rtpmap.clone());
        if media.clock_uhz > 0 {
            self.clock_uhz = media.clock_uhz;
            self.clock_hz_confirmed = true;
        }
        if media.ptime_ns > 0 {
            self.ptime_ns = media.ptime_ns;
        }
        if media.channels > 0 {
            self.channels = media.channels;
        }
        if media.payload_types.len() > 0 {
            self.expected_pt = Some(media.payload_types[0]);
        }
        media.clock_uhz > 0
    }

    /// Notes the priority of an AES67 or ST 2110 frame: six is recommended.
    pub fn apply_pcp_advisory(&mut self, pcp: Option<u8>)
        ensures
            final(self)@ == with_pcp(old(self)@, pcp),
    {
        if let Some(p) = pcp {
            if p != 6 {
                self.pcp_violations = self.pcp_violations.wrapping_add(1);
                if self.observed_pcp.is_none() {
                    self.observed_pcp = Some(p);
                }
            }
        }
    }

    fn note_seq(&mut self, seq: u16)
        ensures
            final(self)@ == with_seq(with_losses(old(self)@, seq), seq),
    {
        if let Some(last) = self.last_seq {
            let step: u16 = seq.wrapping_sub(last.wrapping_add(1));
            if step != 0 {
                if step < 0x8000 {
                    self.lost_packets = self.lost_packets.wrapping_add(step as u64);
                    self.lost_this_window = self.lost_this_window.wrapping_add(step as u64);
                } else {
                    self.reorders_this_window = self.reorders_this_window.wrapping_add(1);
                }
            }
        }
        self.packets = self.packets.wrapping_add(1);
        self.packets_this_window = self.packets_this_window.wrapping_add(1);
        self.rtp_seen = true;
        self.last_seq = Some(seq);
    }

    fn check_ts(&mut self, ts: u32)
        ensures
            final(self)@ == with_ts_check(old(self)@, ts),
    {
        if let Some(last) = self.last_rtp_ts {
            if self.clock_hz_confirmed {
                let step: i64 = ts_delta(last, ts);
                let ptime: i64 = if self.ptime_ns > 0 {
                    self.ptime_ns
                } else {
                    1_000_000
                };
                let uhz: i64 = self.clock_uhz;
                assert(uhz > 0 ==> 0 <= uhz * ptime <= 0x7FFF_FFFF_FFFF_FFFF * 0x7FFF_FFFF_FFFF_FFFF)
                    by (nonlinear_arith)
                    requires
                        uhz <= 0x7FFF_FFFF_FFFF_FFFF,
                        0 <= ptime <= 0x7FFF_FFFF_FFFF_FFFF,
                ;
                let due: i128 = if uhz == ENDLESS || ptime == ENDLESS {
                    i64::MAX as i128
                } else if uhz > 0 {
                    (uhz as i128) * (ptime as i128) / 1_000_000_000_000_000
                } else {
                    48
                };
                let step2: i128 = 2 * (step as i128);
                if due > 0 && (step2 < due || step2 > 3 * due) {
                    self.ts_discontinuities = self.ts_discontinuities.wrapping_add(1);
                    self.ts_discontinuities_this_window =
                    self.ts_discontinuities_this_window.wrapping_add(1);
                }
                self.last_ts_diff = Some(step);
            }
        }
    }

    /// Sets the clock rate that the gathered timestamp steps stand for.
    fn try_infer_clock_hz(&mut self)
        requires
            old(self)@.ts_delta_samples.len() > 0,
        ensures
            final(self)@ == with_inferred(old(self)@),
    {
        let step: i64 = most_common(&self.ts_delta_samples);
        if let Some((hz, ptime)) = rate_of(step) {
            self.clock_uhz = hertz(hz);
            self.ptime_ns = ptime as i64;
            self.clock_hz_confirmed = true;
        }
    }

    fn sample_ts(&mut self, ts: u32)
        ensures
            final(self)@ == with_sample(old(self)@, ts),
    {
        if let Some(last) = self.last_rtp_ts {
            if !self.clock_hz_confirmed {
                let step: i64 = ts_delta(last, ts);
                if step > 0 {
                    self.ts_delta_samples.push(step);
                    if self.ts_delta_samples.len() >= 8 {
                        self.try_infer_clock_hz();
                        self.ts_delta_samples.clear();
                    }
                }
            }
        }
    }

    fn check_gap(&mut self, now: u64)
        ensures
            final(self)@ == with_gap(old(self)@, now),
    {
        if let Some(last) = self.last_arrival {
            if self.ptime_ns > 0 {
                let iat: u64 = now.saturating_sub(last);
                if iat > self.max_iat_ns {
                    self.max_iat_ns = iat;
                }
                if iat > 50 * MILLISECOND_NS {
                    self.gap_events = self.gap_events.wrapping_add(1);
                }
            }
        }
    }

    fn smooth_jitter(&mut self, ts: u32, now: u64)
        ensures
            final(self)@ == with_jitter(old(self)@, ts, now),
    {
        if let Some(last_ts) = self.last_rtp_ts {
            if let Some(last) = self.last_arrival {
                let step: i64 = ts_delta(last_ts, ts);
                self.jitter = next_jitter(
                    self.jitter,
                    now.saturating_sub(last),
                    step,
                    self.clock_uhz,
                );
            }
        }
    }

    fn count_bytes(&mut self, len: u64, now: u64)
        ensures
            final(self)@ == with_bytes(old(self)@, len, now),
    {
        self.bytes_total = self.bytes_total.wrapping_add(len);
        let elapsed: u64 = now.saturating_sub(self.last_bitrate_check);
        if elapsed > SECOND {
            self.bitrate_bps = bits_per_second(
                self.bytes_total.saturating_sub(self.bytes_at_check),
                elapsed,
            );
            self.bytes_at_check = self.bytes_total;
            self.packets_at_check = self.packets;
            self.last_bitrate_check = now;
        }
    }

    /// Counts an RTP packet whose UDP payload has the given length.
    pub fn update(&mut self, seq: u16, rtp_ts: u32, ssrc: u32, udp_payload_len: usize, now: u64)
        ensures
            final(self)@ == updated(old(self)@, seq, rtp_ts, ssrc, udp_payload_len as u64, now),
    {
        self.note_seq(seq);
        self.check_ts(rtp_ts);
        self.sample_ts(rtp_ts);
        self.sample_arrival(now);
        self.check_gap(now);
        self.smooth_jitter(rtp_ts, now);
        self.last_rtp_ts = Some(rtp_ts);
        self.last_arrival = Some(now);
        if let Some(prev) = self.last_ssrc {
            if prev != ssrc {
                self.ssrc_changes = self.ssrc_changes.wrapping_add(1);
            }
        }
        self.last_ssrc = Some(ssrc);
        self.last_packet_time = Some(now);
        self.count_bytes(udp_payload_len as u64, now);
    }

    /// Counts a packet that is not RTP. It tells of presence and bitrate only.
    pub fn update_non_rtp(&mut self, udp_payload_len: usize, now: u64)
        ensures
            final(self)@ == updated_non_rtp(old(self)@, udp_payload_len as u64, now),
    {
        self.packets = self.packets.wrapping_add(1);
        self.packets_this_window = self.packets_this_window.wrapping_add(1);
        self.sample_arrival(now);
        self.last_arrival = Some(now);
        self.last_packet_time = Some(now);
        self.count_bytes(udp_payload_len as u64, now);
    }

    /// The share of packets lost since the stream began.
    pub fn loss_pct(&self) -> (r: Pct)
        ensures
            r == lifetime_loss(self@),
    {
        Pct { part: self.lost_packets, received: self.packets, lost: self.lost_packets }
    }

    /// The share of packets lost in this window.
    pub fn loss_pct_this_window(&self) -> (r: Pct)
        ensures
            r == window_loss(self@),
    {
        Pct {
            part: self.lost_this_window,
            received: self.packets_this_window,
            lost: self.lost_this_window,
        }
    }

    fn diagnose_path(&self) -> (d: Vec<StreamDiagnostic>)
        ensures
            d@ == path_conditions(self@),
    {
        reveal(path_conditions);
        let mut d: Vec<StreamDiagnostic> = Vec::new();
        add_if(
            &mut d,
            self.ts_discontinuities_this_window > 0,
            StreamDiagnostic::TsDiscontinuity { window_count: self.ts_discontinuities_this_window },
        );
        add_if(
            &mut d,
            self.lost_this_window > 0,
            StreamDiagnostic::PacketLoss {
                window_count: self.lost_this_window,
                window_pct: self.loss_pct_this_window(),
                lifetime_pct: self.loss_pct(),
            },
        );
        let pct: Pct = Pct {
            part: self.reorders_this_window,
            received: self.packets,
            lost: self.lost_packets,
        };
        add_if(
            &mut d,
            self.reorders_this_window > 0 && pct.above(1, 1),
            StreamDiagnostic::Reorder { window_count: self.reorders_this_window, pct },
        );
        d
    }

    fn diagnose_marking(&self) -> (d: Vec<StreamDiagnostic>)
        ensures
            d@ == marking_conditions(self@),
    {
        reveal(marking_conditions);
        let mut d: Vec<StreamDiagnostic> = Vec::new();
        let expected: DscpMarking = if same(self.protocol.as_str(), "2110-20") {
            DscpMarking::EfAf41OrCs5
        } else {
            DscpMarking::Ef
        };
        add_if(
            &mut d,
            self.dscp_violations > 0,
            StreamDiagnostic::DscpViolation { count: self.dscp_violations, expected },
        );
        let ttl: u8 = match self.min_ttl {
            Some(t) => t,
            None => 64,
        };
        add_if(
            &mut d,
            same(self.protocol.as_str(), "Dante") && ttl < 64,
            StreamDiagnostic::TtlRouted { ttl },
        );
        d
    }

    fn diagnose_timing(&self) -> (d: Vec<StreamDiagnostic>)
        ensures
            d@ == timing_conditions(self@),
    {
        reveal(timing_conditions);
        let mut d: Vec<StreamDiagnostic> = Vec::new();
        add_if(
            &mut d,
            self.jitter.above(10),
            StreamDiagnostic::HighJitter { jitter: self.jitter },
        );
        add_if(
            &mut d,
            same(self.protocol.as_str(), "AES67") && self.jitter.above(10),
            StreamDiagnostic::Aes67PtpLockHint,
        );
        let lossy: bool = self.loss_pct().above(1, 10);
        add_if(
            &mut d,
            same(self.protocol.as_str(), "Dante") && (lossy || self.jitter.above(15)),
            StreamDiagnostic::DanteClockOrSubscriptionHint,
        );
        d
    }

    fn diagnose_source(&self) -> (d: Vec<StreamDiagnostic>)
        ensures
            d@ == source_conditions(self@),
    {
        reveal(source_conditions);
        let mut d: Vec<StreamDiagnostic> = Vec::new();
        add_if(
            &mut d,
            self.ssrc_changes > 0,
            StreamDiagnostic::SsrcChange { count: self.ssrc_changes },
        );
        add_if(
            &mut d,
            self.pt_mismatches > 0,
            StreamDiagnostic::PtMismatch { count: self.pt_mismatches },
        );
        let announces: bool = same(self.protocol.as_str(), "AES67") || same(
            self.protocol.as_str(),
            "Dante",
        ) || self.is_st2110();
        add_if(
            &mut d,
            announces && self.rtp_seen && !self.clock_hz_confirmed && self.packets > 10,
            StreamDiagnostic::NotAnnounced,
        );
        add_if(
            &mut d,
            same(self.protocol.as_str(), "2110-??"),
            StreamDiagnostic::UnknownStreamType,
        );
        d
    }

    fn diagnose_presence(&self, now: u64) -> (d: Vec<StreamDiagnostic>)
        ensures
            d@ == presence_conditions(self@, now),
    {
        reveal(presence_conditions);
        let mut d: Vec<StreamDiagnostic> = Vec::new();
        add_if(
            &mut d,
            self.gap_events >= 2,
            StreamDiagnostic::SignalGap {
                window_count: self.gap_events,
                max_iat_ns: self.max_iat_ns,
            },
        );
        let silent_ns: u64 = match self.last_packet_time {
            Some(t) => now.saturating_sub(t),
            None => 0,
        };
        add_if(
            &mut d,
            silent_ns > STREAM_TIMEOUT_SECS * SECOND,
            StreamDiagnostic::Dead { silent_ns },
        );
        let observed: u8 = match self.observed_pcp {
            Some(p) => p,
            None => 0,
        };
        add_if(
            &mut d,
            self.pcp_violations > 0 && (same(self.protocol.as_str(), "AES67") || self.is_st2110()),
            StreamDiagnostic::PcpAdvisory { observed },
        );
        d
    }

    fn is_st2110(&self) -> (r: bool)
        ensures
            r == is_st2110(self@),
    {
        let chars: Vec<char> = chars_of(self.protocol.as_str());
        begins_with(chars.as_slice(), "2110-")
    }

    /// Every condition of the stream in this window, those that lower the score
    /// and those that are only shown.
    pub fn diagnostics(&self, now: u64) -> (d: Vec<StreamDiagnostic>)
        ensures
            d@ == diagnosed(self@, now),
    {
        let mut d: Vec<StreamDiagnostic> = self.diagnose_path();
        let mut more: Vec<StreamDiagnostic> = self.diagnose_marking();
        d.append(&mut more);
        more = self.diagnose_timing();
        d.append(&mut more);
        more = self.diagnose_source();
        d.append(&mut more);
        more = self.diagnose_presence(now);
        d.append(&mut more);
        d
    }
}

// ── Diagnostics ──────────────────────────────────────────────────────────────

/// The share of packets lost since the stream began.
pub open spec fn lifetime_loss(v: StreamView) -> Pct {
    Pct { part: v.lost_packets, received: v.packets, lost: v.lost_packets }
}

/// The share of packets lost in this window.
pub open spec fn window_loss(v: StreamView) -> Pct {
    Pct { part: v.lost_this_window, received: v.packets_this_window, lost: v.lost_this_window }
}

/// The packets out of order in this window, of all packets so far.
pub open spec fn reorder_share(v: StreamView) -> Pct {
    Pct { part: v.reorders_this_window, received: v.packets, lost: v.lost_packets }
}

pub open spec fn is_aes67(v: StreamView) -> bool {
    v.protocol == "AES67"@
}

pub open spec fn is_dante(v: StreamView) -> bool {
    v.protocol == "Dante"@
}

pub open spec fn is_st2110(v: StreamView) -> bool {
    begins(v.protocol, "2110-"@)
}

/// For how long nothing came, zero where nothing ever came.
pub open spec fn silence(v: StreamView, now: u64) -> u64 {
    match v.last_packet_time {
        Some(t) => since(now, t),
        None => 0,
    }
}

/// Whether the stream went silent.
pub open spec fn dead(v: StreamView, now: u64) -> bool {
    silence(v, now) > STREAM_TIMEOUT_SECS * SECOND
}

/// The lowest TTL seen, or that of a packet no router has touched.
pub open spec fn lowest_ttl(v: StreamView) -> u8 {
    match v.min_ttl {
        Some(t) => t,
        None => 64,
    }
}

/// One diagnostic, if its condition holds.
pub open spec fn one_if(c: bool, d: StreamDiagnostic) -> Seq<StreamDiagnostic> {
    if c {
        seq![d]
    } else {
        Seq::empty()
    }
}

fn add_if(v: &mut Vec<StreamDiagnostic>, c: bool, d: StreamDiagnostic)
    ensures
        final(v)@ == old(v)@ + one_if(c, d),
{
    if c {
        v.push(d);
    }
    assert(v@ =~= old(v)@ + one_if(c, d));
}

/// What is wrong on the path.
#[verifier::opaque]
pub open spec fn path_conditions(v: StreamView) -> Seq<StreamDiagnostic> {
    Seq::empty() + one_if(
        v.ts_discontinuities_this_window > 0,
        StreamDiagnostic::TsDiscontinuity { window_count: v.ts_discontinuities_this_window },
    ) + one_if(
        v.lost_this_window > 0,
        StreamDiagnostic::PacketLoss {
            window_count: v.lost_this_window,
            window_pct: window_loss(v),
            lifetime_pct: lifetime_loss(v),
        },
    ) + one_if(
        v.reorders_this_window > 0 && pct_above(reorder_share(v), 1, 1),
        StreamDiagnostic::Reorder {
            window_count: v.reorders_this_window,
            pct: reorder_share(v),
        },
    )
}

/// What is wrong with how packets are marked.
#[verifier::opaque]
pub open spec fn marking_conditions(v: StreamView) -> Seq<StreamDiagnostic> {
    Seq::empty() + one_if(
        v.dscp_violations > 0,
        StreamDiagnostic::DscpViolation {
            count: v.dscp_violations,
            expected: if v.protocol == "2110-20"@ {
                DscpMarking::EfAf41OrCs5
            } else {
                DscpMarking::Ef
            },
        },
    ) + one_if(
        is_dante(v) && lowest_ttl(v) < 64,
        StreamDiagnostic::TtlRouted { ttl: lowest_ttl(v) },
    )
}

/// What is wrong with the timing.
#[verifier::opaque]
pub open spec fn timing_conditions(v: StreamView) -> Seq<StreamDiagnostic> {
    Seq::empty() + one_if(
        jitter_above(v.jitter, 10),
        StreamDiagnostic::HighJitter { jitter: v.jitter },
    ) + one_if(
        is_aes67(v) && jitter_above(v.jitter, 10),
        StreamDiagnostic::Aes67PtpLockHint,
    ) + one_if(
        is_dante(v) && (pct_above(lifetime_loss(v), 1, 10) || jitter_above(v.jitter, 15)),
        StreamDiagnostic::DanteClockOrSubscriptionHint,
    )
}

/// What is wrong with the source and its announcement.
#[verifier::opaque]
pub open spec fn source_conditions(v: StreamView) -> Seq<StreamDiagnostic> {
    Seq::empty() + one_if(
        v.ssrc_changes > 0,
        StreamDiagnostic::SsrcChange { count: v.ssrc_changes },
    ) + one_if(
        v.pt_mismatches > 0,
        StreamDiagnostic::PtMismatch { count: v.pt_mismatches },
    ) + one_if(
        (is_aes67(v) || is_dante(v) || is_st2110(v)) && v.rtp_seen && !v.clock_hz_confirmed
            && v.packets > 10,
        StreamDiagnostic::NotAnnounced,
    ) + one_if(v.protocol == "2110-??"@, StreamDiagnostic::UnknownStreamType)
}

/// Whether the stream is there, and how it is tagged.
#[verifier::opaque]
pub open spec fn presence_conditions(v: StreamView, now: u64) -> Seq<StreamDiagnostic> {
    Seq::empty() + one_if(
        v.gap_events >= 2,
        StreamDiagnostic::SignalGap { window_count: v.gap_events, max_iat_ns: v.max_iat_ns },
    ) + one_if(dead(v, now), StreamDiagnostic::Dead { silent_ns: silence(v, now) }) + one_if(
        v.pcp_violations > 0 && (is_aes67(v) || is_st2110(v)),
        StreamDiagnostic::PcpAdvisory {
            observed: match v.observed_pcp {
                Some(p) => p,
                None => 0,
            },
        },
    )
}

/// Every condition of a stream, in the order in which they are shown.
pub open spec fn diagnosed(v: StreamView, now: u64) -> Seq<StreamDiagnostic> {
    path_conditions(v) + marking_conditions(v) + timing_conditions(v) + source_conditions(v)
        + presence_conditions(v, now)
}

// ── Laws ─────────────────────────────────────────────────────────────────────

/// The packet after the last one is no loss and no reordering, whether or not the
/// sequence number wraps.
pub proof fn law_next_packet_is_no_loss(v: StreamView, last: u16)
    requires
        v.last_seq == Some(last),
    ensures
        with_losses(v, last.wrapping_add(1)) == v,
{
}

/// A packet from behind is counted as out of order and never as lost.
pub proof fn law_backward_is_no_loss(v: StreamView, last: u16, back: u16)
    requires
        v.last_seq == Some(last),
        back < 0x8000,
    ensures
        ({
            let w = with_losses(v, last.wrapping_sub(back));
            w.lost_packets == v.lost_packets && w.lost_this_window == v.lost_this_window
                && w.reorders_this_window == v.reorders_this_window.wrapping_add(1)
        }),
{
}

/// A gap counts as many losses as packets are missing.
pub proof fn law_gap_counts_missing(v: StreamView, last: u16, missing: u16)
    requires
        v.last_seq == Some(last),
        0 < missing < 0x8000,
    ensures
        ({
            let w = with_losses(v, last.wrapping_add(1).wrapping_add(missing));
            w.lost_packets == v.lost_packets.wrapping_add(missing as u64) && w.lost_this_window
                == v.lost_this_window.wrapping_add(missing as u64) && w.reorders_this_window
                == v.reorders_this_window
        }),
{
}

/// A name is given once: a later announcement does not change it.
pub proof fn law_name_is_given_once(
    v: StreamView,
    m: SdpMediaView,
    name: Seq<char>,
    n: SdpMediaView,
    other: Seq<char>,
)
    ensures
        with_sdp(with_sdp(v, m, name), n, other).sdp_name == with_sdp(v, m, name).sdp_name,
        with_sdp(v, m, name).sdp_name is Some,
{
}

/// A confirmed clock rate is never inferred anew.
pub proof fn law_confirmed_rate_stays(
    v: StreamView,
    seq: u16,
    ts: u32,
    ssrc: u32,
    len: u64,
    now: u64,
)
    requires
        v.clock_hz_confirmed,
    ensures
        updated(v, seq, ts, ssrc, len, now).clock_uhz == v.clock_uhz,
        updated(v, seq, ts, ssrc, len, now).clock_hz_confirmed,
{
}

/// A stream that lost nothing in this window has no loss diagnostic, whatever it
/// lost before.
pub proof fn law_old_loss_is_forgiven(v: StreamView, now: u64)
    requires
        v.lost_this_window == 0,
    ensures
        forall|i: int|
            0 <= i < diagnosed(v, now).len() ==> !((#[trigger] diagnosed(v, now)[i])
                is PacketLoss),
{
    let kind = |d: StreamDiagnostic| !(d is PacketLoss);
    assert(path_conditions(v).all(kind)) by {
        reveal(path_conditions);
    }
    assert(marking_conditions(v).all(kind)) by {
        reveal(marking_conditions);
    }
    assert(timing_conditions(v).all(kind)) by {
        reveal(timing_conditions);
    }
    assert(source_conditions(v).all(kind)) by {
        reveal(source_conditions);
    }
    assert(presence_conditions(v, now).all(kind)) by {
        reveal(presence_conditions);
    }
    assert forall|i: int| 0 <= i < diagnosed(v, now).len() implies !((#[trigger] diagnosed(
        v,
        now,
    )[i]) is PacketLoss) by {
        assert(kind(diagnosed(v, now)[i]));
    }
}

/// The jitter never passes the transit change it moves towards.
pub proof fn law_jitter_is_bounded(j: u64, d: u64)
    ensures
        d >= j ==> j <= smoothed(j, d) <= d,
        d <= j ==> d <= smoothed(j, d) <= j,
{
}

} // verus!
