//! How arrivals are measured against the media they carry.

use vstd::prelude::*;

use crate::stats::diagnostic::Jitter;
use crate::stats::stream::{due_step, fresh, jitter_after, law_mode_is_most_common, mode, outranks, regularity, spread, squares, sum, times, transit_change, ts_step, updated, StreamView};

verus! {

// ── Transit ──────────────────────────────────────────────────────────────────

/// At a rate above zero, with the media going forwards, the transit changes by the distance
/// between the time that passed and the media time, in picoseconds: nothing where they are
/// equal, and as much for an early packet as for a late one.
pub proof fn law_transit_changes_by_the_distance(iat: u64, step: nat, uhz: i64, media: nat)
    requires
        0 < uhz < i64::MAX,
        media == step * 1_000_000_000_000_000_000 / uhz as nat,
    ensures
        iat * 1000 >= media && iat * 1000 - media < u64::MAX ==> transit_change(iat, step as int, uhz) == iat
            * 1000 - media,
        iat * 1000 < media && media - iat * 1000 < u64::MAX ==> transit_change(iat, step as int, uhz)
            == media - iat * 1000,
        iat * 1000 - media >= u64::MAX || media - iat * 1000 >= u64::MAX ==> transit_change(
            iat,
            step as int,
            uhz,
        ) == u64::MAX,
        transit_change(iat, step as int, uhz) == 0 <==> iat * 1000 == media,
{
}

/// An interval shorter than the media time by some time changes the transit as much as one
/// that is longer by it.
pub proof fn law_early_changes_as_much_as_late(early: u64, late: u64, step: nat, uhz: i64)
    requires
        0 < uhz < i64::MAX,
        late * 1000 - step * 1_000_000_000_000_000_000 / uhz as nat == step * 1_000_000_000_000_000_000
            / uhz as nat - early * 1000,
    ensures
        transit_change(early, step as int, uhz) == transit_change(late, step as int, uhz),
{
}

/// Media that goes back, by its step or by its rate, adds its time; where both do, it goes
/// forwards. At an endless rate it takes none.
pub proof fn law_media_going_back(iat: u64, step: nat, uhz: i64)
    requires
        0 < uhz < i64::MAX,
        iat * 1000 + step * 1_000_000_000_000_000_000 / (uhz as nat) < u64::MAX,
    ensures
        step > 0 ==> transit_change(iat, -step, uhz) == iat * 1000 + step * 1_000_000_000_000_000_000
            / uhz as nat,
        transit_change(iat, step as int, (-uhz) as i64) == iat * 1000 + step * 1_000_000_000_000_000_000
            / uhz as nat,
        step > 0 ==> transit_change(iat, -step, (-uhz) as i64) == transit_change(iat, step as int, uhz),
        transit_change(iat, step as int, i64::MAX) == iat * 1000,
{
    let media = step * 1_000_000_000_000_000_000 / uhz as nat;
    assert(media >= 0) by (nonlinear_arith)
        requires
            media == step * 1_000_000_000_000_000_000 / uhz as nat,
            uhz > 0,
    ;
}

/// At a rate of zero any step lasts for ever, and none for no known time. Jitter that is
/// not finite never becomes so again.
pub proof fn law_rates_of_zero(ps: u64, iat: u64, step: int, uhz: i64)
    ensures
        step != 0 ==> jitter_after(Jitter::Ps(ps), iat, step, 0) is Infinite,
        step == 0 ==> jitter_after(Jitter::Ps(ps), iat, step, 0) is Undefined,
        uhz != 0 ==> jitter_after(Jitter::Ps(ps), iat, step, uhz) is Ps,
        jitter_after(Jitter::Infinite, iat, step, uhz) is Undefined,
        jitter_after(Jitter::Undefined, iat, step, uhz) is Undefined,
{
}

/// Jitter and gaps are measured whether or not the rate is confirmed.
pub proof fn law_measures_need_no_confirmation(v: StreamView, seq: u16, ts: u32, ssrc: u32, len: u64, now: u64)
    requires
        v.ts_delta_samples.len() < 7,
    ensures
        ({
            let w = updated(v, seq, ts, ssrc, len, now);
            let c = updated(StreamView { clock_hz_confirmed: true, ..v }, seq, ts, ssrc, len, now);
            &&& w.jitter == c.jitter
            &&& w.gap_events == c.gap_events && w.max_iat_ns == c.max_iat_ns
            &&& w.iat_samples == c.iat_samples
            &&& w.lost_packets == c.lost_packets
        }),
{
}

/// The first packet is no gap and samples nothing.
pub proof fn law_first_packets_wait_for_nothing(v: StreamView, seq: u16, ts: u32, ssrc: u32, len: u64, now: u64)
    requires
        v.last_arrival is None,
        v.ts_delta_samples.len() < 7,
    ensures
        ({
            let w = updated(v, seq, ts, ssrc, len, now);
            &&& w.gap_events == v.gap_events && w.max_iat_ns == v.max_iat_ns
            &&& w.iat_samples == v.iat_samples
            &&& v.last_rtp_ts is None ==> w.ts_delta_samples == v.ts_delta_samples && w.ts_discontinuities
                == v.ts_discontinuities
        }),
{
}

// ── Jumps ────────────────────────────────────────────────────────────────────

/// A packet time that is not announced counts as a millisecond.
pub proof fn law_unannounced_packet_times(v: StreamView, seq: u16, ts: u32, ssrc: u32, len: u64, now: u64)
    requires
        v.clock_hz_confirmed,
        v.ptime_ns <= 0,
    ensures
        ({
            let w = updated(v, seq, ts, ssrc, len, now);
            let m = updated(StreamView { ptime_ns: 1_000_000, ..v }, seq, ts, ssrc, len, now);
            &&& w.ts_discontinuities == m.ts_discontinuities
            &&& w.ts_discontinuities_this_window == m.ts_discontinuities_this_window
        }),
{
}

/// At a rate of zero or less 48 steps are due, whatever the packet time; where none is due
/// nothing is a jump, and where endlessly many are, all is.
pub proof fn law_odd_rates(v: StreamView, seq: u16, last: u32, forward: u32, ssrc: u32, len: u64, now: u64)
    requires
        v.clock_hz_confirmed,
        v.last_rtp_ts == Some(last),
        forward < 0x8000_0000,
        v.ts_discontinuities < u64::MAX,
    ensures
        ({
            let w = updated(v, seq, ((last + forward) % 0x1_0000_0000) as u32, ssrc, len, now);
            &&& v.clock_uhz <= 0 && v.ptime_ns < i64::MAX ==> w.ts_discontinuities == v.ts_discontinuities
                + (if 24 <= forward <= 72 {
                0int
            } else {
                1
            })
            &&& 0 < v.clock_uhz < i64::MAX && 0 < v.ptime_ns < i64::MAX && v.clock_uhz * v.ptime_ns
                < 1_000_000_000_000_000 ==> w.ts_discontinuities == v.ts_discontinuities
            &&& v.clock_uhz == i64::MAX || v.ptime_ns == i64::MAX ==> w.ts_discontinuities
                == v.ts_discontinuities + 1
        }),
{
    let ts = ((last + forward) % 0x1_0000_0000) as u32;
    assert(ts_step(last, ts) == forward);
    if 0 < v.clock_uhz < i64::MAX && 0 < v.ptime_ns < i64::MAX && v.clock_uhz * v.ptime_ns
        < 1_000_000_000_000_000 {
        assert(v.clock_uhz * v.ptime_ns >= 0) by (nonlinear_arith)
            requires
                v.clock_uhz > 0,
                v.ptime_ns > 0,
        ;
        assert(due_step(v) == 0);
    }
}

// ── Regularity ───────────────────────────────────────────────────────────────

/// The sum of samples.
pub open spec fn total(s: Seq<u64>) -> nat
    decreases s.len(),
{
    if s.len() == 0 {
        0
    } else {
        s[0] as nat + total(s.skip(1))
    }
}

/// The sum of the squares of samples.
pub open spec fn total_squares(s: Seq<u64>) -> nat
    decreases s.len(),
{
    if s.len() == 0 {
        0
    } else {
        s[0] as nat * s[0] as nat + total_squares(s.skip(1))
    }
}

proof fn lemma_totals(s: Seq<u64>, x: u64)
    ensures
        total(s.push(x)) == total(s) + x,
        total_squares(s.push(x)) == total_squares(s) + x * x,
    decreases s.len(),
{
    if s.len() == 0 {
        reveal_with_fuel(total, 2);
        reveal_with_fuel(total_squares, 2);
        assert(s.push(x).skip(1) =~= s);
    } else {
        lemma_totals(s.skip(1), x);
        assert(s.push(x).skip(1) =~= s.skip(1).push(x));
        assert(s.push(x)[0] == s[0]);
    }
}

proof fn lemma_sums(s: Seq<u64>)
    ensures
        sum(s) == total(s),
        squares(s) == total_squares(s),
    decreases s.len(),
{
    if s.len() > 0 {
        lemma_sums(s.drop_last());
        lemma_totals(s.drop_last(), s.last());
        assert(s.drop_last().push(s.last()) =~= s);
    }
}

/// Sixteen samples or more are regular where their standard deviation is under a tenth of
/// their mean, and irregular where it is over three tenths; else there is no verdict. With
/// `n` samples, `t` their sum and `q` that of their squares, the square of that ratio is
/// `(n q - t t) / (t t)`.
pub proof fn law_regular_arrivals(s: Seq<u64>)
    ensures
        ({
            let n = s.len();
            let t = total(s);
            let q = total_squares(s);
            &&& regularity(s) == Some(true) <==> n >= 16 && t > 0 && 100 * (n * q - t * t) < t * t
            &&& regularity(s) == Some(false) <==> n >= 16 && t > 0 && 100 * (n * q - t * t) > 9 * (t * t)
        }),
{
    lemma_sums(s);
    let t = sum(s) as int;
    let d = spread(s);
    assert(t * t >= 0) by (nonlinear_arith);
}

// ── Steps ────────────────────────────────────────────────────────────────────

proof fn lemma_times(s: Seq<i64>, x: i64)
    ensures
        times(s, x) == s.filter(|y: i64| y == x).len(),
    decreases s.len(),
{
    reveal(Seq::filter);
    if s.len() > 0 {
        lemma_times(s.drop_last(), x);
    }
}

/// The most common step is one of them that none occurs more often than, and of several
/// such the smallest.
pub proof fn law_most_common_step(s: Seq<i64>, i: int)
    requires
        0 <= i < s.len(),
    ensures
        ({
            let m = mode(s);
            let often = s.filter(|y: i64| y == m).len();
            let x = s[i];
            let times_x = s.filter(|y: i64| y == x).len();
            &&& s.contains(m)
            &&& times_x < often || times_x == often && m <= x
        }),
{
    law_mode_is_most_common(s);
    let m = mode(s);
    let x = s[i];
    assert(!outranks(s, s[i], m));
    lemma_times(s, m);
    lemma_times(s, x);
}

/// Only steps forwards are gathered, and once eight are, they start anew.
pub proof fn law_steps_are_gathered(v: StreamView, seq: u16, last: u32, ts: u32, ssrc: u32, len: u64, now: u64)
    requires
        !v.clock_hz_confirmed,
        v.last_rtp_ts == Some(last),
    ensures
        ({
            let w = updated(v, seq, ts, ssrc, len, now);
            let step = (ts - last) % 0x1_0000_0000;
            &&& step == 0 || step >= 0x8000_0000 ==> w.ts_delta_samples == v.ts_delta_samples
                && !w.clock_hz_confirmed
            &&& 0 < step < 0x8000_0000 && v.ts_delta_samples.len() < 7 ==> w.ts_delta_samples
                == v.ts_delta_samples.push(step as i64)
            &&& 0 < step < 0x8000_0000 && v.ts_delta_samples.len() >= 7 ==> w.ts_delta_samples.len() == 0
        }),
        updated(StreamView { clock_hz_confirmed: true, ..v }, seq, ts, ssrc, len, now).ts_delta_samples
            == v.ts_delta_samples,
{
    assert(ts_step(last, ts) == (if (ts - last) % 0x1_0000_0000 < 0x8000_0000 {
        (ts - last) % 0x1_0000_0000
    } else {
        (ts - last) % 0x1_0000_0000 - 0x1_0000_0000
    }));
}

// ── New streams ──────────────────────────────────────────────────────────────

/// Of a new stream nothing is known but its protocol and the rate it is taken to have.
pub proof fn law_nothing_is_known_of_new_streams(protocol: Seq<char>, uhz: i64, now: u64)
    ensures
        ({
            let v = fresh(protocol, uhz, now);
            &&& v.protocol == protocol && v.clock_uhz == uhz && v.last_bitrate_check == now
            &&& v.src_ip is None && v.dst_ip is None && v.dst_port == 0 && !v.is_multicast
            &&& v.media_type == "unknown"@ && v.channels == 0 && v.ptime_ns == 0
            &&& v.sdp_name is None && v.sdp_rtpmap is None && v.expected_pt is None
            &&& v.last_seq is None && v.last_rtp_ts is None && v.last_ssrc is None && v.last_arrival is None
                && v.last_packet_time is None && v.last_ts_diff is None
            &&& v.packets == 0 && v.packets_this_window == 0 && v.packets_at_check == 0 && v.bytes_total == 0
                && v.bytes_at_check == 0 && v.bitrate_bps == 0
            &&& v.lost_packets == 0 && v.lost_this_window == 0 && v.reorders_this_window == 0
                && v.ts_discontinuities == 0 && v.ts_discontinuities_this_window == 0
            &&& v.ssrc_changes == 0 && v.pt_mismatches == 0 && v.gap_events == 0 && v.max_iat_ns == 0
                && v.dscp_violations == 0 && v.pcp_violations == 0
            &&& v.min_ttl is None && v.observed_dscp is None && v.observed_pcp is None && v.transmitter
                is None
            &&& v.ts_delta_samples.len() == 0 && v.iat_samples.len() == 0
            &&& v.jitter == Jitter::Ps(0) && !v.clock_hz_confirmed && !v.rtp_seen
        }),
{
}

} // verus!
