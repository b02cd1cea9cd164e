//! What the counters of streams and clocks are for, said of what goes in and what
//! comes out.

use vstd::prelude::*;

use crate::protocols::{PtpInfoView, SdpMediaView};
use crate::scan::begins;
use crate::stats::diagnostic::{cost, jitter_above, pct_above, DscpMarking, Jitter, Pct, StreamDiagnostic};
use crate::stats::ptp::{clock_event, domain_checked, domain_updated, fresh_domain, gptp, hops, timed_out, PtpEventView, PtpStatsView};
use crate::stats::stream::{dead, is_aes67, is_dante, is_st2110, lifetime_loss, lowest_ttl, reorder_share, silence, window_loss, diagnosed, fresh, iats_with, known_rate, mode, one_if, path_conditions, marking_conditions, presence_conditions, rate, regularity, source_conditions, timing_conditions, ts_step, updated, updated_non_rtp, with_pcp, with_sdp, StreamView};
use crate::table::{lemma_put_lookup, lookup};

verus! {

// ── RTP packets ──────────────────────────────────────────────────────────────

/// A packet counts itself, and the stream remembers it: its number, its timestamp,
/// its source and its arrival.
pub proof fn law_packet_is_remembered(v: StreamView, seq: u16, ts: u32, ssrc: u32, len: u64, now: u64)
    requires
        v.packets < u64::MAX,
        v.packets_this_window < u64::MAX,
        v.bytes_total + len <= u64::MAX,
    ensures
        ({
            let w = updated(v, seq, ts, ssrc, len, now);
            &&& w.packets == v.packets + 1
            &&& w.packets_this_window == v.packets_this_window + 1
            &&& w.bytes_total == v.bytes_total + len
            &&& w.rtp_seen
            &&& w.last_seq == Some(seq)
            &&& w.last_rtp_ts == Some(ts)
            &&& w.last_ssrc == Some(ssrc)
            &&& w.last_arrival == Some(now)
            &&& w.last_packet_time == Some(now)
        }),
{
}

/// A packet leaves alone what it does not tell of: where the stream goes, what was
/// announced of it, and how its frames are marked.
pub proof fn law_packet_changes_nothing_else(v: StreamView, seq: u16, ts: u32, ssrc: u32, len: u64, now: u64)
    ensures
        ({
            let w = updated(v, seq, ts, ssrc, len, now);
            &&& w.protocol == v.protocol
            &&& w.sdp_name == v.sdp_name
            &&& w.sdp_rtpmap == v.sdp_rtpmap
            &&& w.is_multicast == v.is_multicast
            &&& w.src_ip == v.src_ip
            &&& w.dst_ip == v.dst_ip
            &&& w.dst_port == v.dst_port
            &&& w.media_type == v.media_type
            &&& w.channels == v.channels
            &&& w.expected_pt == v.expected_pt
            &&& w.pt_mismatches == v.pt_mismatches
            &&& w.dscp_violations == v.dscp_violations
            &&& w.min_ttl == v.min_ttl
            &&& w.transmitter == v.transmitter
            &&& w.observed_dscp == v.observed_dscp
            &&& w.pcp_violations == v.pcp_violations
            &&& w.observed_pcp == v.observed_pcp
        }),
{
}

/// Between two packets as many are lost as numbers lie between them, counted forwards
/// around 2^16; a packet from the half behind is out of order and nothing is lost.
pub proof fn law_loss_is_what_lies_between(v: StreamView, last: u16, missing: u16, ts: u32, ssrc: u32, len: u64, now: u64)
    requires
        v.last_seq == Some(last),
        v.lost_packets + 0x1_0000 <= u64::MAX,
        v.lost_this_window + 0x1_0000 <= u64::MAX,
        v.reorders_this_window < u64::MAX,
    ensures
        ({
            let seq = ((last + 1 + missing) % 0x1_0000) as u16;
            let w = updated(v, seq, ts, ssrc, len, now);
            if missing < 0x8000 {
                &&& w.lost_packets == v.lost_packets + missing
                &&& w.lost_this_window == v.lost_this_window + missing
                &&& w.reorders_this_window == v.reorders_this_window
            } else {
                &&& w.lost_packets == v.lost_packets
                &&& w.lost_this_window == v.lost_this_window
                &&& w.reorders_this_window == v.reorders_this_window + 1
            }
        }),
{
}

/// The first packet of a stream loses nothing.
pub proof fn law_first_packet_loses_nothing(v: StreamView, seq: u16, ts: u32, ssrc: u32, len: u64, now: u64)
    requires
        v.last_seq is None,
    ensures
        updated(v, seq, ts, ssrc, len, now).lost_packets == v.lost_packets,
        updated(v, seq, ts, ssrc, len, now).lost_this_window == v.lost_this_window,
        updated(v, seq, ts, ssrc, len, now).reorders_this_window == v.reorders_this_window,
{
}

/// At a rate above zero, with the media going forwards, jitter moves by a sixteenth
/// towards the distance between the time that passed and the media time, whichever of
/// the two is longer.
pub proof fn law_jitter_follows_the_distance(
    v: StreamView,
    seq: u16,
    last_ts: u32,
    forward: u32,
    ssrc: u32,
    len: u64,
    last: u64,
    now: u64,
    j: u64,
)
    requires
        v.clock_hz_confirmed,
        0 < v.clock_uhz < i64::MAX,
        v.last_rtp_ts == Some(last_ts),
        v.last_arrival == Some(last),
        v.jitter == Jitter::Ps(j),
        forward < 0x8000_0000,
        last <= now,
        (now - last) * 1000 <= u64::MAX,
        forward * 1_000_000_000_000_000_000 / v.clock_uhz as int <= u64::MAX,
    ensures
        ({
            let ts = ((last_ts + forward) % 0x1_0000_0000) as u32;
            let passed = (now - last) * 1000;
            let media = forward * 1_000_000_000_000_000_000 / v.clock_uhz as int;
            let distance = if passed >= media {
                passed - media
            } else {
                media - passed
            };
            updated(v, seq, ts, ssrc, len, now).jitter matches Jitter::Ps(k) && (if distance >= j {
                k == j + (distance - j) / 16
            } else {
                k == j - (j - distance) / 16
            })
        }),
{
    let ts = ((last_ts + forward) % 0x1_0000_0000) as u32;
    assert(ts_step(last_ts, ts) == forward);
    let media = forward * 1_000_000_000_000_000_000 / v.clock_uhz as int;
    assert(media >= 0) by (nonlinear_arith)
        requires
            media == forward * 1_000_000_000_000_000_000 / v.clock_uhz as int,
            v.clock_uhz > 0,
            forward >= 0,
    ;
}

/// Packets that come as far apart as their media keep jitter falling, and early
/// packets count as much as late ones.
pub proof fn law_early_and_late_count_alike(
    v: StreamView,
    seq: u16,
    last_ts: u32,
    forward: u32,
    ssrc: u32,
    len: u64,
    last: u64,
    early: u64,
    late: u64,
    j: u64,
)
    requires
        v.clock_hz_confirmed,
        0 < v.clock_uhz < i64::MAX,
        v.last_rtp_ts == Some(last_ts),
        v.last_arrival == Some(last),
        v.jitter == Jitter::Ps(j),
        forward < 0x8000_0000,
        last <= early <= late,
        (late - last) * 1000 <= u64::MAX,
        (late - last) * 1000 - forward * 1_000_000_000_000_000_000 / v.clock_uhz as int == forward
            * 1_000_000_000_000_000_000 / v.clock_uhz as int - (early - last) * 1000,
    ensures
        ({
            let ts = ((last_ts + forward) % 0x1_0000_0000) as u32;
            updated(v, seq, ts, ssrc, len, early).jitter == updated(v, seq, ts, ssrc, len, late).jitter
        }),
        early == late && j == 0 ==> updated(
            v,
            seq,
            ((last_ts + forward) % 0x1_0000_0000) as u32,
            ssrc,
            len,
            early,
        ).jitter == Jitter::Ps(0),
        early < late && j == 0 && (late - early) * 500 >= 16 ==> updated(
            v,
            seq,
            ((last_ts + forward) % 0x1_0000_0000) as u32,
            ssrc,
            len,
            early,
        ).jitter != Jitter::Ps(0),
{
    let media = forward * 1_000_000_000_000_000_000 / v.clock_uhz as int;
    law_jitter_follows_the_distance(v, seq, last_ts, forward, ssrc, len, last, early, j);
    law_jitter_follows_the_distance(v, seq, last_ts, forward, ssrc, len, last, late, j);
}

/// Media that goes back adds its time to the time that passed.
pub proof fn law_media_going_back_adds_up(
    v: StreamView,
    seq: u16,
    last_ts: u32,
    back: u32,
    ssrc: u32,
    len: u64,
    last: u64,
    now: u64,
)
    requires
        v.clock_hz_confirmed,
        0 < v.clock_uhz < i64::MAX,
        v.last_rtp_ts == Some(last_ts),
        v.last_arrival == Some(last),
        v.jitter == Jitter::Ps(0),
        0 < back <= 0x8000_0000,
        last <= now,
        (now - last) * 1000 + back * 1_000_000_000_000_000_000 / v.clock_uhz as int <= u64::MAX,
    ensures
        ({
            let ts = ((last_ts - back) % 0x1_0000_0000) as u32;
            updated(v, seq, ts, ssrc, len, now).jitter == Jitter::Ps(
                (((now - last) * 1000 + back * 1_000_000_000_000_000_000 / v.clock_uhz as int)
                    / 16) as u64,
            )
        }),
{
    let ts = ((last_ts - back) % 0x1_0000_0000) as u32;
    assert(ts_step(last_ts, ts) == -back);
    let media = back * 1_000_000_000_000_000_000 / v.clock_uhz as int;
    assert(media >= 0) by (nonlinear_arith)
        requires
            media == back * 1_000_000_000_000_000_000 / v.clock_uhz as int,
            v.clock_uhz > 0,
            back >= 0,
    ;
}

/// The first packet measures no jitter.
pub proof fn law_first_packet_has_no_jitter(v: StreamView, seq: u16, ts: u32, ssrc: u32, len: u64, now: u64)
    requires
        v.last_arrival is None || v.last_rtp_ts is None,
    ensures
        updated(v, seq, ts, ssrc, len, now).jitter == v.jitter,
{
}

/// With a confirmed rate and an announced packet time a timestamp is a jump exactly
/// where the media moved by less than half, or more than one and a half, of what one
/// packet holds.
pub proof fn law_jumps_miss_the_packet_time(
    v: StreamView,
    seq: u16,
    last_ts: u32,
    ts: u32,
    ssrc: u32,
    len: u64,
    now: u64,
    due: nat,
)
    requires
        v.clock_hz_confirmed,
        0 < v.clock_uhz < i64::MAX,
        0 < v.ptime_ns < i64::MAX,
        v.last_rtp_ts == Some(last_ts),
        due == v.clock_uhz * v.ptime_ns / 1_000_000_000_000_000,
        due > 0,
        v.ts_discontinuities < u64::MAX,
        v.ts_discontinuities_this_window < u64::MAX,
    ensures
        ({
            let w = updated(v, seq, ts, ssrc, len, now);
            let step = if (ts - last_ts) % 0x1_0000_0000 < 0x8000_0000 {
                (ts - last_ts) % 0x1_0000_0000
            } else {
                (ts - last_ts) % 0x1_0000_0000 - 0x1_0000_0000
            };
            &&& w.last_ts_diff == Some(step as i64)
            &&& (2 * step < due || 2 * step > 3 * due) ==> w.ts_discontinuities
                == v.ts_discontinuities + 1 && w.ts_discontinuities_this_window
                == v.ts_discontinuities_this_window + 1
            &&& !(2 * step < due || 2 * step > 3 * due) ==> w.ts_discontinuities
                == v.ts_discontinuities && w.ts_discontinuities_this_window
                == v.ts_discontinuities_this_window
        }),
{
}

/// Without a confirmed rate no timestamp is a jump.
pub proof fn law_unconfirmed_rates_make_no_jumps(v: StreamView, seq: u16, ts: u32, ssrc: u32, len: u64, now: u64)
    requires
        !v.clock_hz_confirmed,
    ensures
        updated(v, seq, ts, ssrc, len, now).ts_discontinuities == v.ts_discontinuities,
        updated(v, seq, ts, ssrc, len, now).ts_discontinuities_this_window
            == v.ts_discontinuities_this_window,
{
}

/// A gap is a wait of more than fifty milliseconds, where the packet time is known; the
/// longest wait is kept.
pub proof fn law_gaps_are_long_waits(v: StreamView, seq: u16, ts: u32, ssrc: u32, len: u64, last: u64, now: u64)
    requires
        v.clock_hz_confirmed,
        v.last_arrival == Some(last),
        last <= now,
        v.gap_events < u64::MAX,
    ensures
        ({
            let w = updated(v, seq, ts, ssrc, len, now);
            &&& v.ptime_ns > 0 && now - last > 50_000_000 ==> w.gap_events == v.gap_events + 1
            &&& v.ptime_ns <= 0 || now - last <= 50_000_000 ==> w.gap_events == v.gap_events
            &&& v.ptime_ns > 0 ==> w.max_iat_ns >= now - last && w.max_iat_ns >= v.max_iat_ns && (
            w.max_iat_ns == now - last || w.max_iat_ns == v.max_iat_ns)
            &&& v.ptime_ns <= 0 ==> w.max_iat_ns == v.max_iat_ns
        }),
{
}

/// Another source than before is a change of source, and the same one is none.
pub proof fn law_source_changes_are_counted(v: StreamView, seq: u16, ts: u32, ssrc: u32, before: u32, len: u64, now: u64)
    requires
        v.ssrc_changes < u64::MAX,
    ensures
        v.last_ssrc == Some(before) && before != ssrc ==> updated(v, seq, ts, ssrc, len, now).ssrc_changes
            == v.ssrc_changes + 1,
        v.last_ssrc == Some(ssrc) || v.last_ssrc is None ==> updated(
            v,
            seq,
            ts,
            ssrc,
            len,
            now,
        ).ssrc_changes == v.ssrc_changes,
{
}

/// The bitrate is measured anew once more than a second has passed, from the bytes
/// since the last measurement, which then starts over; until then it stays.
pub proof fn law_bitrate_is_measured_by_the_second(v: StreamView, seq: u16, ts: u32, ssrc: u32, len: u64, now: u64)
    requires
        v.last_bitrate_check <= now,
        v.bytes_at_check <= v.bytes_total,
        v.bytes_total + len <= u64::MAX,
    ensures
        ({
            let w = updated(v, seq, ts, ssrc, len, now);
            if now - v.last_bitrate_check > 1_000_000_000 {
                &&& w.bitrate_bps == rate(
                    (v.bytes_total + len - v.bytes_at_check) as u64,
                    (now - v.last_bitrate_check) as u64,
                )
                &&& w.bytes_at_check == v.bytes_total + len
                &&& w.last_bitrate_check == now
                &&& w.packets_at_check == w.packets
            } else {
                &&& w.bitrate_bps == v.bitrate_bps
                &&& w.bytes_at_check == v.bytes_at_check
                &&& w.last_bitrate_check == v.last_bitrate_check
            }
        }),
{
}

/// Packets that are not RTP count with their bytes and their arrival; they lose
/// nothing, jump nowhere and measure no jitter.
pub proof fn law_other_packets_only_count(v: StreamView, len: u64, now: u64)
    requires
        v.packets < u64::MAX,
        v.packets_this_window < u64::MAX,
        v.bytes_total + len <= u64::MAX,
    ensures
        ({
            let w = updated_non_rtp(v, len, now);
            &&& w.packets == v.packets + 1
            &&& w.packets_this_window == v.packets_this_window + 1
            &&& w.bytes_total == v.bytes_total + len
            &&& w.last_arrival == Some(now)
            &&& w.last_packet_time == Some(now)
            &&& w.rtp_seen == v.rtp_seen
            &&& w.lost_packets == v.lost_packets
            &&& w.lost_this_window == v.lost_this_window
            &&& w.reorders_this_window == v.reorders_this_window
            &&& w.jitter == v.jitter
            &&& w.ts_discontinuities == v.ts_discontinuities
            &&& w.gap_events == v.gap_events
            &&& w.ssrc_changes == v.ssrc_changes
            &&& w.last_seq == v.last_seq
            &&& v.last_bitrate_check <= now && now - v.last_bitrate_check > 1_000_000_000
                && v.bytes_at_check <= v.bytes_total ==> w.bitrate_bps == rate(
                (v.bytes_total + len - v.bytes_at_check) as u64,
                (now - v.last_bitrate_check) as u64,
            )
        }),
{
}

/// The times between arrivals are kept, the last 64 of them; no time at all is not.
pub proof fn law_arrival_times_are_kept(s: Seq<u64>, iat: u64)
    requires
        s.len() <= 64,
    ensures
        iat == 0 ==> iats_with(s, iat) == s,
        iat > 0 ==> iats_with(s, iat).len() == (if s.len() == 64 {
            64
        } else {
            s.len() + 1
        }) && iats_with(s, iat).last() == iat && forall|i: int|
            0 <= i < iats_with(s, iat).len() - 1 ==> #[trigger] iats_with(s, iat)[i] == s[i
                + s.len() + 1 - iats_with(s, iat).len()],
{
}

/// Each arrival samples the time since the one before.
pub proof fn law_arrivals_are_sampled(v: StreamView, seq: u16, ts: u32, ssrc: u32, len: u64, last: u64, now: u64)
    requires
        v.last_arrival == Some(last),
        last <= now,
    ensures
        updated(v, seq, ts, ssrc, len, now).iat_samples == iats_with(v.iat_samples, (now - last) as u64),
        updated_non_rtp(v, len, now).iat_samples == iats_with(v.iat_samples, (now - last) as u64),
{
}

// ── Clock rates ──────────────────────────────────────────────────────────────

/// The steps that tell a rate are those of 48 kHz in packets from an eighth of a
/// millisecond to twenty, and those of 44.1 kHz in packets of ten and twenty.
pub proof fn law_known_steps(step: i64)
    ensures
        known_rate(step) is Some <==> step == 6 || step == 12 || step == 24 || step == 48 || step
            == 96 || step == 192 || step == 384 || step == 480 || step == 960 || step == 441
            || step == 882,
        known_rate(step) matches Some((hz, ptime)) ==> (hz == 48_000 || hz == 44_100) && hz * ptime
            == step * 1_000_000_000 && (hz == 44_100 <==> step == 441 || step == 882),
{
}

/// Eight steps in a row of which each is the same known one confirm its rate and
/// packet time; fewer confirm nothing.
pub proof fn law_eight_steps_confirm(
    v: StreamView,
    seq: u16,
    last_ts: u32,
    step: u32,
    ssrc: u32,
    len: u64,
    now: u64,
)
    requires
        !v.clock_hz_confirmed,
        v.last_rtp_ts == Some(last_ts),
        v.ts_delta_samples.len() < 8,
        forall|i: int| 0 <= i < v.ts_delta_samples.len() ==> #[trigger] v.ts_delta_samples[i] == step,
        0 < step < 0x8000_0000,
    ensures
        ({
            let w = updated(v, seq, ((last_ts + step) % 0x1_0000_0000) as u32, ssrc, len, now);
            &&& v.ts_delta_samples.len() == 7 && step == 48 ==> w.clock_hz_confirmed && w.clock_uhz
                == 48_000_000_000 && w.ptime_ns == 1_000_000
            &&& v.ts_delta_samples.len() == 7 && step == 882 ==> w.clock_hz_confirmed
                && w.clock_uhz == 44_100_000_000 && w.ptime_ns == 20_000_000
            &&& v.ts_delta_samples.len() == 7 && step == 50 ==> !w.clock_hz_confirmed
            &&& v.ts_delta_samples.len() < 7 ==> !w.clock_hz_confirmed && w.clock_uhz == v.clock_uhz
                && w.ptime_ns == v.ptime_ns
        }),
{
    let ts = ((last_ts + step) % 0x1_0000_0000) as u32;
    assert(ts_step(last_ts, ts) == step);
    let s = v.ts_delta_samples.push(step as i64);
    crate::stats::stream::law_mode_is_most_common(s);
    assert(s.contains(mode(s)));
}

// ── Announcements ────────────────────────────────────────────────────────────

/// An announcement gives what it names and leaves the rest: a rate confirms, and is
/// the announced one; the first payload type is the one to expect.
pub proof fn law_announcement_gives_what_it_names(v: StreamView, m: SdpMediaView, name: Seq<char>)
    ensures
        ({
            let w = with_sdp(v, m, name);
            &&& v.sdp_name is None ==> w.sdp_name == Some(name)
            &&& v.sdp_name is Some ==> w.sdp_name == v.sdp_name
            &&& w.sdp_rtpmap == Some(m.rtpmap)
            &&& m.clock_uhz > 0 ==> w.clock_uhz == m.clock_uhz && w.clock_hz_confirmed
            &&& m.clock_uhz <= 0 ==> w.clock_uhz == v.clock_uhz && w.clock_hz_confirmed
                == v.clock_hz_confirmed
            &&& m.ptime_ns > 0 ==> w.ptime_ns == m.ptime_ns
            &&& m.ptime_ns <= 0 ==> w.ptime_ns == v.ptime_ns
            &&& m.channels > 0 ==> w.channels == m.channels
            &&& m.channels == 0 ==> w.channels == v.channels
            &&& m.payload_types.len() > 0 ==> w.expected_pt == Some(m.payload_types[0])
            &&& m.payload_types.len() == 0 ==> w.expected_pt == v.expected_pt
            &&& w.packets == v.packets && w.protocol == v.protocol && w.dst_port == v.dst_port
        }),
{
}

/// A tagged frame of another priority than six counts; the first such priority is
/// kept. Untagged frames, and those of priority six, count nothing.
pub proof fn law_priority_six_is_right(v: StreamView, p: u8)
    requires
        v.pcp_violations < u64::MAX,
    ensures
        with_pcp(v, None) == v,
        with_pcp(v, Some(6)) == v,
        p != 6 ==> with_pcp(v, Some(p)).pcp_violations == v.pcp_violations + 1,
        p != 6 && v.observed_pcp is None ==> with_pcp(v, Some(p)).observed_pcp == Some(p),
        p != 6 && v.observed_pcp is Some ==> with_pcp(v, Some(p)).observed_pcp == v.observed_pcp,
{
}

/// A new stream has counted nothing.
pub proof fn law_new_streams_are_empty(protocol: Seq<char>, uhz: i64, now: u64)
    ensures
        ({
            let v = fresh(protocol, uhz, now);
            &&& v.protocol == protocol && v.clock_uhz == uhz && v.last_bitrate_check == now
            &&& v.packets == 0 && v.lost_packets == 0 && v.bytes_total == 0
            &&& v.jitter == Jitter::Ps(0)
            &&& !v.clock_hz_confirmed && !v.rtp_seen
            &&& v.last_seq is None && v.last_arrival is None && v.last_packet_time is None
            &&& diagnosed(v, now).contains(StreamDiagnostic::NotAnnounced) == false
        }),
{
    law_conditions_are_told(fresh(protocol, uhz, now), now, StreamDiagnostic::NotAnnounced);
}

// ── Regularity ───────────────────────────────────────────────────────────────

proof fn lemma_even(s: Seq<u64>, x: u64)
    requires
        forall|i: int| 0 <= i < s.len() ==> s[i] == x,
    ensures
        crate::stats::stream::sum(s) == s.len() * x,
        crate::stats::stream::squares(s) == s.len() * (x * x),
    decreases s.len(),
{
    if s.len() > 0 {
        lemma_even(s.drop_last(), x);
        let n = s.len() as int;
        assert((n - 1) * x + x == n * x) by (nonlinear_arith);
        assert((n - 1) * (x * x) + x * x == n * (x * x)) by (nonlinear_arith);
    }
}

/// Arrivals all the same time apart are regular; under sixteen of them there is no
/// verdict.
pub proof fn law_even_arrivals_are_regular(s: Seq<u64>, x: u64)
    requires
        x > 0,
        forall|i: int| 0 <= i < s.len() ==> s[i] == x,
    ensures
        s.len() >= 16 ==> regularity(s) == Some(true),
        s.len() < 16 ==> regularity(s) is None,
{
    if s.len() >= 16 {
        lemma_even(s, x);
        let n = s.len() as int;
        assert(n * (n * (x * x)) == (n * x) * (n * x)) by (nonlinear_arith);
        assert((n * x) * (n * x) > 0) by (nonlinear_arith)
            requires
                n > 0,
                x > 0,
        ;
        assert(n * x > 0) by (nonlinear_arith)
            requires
                n > 0,
                x > 0,
        ;
    }
}

// ── Conditions ───────────────────────────────────────────────────────────────

proof fn lemma_cat(a: Seq<StreamDiagnostic>, b: Seq<StreamDiagnostic>, d: StreamDiagnostic)
    ensures
        (a + b).contains(d) <==> a.contains(d) || b.contains(d),
{
    let s = a + b;
    if a.contains(d) {
        let i = choose|i: int| 0 <= i < a.len() && a[i] == d;
        assert(s[i] == d);
    }
    if b.contains(d) {
        let i = choose|i: int| 0 <= i < b.len() && b[i] == d;
        assert(s[a.len() + i] == d);
    }
    if s.contains(d) {
        let i = choose|i: int| 0 <= i < s.len() && s[i] == d;
        if i < a.len() {
            assert(a[i] == d);
        } else {
            assert(b[i - a.len()] == d);
        }
    }
}

proof fn lemma_one(c: bool, x: StreamDiagnostic, d: StreamDiagnostic)
    ensures
        one_if(c, x).contains(d) <==> c && x == d,
{
    if c {
        assert(one_if(c, x)[0] == x);
    }
}

proof fn lemma_path_conditions(v: StreamView, d: StreamDiagnostic)
    ensures
        path_conditions(v).contains(d) <==> (match d {
            StreamDiagnostic::TsDiscontinuity { window_count } => window_count > 0 && window_count
                == v.ts_discontinuities_this_window,
            StreamDiagnostic::PacketLoss { window_count, window_pct, lifetime_pct } => window_count
                > 0 && window_count == v.lost_this_window && window_pct == (Pct {
                part: v.lost_this_window,
                received: v.packets_this_window,
                lost: v.lost_this_window,
            }) && lifetime_pct == (Pct {
                part: v.lost_packets,
                received: v.packets,
                lost: v.lost_packets,
            }),
            StreamDiagnostic::Reorder { window_count, pct } => window_count > 0 && window_count
                == v.reorders_this_window && pct == (Pct {
                part: v.reorders_this_window,
                received: v.packets,
                lost: v.lost_packets,
            }) && (100 * window_count > v.packets + v.lost_packets),
            _ => false,
        }),
{
    reveal(path_conditions);
    let s0 = Seq::<StreamDiagnostic>::empty();
    let x1 = one_if(
        v.ts_discontinuities_this_window > 0,
        StreamDiagnostic::TsDiscontinuity { window_count: v.ts_discontinuities_this_window },
    );
    let s1 = s0 + x1;
    lemma_cat(s0, x1, d);
    lemma_one(v.ts_discontinuities_this_window > 0,
        StreamDiagnostic::TsDiscontinuity { window_count: v.ts_discontinuities_this_window }, d);
    let x2 = one_if(
        v.lost_this_window > 0,
        StreamDiagnostic::PacketLoss {
            window_count: v.lost_this_window,
            window_pct: window_loss(v),
            lifetime_pct: lifetime_loss(v),
        },
    );
    let s2 = s1 + x2;
    lemma_cat(s1, x2, d);
    lemma_one(v.lost_this_window > 0,
        StreamDiagnostic::PacketLoss {
            window_count: v.lost_this_window,
            window_pct: window_loss(v),
            lifetime_pct: lifetime_loss(v),
        }, d);
    let x3 = one_if(
        v.reorders_this_window > 0 && pct_above(reorder_share(v), 1, 1),
        StreamDiagnostic::Reorder {
            window_count: v.reorders_this_window,
            pct: reorder_share(v),
        },
    );
    let s3 = s2 + x3;
    lemma_cat(s2, x3, d);
    lemma_one(v.reorders_this_window > 0 && pct_above(reorder_share(v), 1, 1),
        StreamDiagnostic::Reorder {
            window_count: v.reorders_this_window,
            pct: reorder_share(v),
        }, d);
    assert(path_conditions(v) == s3);
}

proof fn lemma_marking_conditions(v: StreamView, d: StreamDiagnostic)
    ensures
        marking_conditions(v).contains(d) <==> (match d {
            StreamDiagnostic::DscpViolation { count, expected } => count > 0 && count
                == v.dscp_violations && expected == (if v.protocol == "2110-20"@ {
                DscpMarking::EfAf41OrCs5
            } else {
                DscpMarking::Ef
            }),
            StreamDiagnostic::TtlRouted { ttl } => v.protocol == "Dante"@ && v.min_ttl == Some(ttl)
                && ttl < 64,
            _ => false,
        }),
{
    reveal(marking_conditions);
    let s0 = Seq::<StreamDiagnostic>::empty();
    let x1 = one_if(
        v.dscp_violations > 0,
        StreamDiagnostic::DscpViolation {
            count: v.dscp_violations,
            expected: if v.protocol == "2110-20"@ {
                DscpMarking::EfAf41OrCs5
            } else {
                DscpMarking::Ef
            },
        },
    );
    let s1 = s0 + x1;
    lemma_cat(s0, x1, d);
    lemma_one(v.dscp_violations > 0,
        StreamDiagnostic::DscpViolation {
            count: v.dscp_violations,
            expected: if v.protocol == "2110-20"@ {
                DscpMarking::EfAf41OrCs5
            } else {
                DscpMarking::Ef
            },
        }, d);
    let x2 = one_if(
        is_dante(v) && lowest_ttl(v) < 64,
        StreamDiagnostic::TtlRouted { ttl: lowest_ttl(v) },
    );
    let s2 = s1 + x2;
    lemma_cat(s1, x2, d);
    lemma_one(is_dante(v) && lowest_ttl(v) < 64,
        StreamDiagnostic::TtlRouted { ttl: lowest_ttl(v) }, d);
    assert(marking_conditions(v) == s2);
}

proof fn lemma_timing_conditions(v: StreamView, d: StreamDiagnostic)
    ensures
        timing_conditions(v).contains(d) <==> (match d {
            StreamDiagnostic::HighJitter { jitter } => jitter == v.jitter && (match jitter {
                Jitter::Ps(ps) => ps > 10_000_000_000,
                Jitter::Infinite => true,
                Jitter::Undefined => false,
            }),
            StreamDiagnostic::Aes67PtpLockHint => v.protocol == "AES67"@ && (match v.jitter {
                Jitter::Ps(ps) => ps > 10_000_000_000,
                Jitter::Infinite => true,
                Jitter::Undefined => false,
            }),
            StreamDiagnostic::DanteClockOrSubscriptionHint => v.protocol == "Dante"@ && (1000
                * v.lost_packets > v.packets + v.lost_packets || (match v.jitter {
                Jitter::Ps(ps) => ps > 15_000_000_000,
                Jitter::Infinite => true,
                Jitter::Undefined => false,
            })),
            _ => false,
        }),
{
    reveal(timing_conditions);
    let s0 = Seq::<StreamDiagnostic>::empty();
    let x1 = one_if(
        jitter_above(v.jitter, 10),
        StreamDiagnostic::HighJitter { jitter: v.jitter },
    );
    let s1 = s0 + x1;
    lemma_cat(s0, x1, d);
    lemma_one(jitter_above(v.jitter, 10),
        StreamDiagnostic::HighJitter { jitter: v.jitter }, d);
    let x2 = one_if(
        is_aes67(v) && jitter_above(v.jitter, 10),
        StreamDiagnostic::Aes67PtpLockHint,
    );
    let s2 = s1 + x2;
    lemma_cat(s1, x2, d);
    lemma_one(is_aes67(v) && jitter_above(v.jitter, 10),
        StreamDiagnostic::Aes67PtpLockHint, d);
    let x3 = one_if(
        is_dante(v) && (pct_above(lifetime_loss(v), 1, 10) || jitter_above(v.jitter, 15)),
        StreamDiagnostic::DanteClockOrSubscriptionHint,
    );
    let s3 = s2 + x3;
    lemma_cat(s2, x3, d);
    lemma_one(is_dante(v) && (pct_above(lifetime_loss(v), 1, 10) || jitter_above(v.jitter, 15)),
        StreamDiagnostic::DanteClockOrSubscriptionHint, d);
    assert(timing_conditions(v) == s3);
}

proof fn lemma_source_conditions(v: StreamView, d: StreamDiagnostic)
    ensures
        source_conditions(v).contains(d) <==> (match d {
            StreamDiagnostic::SsrcChange { count } => count > 0 && count == v.ssrc_changes,
            StreamDiagnostic::PtMismatch { count } => count > 0 && count == v.pt_mismatches,
            StreamDiagnostic::NotAnnounced => (v.protocol == "AES67"@ || v.protocol == "Dante"@
                || begins(v.protocol, "2110-"@)) && v.rtp_seen && !v.clock_hz_confirmed && v.packets
                > 10,
            StreamDiagnostic::UnknownStreamType => v.protocol == "2110-??"@,
            _ => false,
        }),
{
    reveal(source_conditions);
    let s0 = Seq::<StreamDiagnostic>::empty();
    let x1 = one_if(
        v.ssrc_changes > 0,
        StreamDiagnostic::SsrcChange { count: v.ssrc_changes },
    );
    let s1 = s0 + x1;
    lemma_cat(s0, x1, d);
    lemma_one(v.ssrc_changes > 0,
        StreamDiagnostic::SsrcChange { count: v.ssrc_changes }, d);
    let x2 = one_if(
        v.pt_mismatches > 0,
        StreamDiagnostic::PtMismatch { count: v.pt_mismatches },
    );
    let s2 = s1 + x2;
    lemma_cat(s1, x2, d);
    lemma_one(v.pt_mismatches > 0,
        StreamDiagnostic::PtMismatch { count: v.pt_mismatches }, d);
    let x3 = one_if(
        (is_aes67(v) || is_dante(v) || is_st2110(v)) && v.rtp_seen && !v.clock_hz_confirmed
            && v.packets > 10,
        StreamDiagnostic::NotAnnounced,
    );
    let s3 = s2 + x3;
    lemma_cat(s2, x3, d);
    lemma_one((is_aes67(v) || is_dante(v) || is_st2110(v)) && v.rtp_seen && !v.clock_hz_confirmed
            && v.packets > 10,
        StreamDiagnostic::NotAnnounced, d);
    let x4 = one_if(v.protocol == "2110-??"@, StreamDiagnostic::UnknownStreamType);
    let s4 = s3 + x4;
    lemma_cat(s3, x4, d);
    lemma_one(v.protocol == "2110-??"@, StreamDiagnostic::UnknownStreamType, d);
    assert(source_conditions(v) == s4);
}

proof fn lemma_presence_conditions(v: StreamView, now: u64, d: StreamDiagnostic)
    ensures
        presence_conditions(v, now).contains(d) <==> (match d {
            StreamDiagnostic::SignalGap { window_count, max_iat_ns } => window_count >= 2
                && window_count == v.gap_events && max_iat_ns == v.max_iat_ns,
            StreamDiagnostic::Dead { silent_ns } => v.last_packet_time matches Some(t) && now - t
                == silent_ns && silent_ns > 10_000_000_000,
            StreamDiagnostic::PcpAdvisory { observed } => v.pcp_violations > 0 && (v.protocol
                == "AES67"@ || begins(v.protocol, "2110-"@)) && observed == (match v.observed_pcp {
                Some(p) => p,
                None => 0,
            }),
            _ => false,
        }),
{
    reveal(presence_conditions);
    let s0 = Seq::<StreamDiagnostic>::empty();
    let x1 = one_if(
        v.gap_events >= 2,
        StreamDiagnostic::SignalGap { window_count: v.gap_events, max_iat_ns: v.max_iat_ns },
    );
    let s1 = s0 + x1;
    lemma_cat(s0, x1, d);
    lemma_one(v.gap_events >= 2,
        StreamDiagnostic::SignalGap { window_count: v.gap_events, max_iat_ns: v.max_iat_ns }, d);
    let x2 = one_if(dead(v, now), StreamDiagnostic::Dead { silent_ns: silence(v, now) });
    let s2 = s1 + x2;
    lemma_cat(s1, x2, d);
    lemma_one(dead(v, now), StreamDiagnostic::Dead { silent_ns: silence(v, now) }, d);
    let x3 = one_if(
        v.pcp_violations > 0 && (is_aes67(v) || is_st2110(v)),
        StreamDiagnostic::PcpAdvisory {
            observed: match v.observed_pcp {
                Some(p) => p,
                None => 0,
            },
        },
    );
    let s3 = s2 + x3;
    lemma_cat(s2, x3, d);
    lemma_one(v.pcp_violations > 0 && (is_aes67(v) || is_st2110(v)),
        StreamDiagnostic::PcpAdvisory {
            observed: match v.observed_pcp {
                Some(p) => p,
                None => 0,
            },
        }, d);
    assert(presence_conditions(v, now) == s3);
}

/// Every condition of a stream is told exactly where it holds, with its figures.
pub proof fn law_conditions_are_told(v: StreamView, now: u64, d: StreamDiagnostic)
    ensures
        diagnosed(v, now).contains(d) <==> (match d {
            StreamDiagnostic::TsDiscontinuity { window_count } => window_count > 0 && window_count
                == v.ts_discontinuities_this_window,
            StreamDiagnostic::PacketLoss { window_count, window_pct, lifetime_pct } => window_count
                > 0 && window_count == v.lost_this_window && window_pct == (Pct {
                part: v.lost_this_window,
                received: v.packets_this_window,
                lost: v.lost_this_window,
            }) && lifetime_pct == (Pct {
                part: v.lost_packets,
                received: v.packets,
                lost: v.lost_packets,
            }),
            StreamDiagnostic::Reorder { window_count, pct } => window_count > 0 && window_count
                == v.reorders_this_window && pct == (Pct {
                part: v.reorders_this_window,
                received: v.packets,
                lost: v.lost_packets,
            }) && (100 * window_count > v.packets + v.lost_packets),
            StreamDiagnostic::DscpViolation { count, expected } => count > 0 && count
                == v.dscp_violations && expected == (if v.protocol == "2110-20"@ {
                DscpMarking::EfAf41OrCs5
            } else {
                DscpMarking::Ef
            }),
            StreamDiagnostic::TtlRouted { ttl } => v.protocol == "Dante"@ && v.min_ttl == Some(ttl)
                && ttl < 64,
            StreamDiagnostic::HighJitter { jitter } => jitter == v.jitter && (match jitter {
                Jitter::Ps(ps) => ps > 10_000_000_000,
                Jitter::Infinite => true,
                Jitter::Undefined => false,
            }),
            StreamDiagnostic::Aes67PtpLockHint => v.protocol == "AES67"@ && (match v.jitter {
                Jitter::Ps(ps) => ps > 10_000_000_000,
                Jitter::Infinite => true,
                Jitter::Undefined => false,
            }),
            StreamDiagnostic::DanteClockOrSubscriptionHint => v.protocol == "Dante"@ && (1000
                * v.lost_packets > v.packets + v.lost_packets || (match v.jitter {
                Jitter::Ps(ps) => ps > 15_000_000_000,
                Jitter::Infinite => true,
                Jitter::Undefined => false,
            })),
            StreamDiagnostic::SsrcChange { count } => count > 0 && count == v.ssrc_changes,
            StreamDiagnostic::PtMismatch { count } => count > 0 && count == v.pt_mismatches,
            StreamDiagnostic::NotAnnounced => (v.protocol == "AES67"@ || v.protocol == "Dante"@
                || begins(v.protocol, "2110-"@)) && v.rtp_seen && !v.clock_hz_confirmed && v.packets
                > 10,
            StreamDiagnostic::UnknownStreamType => v.protocol == "2110-??"@,
            StreamDiagnostic::SignalGap { window_count, max_iat_ns } => window_count >= 2
                && window_count == v.gap_events && max_iat_ns == v.max_iat_ns,
            StreamDiagnostic::Dead { silent_ns } => v.last_packet_time matches Some(t) && now - t
                == silent_ns && silent_ns > 10_000_000_000,
            StreamDiagnostic::PcpAdvisory { observed } => v.pcp_violations > 0 && (v.protocol
                == "AES67"@ || begins(v.protocol, "2110-"@)) && observed == (match v.observed_pcp {
                Some(p) => p,
                None => 0,
            }),
        }),
{
    let a = path_conditions(v);
    let b = marking_conditions(v);
    let c = timing_conditions(v);
    let e = source_conditions(v);
    let f = presence_conditions(v, now);
    lemma_cat(a + b + c + e, f, d);
    lemma_cat(a + b + c, e, d);
    lemma_cat(a + b, c, d);
    lemma_cat(a, b, d);
    lemma_path_conditions(v, d);
    lemma_marking_conditions(v, d);
    lemma_timing_conditions(v, d);
    lemma_source_conditions(v, d);
    lemma_presence_conditions(v, now, d);
}

/// What each condition takes off the score, in millionths of a point: loss its
/// percentage and at most ten points, high jitter two points and five above twenty
/// milliseconds, each jump three and each change of source ten up to a bound, a gap
/// ten, a wrong marking five, and silence thirty. The rest is free.
pub proof fn law_conditions_have_their_price(d: StreamDiagnostic)
    ensures
        match d {
            StreamDiagnostic::PacketLoss { window_count, window_pct, lifetime_pct } => {
                let whole = window_pct.received + window_pct.lost;
                &&& cost(d) <= 10_000_000
                &&& whole > 0 ==> cost(d) * whole <= 100_000_000 * window_pct.part + whole - 1
                &&& whole > 0 && cost(d) < 10_000_000 ==> cost(d) * whole >= 100_000_000
                    * window_pct.part
            },
            StreamDiagnostic::HighJitter { jitter } => cost(d) == (match jitter {
                Jitter::Ps(ps) => if ps > 20_000_000_000 {
                    5_000_000
                } else {
                    2_000_000nat
                },
                Jitter::Infinite => 5_000_000,
                Jitter::Undefined => 2_000_000,
            }),
            StreamDiagnostic::TsDiscontinuity { window_count } => cost(d) == (if window_count >= 5 {
                15_000_000
            } else {
                3_000_000 * window_count
            }),
            StreamDiagnostic::SsrcChange { count } => cost(d) == (if count >= 3 {
                30_000_000
            } else {
                10_000_000 * count
            }),
            StreamDiagnostic::SignalGap { .. } => cost(d) == 10_000_000,
            StreamDiagnostic::DscpViolation { .. } => cost(d) == 5_000_000,
            StreamDiagnostic::Dead { .. } => cost(d) == 30_000_000,
            _ => cost(d) == 0,
        },
{
    if let StreamDiagnostic::PacketLoss { window_count, window_pct, lifetime_pct } = d {
        let w = (window_pct.received + window_pct.lost) as int;
        if w > 0 {
            let x = 100_000_000 * window_pct.part + w - 1;
            let q = x / w;
            vstd::arithmetic::div_mod::lemma_fundamental_div_mod(x, w);
            assert(q * w <= x && x < q * w + w) by (nonlinear_arith)
                requires
                    x == w * q + x % w,
                    0 <= x % w < w,
            ;
            let c = cost(d) as int;
            assert(c * w <= q * w) by (nonlinear_arith)
                requires
                    c <= q,
                    w > 0,
            ;
        }
    }
}

// ── PTP ──────────────────────────────────────────────────────────────────────

/// A valid clock whose domain has been silent for longer than its timeout is lost,
/// whatever it sent before, and only such a clock is. It is then to be detected anew;
/// all else stays.
pub proof fn law_silent_clocks_are_lost(v: PtpStatsView, now: u64)
    ensures
        timed_out(v, now) <==> v.clock_valid && now - v.last_seen > v.timeout_secs * 1_000_000_000,
        v.clock_valid && now - v.last_seen > v.timeout_secs * 1_000_000_000 ==> domain_checked(v, now)
            == (PtpStatsView {
            clock_valid: false,
            protocol_clock_lost: true,
            last_grandmaster: None,
            ..v
        }),
        !v.clock_valid || now - v.last_seen <= v.timeout_secs * 1_000_000_000 ==> domain_checked(v, now)
            == v,
{
}

/// Any message of a domain puts off its loss by the timeout.
pub proof fn law_messages_put_off_the_loss(
    v: PtpStatsView,
    info: PtpInfoView,
    kind: Option<Seq<char>>,
    now: u64,
    later: u64,
)
    requires
        later - now <= v.timeout_secs * 1_000_000_000,
    ensures
        !timed_out(domain_updated(v, info, kind, now), later),
        domain_updated(v, info, kind, now).last_seen == now,
{
}

/// A new domain waits five seconds, and has no clock yet.
pub proof fn law_new_domains_have_no_clock(domain: u8, version: u8, now: u64)
    ensures
        ({
            let v = fresh_domain(domain, version, now);
            &&& v.domain == domain && v.version == version && v.last_seen == now && v.timeout_secs
                == 5
            &&& v.packets == 0 && !v.clock_valid && !v.protocol_clock_lost
            &&& v.last_grandmaster is None && v.grandmaster_changes == 0 && !v.seen_sync
            &&& v.min_path_delay_ns is None && v.max_path_delay_ns is None
            &&& v.sync_senders_this_window.len() == 0
        }),
{
}

/// A message counts, and what it tells of its sender is kept until another tells
/// otherwise.
pub proof fn law_messages_are_remembered(v: PtpStatsView, info: PtpInfoView, kind: Option<Seq<char>>, now: u64)
    requires
        v.packets < u64::MAX,
    ensures
        ({
            let w = domain_updated(v, info, kind, now);
            &&& w.packets == v.packets + 1
            &&& w.protocol_kind == kind
            &&& w.domain == v.domain && w.version == v.version && w.timeout_secs == v.timeout_secs
            &&& info.src_ip is Some ==> w.last_src_ip == info.src_ip
            &&& info.src_ip is None ==> w.last_src_ip == v.last_src_ip
            &&& info.clock_id is Some ==> w.last_clock_id == info.clock_id
            &&& info.clock_id is None ==> w.last_clock_id == v.last_clock_id
        }),
{
}

/// Whatever names a grandmaster makes it the domain's, and its clock valid; a first one
/// is detected, another one changes, the same one does neither. What names none leaves
/// all of this.
pub proof fn law_grandmasters_are_followed(v: PtpStatsView, info: PtpInfoView, kind: Option<Seq<char>>, now: u64)
    requires
        v.grandmaster_changes < u64::MAX,
        v.protocol_changes_count < u64::MAX,
    ensures
        ({
            let w = domain_updated(v, info, kind, now);
            match info.grandmaster_id {
                None => {
                    &&& clock_event(v, info) is None
                    &&& w.last_grandmaster == v.last_grandmaster && w.clock_valid == v.clock_valid
                    &&& w.protocol_clock_lost == v.protocol_clock_lost
                    &&& w.grandmaster_changes == v.grandmaster_changes
                    &&& w.grandmaster_src_ip == v.grandmaster_src_ip && w.last_quality
                        == v.last_quality
                },
                Some(gm) => {
                    &&& w.last_grandmaster == Some(gm) && w.clock_valid && !w.protocol_clock_lost
                    &&& info.src_ip is Some ==> w.grandmaster_src_ip == info.src_ip
                    &&& info.clock_quality is Some ==> w.last_quality == info.clock_quality
                    &&& info.clock_quality is None ==> w.last_quality == v.last_quality
                    &&& v.last_grandmaster is None ==> clock_event(v, info) == Some(
                        PtpEventView::GrandmasterDetected,
                    ) && w.protocol_grandmaster_detected && w.grandmaster_changes
                        == v.grandmaster_changes
                    &&& v.last_grandmaster == Some(gm) ==> clock_event(v, info) is None
                        && w.grandmaster_changes == v.grandmaster_changes
                    &&& forall|h: Seq<char>|
                        v.last_grandmaster == Some(h) && h != gm ==> #[trigger] clock_event(v, info)
                            == Some(PtpEventView::GrandmasterChanged { from: h })
                            && w.grandmaster_changes == v.grandmaster_changes + 1
                            && w.protocol_changes_count == v.protocol_changes_count + 1
                },
            }
        }),
{
}

/// Only a Delay_Resp and a P_Delay_Resp measure the path, whose smallest and largest
/// delay regardless of sign are kept.
pub proof fn law_path_delays_are_measured(v: PtpStatsView, info: PtpInfoView, kind: Option<Seq<char>>, now: u64, delay: i64)
    requires
        info.grandmaster_id is None,
        delay != i64::MIN,
    ensures
        ({
            let w = domain_updated(v, info, kind, now);
            let size = if delay < 0 {
                -delay
            } else {
                delay as int
            };
            &&& (info.message_type == 9 || info.message_type == 3) && info.path_delay_ns == Some(delay)
                ==> {
                &&& w.last_path_delay_ns == Some(delay)
                &&& w.min_path_delay_ns matches Some(m) && m <= size && (m == size
                    || v.min_path_delay_ns == Some(m)) && (v.min_path_delay_ns matches Some(o) ==> m
                    <= o)
                &&& w.max_path_delay_ns matches Some(m) && m >= size && (m == size
                    || v.max_path_delay_ns == Some(m)) && (v.max_path_delay_ns matches Some(o) ==> m
                    >= o)
            }
            &&& info.message_type != 9 && info.message_type != 3 ==> w.last_path_delay_ns
                == v.last_path_delay_ns && w.min_path_delay_ns == v.min_path_delay_ns
                && w.max_path_delay_ns == v.max_path_delay_ns
        }),
{
}

/// A Sync is seen and a Follow_Up is not one; both give the correction. The sender of a
/// version 1 Sync is listed with its stratum, or as the worst.
pub proof fn law_syncs_are_seen(v: PtpStatsView, info: PtpInfoView, kind: Option<Seq<char>>, now: u64)
    ensures
        ({
            let w = domain_updated(v, info, kind, now);
            &&& info.message_type == 0 ==> w.seen_sync
            &&& info.message_type != 0 ==> w.seen_sync == v.seen_sync && w.sync_senders_this_window
                == v.sync_senders_this_window
            &&& info.message_type == 0 || info.message_type == 8 ==> w.last_offset_ns
                == info.correction_ns
            &&& info.message_type != 0 && info.message_type != 8 ==> w.last_offset_ns
                == v.last_offset_ns
            &&& info.version != 1 || info.src_ip is None ==> w.sync_senders_this_window
                == v.sync_senders_this_window
            &&& info.message_type == 0 && info.version == 1 && info.src_ip is Some
                && info.stratum is Some ==> lookup(
                w.sync_senders_this_window,
                info.src_ip.unwrap(),
            ) == info.stratum
            &&& info.message_type == 0 && info.version == 1 && info.src_ip is Some
                && info.stratum is None ==> lookup(
                w.sync_senders_this_window,
                info.src_ip.unwrap(),
            ) == Some(255u8)
        }),
{
    if info.src_ip is Some {
        let ip = info.src_ip.unwrap();
        let x = match info.stratum {
            Some(s) => s,
            None => 255u8,
        };
        lemma_put_lookup(v.sync_senders_this_window, ip, x, ip);
    }
}

/// A domain is AVB's exactly where AVB carries it.
pub proof fn law_avb_domains_are_its_own(v: PtpStatsView)
    ensures
        gptp(v) <==> v.protocol_kind == Some("AVB"@),
{
}

/// Each five microseconds of delay are a hop.
pub proof fn law_hops_take_five_microseconds(ns: i64)
    ensures
        0 <= ns < 20_000_000_000_000 ==> hops(ns) * 5_000 <= ns < (hops(ns) + 1) * 5_000,
        ns < 0 ==> hops(ns) == 0,
{
}

/// With another grandmaster the path is measured anew; with the same one, or the first, what
/// was measured stays.
pub proof fn law_paths_are_of_one_grandmaster(
    v: PtpStatsView,
    info: PtpInfoView,
    kind: Option<Seq<char>>,
    now: u64,
    gm: Seq<char>,
)
    requires
        info.grandmaster_id == Some(gm),
        info.message_type != 9,
        info.message_type != 3,
    ensures
        ({
            let w = domain_updated(v, info, kind, now);
            &&& v.last_grandmaster is Some && v.last_grandmaster != Some(gm) ==> w.min_path_delay_ns is None
                && w.max_path_delay_ns is None
            &&& v.last_grandmaster is None || v.last_grandmaster == Some(gm) ==> w.min_path_delay_ns
                == v.min_path_delay_ns && w.max_path_delay_ns == v.max_path_delay_ns
            &&& w.last_path_delay_ns == v.last_path_delay_ns
        }),
{
}

/// Once a grandmaster was detected or changed, that is remembered; the same one again tells
/// nothing new. A response that measures no delay leaves none as the last.
pub proof fn law_detections_are_remembered(v: PtpStatsView, info: PtpInfoView, kind: Option<Seq<char>>, now: u64)
    ensures
        ({
            let w = domain_updated(v, info, kind, now);
            &&& info.grandmaster_id is Some && info.grandmaster_id != v.last_grandmaster
                ==> w.protocol_grandmaster_detected
            &&& info.grandmaster_id is None || info.grandmaster_id == v.last_grandmaster
                ==> w.protocol_grandmaster_detected == v.protocol_grandmaster_detected
                && w.protocol_changes_count == v.protocol_changes_count
            &&& info.path_delay_ns is None && (info.message_type == 9 || info.message_type == 3)
                ==> w.last_path_delay_ns is None
        }),
{
}

} // verus!
