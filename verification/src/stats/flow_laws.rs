//! What the counters of TCP flows and AVB streams are for.

use vstd::prelude::*;

use crate::binary::{capped, excess, places, pow2, quotient, rounded, seconds};
use crate::net::Ipv4Addr;
use crate::stats::avtp::{fresh_avtp, stream_id_text, with_frame_bytes, with_frame_seq, AvtpStreamStats};
use crate::stats::stream::rate;
use crate::stats::tcp::{fresh_flow, with_quality, with_rate, TcpStreamStats};
use crate::text::{hex2, hex_colons, nearest};

verus! {

// ── Rates ────────────────────────────────────────────────────────────────────

proof fn lemma_pow2_positive(k: nat)
    ensures
        pow2(k) >= 1,
    decreases k,
{
    if k > 0 {
        lemma_pow2_positive((k - 1) as nat);
    }
}

proof fn lemma_exact(r: nat, s: nat, k: nat)
    requires
        s > 0,
        k > 0,
    ensures
        nearest((r * s) * k, s) == r * k,
        (r * k) / k == r,
{
    assert((r * s) * k == (r * k) * s) by (nonlinear_arith);
    vstd::arithmetic::div_mod::lemma_div_multiples_vanish((r * k) as int, s as int);
    vstd::arithmetic::div_mod::lemma_mod_multiples_basic((r * k) as int, s as int);
    vstd::arithmetic::div_mod::lemma_div_multiples_vanish(r as int, k as int);
    assert((r * k) * s == s * (r * k)) by (nonlinear_arith);
    assert(r * k == k * r) by (nonlinear_arith);
}

proof fn lemma_small_is_exact(n: nat)
    requires
        n < 0x20_0000_0000_0000,
    ensures
        rounded(n) == n,
{
    assert(excess(n, 1) == 0);
    assert(pow2(0) == 1);
    assert(n / 1 == n && n % 1 == 0);
}

/// A rate is eight bits for each byte, over the seconds they took: `r` bits a second for
/// `s` seconds are `r * s` bits.
pub proof fn law_rates_are_bits_by_the_second(bytes: u64, s: u64, r: nat)
    requires
        s > 0,
        s < 18_000_000_000,
        8 * bytes < 0x20_0000_0000_0000,
        8 * bytes == r * s,
    ensures
        rate(bytes, (s * 1_000_000_000) as u64) == r,
{
    reveal(rate);
    let ns = (s * 1_000_000_000) as u64;
    lemma_small_is_exact(bytes as nat);
    assert(quotient(0, 1_000_000_000) == (0nat, 1nat)) by {
        assert(excess(0, 1_000_000_000) == 0);
        assert(places(0, 1_000_000_000) == 0);
        assert(pow2(0) == 1);
        assert(nearest(0, 1_000_000_000) == 0);
    }
    assert(ns % 1_000_000_000 == 0 && ns / 1_000_000_000 == s);
    lemma_small_is_exact(s as nat);
    assert(seconds(ns) == (s as nat, 1nat));
    let n = (bytes * 8) as nat;
    assert(n * 1 == n);
    assert(excess(n, s as nat) == 0) by {
        assert(n < s * 0x20_0000_0000_0000);
    }
    assert(pow2(0) == 1);
    let k = places(n, s as nat);
    lemma_pow2_positive(k);
    let p = pow2(k);
    assert(s * 1 == s);
    assert(n == r * s);
    lemma_exact(r, s as nat, p);
    assert(quotient(n, s as nat) == ((r * p) * 1, p));
    assert((r * p) * 1 == r * p) by (nonlinear_arith);
    assert(r <= n) by (nonlinear_arith)
        requires
            n == r * s,
            s >= 1,
    ;
    assert(capped(r) == r);
}

// ── TCP flows ────────────────────────────────────────────────────────────────

/// A flow ended once it was reset, or closed from both ends; it is critical above ten
/// retransmissions and degrades above two. Only its quality is judged.
pub proof fn law_flows_are_judged(t: TcpStreamStats)
    ensures
        ({
            let q = with_quality(t).stream_quality;
            &&& t.rst_packets > 0 || t.fin_packets >= 2 <==> q is Terminated
            &&& t.rst_packets == 0 && t.fin_packets < 2 ==> {
                &&& q is Critical <==> t.retransmissions > 10
                &&& q is Degrading <==> 3 <= t.retransmissions <= 10
                &&& q is Healthy <==> t.retransmissions <= 2
            }
        }),
        with_quality(t) == (TcpStreamStats {
            stream_quality: with_quality(t).stream_quality,
            ..t
        }),
{
}

/// One end that closes a flow does not end it.
pub proof fn law_half_closed_flows_go_on(t: TcpStreamStats)
    ensures
        t.rst_packets == 0 && t.fin_packets == 1 && t.retransmissions == 0 ==> with_quality(
            t,
        ).stream_quality is Healthy,
{
}

/// The rate of a flow is measured once more than a second has passed, from the bytes
/// since the last measurement, and then starts over.
pub proof fn law_flow_rates(t: TcpStreamStats, now: u64)
    requires
        t.bytes_at_check <= t.bytes,
    ensures
        now - t.last_bitrate_check > 1_000_000_000 ==> with_rate(t, now) == (TcpStreamStats {
            bitrate_bps: rate(
                (t.bytes - t.bytes_at_check) as u64,
                (now - t.last_bitrate_check) as u64,
            ),
            bytes_at_check: t.bytes,
            last_bitrate_check: now,
            ..t
        }),
        now - t.last_bitrate_check <= 1_000_000_000 ==> with_rate(t, now) == t,
{
}

/// A new flow goes from one end to the other, is healthy, and has counted nothing.
pub proof fn law_new_flows_are_empty(src: Ipv4Addr, dst: Ipv4Addr, now: u64)
    ensures
        ({
            let t = fresh_flow(src, dst, now);
            &&& t.src_ip == src && t.dst_ip == dst && t.last_seen == now && t.last_bitrate_check == now
            &&& t.packets == 0 && t.bytes == 0 && t.retransmissions == 0 && t.fin_packets == 0
                && t.rst_packets == 0 && t.bitrate_bps == 0 && t.bytes_at_check == 0
            &&& t.stream_quality is Healthy && t.last_seq is None && t.last_ack is None
        }),
{
}

// ── AVB streams ──────────────────────────────────────────────────────────────

/// Frames of a stream are numbered up to 255 and then from 0 again. From one to the next
/// that comes, those between are lost; a number at least half the circle ahead is from
/// behind, and no loss. The first loses none.
pub proof fn law_frames_between_are_lost(s: AvtpStreamStats, last: u8, seq: u8)
    requires
        s.lost_frames < u64::MAX - 256,
    ensures
        ({
            let between = if seq > last {
                seq - last - 1
            } else {
                seq + 255 - last
            };
            s.last_seq == Some(last) ==> with_frame_seq(s, seq).lost_frames == s.lost_frames + (
            if between < 128 {
                between
            } else {
                0
            })
        }),
        s.last_seq is None ==> with_frame_seq(s, seq).lost_frames == s.lost_frames,
        with_frame_seq(s, seq) == (AvtpStreamStats {
            last_seq: Some(seq),
            lost_frames: with_frame_seq(s, seq).lost_frames,
            ..s
        }),
{
}

/// Every byte of a frame counts, and the rate is measured once more than a second has
/// passed.
pub proof fn law_frame_rates(s: AvtpStreamStats, len: u64, now: u64)
    requires
        s.bytes_total + len <= u64::MAX,
        s.bytes_at_check <= s.bytes_total,
    ensures
        now - s.last_bitrate_check > 1_000_000_000 ==> with_frame_bytes(s, len, now) == (
        AvtpStreamStats {
            bytes_total: (s.bytes_total + len) as u64,
            bitrate_bps: rate(
                (s.bytes_total + len - s.bytes_at_check) as u64,
                (now - s.last_bitrate_check) as u64,
            ),
            bytes_at_check: (s.bytes_total + len) as u64,
            last_bitrate_check: now,
            ..s
        }),
        now - s.last_bitrate_check <= 1_000_000_000 ==> with_frame_bytes(s, len, now) == (
        AvtpStreamStats { bytes_total: (s.bytes_total + len) as u64, ..s }),
{
}

/// A new stream has counted nothing.
pub proof fn law_new_avb_streams_are_empty(id: [u8; 8], subtype: u8, now: u64)
    ensures
        ({
            let s = fresh_avtp(id, subtype, now);
            &&& s.stream_id == id && s.subtype == subtype && s.last_seen == now && s.last_bitrate_check
                == now
            &&& s.packets == 0 && s.lost_frames == 0 && s.last_seq is None && s.bytes_total == 0
                && s.bytes_at_check == 0 && s.bitrate_bps == 0
            &&& s.pcp_violations == 0 && s.observed_pcp is None && s.msrp_declared_pcp is None
        }),
{
}

/// A stream is written as the address of its talker and its number.
pub proof fn law_stream_identifiers(mac: Seq<u8>, hi: u8, lo: u8)
    requires
        mac.len() == 6,
    ensures
        stream_id_text(mac + seq![hi, lo]) == hex_colons(mac) + seq![':'] + hex2(hi) + hex2(lo),
{
    let id = mac + seq![hi, lo];
    assert(id.subrange(0, 6) =~= mac);
    assert(hex_colons(mac).push(':') =~= hex_colons(mac) + seq![':']);
}

} // verus!
