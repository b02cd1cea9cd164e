//! Where rounding to double precision loses nothing, and what is told there.

use vstd::prelude::*;

use crate::binary::{excess, milliseconds, picoseconds, places, pow2, quotient, quotient_text, rounded, seconds};
use crate::capture::checks::multicast_mbps;
use crate::report::line::microseconds;
use crate::report::status::bandwidth_text;
use crate::report::streams::mbps;
use crate::stats::diagnostic::{pct_text, Pct};
use crate::text::{dec, fixed, nearest, padded, pow10};

verus! {

proof fn lemma_pow2_positive(k: nat)
    ensures
        pow2(k) >= 1,
    decreases k,
{
    if k > 0 {
        lemma_pow2_positive((k - 1) as nat);
    }
}

proof fn lemma_multiple(r: nat, s: nat)
    requires
        s > 0,
    ensures
        nearest(r * s, s) == r,
{
    vstd::arithmetic::div_mod::lemma_div_multiples_vanish(r as int, s as int);
    vstd::arithmetic::div_mod::lemma_mod_multiples_basic(r as int, s as int);
    assert(r * s == s * r) by (nonlinear_arith);
}

/// A whole number below 2^53 is held as it is.
pub proof fn law_small_numbers_are_exact(n: nat)
    requires
        n < 0x20_0000_0000_0000,
    ensures
        rounded(n) == n,
{
    assert(excess(n, 1) == 0);
    assert(pow2(0) == 1);
    assert(n / 1 == n && n % 1 == 0);
}

/// A quotient that is a whole number below 2^53 is held as it is.
pub proof fn law_whole_quotients_are_exact(r: nat, s: nat)
    requires
        s > 0,
        r < 0x20_0000_0000_0000,
    ensures
        quotient(r * s, s).0 == r * quotient(r * s, s).1,
        quotient(r * s, s).1 >= 1,
{
    let n = r * s;
    assert(n < s * 0x20_0000_0000_0000) by (nonlinear_arith)
        requires
            n == r * s,
            r < 0x20_0000_0000_0000,
            s > 0,
    ;
    assert(excess(n, s) == 0);
    assert(pow2(0) == 1);
    let k = places(n, s);
    lemma_pow2_positive(k);
    let p = pow2(k);
    assert(s * 1 == s);
    assert(n * p == (r * p) * s) by (nonlinear_arith)
        requires
            n == r * s,
    ;
    lemma_multiple(r * p, s);
    assert((r * p) * 1 == r * p) by (nonlinear_arith);
}

proof fn lemma_fixed_whole(r: nat, p: nat)
    requires
        p > 0,
    ensures
        fixed(r * p, p, 0) == dec(r),
        fixed(r * p, p, 1) == dec(r).push('.').push('0'),
        fixed(r * p, p, 2) == dec(r).push('.').push('0').push('0'),
{
    reveal_with_fuel(pow10, 3);
    reveal_with_fuel(padded, 3);
    assert((r * p) * 1 == r * p) by (nonlinear_arith);
    assert((r * p) * 10 == (10 * r) * p) by (nonlinear_arith);
    assert((r * p) * 100 == (100 * r) * p) by (nonlinear_arith);
    lemma_multiple(r, p);
    lemma_multiple(10 * r, p);
    lemma_multiple(100 * r, p);
    assert((10 * r) / 10 == r && (10 * r) % 10 == 0);
    assert((100 * r) / 100 == r && (100 * r) % 10 == 0 && (100 * r) / 10 == 10 * r);
    assert(fixed(r * p, p, 1) =~= dec(r).push('.').push('0'));
    assert(fixed(r * p, p, 2) =~= dec(r).push('.').push('0').push('0'));
}

/// A whole quotient is told with zeros behind the point.
pub proof fn law_whole_quotients_are_told(r: nat, s: nat)
    requires
        s > 0,
        r < 0x20_0000_0000_0000,
    ensures
        quotient_text(r * s, s, 0) == dec(r),
        quotient_text(r * s, s, 1) == dec(r).push('.').push('0'),
        quotient_text(r * s, s, 2) == dec(r).push('.').push('0').push('0'),
{
    law_whole_quotients_are_exact(r, s);
    lemma_fixed_whole(r, quotient(r * s, s).1);
}

/// A million bits a second are told as one.
pub proof fn law_megabits(n: nat)
    requires
        n < 9_000_000_000,
    ensures
        mbps((n * 1_000_000) as u64) == dec(n).push('.').push('0'),
{
    law_small_numbers_are_exact(n * 1_000_000);
    law_whole_quotients_are_told(n, 1_000_000);
}

/// A window of five seconds: 625000 bytes in it are a million bits a second.
pub proof fn law_bandwidth_of_a_window(n: nat)
    requires
        n < 1_000_000_000,
    ensures
        bandwidth_text((n * 625_000) as u64) == "Bandwidth: "@ + dec(n).push('.').push('0')
            + " Mbps (last 5s)"@,
{
    law_small_numbers_are_exact(n * 625_000);
    assert((n * 625_000) * 8 == n * 5_000_000);
    law_whole_quotients_are_told(n, 5_000_000);
}

/// The same of multicast.
pub proof fn law_multicast_of_a_window(n: nat)
    requires
        n < 1_000_000_000,
    ensures
        multicast_mbps((n * 625_000) as u64) == dec(n),
{
    law_small_numbers_are_exact(n * 625_000);
    let m = n * 1_000_000;
    assert((n * 625_000) * 8 == m * 5);
    law_whole_quotients_are_exact(m, 5);
    let (a, d) = quotient(m * 5, 5);
    lemma_places_bound(m * 5, 5);
    let k = n * d;
    assert(a == k * 1_000_000) by (nonlinear_arith)
        requires
            a == m * d,
            m == n * 1_000_000,
            k == n * d,
    ;
    assert(k < 0x20_0000_0000_0000) by (nonlinear_arith)
        requires
            n == 0 || m * 5 * d < 5 * 0x20_0000_0000_0000,
            m == n * 1_000_000,
            k == n * d,
            n == 0 ==> k == 0,
            d >= 1,
    ;
    law_whole_quotients_are_exact(k, 1_000_000);
    let (b, e) = quotient(a, 1_000_000);
    assert(b == n * (d * e)) by (nonlinear_arith)
        requires
            b == k * e,
            k == n * d,
    ;
    assert(d * e >= 1) by (nonlinear_arith)
        requires
            d >= 1,
            e >= 1,
    ;
    lemma_fixed_whole(n, d * e);
}

proof fn lemma_places_bound(n: nat, s: nat)
    requires
        s > 0,
        n < s * 0x20_0000_0000_0000,
    ensures
        n > 0 ==> n * pow2(places(n, s)) < s * 0x20_0000_0000_0000,
    decreases s * 0x20_0000_0000_0000 - n,
{
    if n == 0 || n >= s * 0x10_0000_0000_0000 {
        assert(n * 1 == n) by (nonlinear_arith);
    } else {
        lemma_places_bound(2 * n, s);
        let p = pow2(places(2 * n, s));
        assert((2 * n) * p == n * (2 * p)) by (nonlinear_arith);
    }
}

/// A thousand nanoseconds are told as one microsecond, on either side of zero.
pub proof fn law_microseconds(n: nat)
    requires
        n < 9_000_000_000_000,
    ensures
        microseconds((n * 1_000) as int) == dec(n).push('.').push('0'),
        n > 0 ==> microseconds(-(n * 1_000)) == "-"@ + dec(n).push('.').push('0'),
{
    law_small_numbers_are_exact(n * 1_000);
    law_whole_quotients_are_told(n, 1_000);
}

/// Of a hundred packets each lost one is a percent.
pub proof fn law_percents(n: u64, k: u64)
    requires
        n <= 100,
        0 < k < 1_000_000_000,
    ensures
        pct_text(
            Pct { part: (n * k) as u64, received: ((100 - n) * k) as u64, lost: (n * k) as u64 },
            1,
        ) == dec(n as nat).push('.').push('0'),
        pct_text(
            Pct { part: (n * k) as u64, received: ((100 - n) * k) as u64, lost: (n * k) as u64 },
            2,
        ) == dec(n as nat).push('.').push('0').push('0'),
{
    let part = (n * k) as nat;
    assert(part <= 100 * k) by (nonlinear_arith)
        requires
            part == n * k,
            n <= 100,
    ;
    assert((100 - n) * k + n * k == 100 * k) by (nonlinear_arith);
    assert((100 - n) * k <= 100 * k) by (nonlinear_arith)
        requires
            n <= 100,
    ;
    let whole = (100 * k) as nat;
    law_small_numbers_are_exact(part);
    law_small_numbers_are_exact(100 * part);
    law_small_numbers_are_exact(whole);
    assert(100 * part == n * whole) by (nonlinear_arith)
        requires
            part == n * k,
            whole == 100 * k,
    ;
    law_whole_quotients_are_told(n as nat, whole);
}

proof fn lemma_whole_seconds(s: u64)
    requires
        s < 18_000_000_000,
    ensures
        seconds((s * 1_000_000_000) as u64) == (s as nat, 1nat),
{
    let ns = (s * 1_000_000_000) as u64;
    assert(quotient(0, 1_000_000_000) == (0nat, 1nat)) by {
        assert(excess(0, 1_000_000_000) == 0);
        assert(places(0, 1_000_000_000) == 0);
        assert(pow2(0) == 1);
        assert(nearest(0, 1_000_000_000) == 0);
    }
    assert(ns % 1_000_000_000 == 0 && ns / 1_000_000_000 == s);
    law_small_numbers_are_exact(s as nat);
}

/// Whole seconds are told in milliseconds as thousands.
pub proof fn law_milliseconds(s: u64)
    requires
        s < 9_000_000_000,
    ensures
        milliseconds((s * 1_000_000_000) as u64) == dec((1000 * s) as nat).push('.').push('0'),
        fixed(
            seconds((s * 1_000_000_000) as u64).0,
            seconds((s * 1_000_000_000) as u64).1,
            0,
        ) == dec(s as nat),
{
    lemma_whole_seconds(s);
    law_small_numbers_are_exact((1000 * s) as nat);
    let n = (1000 * s) as nat;
    assert(n * 1 == n && s * 1 == s);
    lemma_fixed_whole(n, 1);
    lemma_fixed_whole(s as nat, 1);
}

proof fn lemma_pow2_product(a: nat, b: nat)
    ensures
        pow2(a + b) == pow2(a) * pow2(b),
    decreases a,
{
    if a > 0 {
        lemma_pow2_product((a - 1) as nat, b);
        let x = pow2((a - 1) as nat) as int;
        let y = pow2(b) as int;
        assert((2 * x) * y == 2 * (x * y)) by (nonlinear_arith);
        assert(pow2(a + b) == 2 * pow2((a + b - 1) as nat));
    } else {
        assert(pow2(0) == 1);
        assert(1 * pow2(b) == pow2(b)) by (nonlinear_arith);
    }
}

proof fn lemma_places_reach(n: nat, s: nat)
    requires
        s > 0,
        n > 0,
    ensures
        n * pow2(places(n, s)) >= s * 0x10_0000_0000_0000,
    decreases s * 0x20_0000_0000_0000 - n,
{
    if n >= s * 0x10_0000_0000_0000 {
        assert(n * 1 == n) by (nonlinear_arith);
    } else {
        lemma_places_reach(2 * n, s);
        let p = pow2(places(2 * n, s));
        assert((2 * n) * p == n * (2 * p)) by (nonlinear_arith);
    }
}

proof fn lemma_pow2_below(k: nat)
    requires
        k <= 32,
    ensures
        pow2(k) <= 0x1_0000_0000,
{
    reveal_with_fuel(pow2, 33);
    lemma_pow2_product(k, (32 - k) as nat);
    lemma_pow2_positive((32 - k) as nat);
    let x = pow2(k);
    let y = pow2((32 - k) as nat);
    assert(x <= x * y) by (nonlinear_arith)
        requires
            y >= 1,
    ;
}

/// Jitter of whole seconds is told in milliseconds.
pub proof fn law_jitter_in_milliseconds(m: nat)
    requires
        m < 1_000_000,
    ensures
        picoseconds((m * 1_000_000_000_000) as u64) == dec(1000 * m).push('.').push('0').push('0'),
{
    let s = 1_000_000_000_000nat;
    law_whole_quotients_are_exact(m, s);
    let p = quotient(m * s, s).1;
    let k = places(m * s, s);
    if m == 0 {
        assert(0 * p == 0);
        law_small_numbers_are_exact(0);
        lemma_fixed_whole(0, p);
    } else {
        lemma_places_bound(m * s, s);
        lemma_places_reach(m * s, s);
        assert(m * p < 0x20_0000_0000_0000) by (nonlinear_arith)
            requires
                (m * s) * p < s * 0x20_0000_0000_0000,
                s > 0,
        ;
        assert(p > 0x1_0000_0000) by (nonlinear_arith)
            requires
                (m * s) * p >= s * 0x10_0000_0000_0000,
                s > 0,
                m < 1_000_000,
        ;
        if k <= 32 {
            lemma_pow2_below(k);
        }
        let n = 1000 * (m * p);
        let e = excess(n, 1);
        assert(e <= 10) by {
            reveal_with_fuel(excess, 12);
        }
        lemma_pow2_product(e, (k - e) as nat);
        lemma_pow2_positive(e);
        let a = pow2(e);
        let b = pow2((k - e) as nat);
        let r = 1000 * (m * b);
        assert(n == r * a) by (nonlinear_arith)
            requires
                n == 1000 * (m * p),
                p == a * b,
                r == 1000 * (m * b),
        ;
        lemma_multiple(r, a);
        assert(rounded(n) == n);
        assert(n == (1000 * m) * p) by (nonlinear_arith)
            requires
                n == 1000 * (m * p),
        ;
        lemma_fixed_whole(1000 * m, p);
    }
}

} // verus!
