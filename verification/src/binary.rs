//! Numbers as double precision holds them: 53 binary places, rounded to the
//! nearest, halves to the even one.

use vstd::arithmetic::div_mod::{lemma_fundamental_div_mod, lemma_fundamental_div_mod_converse};
use vstd::prelude::*;

use crate::text::{fixed, nearest, pow10, push_fixed};

verus! {

pub open spec fn pow2(k: nat) -> nat
    decreases k,
{
    if k == 0 {
        1
    } else {
        2 * pow2((k - 1) as nat)
    }
}

/// How often a fraction is to be halved to come below 2^53.
pub open spec fn excess(num: nat, den: nat) -> nat
    decreases num - den,
{
    if den == 0 || num < den * 0x20_0000_0000_0000 {
        0
    } else {
        1 + excess(num, 2 * den)
    }
}

/// How often a fraction is to be doubled to come up to 2^52.
pub open spec fn places(num: nat, den: nat) -> nat
    decreases den * 0x20_0000_0000_0000 - num,
{
    if num == 0 || num >= den * 0x10_0000_0000_0000 {
        0
    } else {
        1 + places(2 * num, den)
    }
}

/// A whole number to 53 binary places.
pub open spec fn rounded(n: nat) -> nat {
    nearest(n, pow2(excess(n, 1))) * pow2(excess(n, 1))
}

/// The fraction `num / den` to 53 binary places, over a power of two.
pub open spec fn quotient(num: nat, den: nat) -> (nat, nat) {
    let e = excess(num, den);
    let k = places(num, den);
    (nearest(num * pow2(k), den * pow2(e)) * pow2(e), pow2(k))
}

/// A quotient with a fixed number of decimals.
pub open spec fn quotient_text(num: nat, den: nat, decimals: nat) -> Seq<char> {
    fixed(quotient(num, den).0, quotient(num, den).1, decimals)
}

/// A time in nanoseconds as seconds, over a power of two: the whole seconds and the
/// rest are put together.
pub open spec fn seconds(ns: u64) -> (nat, nat) {
    let (a, d) = quotient((ns % 1_000_000_000) as nat, 1_000_000_000);
    (rounded((ns / 1_000_000_000) as nat * d + a), d)
}

// ── Rounding ─────────────────────────────────────────────────────────────────

fn to_nearest(num: u128, den: u128) -> (r: u128)
    requires
        0 < den < 0x8000_0000_0000_0000_0000_0000_0000_0000,
        num < 0x8000_0000_0000_0000_0000_0000_0000_0000,
    ensures
        r == nearest(num as nat, den as nat),
        r <= num / den + 1,
        r >= num / den,
{
    let q: u128 = num / den;
    let r: u128 = num % den;
    assert(0 <= q <= num) by (nonlinear_arith)
        requires
            q == num / den,
            den > 0,
            num >= 0,
    ;
    if 2 * r > den || (2 * r == den && q % 2 == 1) {
        q + 1
    } else {
        q
    }
}

/// Rounds a whole number to 53 binary places: a number of steps, and the step.
fn round_parts(n: u128) -> (r: (u128, u128))
    requires
        n < 0x8000_0000_0000_0000_0000_0000_0000_0000,
    ensures
        r.0 * r.1 == rounded(n as nat),
        r.0 <= 0x20_0000_0000_0000,
        r.1 == pow2(excess(n as nat, 1)),
        r.1 == 1 || r.1 <= n / 0x10_0000_0000_0000,
        r.1 >= 1,
        r.0 * r.1 <= n + n / 0x10_0000_0000_0000,
        r.0 >= n / r.1,
        r.0 * r.1 + r.1 > n,
{
    let mut d: u128 = 1;
    let ghost mut e: nat = 0;
    while n / 0x20_0000_0000_0000 >= d
        invariant
            1 <= d,
            d == 1 || d <= n / 0x10_0000_0000_0000,
            n < 0x8000_0000_0000_0000_0000_0000_0000_0000,
            d == pow2(e),
            excess(n as nat, 1) == e + excess(n as nat, d as nat),
        decreases n - d,
    {
        d = 2 * d;
        proof {
            e = e + 1;
        }
    }
    assert(excess(n as nat, d as nat) == 0);
    let q: u128 = to_nearest(n, d);
    proof {
        lemma_step(n, d, q);
        let m = n as int / d as int;
        assert(m < 0x20_0000_0000_0000) by (nonlinear_arith)
            requires
                m == n as int / d as int,
                n < d * 0x20_0000_0000_0000,
                d > 0,
        ;
        if d == 1 {
            assert(q * d == q);
        }
        assert(q * d + d > n) by (nonlinear_arith)
            requires
                q >= n as int / d as int,
                d > 0,
        ;
    }
    (q, d)
}

/// Rounds a whole number to 53 binary places.
pub fn round(n: u128) -> (r: u128)
    requires
        n < 0x4000_0000_0000_0000_0000_0000_0000_0000,
    ensures
        r == rounded(n as nat),
        n - n / 0x10_0000_0000_0000 <= r <= n + n / 0x10_0000_0000_0000,
{
    let (q, step) = round_parts(n);
    q * step
}

/// What is above zero is not rounded to zero.
pub proof fn lemma_rounded_positive(n: nat)
    requires
        n > 0,
    ensures
        rounded(n) > 0,
{
    lemma_excess_fits(n, 1);
    let d = pow2(excess(n, 1));
    assert(n / d >= 1) by (nonlinear_arith)
        requires
            n >= d,
            d > 0,
    ;
    let q = nearest(n, d);
    assert(q * d > 0) by (nonlinear_arith)
        requires
            q >= 1,
            d > 0,
    ;
}

proof fn lemma_excess_fits(n: nat, d: nat)
    requires
        n >= d > 0,
    ensures
        d * pow2(excess(n, d)) <= n,
        pow2(excess(n, d)) > 0,
    decreases n - d,
{
    if n >= d * 0x20_0000_0000_0000 {
        lemma_excess_fits(n, 2 * d);
        let x = pow2(excess(n, 2 * d)) as int;
        assert(d * (2 * x) == (2 * d) * x) by (nonlinear_arith);
    } else {
        assert(d * 1 == d);
    }
}

/// Rounding up in steps of `d` adds less than one step.
proof fn lemma_step(n: u128, d: u128, q: u128)
    requires
        0 < d,
        q <= n / d + 1,
    ensures
        q * d <= n + d,
{
    let m = n as int / d as int;
    assert(m * d <= n) by (nonlinear_arith)
        requires
            m == n as int / d as int,
            d > 0,
    ;
    assert(q * d <= (m + 1) * d) by (nonlinear_arith)
        requires
            q <= m + 1,
            d > 0,
    ;
    assert((m + 1) * d == m * d + d) by (nonlinear_arith);
}

/// A common factor does not change what is nearest.
proof fn lemma_nearest_scale(n: nat, d: nat, c: nat)
    requires
        d > 0,
        c > 0,
    ensures
        nearest(c * n, c * d) == nearest(n, d),
{
    let q = (n / d) as int;
    let r = (n % d) as int;
    lemma_fundamental_div_mod(n as int, d as int);
    assert(c * n == q * (c * d) + c * r) by (nonlinear_arith)
        requires
            n == d * q + r,
    ;
    assert(0 <= c * r < c * d) by (nonlinear_arith)
        requires
            0 <= r < d,
            c > 0,
    ;
    lemma_fundamental_div_mod_converse((c * n) as int, (c * d) as int, q, c * r);
    assert(2 * (c * r) > c * d <==> 2 * r > d) by (nonlinear_arith)
        requires
            c > 0,
    ;
    assert(2 * (c * r) == c * d <==> 2 * r == d) by (nonlinear_arith)
        requires
            c > 0,
    ;
}

/// Divides, to 53 binary places.
pub fn divide(num: u128, den: u128) -> (r: (u128, u128))
    requires
        0 < den <= 0x200_0000_0000_0000_0000,
        num < 0x4000_0000_0000_0000_0000_0000_0000_0000,
    ensures
        (r.0 as nat, r.1 as nat) == quotient(num as nat, den as nat),
        r.1 >= 1,
        r.1 == 1 || r.1 * num <= den * 0x20_0000_0000_0000,
        r.0 <= 0x20_0000_0000_0000 || r.0 <= 2 * num,
        r.1 > 1 ==> 0x10_0000_0000_0000 <= r.0 <= 0x20_0000_0000_0000,
        r.1 == pow2(places(num as nat, den as nat)),
        num < den * 0x20_0000_0000_0000 ==> r.0 * den <= num * r.1 + den,
{
    let mut n: u128 = num;
    let mut p: u128 = 1;
    let ghost mut k: nat = 0;
    while n != 0 && n < den * 0x10_0000_0000_0000
        invariant
            0 < den <= 0x200_0000_0000_0000_0000,
            n == num * p,
            n < 0x4000_0000_0000_0000_0000_0000_0000_0000,
            p == pow2(k),
            p >= 1,
            p == 1 || n < den * 0x20_0000_0000_0000,
            p == 1 || 0 < num < den * 0x10_0000_0000_0000,
            places(num as nat, den as nat) == k + places(n as nat, den as nat),
        decreases den * 0x20_0000_0000_0000 - n,
    {
        assert(p <= num * p) by (nonlinear_arith)
            requires
                num * p != 0,
                num >= 0,
                p >= 0,
        ;
        assert(num * (2 * p) == 2 * (num * p)) by (nonlinear_arith);
        assert(num <= num * p) by (nonlinear_arith)
            requires
                p >= 1,
                num >= 0,
        ;
        n = 2 * n;
        p = 2 * p;
        proof {
            k = k + 1;
        }
    }
    assert(places(n as nat, den as nat) == 0);
    let mut d: u128 = den;
    let mut c: u128 = 1;
    let ghost mut e: nat = 0;
    while n / 0x20_0000_0000_0000 >= d
        invariant
            0 < den <= d,
            d == den || d <= n,
            d == den * c,
            c == pow2(e),
            c >= 1,
            n < 0x4000_0000_0000_0000_0000_0000_0000_0000,
            excess(n as nat, den as nat) == e + excess(n as nat, d as nat),
        decreases n - d,
    {
        assert(den * (2 * c) == 2 * (den * c)) by (nonlinear_arith);
        assert(c <= den * c) by (nonlinear_arith)
            requires
                den >= 1,
                c >= 0,
        ;
        d = 2 * d;
        c = 2 * c;
        proof {
            e = e + 1;
        }
    }
    assert(excess(n as nat, d as nat) == 0);
    proof {
        if p > 1 {
            assert(excess(num as nat, den as nat) == 0);
            assert(excess(n as nat, den as nat) == 0);
            assert(e == 0 && c == 1 && d == den);
            assert(n > 0) by (nonlinear_arith)
                requires
                    n == num * p,
                    num > 0,
                    p > 1,
            ;
        } else {
            assert(n == num);
        }
    }
    let q: u128 = to_nearest(n, d);
    proof {
        lemma_step(n, d, q);
        assert(c <= den * c) by (nonlinear_arith)
            requires
                den >= 1,
                c >= 0,
        ;
        assert(q * c <= q * d) by (nonlinear_arith)
            requires
                c <= d,
                q >= 0,
        ;
        let m = n as int / d as int;
        assert(m < 0x20_0000_0000_0000) by (nonlinear_arith)
            requires
                m == n as int / d as int,
                n < d * 0x20_0000_0000_0000,
                d > 0,
        ;
        if n >= d * 0x10_0000_0000_0000 {
            assert(m >= 0x10_0000_0000_0000) by (nonlinear_arith)
                requires
                    m == n as int / d as int,
                    n >= d * 0x10_0000_0000_0000,
                    d > 0,
            ;
        }
        if num < den * 0x20_0000_0000_0000 {
            assert(excess(num as nat, den as nat) == 0);
            assert(c == 1 && d == den);
        }
        if c == 1 {
            assert(q * c == q);
        } else {
            assert(d != den) by (nonlinear_arith)
                requires
                    d == den * c,
                    c > 1,
                    den > 0,
            ;
        }
    }
    (q * c, p)
}

// ── Showing ──────────────────────────────────────────────────────────────────

/// A common factor does not change what is shown.
proof fn lemma_fixed_scale(n: nat, d: nat, c: nat, decimals: nat)
    requires
        d > 0,
        c > 0,
    ensures
        fixed(c * n, c * d, decimals) == fixed(n, d, decimals),
{
    let p = pow10(decimals);
    assert((c * n) * p == c * (n * p)) by (nonlinear_arith);
    lemma_nearest_scale(n * p, d, c);
}

proof fn lemma_pow2_sum(a: nat, b: nat)
    ensures
        pow2(a + b) == pow2(a) * pow2(b),
        pow2(a) > 0,
    decreases a,
{
    if a > 0 {
        lemma_pow2_sum((a - 1) as nat, b);
        let x = pow2((a - 1) as nat) as int;
        let y = pow2(b) as int;
        assert((2 * x) * y == 2 * (x * y)) by (nonlinear_arith);
        assert(pow2(a + b) == 2 * pow2((a + b - 1) as nat));
    } else {
        let y = pow2(b) as int;
        assert(pow2(0) == 1);
        assert(1 * y == y);
    }
}

proof fn lemma_pow2_grows(a: nat, b: nat)
    requires
        a <= b,
    ensures
        0 < pow2(a) <= pow2(b),
    decreases b,
{
    if a < b {
        lemma_pow2_grows(a, (b - 1) as nat);
    } else if b > 0 {
        lemma_pow2_grows((a - 1) as nat, (b - 1) as nat);
    }
}

/// Of two powers of two the smaller divides the greater.
proof fn lemma_pow2_divides(e: nat, k: nat)
    requires
        pow2(e) <= pow2(k),
    ensures
        pow2(k) == pow2(e) * (pow2(k) / pow2(e)),
        pow2(k) / pow2(e) > 0,
{
    if e > k {
        lemma_pow2_grows(k, (e - 1) as nat);
        assert(pow2(e) == 2 * pow2((e - 1) as nat));
        assert(false);
    }
    let x = pow2(e) as int;
    let y = pow2((k - e) as nat) as int;
    lemma_pow2_sum(e, (k - e) as nat);
    lemma_pow2_sum((k - e) as nat, 0);
    assert(y * x + 0 == x * y) by (nonlinear_arith);
    lemma_fundamental_div_mod_converse(x * y, x, y, 0);
}

/// Takes a common factor out of `n`, rounded to 53 binary places, over `d`, which is
/// a power of two.
fn reduced(n: u128, d: u128, k: Ghost<nat>) -> (r: (u128, u128, Ghost<nat>))
    requires
        d == pow2(k@),
        n / 0x10_0000_0000_0000 < d,
        n < 0x8000_0000_0000_0000_0000_0000_0000_0000,
    ensures
        r.2@ > 0,
        r.2@ * r.0 == rounded(n as nat),
        r.2@ * r.1 == d,
        r.0 <= 0x20_0000_0000_0000,
        0 < r.1 <= d,
        n >= d ==> r.1 <= r.0,
{
    let (q, step) = round_parts(n);
    proof {
        if n >= d {
            assert(d / step <= n / step) by (nonlinear_arith)
                requires
                    d <= n,
                    step >= 1,
            ;
        }
        lemma_pow2_grows(0, k@);
        lemma_pow2_divides(excess(n as nat, 1), k@);
        assert(step * q == q * step) by (nonlinear_arith);
        assert(d / step <= d) by (nonlinear_arith)
            requires
                step >= 1,
                d >= 0,
        ;
    }
    (q, d / step, Ghost(step as nat))
}

/// Appends `n`, rounded to 53 binary places, over `d`, which is a power of two, with
/// a fixed number of decimals.
fn push_over(s: &mut String, n: u128, d: u128, k: Ghost<nat>, decimals: u32)
    requires
        d == pow2(k@),
        n / 0x10_0000_0000_0000 < d,
        n < 0x8000_0000_0000_0000_0000_0000_0000_0000,
        d < 0x4000_0000_0000_0000_0000_0000_0000_0000,
        decimals <= 3,
    ensures
        final(s)@ == old(s)@ + fixed(rounded(n as nat), d as nat, decimals as nat),
{
    let (m, over, c) = reduced(n, d, k);
    proof {
        lemma_fixed_scale(m as nat, over as nat, c@, decimals as nat);
    }
    push_fixed(s, m, over, decimals);
}

/// Appends a quotient with a fixed number of decimals.
pub fn push_quotient(s: &mut String, num: u128, den: u128, decimals: u32)
    requires
        0 < den <= 0x100_0000_0000_0000_0000,
        num < 0x4_0000_0000_0000_0000_0000_0000_0000,
        decimals <= 3,
    ensures
        final(s)@ == old(s)@ + quotient_text(num as nat, den as nat, decimals as nat),
{
    let (n, d) = divide(num, den);
    proof {
        lemma_over_bound(num, den, d);
    }
    push_fixed(s, n, d, decimals);
}

pub proof fn lemma_over_bound(num: u128, den: u128, d: u128)
    requires
        d == pow2(places(num as nat, den as nat)),
        d == 1 || d * num <= den * 0x20_0000_0000_0000,
        den > 0,
    ensures
        d <= den * 0x20_0000_0000_0000,
{
    if num > 0 {
        assert(d <= d * num) by (nonlinear_arith)
            requires
                num >= 1,
                d >= 0,
        ;
    }
}

/// The parts of a time in seconds: what is to be rounded, and the power of two that
/// it is over.
fn second_parts(ns: u64) -> (r: (u128, u128, Ghost<nat>))
    ensures
        (rounded(r.0 as nat), r.1 as nat) == seconds(ns),
        r.1 == pow2(r.2@),
        r.0 <= 18_446_744_075 * r.1,
        1 <= r.1 <= 9_007_199_254_740_992_000_000_000,
        ns >= 1_000_000_000 ==> r.0 >= r.1,
{
    let nanos: u128 = (ns % 1_000_000_000) as u128;
    let whole: u128 = (ns / 1_000_000_000) as u128;
    let (a, d) = divide(nanos, 1_000_000_000);
    let ghost k = places(nanos as nat, 1_000_000_000);
    proof {
        lemma_over_bound(nanos, 1_000_000_000, d);
        assert(nanos * d <= 999_999_999 * d) by (nonlinear_arith)
            requires
                0 <= nanos <= 999_999_999,
                d >= 0,
        ;
        assert(0 <= whole * d <= 18_446_744_073 * d) by (nonlinear_arith)
            requires
                0 <= whole <= 18_446_744_073,
                d >= 0,
        ;
        if whole >= 1 {
            assert(whole * d >= d) by (nonlinear_arith)
                requires
                    whole >= 1,
                    d >= 0,
            ;
        }
    }
    (whole * d + a, d, Ghost(k))
}

/// Appends a time in whole seconds.
pub fn push_seconds(s: &mut String, ns: u64)
    ensures
        final(s)@ == old(s)@ + fixed(seconds(ns).0, seconds(ns).1, 0),
{
    let (n, d, k) = second_parts(ns);
    push_over(s, n, d, k, 0);
}

/// A time in milliseconds with one decimal.
pub open spec fn milliseconds(ns: u64) -> Seq<char> {
    fixed(rounded(1000 * seconds(ns).0), seconds(ns).1, 1)
}

/// Appends a time in milliseconds.
pub fn push_milliseconds(s: &mut String, ns: u64)
    ensures
        final(s)@ == old(s)@ + milliseconds(ns),
{
    let (n, d, k) = second_parts(ns);
    let m: u128 = round(n);
    push_over(s, 1000 * m, d, k, 1);
}

/// A number of picoseconds in milliseconds with two decimals.
pub open spec fn picoseconds(ps: u64) -> Seq<char> {
    let (a, d) = quotient(ps as nat, 1_000_000_000_000);
    fixed(rounded(1000 * a), d, 2)
}

/// Appends a number of picoseconds in milliseconds.
pub fn push_picoseconds(s: &mut String, ps: u64)
    ensures
        final(s)@ == old(s)@ + picoseconds(ps),
{
    let (a, d) = divide(ps as u128, 1_000_000_000_000);
    let ghost k = places(ps as nat, 1_000_000_000_000);
    proof {
        lemma_over_bound(ps as u128, 1_000_000_000_000, d);
        assert(ps * d <= 0xFFFF_FFFF_FFFF_FFFF * d) by (nonlinear_arith)
            requires
                0 <= ps <= 0xFFFF_FFFF_FFFF_FFFF,
                d >= 0,
        ;
    }
    push_over(s, 1000 * a, d, Ghost(k), 2);
}

// ── Rates ────────────────────────────────────────────────────────────────────

/// A number as far as it is counted.
pub open spec fn capped(n: nat) -> u64 {
    if n >= u64::MAX {
        u64::MAX
    } else {
        n as u64
    }
}

/// How much of an amount there is in each second of a time, in whole units and no
/// more than are counted.
pub open spec fn per_second(amount: nat, ns: u64) -> u64 {
    let (m, d) = seconds(ns);
    let (q, p) = quotient(amount * d, m);
    capped(q / p)
}

proof fn lemma_excess_scale(n: nat, d: nat, c: nat)
    requires
        c > 0,
    ensures
        excess(c * n, c * d) == excess(n, d),
    decreases n - d,
{
    assert(c * d == 0 <==> d == 0) by (nonlinear_arith)
        requires
            c > 0,
    ;
    assert(c * n < (c * d) * 0x20_0000_0000_0000 <==> n < d * 0x20_0000_0000_0000)
        by (nonlinear_arith)
        requires
            c > 0,
    ;
    if d != 0 && n >= d * 0x20_0000_0000_0000 {
        lemma_excess_scale(n, 2 * d, c);
        assert(c * (2 * d) == 2 * (c * d)) by (nonlinear_arith);
    }
}

proof fn lemma_places_scale(n: nat, d: nat, c: nat)
    requires
        c > 0,
    ensures
        places(c * n, c * d) == places(n, d),
    decreases d * 0x20_0000_0000_0000 - n,
{
    assert(c * n == 0 <==> n == 0) by (nonlinear_arith)
        requires
            c > 0,
    ;
    assert(c * n >= (c * d) * 0x10_0000_0000_0000 <==> n >= d * 0x10_0000_0000_0000)
        by (nonlinear_arith)
        requires
            c > 0,
    ;
    if n != 0 && n < d * 0x10_0000_0000_0000 {
        lemma_places_scale(2 * n, d, c);
        assert(c * (2 * n) == 2 * (c * n)) by (nonlinear_arith);
    }
}

/// A common factor does not change a quotient.
proof fn lemma_quotient_scale(n: nat, d: nat, c: nat)
    requires
        c > 0,
        d > 0,
    ensures
        quotient(c * n, c * d) == quotient(n, d),
{
    lemma_excess_scale(n, d, c);
    lemma_places_scale(n, d, c);
    let x = pow2(places(n, d));
    let y = pow2(excess(n, d));
    lemma_pow2_grows(0, excess(n, d));
    assert((c * n) * x == c * (n * x)) by (nonlinear_arith);
    assert((c * d) * y == c * (d * y)) by (nonlinear_arith);
    assert(d * y > 0) by (nonlinear_arith)
        requires
            d > 0,
            y > 0,
    ;
    lemma_nearest_scale(n * x, d * y, c);
}

/// Tells how much of an amount there is in each second of a time.
pub fn each_second(amount: u128, ns: u64) -> (r: u64)
    requires
        amount <= 0x10_0000_0000_0000_0000,
        ns >= 1_000_000_000,
    ensures
        r == per_second(amount as nat, ns),
{
    let (n, d, k) = second_parts(ns);
    let (m, over, c) = reduced(n, d, k);
    proof {
        assert(amount * over <= 0x10_0000_0000_0000_0000 * 0x20_0000_0000_0000) by (nonlinear_arith)
            requires
                0 <= amount <= 0x10_0000_0000_0000_0000,
                0 <= over <= 0x20_0000_0000_0000,
        ;
        let (x, y, z) = (amount as int, over as int, c@ as int);
        assert(x * (z * y) == z * (x * y)) by (nonlinear_arith);
        lemma_quotient_scale((amount * over) as nat, m as nat, c@);
    }
    let (q, p) = divide(amount * over, m);
    let whole: u128 = q / p;
    if whole >= u64::MAX as u128 {
        u64::MAX
    } else {
        whole as u64
    }
}

} // verus!
