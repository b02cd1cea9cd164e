//! Text as sequences of characters: numbers in decimal and hexadecimal,
//! trimming, splitting and joining.

use vstd::prelude::*;
use vstd::string::StringSliceAdditionalSpecFns;
use vstd::utf8::*;

verus! {

// ── Digits ───────────────────────────────────────────────────────────────────

/// The character of one decimal or lowercase hexadecimal digit.
pub open spec fn digit(d: nat) -> char {
    if d < 10 {
        (48 + d) as char
    } else {
        (87 + d) as char
    }
}

/// A number in decimal, without leading zeros.
pub open spec fn dec(n: nat) -> Seq<char>
    decreases n,
{
    if n < 10 {
        seq![digit(n)]
    } else {
        dec(n / 10).push(digit(n % 10))
    }
}

/// A signed number in decimal.
pub open spec fn signed_dec(n: int) -> Seq<char> {
    if n < 0 {
        seq!['-'] + dec((-n) as nat)
    } else {
        dec(n as nat)
    }
}

/// A byte as two lowercase hexadecimal digits.
pub open spec fn hex2(b: u8) -> Seq<char> {
    seq![digit((b / 16) as nat), digit((b % 16) as nat)]
}

/// Colon-separated lowercase hexadecimal bytes.
pub open spec fn hex_colons(b: Seq<u8>) -> Seq<char>
    decreases b.len(),
{
    if b.len() == 0 {
        Seq::empty()
    } else if b.len() == 1 {
        hex2(b[0])
    } else {
        hex_colons(b.drop_last()).push(':') + hex2(b.last())
    }
}

/// The last `width` decimal digits of `n`, padded with zeros on the left.
pub open spec fn padded(n: nat, width: nat) -> Seq<char>
    decreases width,
{
    if width == 0 {
        Seq::empty()
    } else {
        padded(n / 10, (width - 1) as nat).push(digit(n % 10))
    }
}

pub open spec fn pow10(k: nat) -> nat
    decreases k,
{
    if k == 0 {
        1
    } else {
        10 * pow10((k - 1) as nat)
    }
}

/// `num / den` rounded to the nearest whole number, halves to the even one.
pub open spec fn nearest(num: nat, den: nat) -> nat {
    let q = num / den;
    let r = num % den;
    if 2 * r > den || (2 * r == den && q % 2 == 1) {
        q + 1
    } else {
        q
    }
}

/// The fraction `num / den` with a fixed number of decimals.
pub open spec fn fixed(num: nat, den: nat, decimals: nat) -> Seq<char> {
    let scaled = nearest(num * pow10(decimals), den);
    if decimals == 0 {
        dec(scaled)
    } else {
        dec(scaled / pow10(decimals)).push('.') + padded(scaled, decimals)
    }
}

// ── Building strings ─────────────────────────────────────────────────────────

/// Appends one character. Calls `String::push`, which adds the character at the
/// end and keeps what was there.
#[verifier::external_body]
pub(crate) fn push_char(s: &mut String, c: char)
    ensures
        final(s)@ == old(s)@.push(c),
{
    s.push(c)
}

/// Whether two texts are the same. Calls `==` on `str`, which compares the
/// characters.
#[verifier::external_body]
pub(crate) fn same(a: &str, b: &str) -> (r: bool)
    ensures
        r == (a@ == b@),
{
    a == b
}

/// Reads bytes as text. Calls `std::str::from_utf8`, which succeeds exactly on
/// valid UTF-8 and then yields the text with those bytes.
#[verifier::external_body]
pub(crate) fn utf8(b: &[u8]) -> (r: Option<&str>)
    ensures
        r is Some <==> valid_utf8(b@),
        r matches Some(s) ==> s.spec_bytes() == b@,
{
    std::str::from_utf8(b).ok()
}

fn digit_char(d: u8) -> (c: char)
    requires
        d < 16,
    ensures
        c == digit(d as nat),
{
    if d < 10 {
        (48 + d) as char
    } else {
        (87 + d) as char
    }
}

/// Appends a number in decimal.
pub fn push_dec(s: &mut String, n: u64)
    ensures
        final(s)@ == old(s)@ + dec(n as nat),
    decreases n,
{
    if n < 10 {
        push_char(s, digit_char(n as u8));
        assert(s@ =~= old(s)@ + dec(n as nat));
    } else {
        push_dec(s, n / 10);
        push_char(s, digit_char((n % 10) as u8));
        assert(s@ =~= old(s)@ + dec(n as nat));
    }
}

/// Appends a signed number in decimal.
pub fn push_signed(s: &mut String, n: i64)
    ensures
        final(s)@ == old(s)@ + signed_dec(n as int),
{
    if n < 0 {
        push_char(s, '-');
        let magnitude: u64 = if n == i64::MIN {
            0x8000_0000_0000_0000
        } else {
            (-n) as u64
        };
        push_dec(s, magnitude);
        assert(s@ =~= old(s)@ + signed_dec(n as int));
    } else {
        push_dec(s, n as u64);
    }
}

/// Appends one hexadecimal digit.
pub fn push_hex_digit(s: &mut String, d: u8)
    requires
        d < 16,
    ensures
        final(s)@ == old(s)@.push(digit(d as nat)),
{
    push_char(s, digit_char(d));
}

/// Appends a byte as two hexadecimal digits.
pub fn push_hex2(s: &mut String, b: u8)
    ensures
        final(s)@ == old(s)@ + hex2(b),
{
    push_char(s, digit_char(b / 16));
    push_char(s, digit_char(b % 16));
    assert(s@ =~= old(s)@ + hex2(b));
}

/// Appends bytes in hexadecimal, separated by colons.
pub fn push_hex_colons(s: &mut String, b: &[u8])
    ensures
        final(s)@ == old(s)@ + hex_colons(b@),
{
    let mut i: usize = 0;
    proof {
        assert(b@.subrange(0, 0) =~= Seq::empty());
        assert(s@ =~= old(s)@ + hex_colons(b@.subrange(0, 0)));
    }
    while i < b.len()
        invariant
            i <= b@.len(),
            s@ == old(s)@ + hex_colons(b@.subrange(0, i as int)),
        decreases b@.len() - i,
    {
        if i > 0 {
            push_char(s, ':');
        }
        push_hex2(s, b[i]);
        proof {
            let next = b@.subrange(0, i + 1);
            assert(next.drop_last() =~= b@.subrange(0, i as int));
            assert(next.last() == b@[i as int]);
            if i == 0 {
                assert(next.len() == 1);
                assert(s@ =~= old(s)@ + hex_colons(next));
            } else {
                assert(s@ =~= old(s)@ + hex_colons(next));
            }
        }
        i += 1;
    }
    proof {
        assert(b@.subrange(0, i as int) =~= b@);
    }
}

fn push_padded(s: &mut String, n: u128, width: u32)
    ensures
        final(s)@ == old(s)@ + padded(n as nat, width as nat),
    decreases width,
{
    if width > 0 {
        push_padded(s, n / 10, width - 1);
        push_char(s, digit_char((n % 10) as u8));
    }
    assert(s@ =~= old(s)@ + padded(n as nat, width as nat));
}

fn push_dec_wide(s: &mut String, n: u128)
    ensures
        final(s)@ == old(s)@ + dec(n as nat),
    decreases n,
{
    if n >= 10 {
        push_dec_wide(s, n / 10);
    }
    push_char(s, digit_char((n % 10) as u8));
    assert(s@ =~= old(s)@ + dec(n as nat));
}

/// The largest number of decimals a fraction is shown with.
pub const MAX_DECIMALS: u32 = 3;

fn scale_of(decimals: u32) -> (p: u128)
    requires
        decimals <= MAX_DECIMALS,
    ensures
        p == pow10(decimals as nat),
        1 <= p <= 1000,
{
    reveal_with_fuel(pow10, 5);
    if decimals == 0 {
        1
    } else if decimals == 1 {
        10
    } else if decimals == 2 {
        100
    } else {
        1000
    }
}

/// Appends the fraction `num / den` with a fixed number of decimals.
pub fn push_fixed(s: &mut String, num: u128, den: u128, decimals: u32)
    requires
        0 < den < 0x4000_0000_0000_0000_0000_0000_0000_0000,
        num < 0x10_0000_0000_0000_0000_0000_0000_0000,
        decimals <= MAX_DECIMALS,
    ensures
        final(s)@ == old(s)@ + fixed(num as nat, den as nat, decimals as nat),
{
    let p: u128 = scale_of(decimals);
    assert(num * p <= num * 1000) by (nonlinear_arith)
        requires
            p <= 1000,
            num >= 0,
    ;
    let wide: u128 = num * p;
    let q: u128 = wide / den;
    let r: u128 = wide % den;
    assert(q <= wide) by (nonlinear_arith)
        requires
            q == wide / den,
            den > 0,
    ;
    let scaled: u128 = if 2 * r > den || (2 * r == den && q % 2 == 1) {
        q + 1
    } else {
        q
    };
    assert(scaled == nearest(num as nat * pow10(decimals as nat), den as nat));
    if decimals == 0 {
        push_dec_wide(s, scaled);
    } else {
        push_dec_wide(s, scaled / p);
        push_char(s, '.');
        push_padded(s, scaled, decimals);
        assert(s@ =~= old(s)@ + fixed(num as nat, den as nat, decimals as nat));
    }
}

/// Text with something put before it.
pub fn prefixed(before: &str, text: &str) -> (s: String)
    ensures
        s@ == before@ + text@,
{
    let mut s: String = String::from_str(before);
    s.append(text);
    s
}

// ── Lists of texts ───────────────────────────────────────────────────────────

/// What a list of strings reads.
pub open spec fn texts(v: Seq<String>) -> Seq<Seq<char>> {
    v.map_values(|s: String| s@)
}

/// Texts one after another with `sep` between them.
pub open spec fn joined(v: Seq<Seq<char>>, sep: Seq<char>) -> Seq<char>
    decreases v.len(),
{
    if v.len() == 0 {
        Seq::empty()
    } else if v.len() == 1 {
        v[0]
    } else {
        joined(v.drop_last(), sep) + sep + v.last()
    }
}

/// Puts strings one after another with `sep` between them.
pub fn join(v: &Vec<String>, sep: &str) -> (s: String)
    ensures
        s@ == joined(texts(v@), sep@),
{
    let mut s: String = String::new();
    let mut i: usize = 0;
    proof {
        assert(texts(v@).subrange(0, 0) =~= Seq::empty());
    }
    while i < v.len()
        invariant
            i <= v@.len(),
            s@ == joined(texts(v@).subrange(0, i as int), sep@),
        decreases v@.len() - i,
    {
        let ghost before = s@;
        if i > 0 {
            s.append(sep);
        }
        s.append(v[i].as_str());
        proof {
            let next = texts(v@).subrange(0, i + 1);
            assert(next.drop_last() =~= texts(v@).subrange(0, i as int));
            assert(next.last() == v@[i as int]@);
            if i == 0 {
                assert(before =~= Seq::empty());
                assert(s@ =~= next[0]);
            }
        }
        i += 1;
    }
    proof {
        assert(texts(v@).subrange(0, i as int) =~= texts(v@));
    }
    s
}

} // verus!
