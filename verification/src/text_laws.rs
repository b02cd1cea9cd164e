//! What written numbers, addresses and lists read as.

use vstd::prelude::*;

use crate::net::{address, dotted, octet, Ipv4Addr};
use crate::scan::{after, alike, begins, digits, head, is_white, parts, place, scaled, tail, trim, trim_end, trim_start, value, whole, word_len, words};
use crate::scan::{decimal, pointed, small, units, unsigned};
use crate::text::{dec, digit, fixed, hex2, hex_colons, joined, nearest, padded, pow10, signed_dec};

verus! {

// ── Numbers ──────────────────────────────────────────────────────────────────

/// A written number has only digits, no sign before them, and none of them is in vain.
pub proof fn law_numbers_are_digits(n: nat)
    ensures
        dec(n).len() > 0,
        digits(dec(n)),
        value(dec(n)) == n,
        n > 0 ==> dec(n)[0] != '0',
        n == 0 ==> dec(n) == seq!['0'],
    decreases n,
{
    reveal_with_fuel(value, 2);
    if n >= 10 {
        law_numbers_are_digits(n / 10);
        let s = dec(n / 10);
        assert(dec(n) == s.push(digit(n % 10)));
        assert(s.push(digit(n % 10)).drop_last() =~= s);
        assert(dec(n)[0] == s[0]);
    } else {
        assert(dec(n) =~= seq![digit(n)]);
        assert(dec(n).drop_last() =~= Seq::empty());
    }
}

/// A number that was written is read back, up to the largest that is asked for.
pub proof fn law_numbers_read_back(n: nat, max: nat)
    ensures
        whole(dec(n), max) == (if n <= max {
            Some(n)
        } else {
            None
        }),
        whole(seq!['+'] + dec(n), max) == whole(dec(n), max),
{
    law_numbers_are_digits(n);
    assert(crate::scan::is_digit(dec(n)[0]));
    assert((seq!['+'] + dec(n)).skip(1) =~= dec(n));
}

/// What holds anything but digits behind a sign is no number, nor is nothing.
pub proof fn law_only_digits_are_numbers(s: Seq<char>, i: int, max: nat)
    requires
        0 < i < s.len(),
        !('0' <= s[i] <= '9'),
    ensures
        whole(s, max) is None,
        whole(Seq::empty(), max) is None,
{
    let body = unsigned(s);
    if s[0] == '+' {
        assert(body[i - 1] == s[i]);
    }
}

/// A negative number is written with a sign.
pub proof fn law_signed_numbers(n: nat)
    ensures
        signed_dec(n as int) == dec(n),
        n > 0 ==> signed_dec(-n) == seq!['-'] + dec(n),
{
}

proof fn lemma_no_char(s: Seq<char>, c: char)
    requires
        forall|i: int| 0 <= i < s.len() ==> s[i] != c,
    ensures
        place(s, c) is None,
    decreases s.len(),
{
    if s.len() > 0 {
        assert forall|i: int| 0 <= i < s.skip(1).len() implies s.skip(1)[i] != c by {
            assert(s[i + 1] != c);
        }
        lemma_no_char(s.skip(1), c);
    }
}

proof fn lemma_first_char(a: Seq<char>, c: char, b: Seq<char>)
    requires
        forall|i: int| 0 <= i < a.len() ==> a[i] != c,
    ensures
        place(a.push(c) + b, c) == Some(a.len() as int),
        head(a.push(c) + b, c) == a,
        tail(a.push(c) + b, c) == Some(b),
    decreases a.len(),
{
    let s = a.push(c) + b;
    if a.len() > 0 {
        let t = a.skip(1);
        assert(s.skip(1) =~= t.push(c) + b);
        assert forall|i: int| 0 <= i < t.len() implies t[i] != c by {
            assert(a[i + 1] != c);
        }
        lemma_first_char(t, c, b);
        assert(s[0] == a[0]);
    }
    assert(s.subrange(0, a.len() as int) =~= a);
    assert(s.skip(a.len() as int + 1) =~= b);
}

/// A text before the first separator is the first part, and the rest is parted alike. A
/// text without any is its own one part.
pub proof fn law_parts_stand_between(a: Seq<char>, c: char, b: Seq<char>)
    requires
        forall|i: int| 0 <= i < a.len() ==> a[i] != c,
    ensures
        parts(a, c) == seq![a],
        parts(a.push(c) + b, c) == seq![a] + parts(b, c),
        head(a.push(c) + b, c) == a,
        tail(a.push(c) + b, c) == Some(b),
        head(a, c) == a,
        tail(a, c) is None,
{
    lemma_no_char(a, c);
    lemma_first_char(a, c, b);
}

/// Every number is a decimal: read to `k` places, it stands for that many more zeros.
pub proof fn law_decimals_are_scaled(n: nat)
    requires
        n < 9_000_000_000_000,
    ensures
        scaled(dec(n), 6) == Some((n * 1_000_000) as int),
        scaled(seq!['-'] + dec(n), 6) == Some(-(n * 1_000_000)),
{
    let s = dec(n);
    law_numbers_are_digits(n);
    lemma_small_digits(s);
    assert forall|i: int| 0 <= i < s.len() implies s[i] != 'e' && s[i] != '.' by {
        assert(crate::scan::is_digit(s[i]));
    }
    lemma_no_char(s, 'e');
    lemma_no_char(s, '.');
    assert(s + Seq::empty() =~= s);
    assert(crate::scan::is_digit(s[0]));
    reveal_strlit("inf");
    reveal_strlit("infinity");
    reveal_strlit("nan");
    assert("inf"@[0] == 'i' && "infinity"@[0] == 'i' && "nan"@[0] == 'n');
    let d = decimal(s);
    assert(d == Some((s, s.len() as int)));
    lemma_pow10_positive(323);
    assert(pow10(6) == 1_000_000) by {
        reveal_with_fuel(pow10, 7);
    }
    assert(s.take(s.len() as int) =~= s);
    assert(n * pow10(323) >= n) by (nonlinear_arith)
        requires
            pow10(323) >= 1,
    ;
    assert(n == 0 ==> n * pow10(323) == 0) by (nonlinear_arith);
    assert(units(s, s.len() as int, 6) == n * 1_000_000);
    let m = seq!['-'] + s;
    assert(small(m) =~= seq!['-'] + s) by {
        assert forall|i: int| 0 <= i < m.len() implies crate::scan::lower(m[i]) == m[i] by {
            if i > 0 {
                assert(m[i] == s[i - 1]);
                assert(crate::scan::is_digit(s[i - 1]));
            }
        }
    }
    assert(small(m).skip(1) =~= s);
}

proof fn lemma_small_digits(s: Seq<char>)
    requires
        digits(s),
    ensures
        small(s) == s,
{
    assert forall|i: int| 0 <= i < s.len() implies crate::scan::lower(s[i]) == s[i] by {
        assert(crate::scan::is_digit(s[i]));
    }
    assert(small(s) =~= s);
}

proof fn lemma_pow10_positive(k: nat)
    ensures
        pow10(k) >= 1,
    decreases k,
{
    if k > 0 {
        lemma_pow10_positive((k - 1) as nat);
    }
}

proof fn lemma_value_cat(a: Seq<char>, b: Seq<char>)
    requires
        digits(a),
        digits(b),
    ensures
        value(a + b) == value(a) * pow10(b.len()) + value(b),
    decreases b.len(),
{
    if b.len() == 0 {
        assert(a + b =~= a);
        assert(value(a) * 1 == value(a));
    } else {
        let f = b.drop_last();
        assert((a + b).drop_last() =~= a + f);
        assert forall|i: int| 0 <= i < f.len() implies crate::scan::is_digit(#[trigger] f[i]) by {
            assert(crate::scan::is_digit(b[i]));
        }
        assert(crate::scan::is_digit(b[b.len() - 1]));
        lemma_value_cat(a, f);
        assert(10 * (value(a) * pow10(f.len())) == value(a) * (10 * pow10(f.len())))
            by (nonlinear_arith);
    }
}

proof fn lemma_six_places(k: nat)
    requires
        k <= 6,
    ensures
        pow10(k) * pow10((6 - k) as nat) == 1_000_000,
        1 <= pow10((6 - k) as nat) <= 1_000_000,
{
    reveal_with_fuel(pow10, 8);
    assert(pow10(0) == 1 && pow10(1) == 10 && pow10(2) == 100 && pow10(3) == 1000);
    assert(pow10(4) == 10_000 && pow10(5) == 100_000 && pow10(6) == 1_000_000);
    assert(k == 0 || k == 1 || k == 2 || k == 3 || k == 4 || k == 5 || k == 6);
}

/// A fraction of up to six places counts in millionths.
pub proof fn law_fractions_are_scaled(n: nat, f: Seq<char>)
    requires
        n < 1_000_000_000,
        digits(f),
        f.len() <= 6,
        value(f) < 1_000_000,
    ensures
        scaled(dec(n).push('.') + f, 6) == Some(
            (n * 1_000_000 + value(f) * pow10((6 - f.len()) as nat)) as int,
        ),
{
    let a = dec(n);
    let s = a.push('.') + f;
    law_numbers_are_digits(n);
    assert forall|i: int| 0 <= i < a.len() implies a[i] != 'e' && a[i] != '.' by {
        assert(crate::scan::is_digit(a[i]));
    }
    assert forall|i: int| 0 <= i < s.len() implies s[i] != 'e' && crate::scan::lower(s[i]) == s[i] by {
        if i < a.len() {
            assert(s[i] == a[i]);
            assert(crate::scan::is_digit(a[i]));
        } else if i > a.len() {
            assert(s[i] == f[i - a.len() - 1]);
            assert(crate::scan::is_digit(f[i - a.len() - 1]));
        }
    }
    assert(small(s) =~= s);
    lemma_no_char(s, 'e');
    lemma_first_char(a, '.', f);
    assert(s[0] == a[0]);
    assert(crate::scan::is_digit(a[0]));
    reveal_strlit("inf");
    reveal_strlit("infinity");
    reveal_strlit("nan");
    assert("inf"@[0] == 'i' && "infinity"@[0] == 'i' && "nan"@[0] == 'n');
    let d = a + f;
    assert(decimal(s) == Some((d, a.len() as int)));
    lemma_value_cat(a, f);
    let k = f.len();
    let up = pow10(k);
    let down = pow10((6 - k) as nat);
    lemma_six_places(k);
    let v = value(d);
    assert(v * down == n * 1_000_000 + value(f) * down) by (nonlinear_arith)
        requires
            v == n * up + value(f),
            up * down == 1_000_000,
    ;
    assert(value(f) * down <= 1_000_000 * 1_000_000) by (nonlinear_arith)
        requires
            value(f) < 1_000_000,
            1 <= down <= 1_000_000,
    ;
    let big = pow10((323 - k) as nat);
    lemma_pow10_positive((323 - k) as nat);
    assert(v * big >= v) by (nonlinear_arith)
        requires
            big >= 1,
    ;
    assert(v * down >= v) by (nonlinear_arith)
        requires
            down >= 1,
    ;
    assert(v == 0 ==> v * big == 0 && v * down == 0) by (nonlinear_arith);
    assert(d.take(d.len() as int) =~= d);
    if k == 6 {
        assert(down == 1) by {
            reveal_with_fuel(pow10, 2);
        }
        assert(v * down == v) by (nonlinear_arith)
            requires
                down == 1,
        ;
    }
    assert(pointed(d, a.len() as int + 323) == v * big);
    assert(pointed(d, a.len() as int + 6) == v * down);
    assert(units(d, a.len() as int, 6) == v * down);
}

/// Rounding goes to the nearest whole number.
pub proof fn law_rounding_is_near(num: nat, den: nat)
    requires
        den > 0,
    ensures
        2 * (nearest(num, den) * den) <= 2 * num + den,
        2 * num <= 2 * (nearest(num, den) * den) + den,
        num % den == 0 ==> nearest(num, den) * den == num,
{
    let q = num / den;
    vstd::arithmetic::div_mod::lemma_fundamental_div_mod(num as int, den as int);
    let r = num % den;
    assert(r < den);
    let m = nearest(num, den);
    assert(q * den + r == num) by (nonlinear_arith)
        requires
            num == den * q + r,
    ;
    assert(m == q + 1 ==> m * den == q * den + den) by (nonlinear_arith);
}

/// A number with one place behind the point reads as tenths.
pub proof fn law_fixed_places(num: nat, den: nat)
    requires
        den > 0,
    ensures
        fixed(num, den, 0) == dec(nearest(num, den)),
        ({
            let tenths = nearest(num * 10, den);
            fixed(num, den, 1) == dec(tenths / 10).push('.').push(digit(tenths % 10))
        }),
        ({
            let parts = nearest(num * 100, den);
            fixed(num, den, 2) == dec(parts / 100).push('.').push(digit(parts / 10 % 10)).push(
                digit(parts % 10),
            )
        }),
        ({
            let parts = nearest(num * 1000, den);
            fixed(num, den, 3) == dec(parts / 1000).push('.').push(digit(parts / 100 % 10)).push(
                digit(parts / 10 % 10),
            ).push(digit(parts % 10))
        }),
{
    reveal_with_fuel(pow10, 4);
    reveal_with_fuel(padded, 4);
    assert(num * 1 == num);
    let a = nearest(num * 10, den);
    assert(fixed(num, den, 1) =~= dec(a / 10).push('.').push(digit(a % 10)));
    let b = nearest(num * 100, den);
    assert(fixed(num, den, 2) =~= dec(b / 100).push('.').push(digit(b / 10 % 10)).push(
        digit(b % 10),
    ));
    let c = nearest(num * 1000, den);
    assert(c / 10 / 10 == c / 100);
    assert(fixed(num, den, 3) =~= dec(c / 1000).push('.').push(digit(c / 100 % 10)).push(
        digit(c / 10 % 10),
    ).push(digit(c % 10)));
}

// ── Bytes ────────────────────────────────────────────────────────────────────

/// A byte is written as its two digits in base sixteen, the higher first and in small
/// letters.
pub proof fn law_bytes_are_two_digits(b: u8)
    ensures
        hex2(b).len() == 2,
        hex2(b)[0] == "0123456789abcdef"@[(b / 16) as int],
        hex2(b)[1] == "0123456789abcdef"@[(b % 16) as int],
{
    reveal_strlit("0123456789abcdef");
}

/// Bytes are written one behind the other, with a colon between.
pub proof fn law_bytes_are_parted_by_colons(b: Seq<u8>, i: int)
    requires
        0 <= i < b.len(),
    ensures
        hex_colons(b).len() == 3 * b.len() - 1,
        hex_colons(b)[3 * i] == hex2(b[i])[0],
        hex_colons(b)[3 * i + 1] == hex2(b[i])[1],
        i + 1 < b.len() ==> hex_colons(b)[3 * i + 2] == ':',
    decreases b.len(),
{
    if b.len() > 1 {
        let f = b.drop_last();
        law_bytes_are_parted_by_colons(
            f,
            if i < f.len() {
                i
            } else {
                i - 1
            },
        );
        let h = hex_colons(f);
        assert(hex_colons(b) == h.push(':') + hex2(b.last()));
    }
}

/// Two addresses that are written alike are the same.
pub proof fn law_written_bytes_tell_apart(a: Seq<u8>, b: Seq<u8>)
    requires
        a.len() == b.len(),
        hex_colons(a) == hex_colons(b),
    ensures
        a == b,
{
    assert forall|i: int| 0 <= i < a.len() implies a[i] == b[i] by {
        law_bytes_are_parted_by_colons(a, i);
        law_bytes_are_parted_by_colons(b, i);
        assert(digit((a[i] / 16) as nat) == digit((b[i] / 16) as nat));
        assert(digit((a[i] % 16) as nat) == digit((b[i] % 16) as nat));
    }
    assert(a =~= b);
}

// ── Addresses ────────────────────────────────────────────────────────────────

proof fn lemma_octet(n: u8)
    ensures
        octet(dec(n as nat)) == Some(n as nat),
        forall|i: int| 0 <= i < dec(n as nat).len() ==> dec(n as nat)[i] != '.',
{
    let s = dec(n as nat);
    law_numbers_are_digits(n as nat);
    law_numbers_read_back(n as nat, 255);
    reveal_with_fuel(dec, 4);
    assert(crate::scan::is_digit(s[0]));
    assert forall|i: int| 0 <= i < s.len() implies s[i] != '.' by {
        assert(crate::scan::is_digit(s[i]));
    }
}

/// An address that was written is read back.
pub proof fn law_addresses_read_back(ip: Ipv4Addr)
    ensures
        address(dotted(ip)) == Some(ip),
{
    let a = dec(ip.a as nat);
    let b = dec(ip.b as nat);
    let c = dec(ip.c as nat);
    let d = dec(ip.d as nat);
    lemma_octet(ip.a);
    lemma_octet(ip.b);
    lemma_octet(ip.c);
    lemma_octet(ip.d);
    let cd = c.push('.') + d;
    let bcd = b.push('.') + cd;
    assert(dotted(ip) =~= a.push('.') + bcd);
    law_parts_stand_between(a, '.', bcd);
    law_parts_stand_between(b, '.', cd);
    law_parts_stand_between(c, '.', d);
    law_parts_stand_between(d, '.', d);
    assert(parts(dotted(ip), '.') =~= seq![a, b, c, d]);
}

/// An address has four numbers of at most three digits, with no zero in vain.
pub proof fn law_addresses_have_four_numbers(s: Seq<char>)
    ensures
        parts(s, '.').len() != 4 ==> address(s) is None,
        forall|n: nat| n > 255 ==> octet(#[trigger] dec(n)) is None,
        forall|n: nat| octet(seq!['0'] + #[trigger] dec(n)) is None,
{
    assert forall|n: nat| n > 255 implies octet(#[trigger] dec(n)) is None by {
        law_numbers_read_back(n, 255);
    }
    assert forall|n: nat| octet(seq!['0'] + #[trigger] dec(n)) is None by {
        law_numbers_are_digits(n);
        assert((seq!['0'] + dec(n))[0] == '0');
    }
}

// ── Spaces and lists ─────────────────────────────────────────────────────────

/// Neither end of a trimmed text is white space, and what is not at an end stays.
pub proof fn law_trimming_takes_the_ends(s: Seq<char>)
    ensures
        trim(s).len() > 0 ==> !is_white(trim(s)[0]) && !is_white(trim(s).last()),
        s.len() > 0 && !is_white(s[0]) && !is_white(s.last()) ==> trim(s) == s,
        trim(seq![' '] + s) == trim(s),
        trim(trim_start(s).push('\r')) == trim(s),
    decreases s.len(),
{
    lemma_trim_start(s);
    lemma_trim_end(trim_start(s));
    assert((seq![' '] + s).skip(1) =~= s);
    let t = trim_start(s);
    assert(t.push('\r').drop_last() =~= t);
    if t.len() > 0 {
        assert(t.push('\r')[0] == t[0]);
        assert(trim_start(t.push('\r')) == t.push('\r'));
    } else {
        assert(t.push('\r')[0] == '\r');
        assert(t.push('\r').skip(1) =~= t);
        assert(trim_start(t) == t);
        assert(trim_start(t.push('\r')) == t);
    }
    assert(t.push('\r').last() == '\r');
    assert(trim_end(t.push('\r')) == trim_end(t));
}

proof fn lemma_trim_start(s: Seq<char>)
    ensures
        trim_start(s).len() > 0 ==> !is_white(trim_start(s)[0]),
    decreases s.len(),
{
    if s.len() > 0 && is_white(s[0]) {
        lemma_trim_start(s.skip(1));
    }
}

proof fn lemma_trim_end(s: Seq<char>)
    ensures
        trim_end(s).len() > 0 ==> !is_white(trim_end(s).last()) && trim_end(s)[0] == s[0],
        trim_end(s).len() <= s.len(),
    decreases s.len(),
{
    if s.len() > 0 && is_white(s.last()) {
        lemma_trim_end(s.drop_last());
    }
}

proof fn lemma_word(a: Seq<char>, b: Seq<char>)
    requires
        forall|i: int| 0 <= i < a.len() ==> !is_white(#[trigger] a[i]),
        b.len() == 0 || is_white(b[0]),
    ensures
        word_len(a + b) == a.len(),
    decreases a.len(),
{
    if a.len() == 0 {
        assert(a + b =~= b);
    } else {
        let t = a.skip(1);
        assert forall|i: int| 0 <= i < t.len() implies !is_white(#[trigger] t[i]) by {
            assert(!is_white(a[i + 1]));
        }
        assert((a + b).skip(1) =~= t + b);
        lemma_word(t, b);
        assert((a + b)[0] == a[0]);
    }
}

/// A word ends at the first white space, and the words behind it are those of the rest.
pub proof fn law_words_end_at_spaces(a: Seq<char>, b: Seq<char>)
    requires
        a.len() > 0,
        forall|i: int| 0 <= i < a.len() ==> !is_white(#[trigger] a[i]),
    ensures
        words(a) == seq![a],
        words(a.push(' ') + b) == seq![a] + words(b),
        words(seq![' '] + b) == words(b),
        words(Seq::empty()) == Seq::<Seq<char>>::empty(),
{
    let none = Seq::<char>::empty();
    lemma_word(a, none);
    assert(a + none =~= a);
    assert(a.subrange(0, a.len() as int) =~= a);
    assert(a.skip(a.len() as int) =~= none);
    assert(!is_white(a[0]));
    assert(seq![a] + words(none) =~= seq![a]);
    let spaced = seq![' '] + b;
    assert(spaced.skip(1) =~= b);
    lemma_word(a, spaced);
    let s = a.push(' ') + b;
    assert(s =~= a + spaced);
    assert(s.subrange(0, a.len() as int) =~= a);
    assert(s.skip(a.len() as int) =~= spaced);
    assert(s[0] == a[0]);
    assert(word_len(s) == a.len());
    assert(words(s) == seq![a] + words(spaced));
    assert(spaced[0] == ' ');
    assert(words(spaced) == words(b));
}

/// What stands behind a prefix is the rest of the text; without the prefix there is none.
pub proof fn law_prefixes_are_taken_off(p: Seq<char>, s: Seq<char>)
    ensures
        after(p + s, p) == Some(s),
        begins(p + s, p),
        p.len() > s.len() ==> after(s, p) is None,
        p.len() > 0 && s.len() > 0 && p[0] != s[0] ==> after(s, p) is None,
{
    assert((p + s).subrange(0, p.len() as int) =~= p);
    assert((p + s).skip(p.len() as int) =~= s);
    if p.len() > 0 && s.len() >= p.len() {
        assert(s.subrange(0, p.len() as int)[0] == s[0]);
    }
}

/// Texts that differ only in the case of their letters are alike.
pub proof fn law_case_does_not_matter(s: Seq<char>, i: int)
    requires
        0 <= i < s.len(),
        'a' <= s[i] <= 'z',
    ensures
        alike(s, s),
        alike(s.update(i, (s[i] as u32 - 32) as char), s),
        forall|t: Seq<char>| s.len() != t.len() ==> !#[trigger] alike(s, t),
        s[i] != 'z' ==> !alike(s.update(i, 'z'), s),
{
    let t = s.update(i, (s[i] as u32 - 32) as char);
    assert forall|j: int| 0 <= j < t.len() implies crate::scan::lower(#[trigger] t[j])
        == crate::scan::lower(s[j]) by {}
    if s[i] != 'z' && alike(s.update(i, 'z'), s) {
        assert(crate::scan::lower(s.update(i, 'z')[i]) == crate::scan::lower(s[i]));
    }
}

/// A list is written item by item with the separator between, and not behind the last.
pub proof fn law_lists_are_parted(v: Seq<Seq<char>>, x: Seq<char>, sep: Seq<char>)
    ensures
        joined(Seq::empty(), sep) == Seq::<char>::empty(),
        joined(seq![x], sep) == x,
        v.len() > 0 ==> joined(v.push(x), sep) == joined(v, sep) + sep + x,
{
    assert(v.push(x).drop_last() =~= v);
}

/// What counts as white space.
pub proof fn law_white_space(c: char)
    ensures
        is_white(c) <==> c == ' ' || '\t' <= c <= '\r' || c == '\u{85}' || c == '\u{a0}' || c == '\u{1680}'
            || '\u{2000}' <= c <= '\u{200a}' || c == '\u{2028}' || c == '\u{2029}' || c == '\u{202f}' || c
            == '\u{205f}' || c == '\u{3000}',
{
}

/// Capital letters become small, and nothing else changes.
pub proof fn law_small_letters(c: char)
    ensures
        'A' <= c <= 'Z' ==> crate::scan::lower(c) as u32 == c as u32 + 32,
        c < 'A' || c > 'Z' ==> crate::scan::lower(c) == c,
{
}

/// A number with an exponent stands for that many more zeros, and in front of the point
/// it may stand with a sign.
pub proof fn law_exponents_are_read(n: nat, k: nat)
    requires
        n < 1_000_000,
        k <= 6,
    ensures
        scaled(dec(n).push('e') + dec(k), 6) == Some((n * pow10(k + 6)) as int),
        scaled(dec(n).push('E') + dec(k), 6) == Some((n * pow10(k + 6)) as int),
{
    let a = dec(n);
    let b = dec(k);
    let s = a.push('e') + b;
    let t = a.push('E') + b;
    law_numbers_are_digits(n);
    law_numbers_are_digits(k);
    assert forall|i: int| 0 <= i < a.len() implies a[i] != 'e' && a[i] != '.' && crate::scan::lower(a[i])
        == a[i] by {
        assert(crate::scan::is_digit(a[i]));
    }
    assert forall|i: int| 0 <= i < b.len() implies crate::scan::lower(b[i]) == b[i] && b[i] != '.' by {
        assert(crate::scan::is_digit(b[i]));
    }
    assert(small(s) =~= s) by {
        assert forall|i: int| 0 <= i < s.len() implies crate::scan::lower(s[i]) == s[i] by {
            if i < a.len() {
                assert(s[i] == a[i]);
            } else if i > a.len() {
                assert(s[i] == b[i - a.len() - 1]);
            }
        }
    }
    assert(small(t) =~= s) by {
        assert forall|i: int| 0 <= i < t.len() implies crate::scan::lower(t[i]) == s[i] by {
            if i < a.len() {
                assert(s[i] == a[i] && t[i] == a[i]);
            } else if i > a.len() {
                assert(s[i] == b[i - a.len() - 1] && t[i] == b[i - a.len() - 1]);
            }
        }
    }
    lemma_first_char(a, 'e', b);
    lemma_no_char(a, '.');
    assert(a + Seq::empty() =~= a);
    assert(crate::scan::is_digit(a[0]) && crate::scan::is_digit(b[0]));
    assert(s[0] == a[0]);
    reveal_strlit("inf");
    reveal_strlit("infinity");
    reveal_strlit("nan");
    assert("inf"@[0] == 'i' && "infinity"@[0] == 'i' && "nan"@[0] == 'n');
    let p = a.len() + k;
    assert(decimal(s) == Some((a, p as int)));
    lemma_pow10_positive((323 + k) as nat);
    lemma_pow10_positive((6 + k) as nat);
    assert(a.take(a.len() as int) =~= a);
    let big = pow10((323 + k) as nat);
    let up = pow10((6 + k) as nat);
    assert(n * big >= n && n * up >= n) by (nonlinear_arith)
        requires
            big >= 1,
            up >= 1,
    ;
    assert(n == 0 ==> n * big == 0 && n * up == 0) by (nonlinear_arith);
    assert(up <= 1_000_000_000_000) by {
        reveal_with_fuel(pow10, 14);
        assert(k == 0 || k == 1 || k == 2 || k == 3 || k == 4 || k == 5 || k == 6);
    }
    assert(n * up < 1_000_000 * 1_000_000_000_000) by (nonlinear_arith)
        requires
            n < 1_000_000,
            1 <= up <= 1_000_000_000_000,
    ;
    assert(pointed(a, p as int + 323) == n * big);
    assert(pointed(a, p as int + 6) == n * up);
}

} // verus!
