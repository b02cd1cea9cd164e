//! Reading text: white space, words, prefixes and numbers.

use vstd::prelude::*;
use vstd::slice::slice_subrange;
use vstd::string::StringSliceAdditionalSpecFns;
use vstd::utf8::*;

use crate::text::{pow10, push_char, utf8};

verus! {

// ── Characters ───────────────────────────────────────────────────────────────

/// Unicode white space.
pub open spec fn is_white(c: char) -> bool {
    ||| 0x09 <= c as int <= 0x0d
    ||| c as int == 0x20
    ||| c as int == 0x85
    ||| c as int == 0xa0
    ||| c as int == 0x1680
    ||| 0x2000 <= c as int <= 0x200a
    ||| c as int == 0x2028
    ||| c as int == 0x2029
    ||| c as int == 0x202f
    ||| c as int == 0x205f
    ||| c as int == 0x3000
}

/// Visible ASCII or a space.
pub open spec fn is_printable(c: char) -> bool {
    0x20 <= c as int <= 0x7e
}

/// Only visible ASCII and spaces.
pub open spec fn printable(s: Seq<char>) -> bool {
    forall|i: int| 0 <= i < s.len() ==> is_printable(#[trigger] s[i])
}

pub open spec fn is_digit(c: char) -> bool {
    48 <= c as int <= 57
}

/// An ASCII capital as its small letter; any other character unchanged.
pub open spec fn lower(c: char) -> char {
    if 65 <= c as int <= 90 {
        (c as int + 32) as char
    } else {
        c
    }
}

fn code(c: char) -> (u: u32)
    ensures
        u as int == c as int,
{
    c as u32
}

fn white(c: char) -> (r: bool)
    ensures
        r == is_white(c),
{
    let u: u32 = c as u32;
    (0x09 <= u && u <= 0x0d) || u == 0x20 || u == 0x85 || u == 0xa0 || u == 0x1680 || (0x2000 <= u
        && u <= 0x200a) || u == 0x2028 || u == 0x2029 || u == 0x202f || u == 0x205f || u == 0x3000
}

/// Whether every character is visible ASCII or a space.
pub fn all_printable(s: &[char]) -> (r: bool)
    ensures
        r == printable(s@),
{
    let mut i: usize = 0;
    while i < s.len()
        invariant
            i <= s@.len(),
            forall|j: int| 0 <= j < i ==> is_printable(#[trigger] s@[j]),
        decreases s@.len() - i,
    {
        let u: u32 = code(s[i]);
        if u < 0x20 || u > 0x7e {
            assert(!is_printable(s@[i as int]));
            return false;
        }
        i += 1;
    }
    true
}

fn lowered(c: char) -> (r: char)
    ensures
        r == lower(c),
{
    let u: u32 = c as u32;
    if 65 <= u && u <= 90 {
        ((u + 32) as u8) as char
    } else {
        c
    }
}

// ── Characters of a text ─────────────────────────────────────────────────────

/// The characters of a text.
pub fn chars_of(s: &str) -> (r: Vec<char>)
    ensures
        r@ == s@,
{
    let mut v: Vec<char> = Vec::new();
    for c in it: s.chars()
        invariant
            it.seq() == s@,
            v@ == it.seq().subrange(0, it.index() as int),
    {
        v.push(c);
        assert(v@ =~= it.seq().subrange(0, it.index() + 1));
    }
    assert(v@ =~= s@);
    v
}

/// The text with the given characters.
pub fn string_of(c: &[char]) -> (s: String)
    ensures
        s@ == c@,
{
    let mut s: String = String::new();
    let mut i: usize = 0;
    while i < c.len()
        invariant
            i <= c@.len(),
            s@ == c@.subrange(0, i as int),
        decreases c@.len() - i,
    {
        push_char(&mut s, c[i]);
        i += 1;
        assert(s@ =~= c@.subrange(0, i as int));
    }
    assert(c@.subrange(0, i as int) =~= c@);
    s
}

/// The characters that bytes encode, if they are valid UTF-8.
pub fn decoded(b: &[u8]) -> (r: Option<Vec<char>>)
    ensures
        r is Some <==> valid_utf8(b@),
        r matches Some(v) ==> v@ == decode_utf8(b@),
{
    match utf8(b) {
        Some(s) => {
            proof {
                encode_utf8_decode_utf8(s@);
            }
            Some(chars_of(s))
        },
        None => None,
    }
}

// ── Trimming ─────────────────────────────────────────────────────────────────

/// Without leading white space.
pub open spec fn trim_start(s: Seq<char>) -> Seq<char>
    decreases s.len(),
{
    if s.len() > 0 && is_white(s[0]) {
        trim_start(s.skip(1))
    } else {
        s
    }
}

/// Without trailing white space.
pub open spec fn trim_end(s: Seq<char>) -> Seq<char>
    decreases s.len(),
{
    if s.len() > 0 && is_white(s.last()) {
        trim_end(s.drop_last())
    } else {
        s
    }
}

/// Without white space at either end.
pub open spec fn trim(s: Seq<char>) -> Seq<char> {
    trim_end(trim_start(s))
}

/// Without the given character at the end.
pub open spec fn trim_end_of(s: Seq<char>, c: char) -> Seq<char>
    decreases s.len(),
{
    if s.len() > 0 && s.last() == c {
        trim_end_of(s.drop_last(), c)
    } else {
        s
    }
}

/// Cuts white space off both ends.
pub fn trimmed<'a>(s: &'a [char]) -> (r: &'a [char])
    ensures
        r@ == trim(s@),
{
    let mut lo: usize = 0;
    proof {
        assert(s@.skip(0) =~= s@);
    }
    while lo < s.len() && white(s[lo])
        invariant
            lo <= s@.len(),
            trim_start(s@.skip(lo as int)) == trim_start(s@),
        decreases s@.len() - lo,
    {
        assert(s@.skip(lo as int).skip(1) =~= s@.skip(lo + 1));
        lo += 1;
    }
    let ghost rest = s@.skip(lo as int);
    assert(trim_start(s@) == rest);
    let mut hi: usize = s.len();
    proof {
        assert(s@.subrange(lo as int, hi as int) =~= rest);
    }
    while hi > lo && white(s[hi - 1])
        invariant
            lo <= hi <= s@.len(),
            trim_end(s@.subrange(lo as int, hi as int)) == trim_end(rest),
        decreases hi,
    {
        assert(s@.subrange(lo as int, hi as int).drop_last() =~= s@.subrange(lo as int, hi - 1));
        hi -= 1;
    }
    slice_subrange(s, lo, hi)
}

/// Cuts a character off the end as often as it stands there.
pub fn trimmed_end_of<'a>(s: &'a [char], c: char) -> (r: &'a [char])
    ensures
        r@ == trim_end_of(s@, c),
{
    let mut hi: usize = s.len();
    proof {
        assert(s@.subrange(0, hi as int) =~= s@);
    }
    while hi > 0 && s[hi - 1] == c
        invariant
            hi <= s@.len(),
            trim_end_of(s@.subrange(0, hi as int), c) == trim_end_of(s@, c),
        decreases hi,
    {
        assert(s@.subrange(0, hi as int).drop_last() =~= s@.subrange(0, hi - 1));
        hi -= 1;
    }
    slice_subrange(s, 0, hi)
}

/// The readable label that bytes spell: valid UTF-8 that is, without surrounding
/// white space, not empty and printable.
pub open spec fn label(b: Seq<u8>) -> Option<Seq<char>> {
    if valid_utf8(b) && trim(decode_utf8(b)).len() > 0 && printable(trim(decode_utf8(b))) {
        Some(trim(decode_utf8(b)))
    } else {
        None
    }
}

/// Reads a label.
pub fn read_label(b: &[u8]) -> (r: Option<String>)
    ensures
        opt_text(r) == label(b@),
{
    match decoded(b) {
        Some(v) => {
            let t: &[char] = trimmed(v.as_slice());
            if t.len() > 0 && all_printable(t) {
                Some(string_of(t))
            } else {
                None
            }
        },
        None => None,
    }
}

/// What an optional string reads.
pub open spec fn opt_text(s: Option<String>) -> Option<Seq<char>> {
    match s {
        Some(t) => Some(t@),
        None => None,
    }
}

// ── Prefixes and cuts ────────────────────────────────────────────────────────

/// Whether `s` begins with `p`.
pub open spec fn begins(s: Seq<char>, p: Seq<char>) -> bool {
    s.len() >= p.len() && s.subrange(0, p.len() as int) == p
}

/// Whether a text begins with another.
pub fn begins_with(s: &[char], p: &str) -> (r: bool)
    ensures
        r == begins(s@, p@),
{
    let q: Vec<char> = chars_of(p);
    if s.len() < q.len() {
        return false;
    }
    let mut i: usize = 0;
    while i < q.len()
        invariant
            q@ == p@,
            i <= q@.len() <= s@.len(),
            forall|j: int| 0 <= j < i ==> s@[j] == q@[j],
        decreases q@.len() - i,
    {
        if s[i] != q[i] {
            assert(s@.subrange(0, p@.len() as int)[i as int] != p@[i as int]);
            return false;
        }
        i += 1;
    }
    assert(s@.subrange(0, p@.len() as int) =~= p@);
    true
}

/// What follows `p` at the start of `s`.
pub open spec fn after(s: Seq<char>, p: Seq<char>) -> Option<Seq<char>> {
    if begins(s, p) {
        Some(s.skip(p.len() as int))
    } else {
        None
    }
}

/// What follows a prefix, if the text has it.
pub fn strip<'a>(s: &'a [char], p: &str) -> (r: Option<&'a [char]>)
    ensures
        match r {
            Some(t) => after(s@, p@) == Some(t@),
            None => after(s@, p@) is None,
        },
{
    if begins_with(s, p) {
        let n: usize = p.unicode_len();
        Some(slice_subrange(s, n, s.len()))
    } else {
        None
    }
}

/// The first place of a character.
pub open spec fn place(s: Seq<char>, c: char) -> Option<int>
    decreases s.len(),
{
    if s.len() == 0 {
        None
    } else if s[0] == c {
        Some(0)
    } else {
        match place(s.skip(1), c) {
            Some(i) => Some(i + 1),
            None => None,
        }
    }
}

proof fn lemma_place_skips(s: Seq<char>, c: char, i: int)
    requires
        0 <= i <= s.len(),
        forall|j: int| 0 <= j < i ==> s[j] != c,
    ensures
        place(s, c) == (match place(s.skip(i), c) {
            Some(k) => Some(k + i),
            None => None,
        }),
    decreases i,
{
    if i == 0 {
        assert(s.skip(0) =~= s);
    } else {
        lemma_place_skips(s.skip(1), c, i - 1);
        assert(s.skip(1).skip(i - 1) =~= s.skip(i));
    }
}

/// Finds the first place of a character.
pub fn find(s: &[char], c: char) -> (r: Option<usize>)
    ensures
        match r {
            Some(i) => place(s@, c) == Some(i as int) && i < s@.len() && s@[i as int] == c,
            None => place(s@, c) is None,
        },
{
    let mut i: usize = 0;
    while i < s.len()
        invariant
            i <= s@.len(),
            forall|j: int| 0 <= j < i ==> s@[j] != c,
        decreases s@.len() - i,
    {
        if s[i] == c {
            proof {
                lemma_place_skips(s@, c, i as int);
            }
            return Some(i);
        }
        i += 1;
    }
    proof {
        lemma_place_skips(s@, c, i as int);
    }
    None
}

/// The text before the first `c`, all of it where there is none.
pub open spec fn head(s: Seq<char>, c: char) -> Seq<char> {
    match place(s, c) {
        Some(i) => s.subrange(0, i),
        None => s,
    }
}

/// The text behind the first `c`.
pub open spec fn tail(s: Seq<char>, c: char) -> Option<Seq<char>> {
    match place(s, c) {
        Some(i) => Some(s.skip(i + 1)),
        None => None,
    }
}

/// Cuts a text at the first `c`.
pub fn cut<'a>(s: &'a [char], c: char) -> (r: (&'a [char], Option<&'a [char]>))
    ensures
        r.0@ == head(s@, c),
        match r.1 {
            Some(t) => tail(s@, c) == Some(t@),
            None => tail(s@, c) is None,
        },
{
    let n: usize = s.len();
    match find(s, c) {
        Some(i) => (slice_subrange(s, 0, i), Some(slice_subrange(s, i + 1, n))),
        None => (s, None),
    }
}

pub proof fn lemma_place_bounds(s: Seq<char>, c: char)
    ensures
        place(s, c) matches Some(i) ==> 0 <= i < s.len(),
    decreases s.len(),
{
    if s.len() > 0 && s[0] != c {
        lemma_place_bounds(s.skip(1), c);
    }
}

/// The parts between the occurrences of `c`.
pub open spec fn parts(s: Seq<char>, c: char) -> Seq<Seq<char>>
    decreases s.len(),
    via parts_shrink
{
    match tail(s, c) {
        Some(t) => seq![head(s, c)] + parts(t, c),
        None => seq![s],
    }
}

#[via_fn]
proof fn parts_shrink(s: Seq<char>, c: char) {
    lemma_place_bounds(s, c);
}

/// What a list of character lists reads.
pub open spec fn spellings(v: Seq<Vec<char>>) -> Seq<Seq<char>> {
    v.map_values(|x: Vec<char>| x@)
}

fn copied(s: &[char]) -> (r: Vec<char>)
    ensures
        r@ == s@,
{
    let mut v: Vec<char> = Vec::new();
    let mut i: usize = 0;
    while i < s.len()
        invariant
            i <= s@.len(),
            v@ == s@.subrange(0, i as int),
        decreases s@.len() - i,
    {
        v.push(s[i]);
        i += 1;
        assert(v@ =~= s@.subrange(0, i as int));
    }
    assert(s@.subrange(0, i as int) =~= s@);
    v
}

/// Splits a text at every `c`.
pub fn split(s: &[char], c: char) -> (r: Vec<Vec<char>>)
    ensures
        spellings(r@) == parts(s@, c),
{
    let mut out: Vec<Vec<char>> = Vec::new();
    let mut rest: &[char] = s;
    assert(spellings(out@) + parts(rest@, c) =~= parts(s@, c));
    loop
        invariant
            spellings(out@) + parts(rest@, c) == parts(s@, c),
        decreases rest@.len(),
    {
        proof {
            lemma_place_bounds(rest@, c);
        }
        let (first, more) = cut(rest, c);
        let ghost before = out@;
        out.push(copied(first));
        proof {
            assert(spellings(out@) =~= spellings(before).push(first@));
        }
        match more {
            Some(t) => {
                proof {
                    assert(spellings(out@) + parts(t@, c) =~= spellings(before) + parts(rest@, c));
                }
                rest = t;
            },
            None => {
                proof {
                    assert(spellings(out@) =~= spellings(before) + parts(rest@, c));
                }
                return out;
            },
        }
    }
}

/// The length of the word that `s` begins with.
pub open spec fn word_len(s: Seq<char>) -> nat
    decreases s.len(),
{
    if s.len() > 0 && !is_white(s[0]) {
        1 + word_len(s.skip(1))
    } else {
        0
    }
}

pub proof fn lemma_word_len(s: Seq<char>)
    ensures
        word_len(s) <= s.len(),
    decreases s.len(),
{
    if s.len() > 0 && !is_white(s[0]) {
        lemma_word_len(s.skip(1));
    }
}

/// The words of a text: its longest runs without white space.
pub open spec fn words(s: Seq<char>) -> Seq<Seq<char>>
    decreases s.len(),
    via words_shrink
{
    if s.len() == 0 {
        Seq::empty()
    } else if is_white(s[0]) {
        words(s.skip(1))
    } else {
        seq![s.subrange(0, word_len(s) as int)] + words(s.skip(word_len(s) as int))
    }
}

#[via_fn]
proof fn words_shrink(s: Seq<char>) {
    lemma_word_len(s);
    if s.len() > 0 && !is_white(s[0]) {
        lemma_word_len(s.skip(1));
    }
}

fn word_end(s: &[char], from: usize) -> (r: usize)
    requires
        from <= s@.len(),
    ensures
        r == from + word_len(s@.skip(from as int)),
        r <= s@.len(),
    decreases s@.len() - from,
{
    if from < s.len() && !white(s[from]) {
        assert(s@.skip(from as int).skip(1) =~= s@.skip(from + 1));
        word_end(s, from + 1)
    } else {
        from
    }
}

/// Splits a text into words.
pub fn split_words(s: &[char]) -> (r: Vec<Vec<char>>)
    ensures
        spellings(r@) == words(s@),
{
    let mut out: Vec<Vec<char>> = Vec::new();
    let mut i: usize = 0;
    proof {
        assert(s@.skip(0) =~= s@);
        assert(spellings(out@) + words(s@.skip(0)) =~= words(s@));
    }
    while i < s.len()
        invariant
            i <= s@.len(),
            spellings(out@) + words(s@.skip(i as int)) == words(s@),
        decreases s@.len() - i,
    {
        let ghost rest = s@.skip(i as int);
        if white(s[i]) {
            assert(rest.skip(1) =~= s@.skip(i + 1));
            i += 1;
        } else {
            let e: usize = word_end(s, i);
            let ghost before = out@;
            let word: &[char] = slice_subrange(s, i, e);
            out.push(copied(word));
            proof {
                lemma_word_len(rest.skip(1));
                assert(word_len(rest) == 1 + word_len(rest.skip(1)));
                assert(word@ =~= rest.subrange(0, word_len(rest) as int));
                assert(rest.skip(word_len(rest) as int) =~= s@.skip(e as int));
                assert(spellings(out@) =~= spellings(before).push(word@));
                assert(spellings(out@) + words(s@.skip(e as int)) =~= spellings(before) + words(rest));
            }
            i = e;
        }
    }
    proof {
        assert(s@.skip(i as int).len() == 0);
        assert(spellings(out@) =~= words(s@));
    }
    out
}

// ── Numbers ──────────────────────────────────────────────────────────────────

/// Only decimal digits.
pub open spec fn digits(s: Seq<char>) -> bool {
    forall|i: int| 0 <= i < s.len() ==> is_digit(#[trigger] s[i])
}

/// The number that decimal digits spell.
pub open spec fn value(s: Seq<char>) -> nat
    decreases s.len(),
{
    if s.len() == 0 {
        0
    } else {
        (10 * value(s.drop_last()) + (s.last() as int - 48)) as nat
    }
}

/// Without one leading plus sign.
pub open spec fn unsigned(s: Seq<char>) -> Seq<char> {
    if s.len() > 0 && s[0] == '+' {
        s.skip(1)
    } else {
        s
    }
}

/// A whole number up to `max`: digits behind an optional plus sign.
pub open spec fn whole(s: Seq<char>, max: nat) -> Option<nat> {
    let body = unsigned(s);
    if body.len() > 0 && digits(body) && value(body) <= max {
        Some(value(body))
    } else {
        None
    }
}

proof fn lemma_value_grows(s: Seq<char>, i: int)
    requires
        digits(s),
        0 <= i <= s.len(),
    ensures
        value(s.subrange(0, i)) <= value(s),
    decreases s.len() - i,
{
    if i == s.len() {
        assert(s.subrange(0, i) =~= s);
    } else {
        let next = s.subrange(0, i + 1);
        assert(next.drop_last() =~= s.subrange(0, i));
        assert(next.last() == s[i]);
        assert(is_digit(s[i]));
        lemma_value_grows(s, i + 1);
    }
}

fn digits_upto(s: &[char], max: u64) -> (r: Option<u64>)
    ensures
        match r {
            Some(n) => digits(s@) && n == value(s@) && n <= max,
            None => !digits(s@) || value(s@) > max,
        },
{
    let mut acc: u64 = 0;
    let mut i: usize = 0;
    while i < s.len()
        invariant
            i <= s@.len(),
            forall|j: int| 0 <= j < i ==> is_digit(#[trigger] s@[j]),
            acc == value(s@.subrange(0, i as int)),
            acc <= max,
        decreases s@.len() - i,
    {
        let u: u32 = code(s[i]);
        if u < 48 || u > 57 {
            assert(!is_digit(s@[i as int]));
            return None;
        }
        let next: u128 = acc as u128 * 10 + (u - 48) as u128;
        proof {
            let longer = s@.subrange(0, i + 1);
            assert(longer.drop_last() =~= s@.subrange(0, i as int));
            assert(longer.last() == s@[i as int]);
            assert(next == value(longer));
        }
        if next > max as u128 {
            proof {
                if digits(s@) {
                    lemma_value_grows(s@, i + 1);
                }
            }
            return None;
        }
        acc = next as u64;
        i += 1;
    }
    assert(s@.subrange(0, i as int) =~= s@);
    Some(acc)
}

/// Reads a whole number up to `max`.
pub fn read_whole(s: &[char], max: u64) -> (r: Option<u64>)
    ensures
        match r {
            Some(n) => whole(s@, max as nat) == Some(n as nat) && n <= max,
            None => whole(s@, max as nat) is None,
        },
{
    let body: &[char] = if s.len() > 0 && s[0] == '+' {
        slice_subrange(s, 1, s.len())
    } else {
        s
    };
    assert(body@ =~= unsigned(s@));
    if body.len() == 0 {
        None
    } else {
        digits_upto(body, max)
    }
}

/// More units than are counted, and what is endless.
pub const ENDLESS: i64 = 0x7FFF_FFFF_FFFF_FFFF;

/// As many units as are counted.
pub open spec fn counted(n: nat) -> i64 {
    if n >= ENDLESS {
        ENDLESS
    } else {
        n as i64
    }
}

/// The number that digits spell, with the point behind the first `p` of them: what
/// is behind the point is cut off, and zeros are filled in before it.
pub open spec fn pointed(d: Seq<char>, p: int) -> nat {
    if p <= 0 {
        0
    } else if p <= d.len() {
        value(d.take(p))
    } else {
        value(d) * pow10((p - d.len()) as nat)
    }
}

/// The places behind the point in which a number is told from zero.
pub const PLACES: u32 = 323;

/// How many units of ten to the minus `k` digits stand for, with the point behind
/// the first `p` of them: whole units, one at least of what is told from zero, and
/// no more than are counted.
pub open spec fn units(d: Seq<char>, p: int, k: nat) -> nat {
    if pointed(d, p + PLACES) == 0 {
        0
    } else if pointed(d, p + k) == 0 {
        1
    } else {
        counted(pointed(d, p + k)) as nat
    }
}

/// An exponent: digits behind an optional sign.
pub open spec fn exponent(s: Seq<char>) -> Option<int> {
    let body = if s.len() > 0 && s[0] == '-' {
        s.skip(1)
    } else {
        unsigned(s)
    };
    if body.len() > 0 && digits(body) {
        Some(
            if s[0] == '-' {
                -value(body)
            } else {
                value(body) as int
            },
        )
    } else {
        None
    }
}

/// ASCII capitals as small letters.
pub open spec fn small(s: Seq<char>) -> Seq<char> {
    s.map_values(|c: char| lower(c))
}

/// The digits of a decimal number and where its point stands among them, or
/// nothing if it is none: digits with at most one point among or beside them, and
/// an optional exponent.
pub open spec fn decimal(s: Seq<char>) -> Option<(Seq<char>, int)> {
    let m = head(s, 'e');
    let before = head(m, '.');
    let behind = match tail(m, '.') {
        Some(t) => t,
        None => Seq::empty(),
    };
    let e = match tail(s, 'e') {
        Some(t) => exponent(t),
        None => Some(0),
    };
    if before.len() + behind.len() > 0 && digits(before) && digits(behind) && e is Some {
        Some((before + behind, before.len() + e.unwrap()))
    } else {
        None
    }
}

/// A number in units of ten to the minus `k`, or nothing if the text is none: a
/// decimal, `inf`, `infinity` or `nan`, in letters of either size, behind an
/// optional sign. `nan`, which is neither above nor below zero, gives zero, and so
/// does what is too small to be told from it.
pub open spec fn scaled(s: Seq<char>, k: nat) -> Option<int> {
    let t = small(s);
    let negative = t.len() > 0 && t[0] == '-';
    let body = if negative {
        t.skip(1)
    } else {
        unsigned(t)
    };
    let n = if body == "inf"@ || body == "infinity"@ {
        Some(ENDLESS as int)
    } else if body == "nan"@ {
        Some(0)
    } else {
        match decimal(body) {
            Some((d, p)) => Some(units(d, p, k) as int),
            None => None,
        }
    };
    match n {
        Some(x) => Some(
            if negative {
                -x
            } else {
                x
            },
        ),
        None => None,
    }
}

proof fn lemma_pow10_grows(a: nat, b: nat)
    requires
        a <= b,
    ensures
        0 < pow10(a) <= pow10(b),
    decreases b,
{
    if a < b {
        lemma_pow10_grows(a, (b - 1) as nat);
    } else if b > 0 {
        lemma_pow10_grows((a - 1) as nat, (b - 1) as nat);
    }
}

/// With the point behind all digits, only zeros give zero.
proof fn lemma_pointed_positive(d: Seq<char>, p: int)
    requires
        p >= d.len(),
    ensures
        pointed(d, p) == 0 <==> p <= 0 || value(d) == 0,
{
    if p > d.len() {
        let n = (p - d.len()) as nat;
        lemma_pow10_grows(n, n);
        assert(value(d) * pow10(n) == 0 <==> value(d) == 0) by (nonlinear_arith)
            requires
                pow10(n) > 0,
        ;
    } else {
        assert(d.take(p) =~= d);
    }
}

/// Digits with the point far behind them are more than is counted.
proof fn lemma_far_point(d: Seq<char>, p: int, k: nat)
    requires
        value(d) > 0,
        p >= d.len() + 20,
    ensures
        units(d, p, k) == ENDLESS,
{
    lemma_pointed_positive(d, p + PLACES);
    let n = (p + k - d.len()) as nat;
    lemma_pow10_grows(20, n);
    assert(pow10(20) == 100_000_000_000_000_000_000) by {
        reveal_with_fuel(pow10, 21);
    }
    assert(value(d) * pow10(n) >= pow10(n)) by (nonlinear_arith)
        requires
            value(d) >= 1,
            pow10(n) >= 0,
    ;
}

/// What an exponent is read up to: no text is long enough for more to matter.
const MAX_EXPONENT: u128 = 0x1_0000_0000_0000_0000_0000_0000;

fn read_exponent(s: &[char]) -> (r: Option<(bool, u128)>)
    ensures
        match r {
            Some((down, n)) => exponent(s@) is Some && n <= MAX_EXPONENT && ({
                let e = exponent(s@).unwrap();
                if down {
                    e == -n || (n == MAX_EXPONENT && e <= -n)
                } else {
                    e == n || (n == MAX_EXPONENT && e >= n)
                }
            }),
            None => exponent(s@) is None,
        },
{
    let down: bool = s.len() > 0 && s[0] == '-';
    let body: &[char] = if s.len() > 0 && (s[0] == '-' || s[0] == '+') {
        slice_subrange(s, 1, s.len())
    } else {
        s
    };
    assert(body@ =~= (if down {
        s@.skip(1)
    } else {
        unsigned(s@)
    }));
    if body.len() == 0 || !all_digits(body) {
        return None;
    }
    let mut n: u128 = 0;
    let mut i: usize = 0;
    while i < body.len()
        invariant
            i <= body@.len(),
            digits(body@),
            n <= MAX_EXPONENT,
            n == value(body@.take(i as int)) || (n == MAX_EXPONENT && value(body@.take(i as int))
                >= n),
        decreases body@.len() - i,
    {
        assert(is_digit(body@[i as int]));
        proof {
            let longer = body@.take(i + 1);
            assert(longer.drop_last() =~= body@.take(i as int));
            assert(longer.last() == body@[i as int]);
        }
        let next: u128 = n * 10 + (code(body[i]) - 48) as u128;
        n = if next > MAX_EXPONENT {
            MAX_EXPONENT
        } else {
            next
        };
        i += 1;
    }
    assert(body@.take(i as int) =~= body@);
    Some((down, n))
}

fn any_nonzero(d: &[char]) -> (r: bool)
    requires
        digits(d@),
    ensures
        r == (value(d@) > 0),
{
    let mut i: usize = 0;
    while i < d.len()
        invariant
            i <= d@.len(),
            digits(d@),
            value(d@.take(i as int)) == 0,
        decreases d@.len() - i,
    {
        assert(is_digit(d@[i as int]));
        proof {
            let longer = d@.take(i + 1);
            assert(longer.drop_last() =~= d@.take(i as int));
            assert(longer.last() == d@[i as int]);
            if d@[i as int] != '0' {
                lemma_value_grows(d@, i + 1);
                assert(d@.subrange(0, i + 1) =~= longer);
            }
        }
        if d[i] != '0' {
            return true;
        }
        i += 1;
    }
    assert(d@.take(i as int) =~= d@);
    false
}

fn above_zero(d: &[char], p: i128) -> (r: bool)
    requires
        digits(d@),
    ensures
        r == (pointed(d@, p as int) > 0),
{
    if p <= 0 {
        return false;
    }
    let n: usize = d.len();
    if p >= n as i128 {
        proof {
            lemma_pointed_positive(d@, p as int);
        }
        return any_nonzero(d);
    }
    let front: &[char] = slice_subrange(d, 0, p as usize);
    assert(front@ =~= d@.take(p as int));
    assert forall|i: int| 0 <= i < front@.len() implies is_digit(#[trigger] front@[i]) by {
        assert(is_digit(d@[i]));
    }
    any_nonzero(front)
}

fn count_units(d: &[char], point: i128, k: u32) -> (r: i64)
    requires
        digits(d@),
        -0x2_0000_0000_0000_0000_0000_0000 < point < 0x2_0000_0000_0000_0000_0000_0000,
    ensures
        r == units(d@, point as int, k as nat),
{
    if !above_zero(d, point + PLACES as i128) {
        return 0;
    }
    let p: i128 = point + k as i128;
    let n: usize = d.len();
    let mut acc: u128 = 0;
    let mut i: usize = 0;
    assert(value(d@.take(0)) == 0);
    while i < n && (i as i128) < p
        invariant
            n == d@.len(),
            i <= n,
            i == 0 || i <= p,
            digits(d@),
            acc <= ENDLESS,
            acc == value(d@.take(i as int)) || (acc == ENDLESS && value(d@.take(i as int)) >= acc),
        decreases n - i,
    {
        assert(is_digit(d@[i as int]));
        proof {
            let longer = d@.take(i + 1);
            assert(longer.drop_last() =~= d@.take(i as int));
            assert(longer.last() == d@[i as int]);
        }
        let next: u128 = acc * 10 + (code(d[i]) - 48) as u128;
        acc = if next > ENDLESS as u128 {
            ENDLESS as u128
        } else {
            next
        };
        i += 1;
    }
    if i == n {
        assert(d@.take(i as int) =~= d@);
        let mut j: i128 = 0;
        let extra: i128 = if p > n as i128 {
            p - n as i128
        } else {
            0
        };
        assert(value(d@) * pow10(0) == value(d@)) by {
            assert(pow10(0) == 1);
        }
        while j < extra && acc < ENDLESS as u128
            invariant
                0 <= j <= extra,
                acc <= ENDLESS,
                acc == value(d@) * pow10(j as nat) || (acc == ENDLESS && value(d@) * pow10(
                    j as nat,
                ) >= acc),
            decreases extra - j,
        {
            let ghost v = value(d@) as int;
            let ghost q = pow10(j as nat) as int;
            assert(pow10((j + 1) as nat) == 10 * q);
            assert(v * (10 * q) == 10 * (v * q)) by (nonlinear_arith);
            let next: u128 = acc * 10;
            acc = if next > ENDLESS as u128 {
                ENDLESS as u128
            } else {
                next
            };
            j += 1;
        }
        proof {
            let v = value(d@) as int;
            lemma_pow10_grows(j as nat, extra as nat);
            let q = pow10(j as nat) as int;
            let w = pow10(extra as nat) as int;
            assert(v * q <= v * w) by (nonlinear_arith)
                requires
                    0 <= v,
                    0 <= q <= w,
            ;
            if p == n {
                assert(d@.take(p as int) =~= d@);
            }
        }
    }
    if acc == 0 {
        1
    } else {
        acc as i64
    }
}

fn read_decimal(s: &[char], k: u32) -> (r: Option<i64>)
    ensures
        match r {
            Some(n) => decimal(s@) matches Some((d, p)) && n == units(d, p, k as nat),
            None => decimal(s@) is None,
        },
{
    let (m, power) = cut(s, 'e');
    let (before, more) = cut(m, '.');
    let mut d: Vec<char> = copied(before);
    if let Some(behind) = more {
        let mut rest: Vec<char> = copied(behind);
        d.append(&mut rest);
    }
    let ghost behind = match tail(m@, '.') {
        Some(t) => t,
        None => Seq::empty(),
    };
    assert(d@ =~= before@ + behind);
    let is_number: bool = d.len() > 0 && all_digits(d.as_slice());
    proof {
        assert forall|i: int| 0 <= i < before@.len() implies d@[i] == before@[i] by {}
        assert forall|i: int| 0 <= i < behind.len() implies d@[before@.len() + i] == behind[i] by {}
        assert(digits(d@) == (digits(before@) && digits(behind))) by {
            if digits(d@) {
                assert forall|i: int| 0 <= i < before@.len() implies is_digit(
                    #[trigger] before@[i],
                ) by {
                    assert(is_digit(d@[i]));
                }
                assert forall|i: int| 0 <= i < behind.len() implies is_digit(
                    #[trigger] behind[i],
                ) by {
                    assert(is_digit(d@[before@.len() + i]));
                }
            }
            if digits(before@) && digits(behind) {
                assert forall|i: int| 0 <= i < d@.len() implies is_digit(#[trigger] d@[i]) by {
                    if i >= before@.len() {
                        assert(d@[i] == behind[i - before@.len()]);
                    }
                }
            }
        }
    }
    if !is_number {
        return None;
    }
    let (down, n): (bool, u128) = match power {
        Some(t) => match read_exponent(t) {
            Some(e) => e,
            None => {
                return None;
            },
        },
        None => (false, 0),
    };
    let start: i128 = before.len() as i128;
    let p: i128 = if down {
        start - n as i128
    } else {
        start + n as i128
    };
    proof {
        let e = decimal(s@).unwrap().1 - before@.len();
        if !down && e != n {
            lemma_pointed_positive(d@, p + PLACES);
            lemma_pointed_positive(d@, before@.len() + e + PLACES);
            if value(d@) > 0 {
                lemma_far_point(d@, p as int, k as nat);
                lemma_far_point(d@, before@.len() + e, k as nat);
            }
        }
    }
    Some(count_units(d.as_slice(), p, k))
}

fn lowered_all(s: &[char]) -> (r: Vec<char>)
    ensures
        r@ == small(s@),
{
    let mut r: Vec<char> = Vec::new();
    let mut i: usize = 0;
    while i < s.len()
        invariant
            i <= s@.len(),
            r@.len() == i,
            forall|j: int| 0 <= j < i ==> #[trigger] r@[j] == lower(s@[j]),
        decreases s@.len() - i,
    {
        r.push(lowered(s[i]));
        i += 1;
    }
    assert(r@ =~= small(s@));
    r
}

fn is_text(s: &[char], t: &str) -> (r: bool)
    ensures
        r == (s@ == t@),
{
    let q: Vec<char> = chars_of(t);
    if s.len() != q.len() {
        return false;
    }
    let mut i: usize = 0;
    while i < s.len()
        invariant
            q@ == t@,
            s@.len() == q@.len(),
            i <= s@.len(),
            forall|j: int| 0 <= j < i ==> s@[j] == q@[j],
        decreases s@.len() - i,
    {
        if s[i] != q[i] {
            return false;
        }
        i += 1;
    }
    assert(s@ =~= q@);
    true
}

/// Reads a number in units of ten to the minus `k`.
pub fn read_scaled(s: &[char], k: u32) -> (r: Option<i64>)
    ensures
        match r {
            Some(n) => scaled(s@, k as nat) == Some(n as int),
            None => scaled(s@, k as nat) is None,
        },
{
    let t: Vec<char> = lowered_all(s);
    let negative: bool = t.len() > 0 && t[0] == '-';
    let body: &[char] = if t.len() > 0 && (t[0] == '-' || t[0] == '+') {
        slice_subrange(t.as_slice(), 1, t.len())
    } else {
        t.as_slice()
    };
    assert(body@ =~= (if negative {
        t@.skip(1)
    } else {
        unsigned(t@)
    }));
    let n: Option<i64> = if is_text(body, "inf") || is_text(body, "infinity") {
        Some(ENDLESS)
    } else if is_text(body, "nan") {
        Some(0)
    } else {
        read_decimal(body, k)
    };
    match n {
        Some(x) => Some(
            if negative {
                -x
            } else {
                x
            },
        ),
        None => None,
    }
}

fn all_digits(s: &[char]) -> (r: bool)
    ensures
        r == digits(s@),
{
    let mut i: usize = 0;
    while i < s.len()
        invariant
            i <= s@.len(),
            forall|j: int| 0 <= j < i ==> is_digit(#[trigger] s@[j]),
        decreases s@.len() - i,
    {
        let u: u32 = code(s[i]);
        if u < 48 || u > 57 {
            assert(!is_digit(s@[i as int]));
            return false;
        }
        i += 1;
    }
    true
}

// ── Comparison ───────────────────────────────────────────────────────────────

/// The same text, capitals and small ASCII letters being alike.
pub open spec fn alike(a: Seq<char>, b: Seq<char>) -> bool {
    a.len() == b.len() && forall|i: int| 0 <= i < a.len() ==> lower(#[trigger] a[i]) == lower(b[i])
}

/// Whether two texts are the same, ignoring ASCII case.
pub fn is_alike(a: &[char], b: &str) -> (r: bool)
    ensures
        r == alike(a@, b@),
{
    let q: Vec<char> = chars_of(b);
    if a.len() != q.len() {
        return false;
    }
    let mut i: usize = 0;
    while i < a.len()
        invariant
            q@ == b@,
            a@.len() == q@.len(),
            i <= a@.len(),
            forall|j: int| 0 <= j < i ==> lower(#[trigger] a@[j]) == lower(q@[j]),
        decreases a@.len() - i,
    {
        if lowered(a[i]) != lowered(q[i]) {
            assert(lower(a@[i as int]) != lower(b@[i as int]));
            return false;
        }
        i += 1;
    }
    true
}

} // verus!
