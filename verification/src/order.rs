//! Sorting.

use vstd::prelude::*;

use crate::net::{bits, Ipv4Addr};
use crate::scan::chars_of;

verus! {

/// A type whose values stand in a total order, as seen through their view.
pub trait Ranked: Sized + View {
    /// Whether `a` may stand before `b`.
    spec fn leq(a: Self::V, b: Self::V) -> bool;

    /// Of two values one may stand before the other.
    proof fn total(a: Self::V, b: Self::V)
        ensures
            Self::leq(a, b) || Self::leq(b, a),
    ;

    /// What may stand before a value may stand before those behind it.
    proof fn transitive(a: Self::V, b: Self::V, c: Self::V)
        requires
            Self::leq(a, b),
            Self::leq(b, c),
        ensures
            Self::leq(a, c),
    ;

    /// Whether `self` may stand before `other`.
    fn le(&self, other: &Self) -> (r: bool)
        ensures
            r == Self::leq(self@, other@),
    ;
}

/// `x` put behind the last element that may stand before it.
pub open spec fn with_sorted<T: Ranked>(s: Seq<T::V>, x: T::V) -> Seq<T::V>
    decreases s.len(),
{
    if s.len() == 0 {
        seq![x]
    } else if T::leq(s.last(), x) {
        s.push(x)
    } else {
        with_sorted::<T>(s.drop_last(), x).push(s.last())
    }
}

/// The elements in order, equal ones as they stood.
pub open spec fn sorted<T: Ranked>(s: Seq<T::V>) -> Seq<T::V>
    decreases s.len(),
{
    if s.len() == 0 {
        Seq::empty()
    } else {
        with_sorted::<T>(sorted::<T>(s.drop_last()), s.last())
    }
}

/// The views of a list.
pub open spec fn views<T: View>(s: Seq<T>) -> Seq<T::V> {
    s.map_values(|x: T| x@)
}

proof fn lemma_with_sorted<T: Ranked>(s: Seq<T::V>, x: T::V, j: int)
    requires
        0 <= j <= s.len(),
        j > 0 ==> T::leq(s[j - 1], x),
        forall|k: int| j <= k < s.len() ==> !T::leq(#[trigger] s[k], x),
    ensures
        with_sorted::<T>(s, x) == s.insert(j, x),
    decreases s.len(),
{
    if s.len() == 0 {
        assert(s.insert(j, x) =~= seq![x]);
    } else if j == s.len() {
        assert(s.insert(j, x) =~= s.push(x));
    } else {
        assert(!T::leq(s[s.len() - 1], x));
        assert forall|k: int| j <= k < s.drop_last().len() implies !T::leq(
            #[trigger] s.drop_last()[k],
            x,
        ) by {
            assert(s.drop_last()[k] == s[k]);
        }
        lemma_with_sorted::<T>(s.drop_last(), x, j);
        assert(s.insert(j, x) =~= s.drop_last().insert(j, x).push(s.last()));
    }
}

fn reversed<T>(v: Vec<T>) -> (r: Vec<T>)
    ensures
        r@ == v@.reverse(),
{
    let mut v: Vec<T> = v;
    let ghost whole = v@;
    let mut r: Vec<T> = Vec::new();
    assert(r@ =~= whole.skip(v@.len() as int).reverse());
    while v.len() > 0
        invariant
            v@ == whole.take(v@.len() as int),
            v@.len() <= whole.len(),
            r@ == whole.skip(v@.len() as int).reverse(),
        decreases v@.len(),
    {
        let ghost n = v@.len();
        if let Some(x) = v.pop() {
            assert(x == whole[n - 1]);
            assert(v@ =~= whole.take(n - 1));
            r.push(x);
            assert(r@ =~= whole.skip(n - 1).reverse());
        }
    }
    assert(whole.skip(0) =~= whole);
    r
}

fn insert_sorted<T: Ranked>(out: &mut Vec<T>, x: T)
    ensures
        views(final(out)@) == with_sorted::<T>(views(old(out)@), x@),
        final(out)@.len() == old(out)@.len() + 1,
{
    let mut j: usize = out.len();
    while j > 0 && !out[j - 1].le(&x)
        invariant
            j <= out@.len(),
            forall|k: int| j <= k < out@.len() ==> !T::leq((#[trigger] out@[k])@, x@),
        decreases j,
    {
        j -= 1;
    }
    let ghost before = out@;
    proof {
        assert forall|k: int| j <= k < views(before).len() implies !T::leq(
            #[trigger] views(before)[k],
            x@,
        ) by {
            assert(views(before)[k] == before[k]@);
        }
        lemma_with_sorted::<T>(views(before), x@, j as int);
    }
    out.insert(j, x);
    assert(views(out@) =~= views(before).insert(j as int, x@));
}

/// Sorts a list.
pub fn sort<T: Ranked>(v: Vec<T>) -> (r: Vec<T>)
    ensures
        views(r@) == sorted::<T>(views(v@)),
        r@.len() == v@.len(),
{
    let ghost whole = v@;
    let mut rest: Vec<T> = reversed(v);
    let mut out: Vec<T> = Vec::new();
    assert(views(whole).take(0) =~= Seq::empty());
    assert(views(out@) =~= sorted::<T>(views(whole).take(0)));
    while rest.len() > 0
        invariant
            out@.len() + rest@.len() == whole.len(),
            rest@ == whole.skip(out@.len() as int).reverse(),
            views(out@) == sorted::<T>(views(whole).take(out@.len() as int)),
        decreases rest@.len(),
    {
        let ghost n = out@.len() as int;
        if let Some(x) = rest.pop() {
            assert(x == whole[n]);
            assert(rest@ =~= whole.skip(n + 1).reverse());
            insert_sorted(&mut out, x);
            assert(views(whole).take(n + 1).drop_last() =~= views(whole).take(n));
            assert(views(whole).take(n + 1).last() == x@);
        }
    }
    assert(views(whole).take(out@.len() as int) =~= views(whole));
    out
}

// ── Laws ─────────────────────────────────────────────────────────────────────

/// No element stands behind one that it should stand before.
pub open spec fn ordered<T: Ranked>(s: Seq<T::V>) -> bool {
    forall|i: int, j: int| 0 <= i <= j < s.len() ==> T::leq(#[trigger] s[i], #[trigger] s[j])
}

proof fn lemma_with_sorted_place<T: Ranked>(s: Seq<T::V>, x: T::V) -> (j: int)
    ensures
        0 <= j <= s.len(),
        j > 0 ==> T::leq(s[j - 1], x),
        forall|k: int| j <= k < s.len() ==> !T::leq(#[trigger] s[k], x),
        with_sorted::<T>(s, x) == s.insert(j, x),
    decreases s.len(),
{
    if s.len() == 0 {
        lemma_with_sorted::<T>(s, x, 0);
        0
    } else if T::leq(s.last(), x) {
        lemma_with_sorted::<T>(s, x, s.len() as int);
        s.len() as int
    } else {
        let j = lemma_with_sorted_place::<T>(s.drop_last(), x);
        assert forall|k: int| j <= k < s.len() implies !T::leq(#[trigger] s[k], x) by {
            if k < s.len() - 1 {
                assert(s.drop_last()[k] == s[k]);
            }
        }
        if j > 0 {
            assert(s.drop_last()[j - 1] == s[j - 1]);
        }
        lemma_with_sorted::<T>(s, x, j);
        j
    }
}

proof fn lemma_with_sorted_ordered<T: Ranked>(s: Seq<T::V>, x: T::V)
    requires
        ordered::<T>(s),
    ensures
        ordered::<T>(with_sorted::<T>(s, x)),
{
    let p = lemma_with_sorted_place::<T>(s, x);
    let t = s.insert(p, x);
    assert forall|i: int, j: int| 0 <= i <= j < t.len() implies T::leq(
        #[trigger] t[i],
        #[trigger] t[j],
    ) by {
        if i == p && j == p {
            T::total(x, x);
        } else if i == p {
            assert(t[j] == s[j - 1]);
            assert(!T::leq(s[j - 1], x));
            T::total(s[j - 1], x);
        } else if j == p {
            assert(t[i] == s[i]);
            assert(T::leq(s[i], s[p - 1]));
            T::transitive(s[i], s[p - 1], x);
        } else {
            let a = if i < p {
                i
            } else {
                i - 1
            };
            let b = if j < p {
                j
            } else {
                j - 1
            };
            assert(t[i] == s[a] && t[j] == s[b]);
        }
    }
}

/// Sorting puts every element in its place.
pub proof fn law_sorted_is_ordered<T: Ranked>(s: Seq<T::V>)
    ensures
        ordered::<T>(sorted::<T>(s)),
    decreases s.len(),
{
    if s.len() > 0 {
        law_sorted_is_ordered::<T>(s.drop_last());
        lemma_with_sorted_ordered::<T>(sorted::<T>(s.drop_last()), s.last());
    }
}

/// Sorting loses no element, and adds none.
pub proof fn law_sorted_keeps_all<T: Ranked>(s: Seq<T::V>)
    ensures
        sorted::<T>(s).to_multiset() == s.to_multiset(),
    decreases s.len(),
{
    if s.len() == 0 {
        assert(sorted::<T>(s) =~= s);
    } else {
        let front = sorted::<T>(s.drop_last());
        law_sorted_keeps_all::<T>(s.drop_last());
        let p = lemma_with_sorted_place::<T>(front, s.last());
        assert(s =~= s.drop_last().push(s.last()));
        let t = front.insert(p, s.last());
        assert(t.remove(p) =~= front);
        assert(t[p] == s.last());
        t.to_multiset_ensures();
        front.to_multiset_ensures();
        s.drop_last().to_multiset_ensures();
        assert(t.remove(p).to_multiset() =~= t.to_multiset().remove(s.last()));
        assert(t.contains(t[p]));
        assert(t.to_multiset() =~= front.to_multiset().insert(s.last()));
    }
}

// ── Orders ───────────────────────────────────────────────────────────────────

impl Ranked for Ipv4Addr {
    open spec fn leq(a: Ipv4Addr, b: Ipv4Addr) -> bool {
        bits(a) <= bits(b)
    }

    proof fn total(a: Ipv4Addr, b: Ipv4Addr) {
    }

    proof fn transitive(a: Ipv4Addr, b: Ipv4Addr, c: Ipv4Addr) {
    }

    fn le(&self, other: &Self) -> (r: bool) {
        let x: u64 = self.a as u64 * 0x100_0000 + self.b as u64 * 0x1_0000 + self.c as u64 * 0x100
            + self.d as u64;
        let y: u64 = other.a as u64 * 0x100_0000 + other.b as u64 * 0x1_0000 + other.c as u64
            * 0x100 + other.d as u64;
        x <= y
    }
}

impl Ranked for (u8, u8) {
    open spec fn leq(a: (u8, u8), b: (u8, u8)) -> bool {
        a.0 < b.0 || (a.0 == b.0 && a.1 <= b.1)
    }

    proof fn total(a: (u8, u8), b: (u8, u8)) {
    }

    proof fn transitive(a: (u8, u8), b: (u8, u8), c: (u8, u8)) {
    }

    fn le(&self, other: &Self) -> (r: bool) {
        self.0 < other.0 || (self.0 == other.0 && self.1 <= other.1)
    }
}

/// Lexicographic order of bytes.
pub open spec fn bytes_leq(a: Seq<u8>, b: Seq<u8>) -> bool
    decreases a.len(),
{
    if a.len() == 0 {
        true
    } else if b.len() == 0 {
        false
    } else if a[0] != b[0] {
        a[0] < b[0]
    } else {
        bytes_leq(a.skip(1), b.skip(1))
    }
}

pub proof fn lemma_bytes_total(a: Seq<u8>, b: Seq<u8>)
    ensures
        bytes_leq(a, b) || bytes_leq(b, a),
    decreases a.len(),
{
    if a.len() > 0 && b.len() > 0 && a[0] == b[0] {
        lemma_bytes_total(a.skip(1), b.skip(1));
    }
}

pub proof fn lemma_bytes_transitive(a: Seq<u8>, b: Seq<u8>, c: Seq<u8>)
    requires
        bytes_leq(a, b),
        bytes_leq(b, c),
    ensures
        bytes_leq(a, c),
    decreases a.len(),
{
    if a.len() > 0 && b.len() > 0 && c.len() > 0 && a[0] == b[0] && b[0] == c[0] {
        lemma_bytes_transitive(a.skip(1), b.skip(1), c.skip(1));
    }
}

/// Whether an identifier may stand before another.
pub fn id_le(a: &[u8; 8], b: &[u8; 8]) -> (r: bool)
    ensures
        r == bytes_leq(a@, b@),
{
    let mut i: usize = 0;
    assert(a@.skip(0) =~= a@);
    assert(b@.skip(0) =~= b@);
    while i < 8
        invariant
            i <= 8,
            a@.len() == 8,
            b@.len() == 8,
            bytes_leq(a@, b@) == bytes_leq(a@.skip(i as int), b@.skip(i as int)),
        decreases 8 - i,
    {
        if a[i] != b[i] {
            return a[i] < b[i];
        }
        assert(a@.skip(i as int).skip(1) =~= a@.skip(i + 1));
        assert(b@.skip(i as int).skip(1) =~= b@.skip(i + 1));
        i += 1;
    }
    true
}

/// Alphabetical order by code points.
pub open spec fn text_leq(a: Seq<char>, b: Seq<char>) -> bool
    decreases a.len(),
{
    if a.len() == 0 {
        true
    } else if b.len() == 0 {
        false
    } else if a[0] != b[0] {
        (a[0] as int) < (b[0] as int)
    } else {
        text_leq(a.skip(1), b.skip(1))
    }
}

pub proof fn lemma_text_total(a: Seq<char>, b: Seq<char>)
    ensures
        text_leq(a, b) || text_leq(b, a),
    decreases a.len(),
{
    if a.len() > 0 && b.len() > 0 && a[0] == b[0] {
        lemma_text_total(a.skip(1), b.skip(1));
    }
}

pub proof fn lemma_text_transitive(a: Seq<char>, b: Seq<char>, c: Seq<char>)
    requires
        text_leq(a, b),
        text_leq(b, c),
    ensures
        text_leq(a, c),
    decreases a.len(),
{
    if a.len() > 0 && b.len() > 0 && c.len() > 0 && a[0] == b[0] && b[0] == c[0] {
        lemma_text_transitive(a.skip(1), b.skip(1), c.skip(1));
    }
}

fn char_before(a: char, b: char) -> (r: bool)
    ensures
        r == ((a as int) < (b as int)),
{
    (a as u32) < (b as u32)
}

/// Whether a text may stand before another in alphabetical order.
pub fn text_le(a: &str, b: &str) -> (r: bool)
    ensures
        r == text_leq(a@, b@),
{
    let x: Vec<char> = chars_of(a);
    let y: Vec<char> = chars_of(b);
    let mut i: usize = 0;
    proof {
        assert(a@.skip(0) =~= a@);
        assert(b@.skip(0) =~= b@);
    }
    loop
        invariant
            x@ == a@,
            y@ == b@,
            i <= x@.len(),
            i <= y@.len(),
            text_leq(a@, b@) == text_leq(a@.skip(i as int), b@.skip(i as int)),
        decreases x@.len() - i,
    {
        if i >= x.len() {
            return true;
        }
        if i >= y.len() {
            return false;
        }
        if x[i] != y[i] {
            return char_before(x[i], y[i]);
        }
        proof {
            assert(a@.skip(i as int).skip(1) =~= a@.skip(i + 1));
            assert(b@.skip(i as int).skip(1) =~= b@.skip(i + 1));
        }
        i += 1;
    }
}

impl Ranked for String {
    open spec fn leq(a: Seq<char>, b: Seq<char>) -> bool {
        text_leq(a, b)
    }

    proof fn total(a: Seq<char>, b: Seq<char>) {
        lemma_text_total(a, b);
    }

    proof fn transitive(a: Seq<char>, b: Seq<char>, c: Seq<char>) {
        lemma_text_transitive(a, b, c);
    }

    fn le(&self, other: &Self) -> (r: bool) {
        text_le(self.as_str(), other.as_str())
    }
}

} // verus!
