//! What a table and a set hold after each change.

use vstd::prelude::*;

use crate::table::{distinct, holds, keys, lemma_slot, lemma_slot_from, lemma_without_distinct, lookup, picked, put, slot, values, with, without};

verus! {

/// An entry is found by its key, and no key has one that it was not given.
pub proof fn law_entries_are_found<I, M>(s: Seq<(I, M)>, i: int, id: I)
    requires
        distinct(s),
        0 <= i < s.len(),
    ensures
        lookup(s, s[i].0) == Some(s[i].1),
        holds(s, id) <==> exists|j: int| 0 <= j < s.len() && (#[trigger] s[j]).0 == id,
        holds(s, id) <==> lookup(s, id) is Some,
        lookup(Seq::<(I, M)>::empty(), id) is None,
{
    assert forall|j: int| 0 <= j < i implies (#[trigger] s[j]).0 != s[i].0 by {}
    lemma_slot_from(s, s[i].0, 0, i);
    lemma_slot(s, id, 0);
}

/// A new key goes behind the others, and a known one keeps its place.
pub proof fn law_entries_keep_their_place<I, M>(s: Seq<(I, M)>, id: I, m: M, i: int)
    requires
        distinct(s),
    ensures
        lookup(s, id) is None ==> put(s, id, m) == s.push((id, m)),
        lookup(s, id) is Some ==> put(s, id, m).len() == s.len(),
        0 <= i < s.len() && s[i].0 == id ==> put(s, id, m) == s.update(i, (id, m)),
        0 <= i < s.len() && s[i].0 != id ==> put(s, id, m)[i] == s[i],
{
    lemma_slot(s, id, 0);
    if 0 <= i < s.len() && s[i].0 == id {
        assert forall|j: int| 0 <= j < i implies (#[trigger] s[j]).0 != id by {}
        lemma_slot_from(s, id, 0, i);
    }
}

/// What was taken out is gone, and only that.
pub proof fn law_entries_are_taken_out<I, M>(s: Seq<(I, M)>, id: I, i: int)
    requires
        distinct(s),
        0 <= i < s.len(),
    ensures
        lookup(without(s, id), id) is None,
        s[i].0 == id ==> without(s, id) == s.remove(i),
        s[i].0 != id ==> without(s, id).contains(s[i]),
        lookup(s, id) is None ==> without(s, id) == s,
{
    lemma_without_distinct(s, id);
    lemma_slot(without(s, id), id, 0);
    lemma_slot(s, id, 0);
    if s[i].0 == id {
        assert forall|j: int| 0 <= j < i implies (#[trigger] s[j]).0 != id by {}
        lemma_slot_from(s, id, 0, i);
    } else {
        let t = without(s, id);
        match slot(s, id) {
            Some(k) => {
                if i < k {
                    assert(t[i] == s[i]);
                } else {
                    assert(t[i - 1] == s[i]);
                }
            },
            None => {
                assert(t[i] == s[i]);
            },
        }
    }
}

/// Keys and values are those of the entries, in order.
pub proof fn law_keys_and_values<I, M>(s: Seq<(I, M)>, i: int)
    requires
        0 <= i < s.len(),
    ensures
        keys(s).len() == s.len(),
        keys(s)[i] == s[i].0,
        values(s).len() == s.len(),
        values(s)[i] == s[i].1,
{
}

/// The entries whose flag is set stay, in order, and the others go.
pub proof fn law_flagged_entries_stay<A>(s: Seq<A>, keep: Seq<bool>, x: A, k: bool)
    requires
        keep.len() == s.len(),
    ensures
        k ==> picked(s.push(x), keep.push(k)) == picked(s, keep).push(x),
        !k ==> picked(s.push(x), keep.push(k)) == picked(s, keep),
        picked(Seq::<A>::empty(), Seq::<bool>::empty()).len() == 0,
{
    assert(s.push(x).drop_last() =~= s);
    lemma_picked_prefix(s, keep, k);
}

proof fn lemma_picked_prefix<A>(s: Seq<A>, keep: Seq<bool>, k: bool)
    requires
        keep.len() >= s.len(),
    ensures
        picked(s, keep.push(k)) == picked(s, keep),
    decreases s.len(),
{
    if s.len() > 0 {
        lemma_picked_prefix(s.drop_last(), keep, k);
        assert(keep.push(k)[s.len() - 1] == keep[s.len() - 1]);
    }
}

/// A key that is put into a set is in it, once, and all that were stay.
pub proof fn law_sets_grow<I>(s: Seq<I>, id: I, other: I)
    requires
        s.no_duplicates(),
    ensures
        with(s, id).contains(id),
        with(s, id).no_duplicates(),
        other != id ==> with(s, id).contains(other) == s.contains(other),
        s.contains(id) ==> with(s, id) == s,
        !s.contains(id) ==> with(s, id) == s.push(id),
{
    let t = with(s, id);
    if !s.contains(id) {
        assert(t[s.len() as int] == id);
        assert forall|i: int, j: int| 0 <= i < j < t.len() implies t[i] != t[j] by {
            if j == s.len() {
                assert(s.contains(s[i]));
            }
        }
        if s.contains(other) {
            let i = choose|i: int| 0 <= i < s.len() && s[i] == other;
            assert(t[i] == other);
        }
        if t.contains(other) && other != id {
            let i = choose|i: int| 0 <= i < t.len() && t[i] == other;
            assert(s[i] == other);
        }
    }
}

} // verus!
