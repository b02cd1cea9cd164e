//! Tables and sets that keep what was entered in the order it came.

use vstd::prelude::*;

use crate::net::Ipv4Addr;

verus! {

/// A key by which entries are found.
pub trait Key: Sized {
    type Id;

    /// What makes two keys the same.
    spec fn id(&self) -> Self::Id;

    /// Whether two keys are the same.
    fn same(&self, other: &Self) -> (b: bool)
        ensures
            b == (self.id() == other.id()),
    ;
}

impl Key for String {
    type Id = Seq<char>;

    open spec fn id(&self) -> Seq<char> {
        self@
    }

    fn same(&self, other: &Self) -> (b: bool) {
        *self == *other
    }
}

impl Key for u16 {
    type Id = u16;

    open spec fn id(&self) -> u16 {
        *self
    }

    fn same(&self, other: &Self) -> (b: bool) {
        *self == *other
    }
}

impl Key for Ipv4Addr {
    type Id = Ipv4Addr;

    open spec fn id(&self) -> Ipv4Addr {
        *self
    }

    fn same(&self, other: &Self) -> (b: bool) {
        *self == *other
    }
}

impl Key for (u8, u8) {
    type Id = (u8, u8);

    open spec fn id(&self) -> (u8, u8) {
        *self
    }

    fn same(&self, other: &Self) -> (b: bool) {
        self.0 == other.0 && self.1 == other.1
    }
}

impl Key for (Ipv4Addr, Ipv4Addr) {
    type Id = (Ipv4Addr, Ipv4Addr);

    open spec fn id(&self) -> (Ipv4Addr, Ipv4Addr) {
        *self
    }

    fn same(&self, other: &Self) -> (b: bool) {
        self.0 == other.0 && self.1 == other.1
    }
}

impl Key for (String, String) {
    type Id = (Seq<char>, Seq<char>);

    open spec fn id(&self) -> (Seq<char>, Seq<char>) {
        (self.0@, self.1@)
    }

    fn same(&self, other: &Self) -> (b: bool) {
        self.0 == other.0 && self.1 == other.1
    }
}

impl Key for [u8; 8] {
    type Id = Seq<u8>;

    open spec fn id(&self) -> Seq<u8> {
        self@
    }

    fn same(&self, other: &Self) -> (b: bool) {
        let mut i: usize = 0;
        while i < 8
            invariant
                i <= 8,
                forall|j: int| 0 <= j < i ==> self@[j] == other@[j],
            decreases 8 - i,
        {
            if self[i] != other[i] {
                return false;
            }
            i += 1;
        }
        assert(self@ =~= other@);
        true
    }
}

// ── Association lists ────────────────────────────────────────────────────────

/// Where the first entry with the given key stands, from `from` on.
pub open spec fn slot_from<I, M>(s: Seq<(I, M)>, id: I, from: int) -> Option<int>
    decreases s.len() - from,
{
    if from < 0 || from >= s.len() {
        None
    } else if s[from].0 == id {
        Some(from)
    } else {
        slot_from(s, id, from + 1)
    }
}

/// Where the first entry with the given key stands.
pub open spec fn slot<I, M>(s: Seq<(I, M)>, id: I) -> Option<int> {
    slot_from(s, id, 0)
}

/// The value under a key.
pub open spec fn lookup<I, M>(s: Seq<(I, M)>, id: I) -> Option<M> {
    match slot(s, id) {
        Some(i) => Some(s[i].1),
        None => None,
    }
}

/// Whether a key has an entry.
pub open spec fn holds<I, M>(s: Seq<(I, M)>, id: I) -> bool {
    slot(s, id) is Some
}

/// The list with `m` under `id`: in place of what stood there, else at the end.
pub open spec fn put<I, M>(s: Seq<(I, M)>, id: I, m: M) -> Seq<(I, M)> {
    match slot(s, id) {
        Some(i) => s.update(i, (id, m)),
        None => s.push((id, m)),
    }
}

/// The list without the entry of a key.
pub open spec fn without<I, M>(s: Seq<(I, M)>, id: I) -> Seq<(I, M)> {
    match slot(s, id) {
        Some(i) => s.remove(i),
        None => s,
    }
}

/// The keys of a list.
pub open spec fn keys<I, M>(s: Seq<(I, M)>) -> Seq<I> {
    s.map_values(|e: (I, M)| e.0)
}

/// The values of a list.
pub open spec fn values<I, M>(s: Seq<(I, M)>) -> Seq<M> {
    s.map_values(|e: (I, M)| e.1)
}

/// No key twice.
pub open spec fn distinct<I, M>(s: Seq<(I, M)>) -> bool {
    forall|i: int, j: int| 0 <= i < j < s.len() ==> (#[trigger] s[i]).0 != (#[trigger] s[j]).0
}

/// The elements whose flag is set.
pub open spec fn picked<A>(s: Seq<A>, keep: Seq<bool>) -> Seq<A>
    decreases s.len(),
{
    if s.len() == 0 || keep.len() < s.len() {
        Seq::empty()
    } else if keep[s.len() - 1] {
        picked(s.drop_last(), keep).push(s.last())
    } else {
        picked(s.drop_last(), keep)
    }
}

pub proof fn lemma_slot_from<I, M>(s: Seq<(I, M)>, id: I, from: int, i: int)
    requires
        0 <= from <= i <= s.len(),
        forall|j: int| from <= j < i ==> (#[trigger] s[j]).0 != id,
    ensures
        slot_from(s, id, from) == slot_from(s, id, i),
    decreases i - from,
{
    if from < i {
        lemma_slot_from(s, id, from + 1, i);
    }
}

/// A slot is in the list, holds its key, and no earlier entry does.
pub proof fn lemma_slot<I, M>(s: Seq<(I, M)>, id: I, from: int)
    requires
        0 <= from <= s.len(),
    ensures
        match slot_from(s, id, from) {
            Some(i) => from <= i < s.len() && s[i].0 == id && forall|j: int|
                from <= j < i ==> (#[trigger] s[j]).0 != id,
            None => forall|j: int| from <= j < s.len() ==> (#[trigger] s[j]).0 != id,
        },
    decreases s.len() - from,
{
    if from < s.len() && s[from].0 != id {
        lemma_slot(s, id, from + 1);
    }
}

/// Entering a value keeps keys distinct.
pub proof fn lemma_put_distinct<I, M>(s: Seq<(I, M)>, id: I, m: M)
    requires
        distinct(s),
    ensures
        distinct(put(s, id, m)),
{
    lemma_slot(s, id, 0);
}

/// Removing an entry by its place keeps keys distinct.
pub proof fn lemma_remove_distinct<I, M>(s: Seq<(I, M)>, i: int)
    requires
        distinct(s),
        0 <= i < s.len(),
    ensures
        distinct(s.remove(i)),
        forall|j: int| 0 <= j < s.len() - 1 ==> (#[trigger] s.remove(i)[j]).0 != s[i].0,
{
    let t = s.remove(i);
    assert forall|j: int| 0 <= j < t.len() implies (#[trigger] t[j]).0 != s[i].0 by {
        if j < i {
            assert(t[j] == s[j]);
        } else {
            assert(t[j] == s[j + 1]);
        }
    }
    assert forall|j: int, k: int| 0 <= j < k < t.len() implies (#[trigger] t[j]).0 != (
    #[trigger] t[k]).0 by {
        let jj = if j < i {
            j
        } else {
            j + 1
        };
        let kk = if k < i {
            k
        } else {
            k + 1
        };
        assert(t[j] == s[jj] && t[k] == s[kk]);
    }
}

/// Removing an entry keeps keys distinct, and the key is gone.
pub proof fn lemma_without_distinct<I, M>(s: Seq<(I, M)>, id: I)
    requires
        distinct(s),
    ensures
        distinct(without(s, id)),
        !holds(without(s, id), id),
{
    lemma_slot(s, id, 0);
    match slot(s, id) {
        Some(i) => {
            lemma_remove_distinct(s, i);
        },
        None => {},
    }
    lemma_slot(without(s, id), id, 0);
}

/// What was entered is found again, and other keys read as before.
pub proof fn lemma_put_lookup<I, M>(s: Seq<(I, M)>, id: I, m: M, other: I)
    ensures
        lookup(put(s, id, m), id) == Some(m),
        other != id ==> lookup(put(s, id, m), other) == lookup(s, other),
{
    let t = put(s, id, m);
    lemma_slot(s, id, 0);
    lemma_slot(t, id, 0);
    if other != id {
        lemma_slot(s, other, 0);
        lemma_slot(t, other, 0);
        match slot(s, other) {
            Some(i) => {
                assert(t[i] == s[i]);
                assert forall|j: int| 0 <= j < i implies (#[trigger] t[j]).0 != other by {
                    assert(s[j].0 != other);
                }
                lemma_slot_from(t, other, 0, i);
            },
            None => {
                assert forall|j: int| 0 <= j < t.len() implies (#[trigger] t[j]).0 != other by {
                    if j < s.len() {
                        assert(s[j].0 != other);
                    }
                }
                lemma_slot_from(t, other, 0, t.len() as int);
            },
        }
    }
    match slot(s, id) {
        Some(i) => {
            assert forall|j: int| 0 <= j < i implies (#[trigger] t[j]).0 != id by {
                assert(s[j].0 != id);
            }
            lemma_slot_from(t, id, 0, i);
        },
        None => {
            assert forall|j: int| 0 <= j < s.len() implies (#[trigger] t[j]).0 != id by {
                assert(s[j].0 != id);
            }
            lemma_slot_from(t, id, 0, s.len() as int);
        },
    }
}

/// Flags that follow a predicate pick what the predicate filters.
pub proof fn lemma_picked_filter<A>(s: Seq<A>, keep: Seq<bool>, pred: spec_fn(A) -> bool)
    requires
        keep.len() >= s.len(),
        forall|i: int| 0 <= i < s.len() ==> #[trigger] keep[i] == pred(s[i]),
    ensures
        picked(s, keep) == s.filter(pred),
    decreases s.len(),
{
    reveal(Seq::filter);
    if s.len() > 0 {
        assert forall|i: int| 0 <= i < s.drop_last().len() implies #[trigger] keep[i] == pred(
            s.drop_last()[i],
        ) by {
            assert(s.drop_last()[i] == s[i]);
        }
        lemma_picked_filter(s.drop_last(), keep, pred);
        assert(keep[s.len() - 1] == pred(s.last()));
    } else {
        assert(s.filter(pred) =~= Seq::empty());
    }
}

/// A filtered list of distinct keys has distinct keys, each found as before.
pub proof fn lemma_filter_distinct<I, M>(s: Seq<(I, M)>, pred: spec_fn((I, M)) -> bool)
    requires
        distinct(s),
    ensures
        distinct(s.filter(pred)),
        forall|i: int|
            0 <= i < s.filter(pred).len() ==> s.contains(#[trigger] s.filter(pred)[i]) && pred(
                s.filter(pred)[i],
            ),
    decreases s.len(),
{
    reveal(Seq::filter);
    let t = s.filter(pred);
    if s.len() > 0 {
        let front = s.drop_last();
        assert forall|i: int, j: int| 0 <= i < j < front.len() implies (#[trigger] front[i]).0 != (
        #[trigger] front[j]).0 by {
            assert(front[i] == s[i] && front[j] == s[j]);
        }
        lemma_filter_distinct(front, pred);
        let u = front.filter(pred);
        assert forall|i: int| 0 <= i < u.len() implies s.contains(#[trigger] u[i]) && u[i].0
            != s.last().0 by {
            assert(front.contains(u[i]));
            let k = choose|k: int| 0 <= k < front.len() && front[k] == u[i];
            assert(s[k] == u[i]);
            assert(s[k].0 != s[s.len() - 1].0);
        }
        if pred(s.last()) {
            assert(t =~= u.push(s.last()));
            assert(s.contains(s.last())) by {
                assert(s[s.len() - 1] == s.last());
            }
            assert forall|i: int| 0 <= i < t.len() implies s.contains(#[trigger] t[i]) && pred(
                t[i],
            ) by {
                if i < u.len() {
                    assert(t[i] == u[i]);
                }
            }
            assert forall|i: int, j: int| 0 <= i < j < t.len() implies (#[trigger] t[i]).0 != (
            #[trigger] t[j]).0 by {
                assert(t[i] == u[i]);
                if j < u.len() {
                    assert(t[j] == u[j]);
                }
            }
        } else {
            assert(t =~= u);
        }
    }
}

// ── Tables ───────────────────────────────────────────────────────────────────

/// A table of values under keys, in the order the keys first came. No key is
/// there twice.
#[derive(Debug)]
pub struct Table<K: Key, V: View> {
    keys: Vec<K>,
    values: Vec<V>,
}

/// Keys beside values, as entries.
pub open spec fn entries_of<K: Key, V: View>(keys: Seq<K>, values: Seq<V>) -> Seq<(K::Id, V::V)> {
    Seq::new(keys.len(), |i: int| (keys[i].id(), values[i]@))
}

impl<K: Key, V: View> View for Table<K, V> {
    type V = Seq<(K::Id, V::V)>;

    closed spec fn view(&self) -> Seq<(K::Id, V::V)> {
        entries_of(self.keys@, self.values@)
    }
}

impl<K: Key, V: View> Table<K, V> {
    #[verifier::type_invariant]
    spec fn well_formed(self) -> bool {
        self.keys@.len() == self.values@.len() && distinct(self@)
    }

    /// The empty table.
    pub fn new() -> (t: Self)
        ensures
            t@ == Seq::<(K::Id, V::V)>::empty(),
    {
        let t: Self = Table { keys: Vec::new(), values: Vec::new() };
        assert(t@ =~= Seq::empty());
        t
    }

    /// How many entries there are. No key has two.
    pub fn len(&self) -> (n: usize)
        ensures
            n == self@.len(),
            distinct(self@),
    {
        proof {
            use_type_invariant(self);
        }
        self.keys.len()
    }

    /// Whether there is no entry.
    pub fn is_empty(&self) -> (r: bool)
        ensures
            r == (self@.len() == 0),
    {
        self.keys.len() == 0
    }

    /// Where a key stands.
    pub fn position(&self, k: &K) -> (r: Option<usize>)
        ensures
            match r {
                Some(i) => slot(self@, k.id()) == Some(i as int) && i < self@.len()
                    && self@[i as int].0 == k.id(),
                None => slot(self@, k.id()) is None,
            },
    {
        let mut i: usize = 0;
        while i < self.keys.len()
            invariant
                i <= self@.len(),
                self@.len() == self.keys@.len(),
                forall|j: int| 0 <= j < i ==> (#[trigger] self@[j]).0 != k.id(),
            decreases self@.len() - i,
        {
            if self.keys[i].same(k) {
                proof {
                    lemma_slot_from(self@, k.id(), 0, i as int);
                }
                return Some(i);
            }
            i += 1;
        }
        proof {
            lemma_slot_from(self@, k.id(), 0, i as int);
        }
        None
    }

    /// The value under a key.
    pub fn get(&self, k: &K) -> (r: Option<&V>)
        ensures
            match r {
                Some(v) => lookup(self@, k.id()) == Some(v@),
                None => lookup(self@, k.id()) is None,
            },
    {
        match self.position(k) {
            Some(i) => Some(self.value_at(i)),
            None => None,
        }
    }

    /// Whether a key has an entry.
    pub fn contains_key(&self, k: &K) -> (r: bool)
        ensures
            r == holds(self@, k.id()),
    {
        match self.position(k) {
            Some(_) => true,
            None => false,
        }
    }

    /// The key of an entry.
    pub fn key_at(&self, i: usize) -> (k: &K)
        requires
            i < self@.len(),
        ensures
            k.id() == self@[i as int].0,
    {
        &self.keys[i]
    }

    /// The value of an entry.
    pub fn value_at(&self, i: usize) -> (v: &V)
        requires
            i < self@.len(),
        ensures
            v@ == self@[i as int].1,
    {
        proof {
            use_type_invariant(self);
        }
        &self.values[i]
    }

    /// The value of an entry, to be changed.
    pub fn value_mut(&mut self, i: usize) -> (r: &mut V)
        requires
            i < old(self)@.len(),
        ensures
            r@ == old(self)@[i as int].1,
            final(self)@ == old(self)@.update(i as int, (old(self)@[i as int].0, final(r)@)),
    {
        proof {
            use_type_invariant(&*self);
            lemma_values_keep_distinct(self.keys@, self.values@);
        }
        let ghost keys = self.keys@;
        let ghost before = self.values@;
        let r: &mut V = &mut self.values[i];
        proof {
            let after = before.update(i as int, *final(r));
            assert(entries_of(keys, after) =~= entries_of(keys, before).update(
                i as int,
                (keys[i as int].id(), final(r)@),
            ));
        }
        r
    }

    /// Adds an entry for a key that has none, and tells where it stands.
    pub fn push_new(&mut self, k: K, v: V) -> (i: usize)
        requires
            !holds(old(self)@, k.id()),
        ensures
            final(self)@ == old(self)@.push((k.id(), v@)),
            i == old(self)@.len(),
    {
        proof {
            use_type_invariant(&*self);
            lemma_slot(self@, k.id(), 0);
        }
        let ghost before = self@;
        let mut t: Self = Table::new();
        std::mem::swap(&mut t, self);
        let Table { mut keys, mut values } = t;
        let i: usize = keys.len();
        keys.push(k);
        values.push(v);
        assert(entries_of(keys@, values@) =~= before.push((k.id(), v@)));
        *self = Table { keys, values };
        i
    }

    /// Puts a value under a key and tells whether the key is new.
    pub fn insert(&mut self, k: K, v: V) -> (new: bool)
        ensures
            final(self)@ == put(old(self)@, k.id(), v@),
            new == !holds(old(self)@, k.id()),
    {
        match self.position(&k) {
            Some(i) => {
                let r: &mut V = self.value_mut(i);
                *r = v;
                false
            },
            None => {
                self.push_new(k, v);
                true
            },
        }
    }

    /// Takes the entry of a key out and tells whether there was one.
    pub fn remove(&mut self, k: &K) -> (gone: bool)
        ensures
            final(self)@ == without(old(self)@, k.id()),
            gone == holds(old(self)@, k.id()),
    {
        match self.position(k) {
            Some(i) => {
                self.remove_at(i);
                true
            },
            None => false,
        }
    }

    /// Takes an entry out.
    pub fn remove_at(&mut self, i: usize)
        requires
            i < old(self)@.len(),
        ensures
            final(self)@ == old(self)@.remove(i as int),
    {
        proof {
            use_type_invariant(&*self);
            lemma_remove_distinct(self@, i as int);
        }
        let ghost before = self@;
        let mut t: Self = Table::new();
        std::mem::swap(&mut t, self);
        let Table { mut keys, mut values } = t;
        keys.remove(i);
        values.remove(i);
        assert(entries_of(keys@, values@) =~= before.remove(i as int));
        *self = Table { keys, values };
    }

    /// Takes every entry out.
    pub fn clear(&mut self)
        ensures
            final(self)@ == Seq::<(K::Id, V::V)>::empty(),
    {
        *self = Table::new();
    }

    /// Keeps the entries whose flag is set.
    pub fn retain(&mut self, keep: &Vec<bool>)
        requires
            keep@.len() == old(self)@.len(),
        ensures
            final(self)@ == picked(old(self)@, keep@),
    {
        let ghost all = self@;
        let mut i: usize = self.len();
        proof {
            assert(all.subrange(0, i as int) =~= all);
            assert(self@ =~= picked_from(all, keep@, i as int));
        }
        while i > 0
            invariant
                i <= all.len(),
                keep@.len() == all.len(),
                self@ == all.subrange(0, i as int) + behind(all, keep@, i as int),
            decreases i,
        {
            i -= 1;
            let ghost before = self@;
            proof {
                assert(before[i as int] == all[i as int]);
            }
            if !keep[i] {
                self.remove_at(i);
                assert(self@ =~= all.subrange(0, i as int) + behind(all, keep@, i as int));
            } else {
                assert(self@ =~= all.subrange(0, i as int) + behind(all, keep@, i as int));
            }
        }
        proof {
            lemma_behind(all, keep@, 0);
            assert(self@ =~= behind(all, keep@, 0));
        }
    }
}

/// Keys stay distinct whatever values stand beside them.
proof fn lemma_values_keep_distinct<K: Key, V: View>(keys: Seq<K>, values: Seq<V>)
    requires
        distinct(entries_of(keys, values)),
    ensures
        forall|other: Seq<V>| distinct(#[trigger] entries_of(keys, other)),
{
    assert forall|other: Seq<V>| distinct(#[trigger] entries_of(keys, other)) by {
        let s = entries_of(keys, values);
        let t = entries_of(keys, other);
        assert forall|i: int, j: int| 0 <= i < j < t.len() implies (#[trigger] t[i]).0 != (
        #[trigger] t[j]).0 by {
            assert(s[i].0 == t[i].0 && s[j].0 == t[j].0);
        }
    }
}

/// The picked elements from place `i` on.
spec fn behind<A>(s: Seq<A>, keep: Seq<bool>, i: int) -> Seq<A>
    decreases s.len() - i,
{
    if i < 0 || i >= s.len() {
        Seq::empty()
    } else if keep[i] {
        seq![s[i]] + behind(s, keep, i + 1)
    } else {
        behind(s, keep, i + 1)
    }
}

spec fn picked_from<A>(s: Seq<A>, keep: Seq<bool>, i: int) -> Seq<A> {
    s.subrange(0, i) + behind(s, keep, i)
}

proof fn lemma_behind<A>(s: Seq<A>, keep: Seq<bool>, i: int)
    requires
        0 <= i <= s.len(),
        keep.len() == s.len(),
    ensures
        picked(s.subrange(0, i), keep) + behind(s, keep, i) == picked(s, keep),
    decreases s.len() - i,
{
    if i == s.len() {
        assert(s.subrange(0, i) =~= s);
        assert(picked(s, keep) + behind(s, keep, i) =~= picked(s, keep));
    } else {
        lemma_behind(s, keep, i + 1);
        let next = s.subrange(0, i + 1);
        assert(next.drop_last() =~= s.subrange(0, i));
        assert(next.last() == s[i]);
        assert(picked(s.subrange(0, i), keep) + behind(s, keep, i) =~= picked(next, keep) + behind(
            s,
            keep,
            i + 1,
        ));
    }
    if i == 0 {
        assert(picked(s.subrange(0, 0), keep) =~= Seq::empty());
        assert(behind(s, keep, 0) =~= picked(s, keep));
    }
}

// ── Sets ─────────────────────────────────────────────────────────────────────

/// The set with `id` in it.
pub open spec fn with<I>(s: Seq<I>, id: I) -> Seq<I> {
    if s.contains(id) {
        s
    } else {
        s.push(id)
    }
}

/// A set of keys, in the order they first came. No key is there twice.
#[derive(Debug)]
pub struct KeySet<K: Key> {
    keys: Vec<K>,
}

/// What makes keys the same.
pub open spec fn ids<K: Key>(s: Seq<K>) -> Seq<K::Id> {
    s.map_values(|k: K| k.id())
}

impl<K: Key> View for KeySet<K> {
    type V = Seq<K::Id>;

    closed spec fn view(&self) -> Seq<K::Id> {
        ids(self.keys@)
    }
}

impl<K: Key> KeySet<K> {
    #[verifier::type_invariant]
    spec fn well_formed(self) -> bool {
        self@.no_duplicates()
    }

    /// The empty set.
    pub fn new() -> (t: Self)
        ensures
            t@ == Seq::<K::Id>::empty(),
    {
        let t: Self = KeySet { keys: Vec::new() };
        assert(t@ =~= Seq::empty());
        t
    }

    /// How many keys there are. None is there twice.
    pub fn len(&self) -> (n: usize)
        ensures
            n == self@.len(),
            self@.no_duplicates(),
    {
        proof {
            use_type_invariant(self);
        }
        self.keys.len()
    }

    /// Whether there is no key.
    pub fn is_empty(&self) -> (r: bool)
        ensures
            r == (self@.len() == 0),
    {
        self.keys.len() == 0
    }

    /// A key by its place.
    pub fn at(&self, i: usize) -> (k: &K)
        requires
            i < self@.len(),
        ensures
            k.id() == self@[i as int],
    {
        &self.keys[i]
    }

    /// Whether a key is in the set.
    pub fn contains(&self, k: &K) -> (r: bool)
        ensures
            r == self@.contains(k.id()),
    {
        let mut i: usize = 0;
        while i < self.keys.len()
            invariant
                i <= self@.len(),
                self@.len() == self.keys@.len(),
                forall|j: int| 0 <= j < i ==> #[trigger] self@[j] != k.id(),
            decreases self@.len() - i,
        {
            if self.keys[i].same(k) {
                assert(self@[i as int] == k.id());
                return true;
            }
            i += 1;
        }
        false
    }

    /// Puts a key in and tells whether it is new.
    pub fn insert(&mut self, k: K) -> (new: bool)
        ensures
            final(self)@ == with(old(self)@, k.id()),
            new == !old(self)@.contains(k.id()),
    {
        if self.contains(&k) {
            false
        } else {
            proof {
                use_type_invariant(&*self);
            }
            let ghost before = self@;
            let mut keys: Vec<K> = Vec::new();
            std::mem::swap(&mut keys, &mut self.keys);
            keys.push(k);
            assert(ids(keys@) =~= before.push(k.id()));
            self.keys = keys;
            true
        }
    }

    /// Takes a key out by its place.
    pub fn remove_at(&mut self, i: usize)
        requires
            i < old(self)@.len(),
        ensures
            final(self)@ == old(self)@.remove(i as int),
    {
        proof {
            use_type_invariant(&*self);
        }
        let ghost before = self@;
        let mut keys: Vec<K> = Vec::new();
        std::mem::swap(&mut keys, &mut self.keys);
        keys.remove(i);
        assert(ids(keys@) =~= before.remove(i as int));
        self.keys = keys;
    }

    /// Takes every key out.
    pub fn clear(&mut self)
        ensures
            final(self)@ == Seq::<K::Id>::empty(),
    {
        *self = KeySet::new();
    }
}

} // verus!
