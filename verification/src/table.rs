//! Keyed cells with lazy defaults: an association table whose model is a
//! sequence of `(key, value)` pairs in which no key occurs twice.

use vstd::prelude::*;

verus! {

/// A value that can key a table: two keys are the same cell exactly when
/// their views are equal.
pub trait Key: View + Sized {
    fn same(&self, other: &Self) -> (r: bool)
        ensures
            r == (self@ == other@),
    ;

    fn duplicate(&self) -> (r: Self)
        ensures
            r@ == self@,
    ;
}

/// An opaque principal, identified by the bytes of its canonical form.
#[derive(Debug)]
pub struct Account {
    pub id: Vec<u8>,
}

impl View for Account {
    type V = Seq<u8>;

    open spec fn view(&self) -> Seq<u8> {
        self.id@
    }
}

impl Account {
    pub fn new(id: Vec<u8>) -> (r: Account)
        ensures
            r@ == id@,
    {
        Account { id }
    }

    /// The bytes that identify this principal.
    pub fn id(&self) -> (r: &Vec<u8>)
        ensures
            r@ == self@,
    {
        &self.id
    }
}

impl Key for Account {
    fn same(&self, other: &Self) -> (r: bool) {
        if self.id.len() != other.id.len() {
            return false;
        }
        let mut i: usize = 0;
        while i < self.id.len()
            invariant
                i <= self.id.len(),
                self.id.len() == other.id.len(),
                forall|j: int| 0 <= j < i ==> self.id@[j] == other.id@[j],
            decreases self.id.len() - i,
        {
            if self.id[i] != other.id[i] {
                return false;
            }
            i += 1;
        }
        proof {
            assert(self.id@ =~= other.id@);
        }
        true
    }

    fn duplicate(&self) -> (r: Self) {
        let mut id: Vec<u8> = Vec::new();
        let mut i: usize = 0;
        while i < self.id.len()
            invariant
                i <= self.id.len(),
                id@ == self.id@.take(i as int),
            decreases self.id.len() - i,
        {
            id.push(self.id[i]);
            proof {
                assert(id@ =~= self.id@.take(i + 1));
            }
            i += 1;
        }
        proof {
            assert(self.id@.take(self.id@.len() as int) =~= self.id@);
        }
        Account { id }
    }
}

/// The key of a cell owned by one principal and granted to another.
#[derive(Debug)]
pub struct Pair {
    pub owner: Account,
    pub spender: Account,
}

impl View for Pair {
    type V = (Seq<u8>, Seq<u8>);

    open spec fn view(&self) -> (Seq<u8>, Seq<u8>) {
        (self.owner@, self.spender@)
    }
}

impl Key for Pair {
    fn same(&self, other: &Self) -> (r: bool) {
        self.owner.same(&other.owner) && self.spender.same(&other.spender)
    }

    fn duplicate(&self) -> (r: Self) {
        Pair { owner: self.owner.duplicate(), spender: self.spender.duplicate() }
    }
}

/// The key of a numbered record of one principal.
#[derive(Debug)]
pub struct Slot {
    pub owner: Account,
    pub id: u64,
}

impl View for Slot {
    type V = (Seq<u8>, u64);

    open spec fn view(&self) -> (Seq<u8>, u64) {
        (self.owner@, self.id)
    }
}

impl Key for Slot {
    fn same(&self, other: &Self) -> (r: bool) {
        self.id == other.id && self.owner.same(&other.owner)
    }

    fn duplicate(&self) -> (r: Self) {
        Slot { owner: self.owner.duplicate(), id: self.id }
    }
}

/// No key occurs at two places of `s`.
pub open spec fn distinct_keys<A, B>(s: Seq<(A, B)>) -> bool {
    forall|i: int, j: int| 0 <= i < j < s.len() ==> (#[trigger] s[i]).0 != (#[trigger] s[j]).0
}

/// Some pair of `s` has the key `k`.
pub open spec fn has_key<A, B>(s: Seq<(A, B)>, k: A) -> bool {
    exists|i: int| 0 <= i < s.len() && (#[trigger] s[i]).0 == k
}

/// A place of `s` that holds the key `k`, where there is one.
pub open spec fn place_of<A, B>(s: Seq<(A, B)>, k: A) -> int {
    choose|i: int| 0 <= i < s.len() && (#[trigger] s[i]).0 == k
}

/// The value stored under `k`, if any.
pub open spec fn lookup<A, B>(s: Seq<(A, B)>, k: A) -> Option<B> {
    if has_key(s, k) {
        Some(s[place_of(s, k)].1)
    } else {
        None
    }
}

/// `s` with the value under `k` overwritten, or with `(k, v)` appended
/// where `k` had no cell yet.
pub open spec fn put<A, B>(s: Seq<(A, B)>, k: A, v: B) -> Seq<(A, B)> {
    if has_key(s, k) {
        s.update(place_of(s, k), (k, v))
    } else {
        s.push((k, v))
    }
}

/// The cells of `s` as a map from each key to the view of its value.
pub open spec fn views<A, B: View>(s: Seq<(A, B)>) -> Map<A, B::V> {
    Map::new(|k: A| has_key(s, k), |k: A| s[place_of(s, k)].1@)
}

/// The number under `k` in a map of amounts, zero where `k` has no entry.
pub open spec fn read<A>(m: Map<A, nat>, k: A) -> nat {
    if m.contains_key(k) {
        m[k]
    } else {
        0
    }
}

/// The number stored under `k`, zero where `k` has no cell.
pub open spec fn amount_of<A, B: View<V = nat>>(s: Seq<(A, B)>, k: A) -> nat {
    read(views(s), k)
}

/// The sum of all values of `s`.
pub open spec fn total<A, B: View<V = nat>>(s: Seq<(A, B)>) -> nat
    decreases s.len(),
{
    if s.len() == 0 {
        0
    } else {
        total(s.drop_last()) + s.last().1@
    }
}

/// In a sequence without repeated keys, a key found at `i` is looked up at `i`.
pub proof fn lemma_place<A, B>(s: Seq<(A, B)>, i: int)
    requires
        distinct_keys(s),
        0 <= i < s.len(),
    ensures
        has_key(s, s[i].0),
        place_of(s, s[i].0) == i,
        lookup(s, s[i].0) == Some(s[i].1),
{
    let k = s[i].0;
    let p = place_of(s, k);
    assert(0 <= p < s.len() && s[p].0 == k);
    if p < i {
        assert(s[p].0 != s[i].0);
    } else if i < p {
        assert(s[i].0 != s[p].0);
    }
}

/// `put` keeps keys distinct, sets the value under `k` and leaves every
/// other key as it was.
pub proof fn lemma_put<A, B>(s: Seq<(A, B)>, k: A, v: B)
    requires
        distinct_keys(s),
    ensures
        distinct_keys(put(s, k, v)),
        forall|k2: A| #[trigger]
            lookup(put(s, k, v), k2) == if k2 == k {
                Some(v)
            } else {
                lookup(s, k2)
            },
{
    let t = put(s, k, v);
    if has_key(s, k) {
        assert forall|i: int| 0 <= i < t.len() implies (#[trigger] t[i]).0 == s[i].0 by {}
        assert forall|i: int, j: int| 0 <= i < j < t.len() implies (#[trigger] t[i]).0 != (
        #[trigger] t[j]).0 by {
            assert(s[i].0 != s[j].0);
        }
        assert forall|k2: A| #[trigger]
            lookup(t, k2) == if k2 == k {
                Some(v)
            } else {
                lookup(s, k2)
            } by {
            if has_key(s, k2) {
                let q = place_of(s, k2);
                assert(t[q].0 == k2);
                lemma_place(t, q);
                lemma_place(s, q);
            } else {
                if has_key(t, k2) {
                    let q = place_of(t, k2);
                    assert(s[q].0 == k2);
                }
            }
        }
    } else {
        let n = s.len() as int;
        assert forall|i: int| 0 <= i < n implies (#[trigger] t[i]) == s[i] by {}
        assert forall|i: int, j: int| 0 <= i < j < t.len() implies (#[trigger] t[i]).0 != (
        #[trigger] t[j]).0 by {
            if j < n {
                assert(s[i].0 != s[j].0);
            } else {
                assert(s[i].0 != k);
            }
        }
        assert forall|k2: A| #[trigger]
            lookup(t, k2) == if k2 == k {
                Some(v)
            } else {
                lookup(s, k2)
            } by {
            if k2 == k {
                lemma_place(t, n);
            } else if has_key(s, k2) {
                let q = place_of(s, k2);
                assert(t[q].0 == k2);
                lemma_place(t, q);
                lemma_place(s, q);
            } else {
                if has_key(t, k2) {
                    let q = place_of(t, k2);
                    assert(s[q].0 == k2);
                }
            }
        }
    }
}

/// `put` changes the map of views as a map insertion does.
pub proof fn lemma_put_views<A, B: View>(s: Seq<(A, B)>, k: A, v: B)
    requires
        distinct_keys(s),
    ensures
        views(put(s, k, v)) == views(s).insert(k, v@),
{
    lemma_put(s, k, v);
    let t = put(s, k, v);
    assert forall|k2: A| has_key(t, k2) == (k2 == k || has_key(s, k2)) by {
        assert(lookup(t, k2) == if k2 == k {
            Some(v)
        } else {
            lookup(s, k2)
        });
    }
    assert forall|k2: A| has_key(t, k2) implies #[trigger] views(t)[k2] == views(s).insert(
        k,
        v@,
    )[k2] by {
        assert(lookup(t, k2) == if k2 == k {
            Some(v)
        } else {
            lookup(s, k2)
        });
    }
    assert(views(t) =~= views(s).insert(k, v@));
}

/// Overwriting one value moves the sum by the difference of the two values.
pub proof fn lemma_total_update<A, B: View<V = nat>>(s: Seq<(A, B)>, i: int, e: (A, B))
    requires
        0 <= i < s.len(),
    ensures
        total(s.update(i, e)) + s[i].1@ == total(s) + e.1@,
    decreases s.len(),
{
    let t = s.update(i, e);
    if i == s.len() - 1 {
        assert(t.drop_last() =~= s.drop_last());
    } else {
        assert(t.drop_last() =~= s.drop_last().update(i, e));
        lemma_total_update(s.drop_last(), i, e);
    }
}

/// No value exceeds the sum of all values.
pub proof fn lemma_total_covers<A, B: View<V = nat>>(s: Seq<(A, B)>, i: int)
    requires
        0 <= i < s.len(),
    ensures
        s[i].1@ <= total(s),
    decreases s.len(),
{
    if i < s.len() - 1 {
        lemma_total_covers(s.drop_last(), i);
    }
}

/// Two distinct cells together do not exceed the sum of all values.
pub proof fn lemma_total_covers_two<A, B: View<V = nat>>(s: Seq<(A, B)>, i: int, j: int)
    requires
        0 <= i < j < s.len(),
    ensures
        s[i].1@ + s[j].1@ <= total(s),
    decreases s.len(),
{
    if j < s.len() - 1 {
        lemma_total_covers_two(s.drop_last(), i, j);
    } else {
        lemma_total_covers(s.drop_last(), i);
    }
}

/// `put` moves the sum by the new value less the value it replaces.
pub proof fn lemma_put_total<A, B: View<V = nat>>(s: Seq<(A, B)>, k: A, v: B)
    ensures
        total(put(s, k, v)) + amount_of(s, k) == total(s) + v@,
        amount_of(s, k) <= total(s),
{
    if has_key(s, k) {
        let p = place_of(s, k);
        lemma_total_update(s, p, (k, v));
        lemma_total_covers(s, p);
    } else {
        assert(s.push((k, v)).drop_last() =~= s);
    }
}

/// The amounts under two different keys together do not exceed the sum.
pub proof fn lemma_total_covers_keys<A, B: View<V = nat>>(s: Seq<(A, B)>, k1: A, k2: A)
    requires
        k1 != k2,
    ensures
        amount_of(s, k1) + amount_of(s, k2) <= total(s),
{
    if has_key(s, k1) && has_key(s, k2) {
        let p = place_of(s, k1);
        let q = place_of(s, k2);
        if p < q {
            lemma_total_covers_two(s, p, q);
        } else {
            lemma_total_covers_two(s, q, p);
        }
    } else if has_key(s, k1) {
        lemma_total_covers(s, place_of(s, k1));
    } else if has_key(s, k2) {
        lemma_total_covers(s, place_of(s, k2));
    }
}

/// What storing `v` under `k` does to the map of views and to the sum.
pub proof fn lemma_store<A, B: View<V = nat>>(s: Seq<(A, B)>, k: A, v: B)
    requires
        distinct_keys(s),
    ensures
        views(put(s, k, v)) == views(s).insert(k, v@),
        total(put(s, k, v)) + read(views(s), k) == total(s) + v@,
        read(views(s), k) <= total(s),
{
    lemma_put_views(s, k, v);
    lemma_put_total(s, k, v);
}

/// One stored cell.
pub struct Entry<K, V> {
    pub key: K,
    pub value: V,
}

/// A table of cells; a key without a cell reads as absent.
pub struct Table<K: Key, V: Copy> {
    entries: Vec<Entry<K, V>>,
}

impl<K: Key, V: Copy> Table<K, V> {
    /// The cells in the order in which their keys were first written.
    pub closed spec fn cells(&self) -> Seq<(K::V, V)> {
        Seq::new(self.entries@.len(), |i: int| (self.entries@[i].key@, self.entries@[i].value))
    }

    /// No key has two cells.
    pub open spec fn wf(&self) -> bool {
        distinct_keys(self.cells())
    }

    pub fn new() -> (r: Self)
        ensures
            r.wf(),
            r.cells() == Seq::<(K::V, V)>::empty(),
    {
        let r = Table { entries: Vec::new() };
        proof {
            assert(r.cells() =~= Seq::<(K::V, V)>::empty());
        }
        r
    }

    fn find(&self, key: &K) -> (r: Option<usize>)
        ensures
            match r {
                Some(i) => i < self.cells().len() && self.cells()[i as int].0 == key@
                    && self.cells()[i as int].1 == self.entries@[i as int].value,
                None => !has_key(self.cells(), key@),
            },
    {
        let mut i: usize = 0;
        while i < self.entries.len()
            invariant
                i <= self.entries.len(),
                self.cells().len() == self.entries.len(),
                forall|j: int| 0 <= j < i ==> (#[trigger] self.cells()[j]).0 != key@,
            decreases self.entries.len() - i,
        {
            if self.entries[i].key.same(key) {
                return Some(i);
            }
            i += 1;
        }
        None
    }

    /// The value stored under `key`, if any.
    pub fn get(&self, key: &K) -> (r: Option<V>)
        requires
            self.wf(),
        ensures
            r == lookup(self.cells(), key@),
    {
        match self.find(key) {
            Some(i) => {
                proof {
                    lemma_place(self.cells(), i as int);
                }
                Some(self.entries[i].value)
            },
            None => None,
        }
    }

    /// Stores `value` under `key`, replacing what was there.
    pub fn set(&mut self, key: &K, value: V)
        requires
            old(self).wf(),
        ensures
            final(self).wf(),
            final(self).cells() == put(old(self).cells(), key@, value),
    {
        let found = self.find(key);
        let entry = Entry { key: key.duplicate(), value };
        match found {
            Some(i) => {
                proof {
                    lemma_place(self.cells(), i as int);
                }
                self.entries.set(i, entry);
            },
            None => {
                self.entries.push(entry);
            },
        }
        proof {
            lemma_put(old(self).cells(), key@, value);
            assert(self.cells() =~= put(old(self).cells(), key@, value));
        }
    }
}

} // verus!
