//! A map keyed by peer names that remembers the order of insertion.

use vstd::prelude::*;

use crate::types::PeerId;

verus! {

/// The value of a [`PeerMap`]: the keys in the order of insertion, and what
/// each of them is mapped to.
#[verifier::ext_equal]
pub struct PeerTable<V> {
    pub keys: Seq<Seq<char>>,
    pub vals: Map<Seq<char>, V>,
}

impl<V> PeerTable<V> {
    /// No key occurs twice, and exactly the keys are mapped.
    pub open spec fn wf(self) -> bool {
        &&& self.keys.no_duplicates()
        &&& forall|k: Seq<char>| #[trigger] self.vals.contains_key(k) <==> self.keys.contains(k)
    }

    /// The table without entries.
    pub open spec fn empty() -> Self {
        PeerTable { keys: Seq::empty(), vals: Map::empty() }
    }

    /// Is there an entry for `k`?
    pub open spec fn contains(self, k: Seq<char>) -> bool {
        self.vals.contains_key(k)
    }

    /// What `k` is mapped to.
    pub open spec fn get(self, k: Seq<char>) -> Option<V> {
        if self.contains(k) {
            Some(self.vals[k])
        } else {
            None
        }
    }

    /// The table with `k` mapped to `v`: in its place if there is an entry
    /// for `k`, else behind the others.
    pub open spec fn put(self, k: Seq<char>, v: V) -> Self {
        PeerTable {
            keys: if self.contains(k) {
                self.keys
            } else {
                self.keys.push(k)
            },
            vals: self.vals.insert(k, v),
        }
    }

    /// The table without an entry for `k`.
    pub open spec fn without(self, k: Seq<char>) -> Self {
        if self.contains(k) {
            PeerTable {
                keys: self.keys.remove(self.keys.index_of(k)),
                vals: self.vals.remove(k),
            }
        } else {
            self
        }
    }

    /// How many entries there are.
    pub open spec fn len(self) -> nat {
        self.keys.len()
    }
}

/// Adding an entry keeps a table well-formed.
pub proof fn lemma_put_wf<V>(t: PeerTable<V>, k: Seq<char>, v: V)
    requires
        t.wf(),
    ensures
        t.put(k, v).wf(),
{
    let u = t.put(k, v);
    if !t.contains(k) {
        assert(u.keys[t.keys.len() as int] == k);
        assert forall|x: Seq<char>| #[trigger] u.vals.contains_key(x) <==> u.keys.contains(x) by {
            if t.keys.contains(x) {
                let i = t.keys.index_of(x);
                assert(u.keys[i] == x);
            }
        }
    }
}

/// Removing an entry keeps a table well-formed.
pub proof fn lemma_without_wf<V>(t: PeerTable<V>, k: Seq<char>)
    requires
        t.wf(),
    ensures
        t.without(k).wf(),
{
    let u = t.without(k);
    if t.contains(k) {
        let n = t.keys.index_of(k);
        assert forall|x: Seq<char>| #[trigger] u.vals.contains_key(x) <==> u.keys.contains(x) by {
            if t.keys.contains(x) && x != k {
                let i = t.keys.index_of(x);
                if i < n {
                    assert(u.keys[i] == x);
                } else {
                    assert(u.keys[i - 1] == x);
                }
            }
            if u.keys.contains(x) {
                let i = u.keys.index_of(x);
                if i < n {
                    assert(t.keys[i] == x);
                } else {
                    assert(t.keys[i + 1] == x);
                }
            }
        }
    }
}

/// Adding an entry for a name that has none and then removing it changes
/// nothing.
pub proof fn law_without_undoes_put<V>(t: PeerTable<V>, k: Seq<char>, v: V)
    requires
        t.wf(),
        !t.contains(k),
    ensures
        t.put(k, v).without(k) == t,
{
    lemma_put_wf(t, k, v);
    let u = t.put(k, v);
    assert(u.keys[t.keys.len() as int] == k);
    assert(u.keys.index_of(k) == t.keys.len());
    assert(u.without(k).keys =~= t.keys);
    assert(u.without(k).vals =~= t.vals);
}

/// The number of entries is the number of names that are mapped.
pub proof fn lemma_len<V>(t: PeerTable<V>)
    requires
        t.wf(),
    ensures
        t.vals.dom().finite(),
        t.vals.dom().len() == t.len(),
{
    t.keys.unique_seq_to_set();
    assert(t.vals.dom() =~= t.keys.to_set());
    vstd::seq_lib::seq_to_set_is_finite(t.keys);
}

/// Filtering one element more of a sequence.
pub proof fn lemma_filter_step<A>(s: Seq<A>, i: int, p: spec_fn(A) -> bool)
    requires
        0 <= i < s.len(),
    ensures
        s.take(i + 1).filter(p) == (if p(s[i]) {
            s.take(i).filter(p).push(s[i])
        } else {
            s.take(i).filter(p)
        }),
{
    reveal(Seq::filter);
    assert(s.take(i + 1).drop_last() =~= s.take(i));
}

/// Filtering the empty prefix and the whole of a sequence.
pub proof fn lemma_filter_ends<A>(s: Seq<A>, p: spec_fn(A) -> bool)
    ensures
        s.take(0).filter(p) == Seq::<A>::empty(),
        s.take(s.len() as int).filter(p) == s.filter(p),
{
    reveal(Seq::filter);
    assert(s.take(0).filter(p) =~= Seq::<A>::empty());
    assert(s.take(s.len() as int) =~= s);
}

struct PeerEntry<V> {
    key: PeerId,
    value: V,
}

/// A map from peer names to values of type `V`.
pub struct PeerMap<V> {
    entries: Vec<PeerEntry<V>>,
}

impl<V> View for PeerMap<V> {
    type V = PeerTable<V>;

    closed spec fn view(&self) -> PeerTable<V> {
        PeerTable {
            keys: Seq::new(self.entries@.len(), |i: int| self.entries@[i].key@),
            vals: Map::new(
                |k: Seq<char>|
                    exists|i: int|
                        0 <= i < self.entries@.len() && #[trigger] self.entries@[i].key@ == k,
                |k: Seq<char>| self.entries@[self.first_index(k)].value,
            ),
        }
    }
}

impl<V> PeerMap<V> {
    spec fn first_index(&self, k: Seq<char>) -> int {
        choose|i: int| 0 <= i < self.entries@.len() && #[trigger] self.entries@[i].key@ == k
    }

    /// No name occurs twice.
    pub closed spec fn wf(&self) -> bool {
        forall|i: int, j: int|
            0 <= i < self.entries@.len() && 0 <= j < self.entries@.len() && i != j
                ==> #[trigger] self.entries@[i].key@ != #[trigger] self.entries@[j].key@
    }

    proof fn lemma_entry(&self, i: int)
        requires
            self.wf(),
            0 <= i < self.entries@.len(),
        ensures
            self@.keys[i] == self.entries@[i].key@,
            self@.contains(self.entries@[i].key@),
            self@.vals[self.entries@[i].key@] == self.entries@[i].value,
    {
        let k = self.entries@[i].key@;
        assert(self.first_index(k) == i);
    }

    /// The view of a well-formed map is a well-formed table.
    pub proof fn lemma_view_wf(&self)
        requires
            self.wf(),
        ensures
            self@.wf(),
    {
        let t = self@;
        assert forall|k: Seq<char>| #[trigger] t.vals.contains_key(k) <==> t.keys.contains(k) by {
            if t.vals.contains_key(k) {
                let i = self.first_index(k);
                assert(t.keys[i] == k);
            }
            if t.keys.contains(k) {
                let i = t.keys.index_of(k);
                assert(self.entries@[i].key@ == k);
            }
        }
    }

    /// A map without entries.
    pub fn new() -> (r: Self)
        ensures
            r.wf(),
            r@ == PeerTable::<V>::empty(),
    {
        let r = PeerMap { entries: Vec::new() };
        assert(r@ =~= PeerTable::<V>::empty());
        r
    }

    /// How many entries there are.
    pub fn len(&self) -> (r: usize)
        requires
            self.wf(),
        ensures
            r == self@.len(),
    {
        self.entries.len()
    }

    fn position(&self, key: &PeerId) -> (r: Option<usize>)
        requires
            self.wf(),
        ensures
            match r {
                Some(i) => i < self.entries@.len() && self.entries@[i as int].key@ == key@
                    && self@.contains(key@),
                None => !self@.contains(key@),
            },
    {
        let mut i: usize = 0;
        while i < self.entries.len()
            invariant
                i <= self.entries@.len(),
                self.wf(),
                forall|j: int| 0 <= j < i ==> #[trigger] self.entries@[j].key@ != key@,
            decreases self.entries@.len() - i,
        {
            if self.entries[i].key == *key {
                return Some(i);
            }
            i = i + 1;
        }
        None
    }

    /// Is there an entry for `key`?
    pub fn contains(&self, key: &PeerId) -> (r: bool)
        requires
            self.wf(),
        ensures
            r == self@.contains(key@),
    {
        self.position(key).is_some()
    }

    /// What `key` is mapped to.
    pub fn get(&self, key: &PeerId) -> (r: Option<&V>)
        requires
            self.wf(),
        ensures
            match r {
                Some(v) => self@.contains(key@) && *v == self@.vals[key@],
                None => !self@.contains(key@),
            },
    {
        match self.position(key) {
            Some(i) => {
                proof {
                    self.lemma_entry(i as int);
                }
                Some(&self.entries[i].value)
            },
            None => None,
        }
    }

    /// The name at position `i` in the order of insertion.
    pub fn key_at(&self, i: usize) -> (r: &PeerId)
        requires
            self.wf(),
            i < self@.len(),
        ensures
            r@ == self@.keys[i as int],
            self@.contains(r@),
    {
        proof {
            self.lemma_entry(i as int);
        }
        &self.entries[i].key
    }

    /// The value at position `i` in the order of insertion.
    pub fn value_at(&self, i: usize) -> (r: &V)
        requires
            self.wf(),
            i < self@.len(),
        ensures
            *r == self@.vals[self@.keys[i as int]],
            self@.contains(self@.keys[i as int]),
    {
        proof {
            self.lemma_entry(i as int);
        }
        &self.entries[i].value
    }

    /// Map `key` to `value`.
    pub fn insert(&mut self, key: PeerId, value: V)
        requires
            old(self).wf(),
        ensures
            final(self).wf(),
            final(self)@ == old(self)@.put(key@, value),
    {
        let ghost before = *self;
        match self.position(&key) {
            Some(i) => {
                self.entries.set(i, PeerEntry { key, value });
                proof {
                    self.lemma_replaced(before, i as int, key@, value);
                }
            },
            None => {
                self.entries.push(PeerEntry { key, value });
                proof {
                    self.lemma_pushed(before, key@, value);
                }
            },
        }
    }

    proof fn lemma_replaced(&self, before: Self, i: int, k: Seq<char>, v: V)
        requires
            before.wf(),
            0 <= i < before.entries@.len(),
            before.entries@[i].key@ == k,
            self.entries@.len() == before.entries@.len(),
            self.entries@[i].key@ == k,
            self.entries@[i].value == v,
            forall|j: int|
                0 <= j < before.entries@.len() && j != i ==> #[trigger] self.entries@[j]
                    == before.entries@[j],
        ensures
            self.wf(),
            self@ == before@.put(k, v),
    {
        assert forall|a: int, b: int|
            0 <= a < self.entries@.len() && 0 <= b < self.entries@.len() && a != b implies
            #[trigger] self.entries@[a].key@ != #[trigger] self.entries@[b].key@ by {
            assert(before.entries@[a].key@ != before.entries@[b].key@);
        }
        before.lemma_entry(i);
        assert(self@.keys =~= before@.keys);
        assert forall|x: Seq<char>| self@.vals.contains_key(x) <==> #[trigger] before@.put(
            k,
            v,
        ).vals.contains_key(x) by {
            if self@.vals.contains_key(x) {
                let a = self.first_index(x);
                assert(before.entries@[a].key@ == x);
            }
            if before@.vals.contains_key(x) {
                let a = before.first_index(x);
                assert(self.entries@[a].key@ == x);
            }
        }
        assert forall|x: Seq<char>| #[trigger] self@.vals.contains_key(x) implies self@.vals[x]
            == before@.put(k, v).vals[x] by {
            let a = self.first_index(x);
            self.lemma_entry(a);
            if a != i {
                before.lemma_entry(a);
            }
        }
        assert(self@.vals =~= before@.put(k, v).vals);
    }

    proof fn lemma_pushed(&self, before: Self, k: Seq<char>, v: V)
        requires
            before.wf(),
            !before@.contains(k),
            self.entries@.len() == before.entries@.len() + 1,
            self.entries@.last().key@ == k,
            self.entries@.last().value == v,
            forall|j: int|
                0 <= j < before.entries@.len() ==> #[trigger] self.entries@[j]
                    == before.entries@[j],
        ensures
            self.wf(),
            self@ == before@.put(k, v),
    {
        let n = before.entries@.len() as int;
        assert forall|j: int| 0 <= j < n implies #[trigger] before.entries@[j].key@ != k by {
            before.lemma_entry(j);
        }
        assert forall|a: int, b: int|
            0 <= a < self.entries@.len() && 0 <= b < self.entries@.len() && a != b implies
            #[trigger] self.entries@[a].key@ != #[trigger] self.entries@[b].key@ by {
            if a < n {
                assert(self.entries@[a] == before.entries@[a]);
            }
            if b < n {
                assert(self.entries@[b] == before.entries@[b]);
            }
        }
        assert(self@.keys =~= before@.keys.push(k));
        assert forall|x: Seq<char>| self@.vals.contains_key(x) <==> #[trigger] before@.put(
            k,
            v,
        ).vals.contains_key(x) by {
            if self@.vals.contains_key(x) {
                let a = self.first_index(x);
                if a < n {
                    assert(before.entries@[a].key@ == x);
                }
            }
            if before@.vals.contains_key(x) {
                let a = before.first_index(x);
                assert(self.entries@[a].key@ == x);
            }
            if x == k {
                assert(self.entries@[n].key@ == x);
            }
        }
        assert forall|x: Seq<char>| #[trigger] self@.vals.contains_key(x) implies self@.vals[x]
            == before@.put(k, v).vals[x] by {
            let a = self.first_index(x);
            self.lemma_entry(a);
            if a < n {
                before.lemma_entry(a);
            }
        }
        assert(self@.vals =~= before@.put(k, v).vals);
    }

    proof fn lemma_removed(&self, before: Self, i: int)
        requires
            before.wf(),
            0 <= i < before.entries@.len(),
            self.entries@ == before.entries@.remove(i),
        ensures
            self.wf(),
            self@ == before@.without(before.entries@[i].key@),
    {
        let k = before.entries@[i].key@;
        let n = self.entries@.len() as int;
        assert forall|j: int| 0 <= j < n implies #[trigger] self.entries@[j] == before.entries@[if j
            < i {
            j
        } else {
            j + 1
        }] by {}
        assert forall|a: int, b: int|
            0 <= a < n && 0 <= b < n && a != b implies #[trigger] self.entries@[a].key@
            != #[trigger] self.entries@[b].key@ by {
            let a1 = if a < i {
                a
            } else {
                a + 1
            };
            let b1 = if b < i {
                b
            } else {
                b + 1
            };
            assert(before.entries@[a1].key@ != before.entries@[b1].key@);
        }
        before.lemma_entry(i);
        before.lemma_view_wf();
        assert(before@.keys.index_of(k) == i) by {
            assert(before@.keys[i] == k);
        }
        assert(self@.keys =~= before@.keys.remove(i));
        assert forall|x: Seq<char>| self@.vals.contains_key(x) <==> #[trigger] before@.without(
            k,
        ).vals.contains_key(x) by {
            if self@.vals.contains_key(x) {
                let a = self.first_index(x);
                let a1 = if a < i {
                    a
                } else {
                    a + 1
                };
                assert(before.entries@[a1].key@ == x);
                assert(before.entries@[i].key@ != before.entries@[a1].key@);
            }
            if before@.vals.contains_key(x) && x != k {
                let a = before.first_index(x);
                let a1 = if a < i {
                    a
                } else {
                    a - 1
                };
                assert(self.entries@[a1].key@ == x);
            }
        }
        assert forall|x: Seq<char>| #[trigger] self@.vals.contains_key(x) implies self@.vals[x]
            == before@.without(k).vals[x] by {
            let a = self.first_index(x);
            self.lemma_entry(a);
            let a1 = if a < i {
                a
            } else {
                a + 1
            };
            before.lemma_entry(a1);
        }
        assert(self@.vals =~= before@.without(k).vals);
    }

    /// Borrow what `key` is mapped to, to change it.
    pub fn get_mut(&mut self, key: &PeerId) -> (r: Option<&mut V>)
        requires
            old(self).wf(),
        ensures
            final(self).wf(),
            match r {
                Some(v) => {
                    &&& old(self)@.contains(key@)
                    &&& *v == old(self)@.vals[key@]
                    &&& final(self)@ == old(self)@.put(key@, *final(v))
                },
                None => !old(self)@.contains(key@) && final(self)@ == old(self)@,
            },
    {
        match self.position(key) {
            Some(i) => {
                let ghost before = *self;
                let ghost after = *final(self);
                proof {
                    self.lemma_entry(i as int);
                }
                let v = &mut self.entries[i].value;
                proof {
                    after.lemma_replaced(before, i as int, key@, *final(v));
                }
                Some(v)
            },
            None => None,
        }
    }

    /// Remove the entry for `key` and hand out its value.
    pub fn remove(&mut self, key: &PeerId) -> (r: Option<V>)
        requires
            old(self).wf(),
        ensures
            final(self).wf(),
            final(self)@ == old(self)@.without(key@),
            r == old(self)@.get(key@),
    {
        let ghost before = *self;
        match self.position(key) {
            Some(i) => {
                proof {
                    self.lemma_entry(i as int);
                }
                let entry = self.entries.remove(i);
                proof {
                    self.lemma_removed(before, i as int);
                }
                Some(entry.value)
            },
            None => None,
        }
    }

    /// Remove all entries.
    pub fn clear(&mut self)
        ensures
            final(self).wf(),
            final(self)@ == PeerTable::<V>::empty(),
    {
        self.entries.clear();
        assert(self@ =~= PeerTable::<V>::empty());
    }
}

} // verus!
