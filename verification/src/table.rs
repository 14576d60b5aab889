//! A keyed table of records that remembers the order in which keys were
//! first written.

use vstd::prelude::*;

use crate::types::Address;

verus! {

/// A key of a table. Two keys are the same key when their views are equal.
pub trait StoreKey: Sized {
    spec fn key_view(&self) -> Seq<Seq<char>>;

    fn same_key(&self, other: &Self) -> (r: bool)
        ensures
            r == (self.key_view() == other.key_view()),
    ;

    fn copy_key(&self) -> (r: Self)
        ensures
            r.key_view() == self.key_view(),
    ;
}

impl StoreKey for String {
    open spec fn key_view(&self) -> Seq<Seq<char>> {
        seq![self@]
    }

    fn same_key(&self, other: &Self) -> (r: bool) {
        let r = *self == *other;
        proof {
            if self.key_view() == other.key_view() {
                assert(self.key_view()[0] == other.key_view()[0]);
            }
        }
        r
    }

    fn copy_key(&self) -> (r: Self) {
        self.clone()
    }
}

/// A key made of a quest identifier and an account.
pub struct PairKey {
    pub first: String,
    pub second: Address,
}

impl StoreKey for PairKey {
    open spec fn key_view(&self) -> Seq<Seq<char>> {
        seq![self.first@, self.second@]
    }

    fn same_key(&self, other: &Self) -> (r: bool) {
        let r = self.first == other.first && self.second == other.second;
        proof {
            if self.key_view() == other.key_view() {
                assert(self.key_view()[0] == other.key_view()[0]);
                assert(self.key_view()[1] == other.key_view()[1]);
            }
            if r {
                assert(self.key_view() =~= other.key_view());
            }
        }
        r
    }

    fn copy_key(&self) -> (r: Self) {
        PairKey { first: self.first.clone(), second: self.second.clone() }
    }
}

/// The key view of a quest identifier.
pub open spec fn key1(a: Seq<char>) -> Seq<Seq<char>> {
    seq![a]
}

/// The key view of a pair of a quest identifier and an account.
pub open spec fn key2(a: Seq<char>, b: Seq<char>) -> Seq<Seq<char>> {
    seq![a, b]
}

pub struct Table<K, V> {
    entries: Vec<(K, V)>,
    contents: Ghost<Map<Seq<Seq<char>>, V>>,
    order: Ghost<Seq<Seq<Seq<char>>>>,
}

impl<K: StoreKey, V> Table<K, V> {
    /// The records, by key.
    pub closed spec fn view(&self) -> Map<Seq<Seq<char>>, V> {
        self.contents@
    }

    /// The keys in the order in which they were first written.
    pub closed spec fn keys(&self) -> Seq<Seq<Seq<char>>> {
        self.order@
    }

    pub closed spec fn wf(&self) -> bool {
        &&& self.entries@.len() == self.order@.len()
        &&& self.order@.no_duplicates()
        &&& forall|i: int|
            0 <= i < self.entries@.len() ==> (#[trigger] self.entries@[i]).0.key_view()
                == self.order@[i]
        &&& forall|i: int|
            0 <= i < self.order@.len() ==> self.contents@.contains_key(#[trigger] self.order@[i])
        &&& forall|i: int|
            0 <= i < self.entries@.len() ==> self.contents@[self.order@[i]] == (
            #[trigger] self.entries@[i]).1
        &&& forall|k: Seq<Seq<char>>| #[trigger]
            self.contents@.contains_key(k) ==> self.order@.contains(k)
    }

    pub proof fn lemma_wf(&self)
        requires
            self.wf(),
        ensures
            self.keys().no_duplicates(),
            forall|k: Seq<Seq<char>>| #[trigger]
                self.view().contains_key(k) <==> self.keys().contains(k),
    {
        assert forall|k: Seq<Seq<char>>| #[trigger]
            self.keys().contains(k) implies self.view().contains_key(k) by {
            let i = choose|i: int| 0 <= i < self.order@.len() && self.order@[i] == k;
            assert(self.entries@[i].0.key_view() == k);
        }
    }

    pub fn new() -> (r: Self)
        ensures
            r.wf(),
            r.view() == Map::<Seq<Seq<char>>, V>::empty(),
            r.keys() == Seq::<Seq<Seq<char>>>::empty(),
    {
        Table { entries: Vec::new(), contents: Ghost(Map::empty()), order: Ghost(Seq::empty()) }
    }

    /// The position of the entry with this key, if there is one.
    fn find(&self, k: &K) -> (r: Option<usize>)
        requires
            self.wf(),
        ensures
            r is Some <==> self.view().contains_key(k.key_view()),
            r matches Some(i) ==> i < self.entries@.len() && self.order@[i as int] == k.key_view()
                && self.entries@[i as int].1 == self.view()[k.key_view()],
    {
        let mut i: usize = 0;
        while i < self.entries.len()
            invariant
                self.wf(),
                i <= self.entries@.len(),
                forall|j: int| 0 <= j < i ==> self.order@[j] != k.key_view(),
            decreases self.entries@.len() - i,
        {
            if self.entries[i].0.same_key(k) {
                return Some(i);
            }
            i = i + 1;
        }
        proof {
            if self.view().contains_key(k.key_view()) {
                assert(self.order@.contains(k.key_view()));
            }
        }
        None
    }

    pub fn contains(&self, k: &K) -> (r: bool)
        requires
            self.wf(),
        ensures
            r == self.view().contains_key(k.key_view()),
    {
        self.find(k).is_some()
    }

    pub fn get(&self, k: &K) -> (r: Option<&V>)
        requires
            self.wf(),
        ensures
            r is Some <==> self.view().contains_key(k.key_view()),
            r matches Some(v) ==> *v == self.view()[k.key_view()],
    {
        match self.find(k) {
            Some(i) => Some(&self.entries[i].1),
            None => None,
        }
    }

    /// Writes a record under a key, replacing the record already there.
    pub fn insert(&mut self, k: K, v: V)
        requires
            old(self).wf(),
        ensures
            final(self).wf(),
            final(self).view() == old(self).view().insert(k.key_view(), v),
            final(self).keys() == (if old(self).view().contains_key(k.key_view()) {
                old(self).keys()
            } else {
                old(self).keys().push(k.key_view())
            }),
    {
        let ghost kv = k.key_view();
        match self.find(&k) {
            Some(i) => {
                self.entries.set(i, (k, v));
                proof {
                    self.contents@ = self.contents@.insert(kv, v);
                    assert forall|j: int| 0 <= j < self.entries@.len() implies self.contents@[self.order@[j]]
                        == (#[trigger] self.entries@[j]).1 by {
                        if j != i {
                            assert(self.entries@[j] == old(self).entries@[j]);
                            assert(self.order@[j] != self.order@[i as int]);
                        } else {
                            assert(self.entries@[j].1 == v);
                        }
                    }
                    assert forall|j: int| 0 <= j < self.entries@.len() implies (
                    #[trigger] self.entries@[j]).0.key_view() == self.order@[j] by {
                        if j != i {
                            assert(self.entries@[j] == old(self).entries@[j]);
                        }
                    }
                    assert forall|kk: Seq<Seq<char>>| #[trigger]
                        self.contents@.contains_key(kk) implies self.order@.contains(kk) by {
                        if kk == kv {
                            assert(self.order@[i as int] == kv);
                        }
                    }
                    assert(self.wf());
                }
            },
            None => {
                proof {
                    assert(!self.order@.contains(kv)) by {
                        if self.order@.contains(kv) {
                            let j = choose|j: int| 0 <= j < self.order@.len() && self.order@[j] == kv;
                            assert(self.entries@[j].0.key_view() == kv);
                        }
                    }
                }
                self.entries.push((k, v));
                proof {
                    self.contents@ = self.contents@.insert(kv, v);
                    self.order@ = self.order@.push(kv);
                    assert forall|j: int| 0 <= j < self.entries@.len() implies self.contents@[self.order@[j]]
                        == (#[trigger] self.entries@[j]).1 by {
                        if j < self.entries@.len() - 1 {
                            assert(self.entries@[j] == old(self).entries@[j]);
                            assert(old(self).order@[j] == self.order@[j]);
                            assert(old(self).order@.contains(old(self).order@[j]));
                            assert(self.order@[j] != kv);
                        } else {
                            assert(self.entries@[j].1 == v);
                        }
                    }
                    assert forall|j: int| 0 <= j < self.entries@.len() implies (
                    #[trigger] self.entries@[j]).0.key_view() == self.order@[j] by {
                        if j < self.entries@.len() - 1 {
                            assert(self.entries@[j] == old(self).entries@[j]);
                        }
                    }
                    assert(self.order@.no_duplicates()) by {
                        assert forall|a: int, b: int|
                            0 <= a < b < self.order@.len() implies self.order@[a]
                            != self.order@[b] by {
                            if b == self.order@.len() - 1 {
                                assert(old(self).order@.contains(old(self).order@[a]));
                            }
                        }
                    }
                    assert forall|kk: Seq<Seq<char>>| #[trigger]
                        self.contents@.contains_key(kk) implies self.order@.contains(kk) by {
                        if kk == kv {
                            assert(self.order@[self.order@.len() - 1] == kv);
                        } else {
                            let j = choose|j: int|
                                0 <= j < old(self).order@.len() && old(self).order@[j] == kk;
                            assert(self.order@[j] == kk);
                        }
                    }
                    assert forall|j: int| 0 <= j < self.order@.len() implies self.contents@.contains_key(
                        #[trigger] self.order@[j],
                    ) by {
                        if j < self.order@.len() - 1 {
                            assert(old(self).order@[j] == self.order@[j]);
                        }
                    }
                    assert(self.wf());
                }
            },
        }
    }

    /// The number of records.
    pub fn len(&self) -> (r: usize)
        requires
            self.wf(),
        ensures
            r == self.keys().len(),
    {
        self.entries.len()
    }

    /// The key and record at a position of the key order.
    pub fn entry_at(&self, i: usize) -> (r: (&K, &V))
        requires
            self.wf(),
            i < self.keys().len(),
        ensures
            r.0.key_view() == self.keys()[i as int],
            self.view().contains_key(self.keys()[i as int]),
            *r.1 == self.view()[self.keys()[i as int]],
    {
        let e = &self.entries[i];
        (&e.0, &e.1)
    }

    /// The record at a position of the key order.
    pub fn value_at(&self, i: usize) -> (r: &V)
        requires
            self.wf(),
            i < self.keys().len(),
        ensures
            self.view().contains_key(self.keys()[i as int]),
            *r == self.view()[self.keys()[i as int]],
    {
        &self.entries[i].1
    }
}

} // verus!
