//! Sums by key.

use vstd::prelude::*;

verus! {

/// What a tally can be keyed by: values that can be told apart.
pub trait Key: Copy {
    /// Whether two keys are the same.
    fn same(&self, other: &Self) -> (r: bool)
        ensures
            r == (*self == *other),
    ;
}

/// A sum for each key that was counted; no key occurs twice.
#[derive(Debug)]
pub struct Tally<K> {
    entries: Vec<(K, u64)>,
}

/// The sum under a key.
pub open spec fn sum_at<K>(m: Map<K, nat>, key: K) -> nat {
    if m.contains_key(key) {
        m[key]
    } else {
        0
    }
}

/// The sums after so much more under a key.
pub open spec fn added<K>(m: Map<K, nat>, key: K, amount: nat) -> Map<K, nat> {
    m.insert(key, sum_at(m, key) + amount)
}

/// What adding under a key does to each sum.
pub proof fn lemma_added<K>(m: Map<K, nat>, key: K, amount: nat, k: K)
    ensures
        added(m, key, amount).contains_key(k) <==> m.contains_key(k) || k == key,
        k == key ==> added(m, key, amount)[k] == sum_at(m, key) + amount,
        k != key ==> added(m, key, amount)[k] == m[k],
{
}

impl<K> Tally<K> {
    /// No key occurs twice.
    pub closed spec fn well_formed(self) -> bool {
        forall|i: int, j: int|
            0 <= i < j < self.entries@.len() ==> (#[trigger] self.entries@[i]).0 != (
            #[trigger] self.entries@[j]).0
    }

    spec fn position(self, key: K) -> int {
        choose|i: int| 0 <= i < self.entries@.len() && (#[trigger] self.entries@[i]).0 == key
    }

    spec fn holds(self, key: K) -> bool {
        exists|i: int| 0 <= i < self.entries@.len() && (#[trigger] self.entries@[i]).0 == key
    }
}

impl<K> View for Tally<K> {
    type V = Map<K, nat>;

    closed spec fn view(&self) -> Map<K, nat> {
        Map::new(
            |key: K| self.holds(key),
            |key: K| self.entries@[self.position(key)].1 as nat,
        )
    }
}

impl<K: Key> Clone for Tally<K> {
    fn clone(&self) -> (r: Self)
        ensures
            r@ == self@,
            self.well_formed() ==> r.well_formed(),
    {
        let mut entries: Vec<(K, u64)> = Vec::new();
        let mut i: usize = 0;
        while i < self.entries.len()
            invariant
                i <= self.entries.len(),
                entries@ == self.entries@.take(i as int),
            decreases self.entries.len() - i,
        {
            entries.push((self.entries[i].0, self.entries[i].1));
            i += 1;
        }
        let r = Tally { entries };
        proof {
            assert(r.entries@ =~= self.entries@);
            assert forall|key: K| r.holds(key) == self.holds(key) by {}
            assert forall|key: K| r.position(key) == self.position(key) by {}
            assert(r@ =~= self@);
        }
        r
    }
}

impl<K: Key> Tally<K> {
    /// A tally without keys.
    pub fn new() -> (r: Tally<K>)
        ensures
            r.well_formed(),
            r@ == Map::<K, nat>::empty(),
    {
        let r = Tally { entries: Vec::new() };
        assert(r@ =~= Map::<K, nat>::empty());
        r
    }

    fn find(&self, key: &K) -> (r: Option<usize>)
        requires
            self.well_formed(),
        ensures
            match r {
                Some(i) => {
                    &&& i < self.entries@.len()
                    &&& self.entries@[i as int].0 == *key
                    &&& self@.contains_key(*key)
                    &&& self@[*key] == self.entries@[i as int].1
                },
                None => !self@.contains_key(*key),
            },
    {
        let mut i: usize = 0;
        while i < self.entries.len()
            invariant
                self.well_formed(),
                i <= self.entries.len(),
                forall|k: int| 0 <= k < i ==> (#[trigger] self.entries@[k]).0 != *key,
            decreases self.entries.len() - i,
        {
            if self.entries[i].0.same(key) {
                proof {
                    assert(self.holds(*key));
                    let p = self.position(*key);
                    assert(self.entries@[p].0 == *key);
                }
                return Some(i);
            }
            i += 1;
        }
        None
    }

    /// The sum under a key, where it was counted.
    pub fn get(&self, key: &K) -> (r: Option<u64>)
        requires
            self.well_formed(),
        ensures
            match r {
                Some(n) => self@.contains_key(*key) && self@[*key] == n,
                None => !self@.contains_key(*key),
            },
    {
        match self.find(key) {
            Some(i) => Some(self.entries[i].1),
            None => None,
        }
    }

    /// Whether a key was counted.
    pub fn contains_key(&self, key: &K) -> (r: bool)
        requires
            self.well_formed(),
        ensures
            r == self@.contains_key(*key),
    {
        self.find(key).is_some()
    }

    /// Adds so much under a key.
    pub fn count(&mut self, key: K, amount: u64)
        requires
            old(self).well_formed(),
            sum_at(old(self)@, key) + amount <= u64::MAX,
        ensures
            final(self).well_formed(),
            final(self)@ == added(old(self)@, key, amount as nat),
    {
        let ghost before = *self;
        match self.find(&key) {
            Some(i) => {
                let sum: u64 = self.entries[i].1 + amount;
                self.entries.set(i, (key, sum));
                proof {
                    assert forall|k: K| self.holds(k) == before.holds(k) by {
                        if self.holds(k) {
                            let p = self.position(k);
                            assert(self.entries@[p].0 == k);
                            assert(before.entries@[p].0 == k);
                        }
                        if before.holds(k) {
                            let p = before.position(k);
                            assert(before.entries@[p].0 == k);
                            assert(self.entries@[p].0 == k);
                        }
                    }
                    assert forall|k: K| #[trigger] self.holds(k) implies self@[k] == added(
                        before@,
                        key,
                        amount as nat,
                    )[k] by {
                        lemma_added(before@, key, amount as nat, k);
                        let p = self.position(k);
                        let q = before.position(k);
                        assert(before.holds(k));
                        assert(self.entries@[p].0 == k);
                        assert(before.entries@[q].0 == k);
                        assert(before.entries@[p].0 == k);
                        assert(p == q);
                    }
                    assert(self@ =~= added(before@, key, amount as nat));
                }
            },
            None => {
                self.entries.push((key, amount));
                proof {
                    let n = before.entries@.len() as int;
                    assert(self.entries@[n].0 == key);
                    assert forall|k: int| 0 <= k < n implies (#[trigger] before.entries@[k]).0
                        != key by {
                        if before.entries@[k].0 == key {
                            assert(before.holds(key));
                        }
                    }
                    assert forall|k: K| self.holds(k) == (before.holds(k) || k == key) by {
                        if before.holds(k) {
                            let p = before.position(k);
                            assert(before.entries@[p].0 == k);
                            assert(self.entries@[p].0 == k);
                        }
                        if self.holds(k) && k != key {
                            let p = self.position(k);
                            assert(self.entries@[p].0 == k);
                            assert(before.entries@[p].0 == k);
                        }
                    }
                    assert forall|k: K| #[trigger] self.holds(k) implies self@[k] == added(
                        before@,
                        key,
                        amount as nat,
                    )[k] by {
                        lemma_added(before@, key, amount as nat, k);
                        let p = self.position(k);
                        assert(self.entries@[p].0 == k);
                        if k != key {
                            let q = before.position(k);
                            assert(before.holds(k));
                            assert(before.entries@[q].0 == k);
                            assert(before.entries@[p].0 == k);
                            assert(p == q);
                            assert(before@.contains_key(k));
                            assert(self@[k] == before@[k]);
                        } else {
                            if p < n {
                                assert(before.entries@[p].0 == key);
                            }
                            assert(!before@.contains_key(key));
                            assert(self@[k] == amount);
                        }
                    }
                    assert(self@ =~= added(before@, key, amount as nat));
                }
            },
        }
    }
}

} // verus!
