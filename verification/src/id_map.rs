//! A small map from identifiers to values, kept in the order of its keys.

use vstd::prelude::*;

verus! {

/// Whether the keys of a list of entries rise strictly.
pub open spec fn keys_rise<V>(s: Seq<(u16, V)>) -> bool {
    forall|i: int, j: int| 0 <= i < j < s.len() ==> s[i].0 < s[j].0
}

/// The place of a key in a list of entries, if it has one.
pub open spec fn holds_key<V>(s: Seq<(u16, V)>, k: u16) -> bool {
    exists|i: int| 0 <= i < s.len() && #[trigger] s[i].0 == k
}

/// The map that a list of entries stands for.
pub open spec fn entries_map<V>(s: Seq<(u16, V)>) -> Map<u16, V> {
    Map::new(
        |k: u16| holds_key(s, k),
        |k: u16| s[choose|i: int| 0 <= i < s.len() && #[trigger] s[i].0 == k].1,
    )
}

/// Under rising keys an entry is found under its own key.
pub proof fn lemma_entry_found<V>(s: Seq<(u16, V)>, i: int)
    requires
        keys_rise(s),
        0 <= i < s.len(),
    ensures
        entries_map(s).contains_key(s[i].0),
        entries_map(s)[s[i].0] == s[i].1,
{
    let k = s[i].0;
    assert(holds_key(s, k));
    let c = choose|c: int| 0 <= c < s.len() && #[trigger] s[c].0 == k;
    assert(c == i) by {
        if c < i {
            assert(s[c].0 < s[i].0);
        } else if i < c {
            assert(s[i].0 < s[c].0);
        }
    }
}

/// A map from `u16` identifiers to values, with its entries in the order of the keys.
pub struct IdMap<V> {
    entries: Vec<(u16, V)>,
}

impl<V> IdMap<V> {
    /// The entries, in the order in which they are kept.
    pub closed spec fn seq(&self) -> Seq<(u16, V)> {
        self.entries@
    }

    /// The invariant: the keys rise strictly, so none occurs twice.
    pub open spec fn wf(&self) -> bool {
        keys_rise(self.seq())
    }

    /// The map that the entries stand for.
    pub open spec fn view(&self) -> Map<u16, V> {
        entries_map(self.seq())
    }

    pub fn new() -> (r: Self)
        ensures
            r.wf(),
            r.seq() == Seq::<(u16, V)>::empty(),
            r@ == Map::<u16, V>::empty(),
    {
        let r = IdMap { entries: Vec::new() };
        assert(r@ =~= Map::<u16, V>::empty());
        r
    }

    pub fn len(&self) -> (r: usize)
        ensures
            r == self.seq().len(),
    {
        self.entries.len()
    }

    pub fn is_empty(&self) -> (r: bool)
        ensures
            r == (self.seq().len() == 0),
            self.wf() ==> r == (self@ == Map::<u16, V>::empty()),
    {
        proof {
            if self.wf() {
                if self.seq().len() == 0 {
                    assert(self@ =~= Map::<u16, V>::empty());
                } else {
                    lemma_entry_found(self.seq(), 0);
                }
            }
        }
        self.entries.len() == 0
    }

    /// The key of the entry at a place.
    pub fn key_at(&self, i: usize) -> (r: u16)
        requires
            i < self.seq().len(),
        ensures
            r == self.seq()[i as int].0,
    {
        self.entries[i].0
    }

    /// The value of the entry at a place.
    pub fn value_at(&self, i: usize) -> (r: &V)
        requires
            i < self.seq().len(),
        ensures
            *r == self.seq()[i as int].1,
    {
        &self.entries[i].1
    }

    /// The first place whose key is not below `k`.
    fn lower_bound(&self, k: u16) -> (r: usize)
        requires
            self.wf(),
        ensures
            r <= self.seq().len(),
            forall|i: int| 0 <= i < r ==> self.seq()[i].0 < k,
            forall|i: int| r <= i < self.seq().len() ==> self.seq()[i].0 >= k,
    {
        let mut i: usize = 0;
        while i < self.entries.len() && self.entries[i].0 < k
            invariant
                i <= self.seq().len(),
                forall|j: int| 0 <= j < i ==> self.seq()[j].0 < k,
            decreases self.seq().len() - i,
        {
            i = i + 1;
        }
        assert forall|j: int| i <= j < self.seq().len() implies self.seq()[j].0 >= k by {
            if i < j {
                assert(self.seq()[i as int].0 < self.seq()[j].0);
            }
        }
        i
    }

    /// The place of a key, if the map holds it.
    pub fn position(&self, k: u16) -> (r: Option<usize>)
        requires
            self.wf(),
        ensures
            match r {
                Some(i) => i < self.seq().len() && self.seq()[i as int].0 == k && self@.contains_key(k)
                    && self@[k] == self.seq()[i as int].1,
                None => !self@.contains_key(k),
            },
    {
        let i = self.lower_bound(k);
        if i < self.entries.len() && self.entries[i].0 == k {
            proof {
                lemma_entry_found(self.seq(), i as int);
            }
            Some(i)
        } else {
            None
        }
    }

    pub fn contains_key(&self, k: u16) -> (r: bool)
        requires
            self.wf(),
        ensures
            r == self@.contains_key(k),
    {
        self.position(k).is_some()
    }

    pub fn get(&self, k: u16) -> (r: Option<&V>)
        requires
            self.wf(),
        ensures
            match r {
                Some(v) => self@.contains_key(k) && *v == self@[k],
                None => !self@.contains_key(k),
            },
    {
        match self.position(k) {
            Some(i) => Some(&self.entries[i].1),
            None => None,
        }
    }

    /// Puts a value under a key, in place of the one that was there.
    pub fn insert(&mut self, k: u16, v: V)
        requires
            old(self).wf(),
        ensures
            final(self).wf(),
            final(self)@ == old(self)@.insert(k, v),
    {
        let i = self.lower_bound(k);
        let ghost before = self.seq();
        if i < self.entries.len() && self.entries[i].0 == k {
            self.entries.remove(i);
        }
        let ghost mid = self.seq();
        self.entries.insert(i, (k, v));
        proof {
            let after = self.seq();
            assert(keys_rise(mid));
            assert(forall|j: int| 0 <= j < i ==> mid[j].0 < k);
            assert(forall|j: int| i <= j < mid.len() ==> mid[j].0 > k);
            assert(keys_rise(after));
            assert forall|x: u16| #[trigger] self@.contains_key(x) == (x == k || holds_key(before, x)) by {
                if x == k {
                    lemma_entry_found(after, i as int);
                } else if holds_key(before, x) {
                    let b = choose|b: int| 0 <= b < before.len() && #[trigger] before[b].0 == x;
                    let a = if b < i { b } else if before.len() == mid.len() { b + 1 } else { b };
                    assert(after[a].0 == x);
                } else {
                    if holds_key(after, x) {
                        let a = choose|a: int| 0 <= a < after.len() && #[trigger] after[a].0 == x;
                        let b = if a < i { a } else if before.len() == mid.len() { a - 1 } else { a };
                        assert(before[b].0 == x);
                    }
                }
            }
            assert forall|x: u16| self@.contains_key(x) implies #[trigger] self@[x] == old(self)@.insert(k, v)[x] by {
                if x == k {
                    lemma_entry_found(after, i as int);
                } else {
                    let b = choose|b: int| 0 <= b < before.len() && #[trigger] before[b].0 == x;
                    let a = if b < i { b } else if before.len() == mid.len() { b + 1 } else { b };
                    assert(after[a].0 == x);
                    lemma_entry_found(after, a);
                    lemma_entry_found(before, b);
                }
            }
            assert(self@ =~= old(self)@.insert(k, v));
        }
    }

    /// Takes the value under a key out of the map.
    pub fn remove(&mut self, k: u16) -> (r: Option<V>)
        requires
            old(self).wf(),
        ensures
            final(self).wf(),
            final(self)@ == old(self)@.remove(k),
            r == (if old(self)@.contains_key(k) { Some(old(self)@[k]) } else { None::<V> }),
    {
        let ghost before = self.seq();
        match self.position(k) {
            Some(i) => {
                let e = self.entries.remove(i);
                proof {
                    let after = self.seq();
                    assert(keys_rise(after));
                    assert forall|x: u16| #[trigger] self@.contains_key(x) == (x != k && holds_key(before, x)) by {
                        if x != k && holds_key(before, x) {
                            let b = choose|b: int| 0 <= b < before.len() && #[trigger] before[b].0 == x;
                            let a = if b < i { b } else { b - 1 };
                            assert(after[a].0 == x);
                        } else if holds_key(after, x) {
                            let a = choose|a: int| 0 <= a < after.len() && #[trigger] after[a].0 == x;
                            let b = if a < i { a } else { a + 1 };
                            assert(before[b].0 == x);
                            if x == k {
                                if b < i {
                                    assert(before[b].0 < before[i as int].0);
                                } else {
                                    assert(before[i as int].0 < before[b].0);
                                }
                            }
                        }
                    }
                    assert forall|x: u16| self@.contains_key(x) implies #[trigger] self@[x] == old(self)@[x] by {
                        let b = choose|b: int| 0 <= b < before.len() && #[trigger] before[b].0 == x;
                        let a = if b < i { b } else { b - 1 };
                        assert(after[a].0 == x);
                        lemma_entry_found(after, a);
                        lemma_entry_found(before, b);
                    }
                    assert(self@ =~= old(self)@.remove(k));
                }
                Some(e.1)
            },
            None => {
                assert(self@ =~= old(self)@.remove(k));
                None
            },
        }
    }

    /// The keys, in rising order.
    pub fn keys(&self) -> (r: Vec<u16>)
        ensures
            r@.len() == self.seq().len(),
            forall|i: int| 0 <= i < r@.len() ==> #[trigger] r@[i] == self.seq()[i].0,
    {
        let mut r: Vec<u16> = Vec::new();
        let mut i: usize = 0;
        while i < self.entries.len()
            invariant
                i <= self.seq().len(),
                r@.len() == i,
                forall|j: int| 0 <= j < r@.len() ==> #[trigger] r@[j] == self.seq()[j].0,
            decreases self.seq().len() - i,
        {
            r.push(self.entries[i].0);
            i = i + 1;
        }
        r
    }

    /// Puts a value in the place of the one at a place, under the same key.
    pub fn replace_at(&mut self, i: usize, v: V) -> (r: V)
        requires
            old(self).wf(),
            i < old(self).seq().len(),
        ensures
            final(self).wf(),
            final(self).seq() == old(self).seq().update(i as int, (old(self).seq()[i as int].0, v)),
            final(self)@ == old(self)@.insert(old(self).seq()[i as int].0, v),
            r == old(self).seq()[i as int].1,
    {
        let ghost before = self.seq();
        let e = self.entries.remove(i);
        self.entries.insert(i, (e.0, v));
        proof {
            let after = self.seq();
            assert(after =~= before.update(i as int, (before[i as int].0, v)));
            assert(keys_rise(after)) by {
                assert forall|a: int, b: int| 0 <= a < b < after.len() implies after[a].0 < after[b].0 by {
                    assert(before[a].0 < before[b].0);
                }
            }
            assert forall|x: u16| #[trigger] self@.contains_key(x) == old(self)@.insert(e.0, v).contains_key(x) by {
                if holds_key(before, x) {
                    let b = choose|b: int| 0 <= b < before.len() && #[trigger] before[b].0 == x;
                    assert(after[b].0 == x);
                }
                if holds_key(after, x) {
                    let a = choose|a: int| 0 <= a < after.len() && #[trigger] after[a].0 == x;
                    assert(before[a].0 == x);
                }
                if x == e.0 {
                    assert(after[i as int].0 == x);
                }
            }
            assert forall|x: u16| self@.contains_key(x) implies #[trigger] self@[x] == old(self)@.insert(e.0, v)[x] by {
                let a = choose|a: int| 0 <= a < after.len() && #[trigger] after[a].0 == x;
                lemma_entry_found(after, a);
                lemma_entry_found(before, a);
            }
            assert(self@ =~= old(self)@.insert(e.0, v));
        }
        e.1
    }

    pub fn clear(&mut self)
        ensures
            final(self).wf(),
            final(self).seq() == Seq::<(u16, V)>::empty(),
            final(self)@ == Map::<u16, V>::empty(),
    {
        self.entries.clear();
        assert(self@ =~= Map::<u16, V>::empty());
    }

    /// Every entry is found under its key, and every key of the map is that of an entry.
    pub proof fn lemma_entries(&self)
        requires
            self.wf(),
        ensures
            forall|i: int| 0 <= i < self.seq().len() ==> self@.contains_key(#[trigger] self.seq()[i].0)
                && self@[self.seq()[i].0] == self.seq()[i].1,
            forall|k: u16| #[trigger] self@.contains_key(k) ==> holds_key(self.seq(), k),
    {
        assert forall|i: int| 0 <= i < self.seq().len() implies self@.contains_key(#[trigger] self.seq()[i].0)
            && self@[self.seq()[i].0] == self.seq()[i].1 by {
            lemma_entry_found(self.seq(), i);
        }
    }
}

impl<V: Copy> IdMap<V> {
    /// A map with the same entries.
    pub fn duplicate(&self) -> (r: Self)
        ensures
            r.seq() == self.seq(),
            r@ == self@,
            r.wf() == self.wf(),
    {
        let mut entries: Vec<(u16, V)> = Vec::new();
        let mut i: usize = 0;
        while i < self.entries.len()
            invariant
                i <= self.entries@.len(),
                entries@.len() == i,
                forall|j: int| 0 <= j < i ==> entries@[j] == self.entries@[j],
            decreases self.entries@.len() - i,
        {
            entries.push((self.entries[i].0, self.entries[i].1));
            i = i + 1;
        }
        assert(entries@ =~= self.entries@);
        IdMap { entries }
    }
}


} // verus!
