//! A map from `u32` ids to values, stored as a vector of entries with unique
//! keys and specified through a `Map` view over the values' own views.

use vstd::prelude::*;
use crate::models::{Epic, Story};

verus! {

/// No two entries of `s` share a key.
pub open spec fn keys_unique<T>(s: Seq<(u32, T)>) -> bool {
    forall|i: int, j: int| 0 <= i < j < s.len() ==> (#[trigger] s[i]).0 != (#[trigger] s[j]).0
}

/// Some entry of `s` has key `k`.
pub open spec fn has_key<T>(s: Seq<(u32, T)>, k: u32) -> bool {
    exists|i: int| 0 <= i < s.len() && (#[trigger] s[i]).0 == k
}

/// An index of an entry of `s` with key `k`, if one exists.
pub open spec fn key_index<T>(s: Seq<(u32, T)>, k: u32) -> int {
    choose|i: int| 0 <= i < s.len() && (#[trigger] s[i]).0 == k
}

/// The mapping that an entry sequence denotes.
pub open spec fn map_of<T>(s: Seq<(u32, T)>) -> Map<u32, T> {
    Map::new(|k: u32| has_key(s, k), |k: u32| s[key_index(s, k)].1)
}

/// With unique keys, the entry at index `i` is what the map holds at its key.
pub proof fn lemma_entry_in_map<T>(s: Seq<(u32, T)>, i: int)
    requires
        keys_unique(s),
        0 <= i < s.len(),
    ensures
        map_of(s).contains_key(s[i].0),
        map_of(s)[s[i].0] == s[i].1,
{
    assert(has_key(s, s[i].0));
    let j = key_index(s, s[i].0);
    assert(0 <= j < s.len() && s[j].0 == s[i].0);
    if i < j {
        assert(s[i].0 != s[j].0);
    } else if j < i {
        assert(s[j].0 != s[i].0);
    }
    assert(j == i);
}

/// Appending an entry with a fresh key inserts it into the denoted map.
pub proof fn lemma_map_of_push<T>(s: Seq<(u32, T)>, k: u32, v: T)
    requires
        keys_unique(s),
        !has_key(s, k),
    ensures
        keys_unique(s.push((k, v))),
        map_of(s.push((k, v))) == map_of(s).insert(k, v),
{
    let s2 = s.push((k, v));
    assert forall|i: int, j: int| 0 <= i < j < s2.len() implies (#[trigger] s2[i]).0 != (
    #[trigger] s2[j]).0 by {
        if j < s.len() {
            assert(s2[i] == s[i] && s2[j] == s[j]);
        } else {
            assert(s2[j].0 == k);
            assert(s2[i] == s[i]);
            if s[i].0 == k {
                assert(has_key(s, k));
            }
        }
    }
    assert forall|k2: u32| #[trigger] has_key(s2, k2) <==> has_key(s, k2) || k2 == k by {
        if has_key(s2, k2) {
            let i = choose|i: int| 0 <= i < s2.len() && (#[trigger] s2[i]).0 == k2;
            if i < s.len() {
                assert(s[i].0 == k2);
                assert(has_key(s, k2));
            } else {
                assert(k2 == k);
            }
        }
        if has_key(s, k2) {
            let i = choose|i: int| 0 <= i < s.len() && (#[trigger] s[i]).0 == k2;
            assert(s2[i].0 == k2);
            assert(has_key(s2, k2));
        }
        if k2 == k {
            assert(s2[s.len() as int].0 == k);
            assert(has_key(s2, k));
        }
    }
    assert forall|k2: u32| #[trigger] map_of(s2).contains_key(k2) implies map_of(s2)[k2]
        == map_of(s).insert(k, v)[k2] by {
        if k2 == k {
            lemma_entry_in_map(s2, s.len() as int);
        } else {
            let i = choose|i: int| 0 <= i < s.len() && (#[trigger] s[i]).0 == k2;
            assert(s2[i] == s[i]);
            lemma_entry_in_map(s, i);
            lemma_entry_in_map(s2, i);
        }
    }
    assert(map_of(s2) =~= map_of(s).insert(k, v));
}

/// Replacing the value at index `i` updates the denoted map at that entry's key.
pub proof fn lemma_map_of_update<T>(s: Seq<(u32, T)>, i: int, v: T)
    requires
        keys_unique(s),
        0 <= i < s.len(),
    ensures
        keys_unique(s.update(i, (s[i].0, v))),
        map_of(s.update(i, (s[i].0, v))) == map_of(s).insert(s[i].0, v),
{
    let k = s[i].0;
    let s2 = s.update(i, (k, v));
    assert forall|a: int, b: int| 0 <= a < b < s2.len() implies (#[trigger] s2[a]).0 != (
    #[trigger] s2[b]).0 by {
        assert(s2[a].0 == s[a].0 && s2[b].0 == s[b].0);
    }
    assert forall|k2: u32| #[trigger] has_key(s2, k2) <==> has_key(s, k2) by {
        if has_key(s2, k2) {
            let a = choose|a: int| 0 <= a < s2.len() && (#[trigger] s2[a]).0 == k2;
            assert(s[a].0 == k2);
            assert(has_key(s, k2));
        }
        if has_key(s, k2) {
            let a = choose|a: int| 0 <= a < s.len() && (#[trigger] s[a]).0 == k2;
            assert(s2[a].0 == k2);
            assert(has_key(s2, k2));
        }
    }
    assert forall|k2: u32| #[trigger] map_of(s2).contains_key(k2) implies map_of(s2)[k2]
        == map_of(s).insert(k, v)[k2] by {
        if k2 == k {
            lemma_entry_in_map(s2, i);
        } else {
            let a = choose|a: int| 0 <= a < s.len() && (#[trigger] s[a]).0 == k2;
            assert(a != i);
            assert(s2[a] == s[a]);
            lemma_entry_in_map(s, a);
            lemma_entry_in_map(s2, a);
        }
    }
    assert(map_of(s2) =~= map_of(s).insert(k, v));
}

/// Removing the entry at index `i` removes its key from the denoted map.
pub proof fn lemma_map_of_remove_at<T>(s: Seq<(u32, T)>, i: int)
    requires
        keys_unique(s),
        0 <= i < s.len(),
    ensures
        keys_unique(s.remove(i)),
        map_of(s.remove(i)) == map_of(s).remove(s[i].0),
{
    let k = s[i].0;
    let s2 = s.remove(i);
    assert forall|a: int, b: int| 0 <= a < b < s2.len() implies (#[trigger] s2[a]).0 != (
    #[trigger] s2[b]).0 by {
        let a2: int = if a < i { a } else { a + 1 };
        let b2: int = if b < i { b } else { b + 1 };
        assert(s2[a] == s[a2] && s2[b] == s[b2]);
        assert(s[a2].0 != s[b2].0);
    }
    assert forall|k2: u32| #[trigger] has_key(s2, k2) <==> has_key(s, k2) && k2 != k by {
        if has_key(s2, k2) {
            let a = choose|a: int| 0 <= a < s2.len() && (#[trigger] s2[a]).0 == k2;
            let a2: int = if a < i { a } else { a + 1 };
            assert(s2[a] == s[a2]);
            assert(has_key(s, k2));
            if k2 == k {
                if a2 < i {
                    assert(s[a2].0 != s[i].0);
                } else {
                    assert(s[i].0 != s[a2].0);
                }
                assert(false);
            }
        }
        if has_key(s, k2) && k2 != k {
            let a = choose|a: int| 0 <= a < s.len() && (#[trigger] s[a]).0 == k2;
            assert(a != i);
            if a < i {
                assert(s2[a] == s[a]);
                assert(has_key(s2, k2));
            } else {
                assert(s2[a - 1] == s[a]);
                assert(has_key(s2, k2));
            }
        }
    }
    assert forall|k2: u32| #[trigger] map_of(s2).contains_key(k2) implies map_of(s2)[k2]
        == map_of(s).remove(k)[k2] by {
        let a = choose|a: int| 0 <= a < s2.len() && (#[trigger] s2[a]).0 == k2;
        let a2: int = if a < i { a } else { a + 1 };
        assert(s2[a] == s[a2]);
        lemma_entry_in_map(s2, a);
        lemma_entry_in_map(s, a2);
    }
    assert(map_of(s2) =~= map_of(s).remove(k));
}

/// A map from ids to values of `V`, held as entries with pairwise distinct
/// keys. Its view is the `Map` from keys to the values' views.
pub struct IdMap<V> {
    entries: Vec<(u32, V)>,
}

impl<V: View> IdMap<V> {
    /// The entries, each value replaced by its view.
    pub closed spec fn entry_views(&self) -> Seq<(u32, <V as View>::V)> {
        self.entries@.map_values(|p: (u32, V)| (p.0, p.1@))
    }

    /// The keys of the entries are pairwise distinct.
    pub open spec fn wf(&self) -> bool {
        keys_unique(self.entry_views())
    }
}

impl<V: View> View for IdMap<V> {
    type V = Map<u32, <V as View>::V>;

    closed spec fn view(&self) -> Map<u32, <V as View>::V> {
        map_of(self.entry_views())
    }
}

impl<V: View> IdMap<V> {

    /// An empty map.
    pub fn new() -> (r: Self)
        ensures
            r.wf(),
            r@ == Map::<u32, <V as View>::V>::empty(),
            r.entry_views() == Seq::<(u32, <V as View>::V)>::empty(),
    {
        let r = IdMap { entries: Vec::new() };
        proof {
            assert(r.entry_views() =~= Seq::<(u32, <V as View>::V)>::empty());
            assert(r@ =~= Map::<u32, <V as View>::V>::empty());
        }
        r
    }

    /// Whether `key` is present.
    pub fn contains_key(&self, key: u32) -> (r: bool)
        ensures
            r == self@.contains_key(key),
    {
        let ghost s = self.entry_views();
        let mut i: usize = 0;
        while i < self.entries.len()
            invariant
                i <= self.entries.len(),
                s == self.entry_views(),
                forall|j: int| 0 <= j < i ==> (#[trigger] s[j]).0 != key,
            decreases self.entries.len() - i,
        {
            if self.entries[i].0 == key {
                proof {
                    assert(s[i as int].0 == key);
                    assert(has_key(s, key));
                }
                return true;
            }
            i = i + 1;
        }
        proof {
            assert(!has_key(s, key));
        }
        false
    }

    /// The value stored under `key`, if any.
    pub fn get(&self, key: u32) -> (r: Option<&V>)
        requires
            self.wf(),
        ensures
            match r {
                Some(v) => self@.contains_key(key) && v@ == self@[key],
                None => !self@.contains_key(key),
            },
    {
        let ghost s = self.entry_views();
        let mut i: usize = 0;
        while i < self.entries.len()
            invariant
                i <= self.entries.len(),
                s == self.entry_views(),
                keys_unique(s),
                forall|j: int| 0 <= j < i ==> (#[trigger] s[j]).0 != key,
            decreases self.entries.len() - i,
        {
            if self.entries[i].0 == key {
                proof {
                    assert(s[i as int] == (self.entries@[i as int].0, self.entries@[i as int].1@));
                    lemma_entry_in_map(s, i as int);
                }
                return Some(&self.entries[i].1);
            }
            i = i + 1;
        }
        proof {
            assert(!has_key(s, key));
        }
        None
    }

    /// Stores `value` under `key`, replacing any previous value.
    pub fn insert(&mut self, key: u32, value: V)
        requires
            old(self).wf(),
        ensures
            final(self).wf(),
            final(self)@ == old(self)@.insert(key, value@),
            final(self).entry_views().len() <= old(self).entry_views().len() + 1,
    {
        let ghost s = old(self).entry_views();
        let ghost vv = value@;
        let mut i: usize = 0;
        while i < self.entries.len()
            invariant
                i <= self.entries.len(),
                *self == *old(self),
                s == self.entry_views(),
                vv == value@,
                keys_unique(s),
                forall|j: int| 0 <= j < i ==> (#[trigger] s[j]).0 != key,
            decreases self.entries.len() - i,
        {
            if self.entries[i].0 == key {
                let pair = (key, value);
                proof {
                    assert(pair.0 == key && pair.1@ == vv);
                }
                self.entries.set(i, pair);
                proof {
                    assert(s[i as int].0 == key);
                    assert forall|j: int| 0 <= j < s.len() implies self.entry_views()[j] == s.update(
                        i as int,
                        (key, vv),
                    )[j] by {
                        if j != i {
                            assert(self.entries@[j] == old(self).entries@[j]);
                        } else {
                            assert(self.entries@[j] == pair);
                        }
                    }
                    assert(self.entry_views() =~= s.update(i as int, (key, vv)));
                    lemma_map_of_update(s, i as int, vv);
                }
                return ;
            }
            i = i + 1;
        }
        proof {
            assert(!has_key(s, key));
        }
        self.entries.push((key, value));
        proof {
            assert(self.entry_views() =~= s.push((key, vv)));
            lemma_map_of_push(s, key, vv);
        }
    }

    /// Removes and returns the value stored under `key`, if any.
    pub fn remove(&mut self, key: u32) -> (r: Option<V>)
        requires
            old(self).wf(),
        ensures
            final(self).wf(),
            final(self)@ == old(self)@.remove(key),
            match r {
                Some(v) => old(self)@.contains_key(key) && v@ == old(self)@[key],
                None => !old(self)@.contains_key(key) && *final(self) == *old(self),
            },
    {
        let ghost s = old(self).entry_views();
        let mut i: usize = 0;
        while i < self.entries.len()
            invariant
                i <= self.entries.len(),
                *self == *old(self),
                s == self.entry_views(),
                keys_unique(s),
                forall|j: int| 0 <= j < i ==> (#[trigger] s[j]).0 != key,
            decreases self.entries.len() - i,
        {
            if self.entries[i].0 == key {
                proof {
                    assert(s[i as int].0 == key);
                    lemma_entry_in_map(s, i as int);
                    lemma_map_of_remove_at(s, i as int);
                }
                let entry = self.entries.remove(i);
                proof {
                    assert(self.entry_views() =~= s.remove(i as int));
                }
                return Some(entry.1);
            }
            i = i + 1;
        }
        proof {
            assert(!has_key(s, key));
            assert(self@ =~= old(self)@.remove(key));
        }
        None
    }

    /// The keys currently present, in insertion order.
    pub fn keys(&self) -> (r: Vec<u32>)
        requires
            self.wf(),
        ensures
            r@.no_duplicates(),
            r@.len() == self.entry_views().len(),
            forall|j: int| 0 <= j < r@.len() ==> r@[j] == self.entry_views()[j].0,
            forall|k: u32| r@.contains(k) <==> self@.contains_key(k),
    {
        let ghost s = self.entry_views();
        let mut r: Vec<u32> = Vec::new();
        let mut i: usize = 0;
        while i < self.entries.len()
            invariant
                i <= self.entries.len(),
                s == self.entry_views(),
                keys_unique(s),
                r@.len() == i,
                forall|j: int| 0 <= j < i ==> r@[j] == (#[trigger] s[j]).0,
            decreases self.entries.len() - i,
        {
            r.push(self.entries[i].0);
            i = i + 1;
        }
        proof {
            assert forall|a: int, b: int| 0 <= a < b < r@.len() implies r@[a] != r@[b] by {
                assert(r@[a] == s[a].0 && r@[b] == s[b].0);
            }
            assert forall|k: u32| #[trigger] r@.contains(k) <==> self@.contains_key(k) by {
                if r@.contains(k) {
                    let j = choose|j: int| 0 <= j < r@.len() && r@[j] == k;
                    assert(s[j].0 == k);
                    assert(has_key(s, k));
                }
                if has_key(s, k) {
                    let j = choose|j: int| 0 <= j < s.len() && (#[trigger] s[j]).0 == k;
                    assert(r@[j] == k);
                }
            }
        }
        r
    }

    /// The number of entries, which with distinct keys is the size of the map.
    pub fn len(&self) -> (r: usize)
        ensures
            r == self.entry_views().len(),
    {
        self.entries.len()
    }
}

impl Clone for IdMap<Epic> {
    /// An entry-wise copy; every stored epic keeps its view.
    fn clone(&self) -> (r: Self)
        ensures
            r.entry_views() == self.entry_views(),
            r@ == self@,
            r.wf() == self.wf(),
    {
        let mut entries: Vec<(u32, Epic)> = Vec::new();
        let mut i: usize = 0;
        while i < self.entries.len()
            invariant
                i <= self.entries.len(),
                entries@.len() == i,
                forall|j: int| 0 <= j < i ==> (#[trigger] entries@[j]).0 == self.entries@[j].0
                    && (#[trigger] entries@[j]).1@ == self.entries@[j].1@,
            decreases self.entries.len() - i,
        {
            let key = self.entries[i].0;
            let value = self.entries[i].1.clone();
            entries.push((key, value));
            i = i + 1;
        }
        let r = IdMap { entries };
        proof {
            assert(r.entry_views() =~= self.entry_views());
        }
        r
    }
}

impl Clone for IdMap<Story> {
    /// An entry-wise copy; every stored story keeps its view.
    fn clone(&self) -> (r: Self)
        ensures
            r.entry_views() == self.entry_views(),
            r@ == self@,
            r.wf() == self.wf(),
    {
        let mut entries: Vec<(u32, Story)> = Vec::new();
        let mut i: usize = 0;
        while i < self.entries.len()
            invariant
                i <= self.entries.len(),
                entries@.len() == i,
                forall|j: int| 0 <= j < i ==> (#[trigger] entries@[j]).0 == self.entries@[j].0
                    && (#[trigger] entries@[j]).1@ == self.entries@[j].1@,
            decreases self.entries.len() - i,
        {
            let key = self.entries[i].0;
            let value = self.entries[i].1.clone();
            entries.push((key, value));
            i = i + 1;
        }
        let r = IdMap { entries };
        proof {
            assert(r.entry_views() =~= self.entry_views());
        }
        r
    }
}

} // verus!
