//! A map that remembers the order its keys came in.
//!
//! What it holds is few: the teams of a scoreboard, the calls in flight, the windows' values. A
//! lookup walks the entries.
use vstd::prelude::*;

use crate::words::same;

verus! {

/// What a table can be keyed by: a value that is told apart by its view alone.
pub trait Key: View {
    fn is(&self, other: &Self) -> (r: bool)
        ensures
            r == (self@ == other@),
    ;
}

impl Key for String {
    fn is(&self, other: &Self) -> (r: bool) {
        same(self.as_str(), other.as_str())
    }
}

impl Key for (String, String) {
    fn is(&self, other: &Self) -> (r: bool) {
        same(self.0.as_str(), other.0.as_str()) && same(self.1.as_str(), other.1.as_str())
    }
}

impl Key for i32 {
    fn is(&self, other: &Self) -> (r: bool) {
        *self == *other
    }
}

impl Key for u32 {
    fn is(&self, other: &Self) -> (r: bool) {
        *self == *other
    }
}

impl Key for u128 {
    fn is(&self, other: &Self) -> (r: bool) {
        *self == *other
    }
}

/// Where a key stands in a list of entries.
pub open spec fn spot<K, V>(list: Seq<(K, V)>, key: K) -> int {
    choose|i: int| 0 <= i < list.len() && (#[trigger] list[i]).0 == key
}

/// Whether a list of entries has a key.
pub open spec fn holds<K, V>(list: Seq<(K, V)>, key: K) -> bool {
    exists|i: int| 0 <= i < list.len() && (#[trigger] list[i]).0 == key
}

/// Whether no key stands in a list of entries twice.
pub open spec fn distinct<K, V>(list: Seq<(K, V)>) -> bool {
    forall|i: int, j: int| 0 <= i < j < list.len() ==> (#[trigger] list[i]).0 != (#[trigger] list[j]).0
}

/// The map that a list of entries is.
pub open spec fn map_of<K, V>(list: Seq<(K, V)>) -> Map<K, V> {
    Map::new(|k: K| holds(list, k), |k: K| list[spot(list, k)].1)
}

/// In a list without repeats each entry is what the map has under its key.
pub proof fn entry_of_the_map<K, V>(list: Seq<(K, V)>, i: int)
    requires
        distinct(list),
        0 <= i < list.len(),
    ensures
        map_of(list).dom().contains(list[i].0),
        map_of(list)[list[i].0] == list[i].1,
{
    let at = spot(list, list[i].0);
    assert(list[i].0 == list[i].0);
    assert(0 <= at < list.len() && list[at].0 == list[i].0);
    if at < i {
        assert(list[at].0 != list[i].0);
    }
    if i < at {
        assert(list[i].0 != list[at].0);
    }
}

pub struct Table<K: Key, V> {
    entries: Vec<(K, V)>,
}

impl<K: Key, V> Table<K, V> {
    /// The entries in the order their keys came.
    pub closed spec fn list(&self) -> Seq<(K::V, V)> {
        Seq::new(self.entries@.len(), |i: int| (self.entries@[i].0@, self.entries@[i].1))
    }

    #[verifier::type_invariant]
    spec fn no_key_twice(&self) -> bool {
        distinct(self.list())
    }
}

impl<K: Key, V> View for Table<K, V> {
    type V = Map<K::V, V>;

    open spec fn view(&self) -> Map<K::V, V> {
        map_of(self.list())
    }
}

impl<K: Key, V> Table<K, V> {
    pub fn new() -> (r: Table<K, V>)
        ensures
            r@ == Map::<K::V, V>::empty(),
            r.list() == Seq::<(K::V, V)>::empty(),
    {
        let r = Table { entries: Vec::new() };
        proof {
            assert(r.list() =~= Seq::empty());
            assert(r@ =~= Map::<K::V, V>::empty());
        }
        r
    }

    /// How many entries there are, no key twice.
    pub fn len(&self) -> (n: usize)
        ensures
            n == self.list().len(),
            distinct(self.list()),
    {
        proof {
            use_type_invariant(self);
        }
        self.entries.len()
    }

    /// The entry at a place of the order.
    pub fn entry(&self, i: usize) -> (r: (&K, &V))
        requires
            i < self.list().len(),
        ensures
            (r.0@, *r.1) == self.list()[i as int],
            self@.dom().contains(r.0@),
            self@[r.0@] == *r.1,
    {
        proof {
            use_type_invariant(self);
            entry_of_the_map(self.list(), i as int);
        }
        (&self.entries[i].0, &self.entries[i].1)
    }

    fn find(&self, key: &K) -> (r: Option<usize>)
        ensures
            match r {
                Some(i) => i < self.list().len() && self.list()[i as int].0 == key@,
                None => !holds(self.list(), key@),
            },
    {
        let mut i: usize = 0;
        while i < self.entries.len()
            invariant
                i <= self.entries@.len(),
                forall|k: int| 0 <= k < i ==> (#[trigger] self.list()[k]).0 != key@,
            decreases self.entries@.len() - i,
        {
            if self.entries[i].0.is(key) {
                return Some(i);
            }
            i += 1;
        }
        None
    }

    pub fn get(&self, key: &K) -> (r: Option<&V>)
        ensures
            match r {
                Some(value) => self@.dom().contains(key@) && self@[key@] == *value,
                None => !self@.dom().contains(key@),
            },
    {
        match self.find(key) {
            Some(i) => {
                proof {
                    use_type_invariant(self);
                    entry_of_the_map(self.list(), i as int);
                }
                Some(&self.entries[i].1)
            },
            None => None,
        }
    }

    pub fn contains(&self, key: &K) -> (r: bool)
        ensures
            r == self@.dom().contains(key@),
    {
        self.get(key).is_some()
    }

    /// Put a value under a key, in place of what was there.
    pub fn insert(&mut self, key: K, value: V)
        ensures
            final(self)@ == old(self)@.insert(key@, value),
    {
        proof {
            use_type_invariant(&*self);
        }
        let ghost before = self.list();
        match self.find(&key) {
            Some(i) => {
                proof {
                    let next = before.update(i as int, (key@, value));
                    assert(distinct(next)) by {
                        assert forall|a: int, b: int| 0 <= a < b < next.len() implies (
                        #[trigger] next[a]).0 != (#[trigger] next[b]).0 by {
                            assert(next[a].0 == before[a].0 && next[b].0 == before[b].0);
                        }
                    }
                    put_in_place(before, i as int, key@, value);
                    let made = Seq::new(
                        self.entries@.len(),
                        |k: int|
                            (
                                self.entries@.update(i as int, (key, value))[k].0@,
                                self.entries@.update(i as int, (key, value))[k].1,
                            ),
                    );
                    assert(made =~= next);
                }
                let mut entries: Vec<(K, V)> = Vec::new();
                core::mem::swap(&mut self.entries, &mut entries);
                entries.set(i, (key, value));
                self.entries = entries;
                proof {
                    assert(self.list() =~= before.update(i as int, (key@, value)));
                }
            },
            None => {
                proof {
                    let next = before.push((key@, value));
                    assert(distinct(next)) by {
                        assert forall|a: int, b: int| 0 <= a < b < next.len() implies (
                        #[trigger] next[a]).0 != (#[trigger] next[b]).0 by {
                            assert(next[a] == before[a]);
                            assert(holds(before, next[a].0));
                        }
                    }
                    put_behind(before, key@, value);
                    let made = Seq::new(
                        self.entries@.len() + 1,
                        |k: int|
                            (
                                self.entries@.push((key, value))[k].0@,
                                self.entries@.push((key, value))[k].1,
                            ),
                    );
                    assert(made =~= next);
                }
                let mut entries: Vec<(K, V)> = Vec::new();
                core::mem::swap(&mut self.entries, &mut entries);
                entries.push((key, value));
                self.entries = entries;
                proof {
                    assert(self.list() =~= before.push((key@, value)));
                }
            },
        }
    }

    /// Take the entry at a place out.
    pub fn remove_at(&mut self, i: usize) -> (r: (K, V))
        requires
            i < old(self).list().len(),
        ensures
            (r.0@, r.1) == old(self).list()[i as int],
            final(self).list() == old(self).list().remove(i as int),
            final(self)@ == old(self)@.remove(r.0@),
    {
        proof {
            use_type_invariant(&*self);
            let before = self.list();
            let next = before.remove(i as int);
            assert(distinct(next));
            taken_out(before, i as int);
            let made = Seq::new(
                (self.entries@.len() - 1) as nat,
                |k: int|
                    (
                        self.entries@.remove(i as int)[k].0@,
                        self.entries@.remove(i as int)[k].1,
                    ),
            );
            assert(made =~= next);
        }
        let ghost before = self.list();
        let mut entries: Vec<(K, V)> = Vec::new();
        core::mem::swap(&mut self.entries, &mut entries);
        let r = entries.remove(i);
        self.entries = entries;
        proof {
            assert(self.list() =~= before.remove(i as int));
        }
        r
    }

    /// Take what is under a key out.
    pub fn remove(&mut self, key: &K) -> (r: Option<V>)
        ensures
            final(self)@ == old(self)@.remove(key@),
            match r {
                Some(value) => old(self)@.dom().contains(key@) && old(self)@[key@] == value,
                None => !old(self)@.dom().contains(key@),
            },
    {
        match self.find(key) {
            Some(i) => {
                proof {
                    use_type_invariant(&*self);
                    entry_of_the_map(self.list(), i as int);
                }
                let (_, value) = self.remove_at(i);
                Some(value)
            },
            None => {
                proof {
                    assert(self@.remove(key@) =~= self@);
                }
                None
            },
        }
    }

    pub fn clear(&mut self)
        ensures
            final(self)@ == Map::<K::V, V>::empty(),
            final(self).list() == Seq::<(K::V, V)>::empty(),
    {
        self.entries = Vec::new();
        proof {
            assert(self.list() =~= Seq::empty());
            assert(self@ =~= Map::<K::V, V>::empty());
        }
    }

    /// Keep the entries that `keep` says yes to, which is what `wanted` says.
    pub(crate) fn retain<F: Fn(&K, &V) -> bool>(
        &mut self,
        keep: F,
        Ghost(wanted): Ghost<spec_fn(K::V, V) -> bool>,
    )
        requires
            forall|k: &K, v: &V| keep.requires((k, v)),
            forall|k: &K, v: &V, b: bool| keep.ensures((k, v), b) ==> b == wanted(k@, *v),
        ensures
            final(self)@ == kept_only(old(self)@, wanted),
    {
        let ghost first = self@;
        let mut i: usize = 0;
        proof {
            use_type_invariant(&*self);
            assert(self@ =~= first);
        }
        while i < self.entries.len()
            invariant
                i <= self.entries@.len(),
                forall|k: &K, v: &V| keep.requires((k, v)),
                forall|k: &K, v: &V, b: bool| keep.ensures((k, v), b) ==> b == wanted(k@, *v),
                kept_only(self@, wanted) == kept_only(first, wanted),
                forall|k: int|
                    0 <= k < i ==> wanted((#[trigger] self.list()[k]).0, self.list()[k].1),
            decreases self.entries@.len() - i,
        {
            proof {
                use_type_invariant(&*self);
                entry_of_the_map(self.list(), i as int);
            }
            if keep(&self.entries[i].0, &self.entries[i].1) {
                i += 1;
            } else {
                let ghost before = self@;
                let ghost list = self.list();
                self.remove_at(i);
                proof {
                    assert(self.list().len() == list.len() - 1);
                    assert(kept_only(self@, wanted) =~= kept_only(before, wanted));
                }
            }
        }
        proof {
            use_type_invariant(&*self);
            assert forall|k: K::V| self@.dom().contains(k) implies wanted(k, self@[k]) by {
                let at = spot(self.list(), k);
                assert(self.list()[at].0 == k);
            }
            assert(kept_only(self@, wanted) =~= self@);
        }
    }
}

/// The entries of a map that are wanted.
pub open spec fn kept_only<K, V>(map: Map<K, V>, wanted: spec_fn(K, V) -> bool) -> Map<K, V> {
    Map::new(|k: K| map.dom().contains(k) && wanted(k, map[k]), |k: K| map[k])
}

proof fn put_in_place<K, V>(list: Seq<(K, V)>, i: int, key: K, value: V)
    requires
        distinct(list),
        0 <= i < list.len(),
        list[i].0 == key,
        distinct(list.update(i, (key, value))),
    ensures
        map_of(list.update(i, (key, value))) == map_of(list).insert(key, value),
{
    let next = list.update(i, (key, value));
    assert forall|k: K| holds(next, k) == map_of(list).insert(key, value).dom().contains(k) by {
        if holds(next, k) {
            let at = spot(next, k);
            assert(list[at].0 == k);
        }
        if holds(list, k) {
            let at = spot(list, k);
            assert(next[at].0 == k);
        }
        if k == key {
            assert(next[i].0 == k);
        }
    }
    assert forall|k: K| holds(next, k) implies map_of(next)[k] == map_of(list).insert(key, value)[k] by {
        let at = spot(next, k);
        entry_of_the_map(next, at);
        entry_of_the_map(list, at);
        entry_of_the_map(next, i);
    }
    assert(map_of(next) =~= map_of(list).insert(key, value));
}

proof fn put_behind<K, V>(list: Seq<(K, V)>, key: K, value: V)
    requires
        distinct(list),
        !holds(list, key),
        distinct(list.push((key, value))),
    ensures
        map_of(list.push((key, value))) == map_of(list).insert(key, value),
{
    let next = list.push((key, value));
    assert forall|k: K| holds(next, k) == map_of(list).insert(key, value).dom().contains(k) by {
        if holds(next, k) {
            let at = spot(next, k);
            if at < list.len() {
                assert(list[at].0 == k);
            }
        }
        if holds(list, k) {
            let at = spot(list, k);
            assert(next[at].0 == k);
        }
        assert(next[list.len() as int].0 == key);
    }
    assert forall|k: K| holds(next, k) implies map_of(next)[k] == map_of(list).insert(key, value)[k] by {
        let at = spot(next, k);
        entry_of_the_map(next, at);
        if at < list.len() {
            entry_of_the_map(list, at);
            assert(holds(list, k));
        }
    }
    assert(map_of(next) =~= map_of(list).insert(key, value));
}

proof fn taken_out<K, V>(list: Seq<(K, V)>, i: int)
    requires
        distinct(list),
        0 <= i < list.len(),
        distinct(list.remove(i)),
    ensures
        map_of(list.remove(i)) == map_of(list).remove(list[i].0),
{
    let next = list.remove(i);
    let key = list[i].0;
    assert forall|k: K| holds(next, k) == map_of(list).remove(key).dom().contains(k) by {
        if holds(next, k) {
            let at = spot(next, k);
            let there = if at < i {
                at
            } else {
                at + 1
            };
            assert(list[there].0 == k);
            assert(there < i || i < there);
        }
        if holds(list, k) && k != key {
            let at = spot(list, k);
            assert(list[at].0 == k);
            let there = if at < i {
                at
            } else {
                at - 1
            };
            assert(next[there].0 == k);
        }
    }
    assert forall|k: K| holds(next, k) implies map_of(next)[k] == map_of(list).remove(key)[k] by {
        let at = spot(next, k);
        entry_of_the_map(next, at);
        entry_of_the_map(
            list,
            if at < i {
                at
            } else {
                at + 1
            },
        );
    }
    assert(map_of(next) =~= map_of(list).remove(key));
}

} // verus!
