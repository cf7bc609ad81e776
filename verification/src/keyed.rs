//! A table of values looked up by a text key, each key at most once, kept in
//! the order in which the keys first came.
use vstd::prelude::*;

use crate::text::{text_eq, texts};

verus! {

/// `m` with each pair of `pairs` put in, one after the other.
pub open spec fn insert_all<V>(m: Map<Seq<char>, V>, pairs: Seq<(Seq<char>, V)>) -> Map<Seq<char>, V>
    decreases pairs.len(),
{
    if pairs.len() == 0 {
        m
    } else {
        insert_all(m, pairs.drop_last()).insert(pairs.last().0, pairs.last().1)
    }
}

/// Putting pairs in one after the other leaves under a key the value of its
/// last pair.
pub proof fn law_last_pair_wins<V>(m: Map<Seq<char>, V>, pairs: Seq<(Seq<char>, V)>, j: int)
    requires
        0 <= j < pairs.len(),
        forall|l: int| j < l < pairs.len() ==> pairs[l].0 != pairs[j].0,
    ensures
        insert_all(m, pairs).dom().contains(pairs[j].0),
        insert_all(m, pairs)[pairs[j].0] == pairs[j].1,
    decreases pairs.len(),
{
    let rest = pairs.drop_last();
    if j < pairs.len() - 1 {
        assert(rest[j] == pairs[j]);
        assert forall|l: int| j < l < rest.len() implies rest[l].0 != rest[j].0 by {
            assert(rest[l] == pairs[l]);
        }
        law_last_pair_wins(m, rest, j);
    }
}

/// Putting pairs in leaves a key that no pair has as it was.
pub proof fn law_other_keys_kept<V>(m: Map<Seq<char>, V>, pairs: Seq<(Seq<char>, V)>, k: Seq<char>)
    requires
        forall|l: int| 0 <= l < pairs.len() ==> pairs[l].0 != k,
    ensures
        insert_all(m, pairs).dom().contains(k) == m.dom().contains(k),
        m.dom().contains(k) ==> insert_all(m, pairs)[k] == m[k],
    decreases pairs.len(),
{
    if pairs.len() > 0 {
        let rest = pairs.drop_last();
        assert forall|l: int| 0 <= l < rest.len() implies rest[l].0 != k by {
            assert(rest[l] == pairs[l]);
        }
        law_other_keys_kept(m, rest, k);
    }
}

/// Values by text key. Each key occurs once; a later insert under a key
/// replaces the value and keeps the key's place.
#[derive(Clone)]
pub struct Keyed<V> {
    pub entries: Vec<(String, V)>,
}

impl<V> Keyed<V> {
    /// The keys, in order.
    pub open spec fn keys(self) -> Seq<Seq<char>> {
        self.entries@.map_values(|e: (String, V)| e.0@)
    }

    /// No key occurs twice.
    pub open spec fn wf(self) -> bool {
        forall|i: int, j: int|
            0 <= i < j < self.entries@.len() ==> #[trigger] self.entries@[i].0@ != #[trigger] self.entries@[j].0@
    }

    /// Whether `k` is a key.
    pub open spec fn has(self, k: Seq<char>) -> bool {
        exists|i: int| 0 <= i < self.entries@.len() && #[trigger] self.entries@[i].0@ == k
    }

    /// The place of key `k` (meaningful where `has(k)`).
    pub open spec fn index_of(self, k: Seq<char>) -> int {
        choose|i: int| 0 <= i < self.entries@.len() && #[trigger] self.entries@[i].0@ == k
    }

    /// The value under key `k` (meaningful where `has(k)`).
    pub open spec fn at(self, k: Seq<char>) -> V {
        self.entries@[self.index_of(k)].1
    }

    /// The table as a map from key to value.
    pub open spec fn view_map(self) -> Map<Seq<char>, V> {
        Map::new(|k: Seq<char>| self.has(k), |k: Seq<char>| self.at(k))
    }

    /// The place of key `k`, which is where `k` stands.
    pub proof fn lemma_index_of(self, i: int)
        requires
            self.wf(),
            0 <= i < self.entries@.len(),
        ensures
            self.has(self.entries@[i].0@),
            self.index_of(self.entries@[i].0@) == i,
            self.at(self.entries@[i].0@) == self.entries@[i].1,
    {
        let k = self.entries@[i].0@;
        assert(self.has(k));
        let j = self.index_of(k);
        if j != i {
            if j < i {
                assert(self.entries@[j].0@ != self.entries@[i].0@);
            } else {
                assert(self.entries@[i].0@ != self.entries@[j].0@);
            }
        }
    }

    /// An empty table.
    pub fn new() -> (res: Self)
        ensures
            res.wf(),
            res.entries@.len() == 0,
            res.view_map() == Map::<Seq<char>, V>::empty(),
    {
        let res = Keyed { entries: Vec::new() };
        assert(res.view_map() =~= Map::<Seq<char>, V>::empty());
        res
    }

    /// The number of keys.
    pub fn len(&self) -> (res: usize)
        ensures
            res == self.entries@.len(),
    {
        self.entries.len()
    }

    /// The place of `key`, if it is a key.
    pub fn find(&self, key: &str) -> (res: Option<usize>)
        requires
            self.wf(),
        ensures
            match res {
                Some(i) => i < self.entries@.len() && self.entries@[i as int].0@ == key@ && self.has(key@)
                    && self.index_of(key@) == i,
                None => !self.has(key@),
            },
    {
        let mut i: usize = 0;
        while i < self.entries.len()
            invariant
                self.wf(),
                i <= self.entries@.len(),
                forall|k: int| 0 <= k < i ==> self.entries@[k].0@ != key@,
            decreases self.entries@.len() - i,
        {
            if text_eq(self.entries[i].0.as_str(), key) {
                proof {
                    self.lemma_index_of(i as int);
                }
                return Some(i);
            }
            i = i + 1;
        }
        None
    }

    /// Whether `key` is a key.
    pub fn contains_key(&self, key: &str) -> (res: bool)
        requires
            self.wf(),
        ensures
            res == self.has(key@),
    {
        self.find(key).is_some()
    }

    /// The value under `key`, if any.
    pub fn get(&self, key: &str) -> (res: Option<&V>)
        requires
            self.wf(),
        ensures
            match res {
                Some(v) => self.has(key@) && *v == self.at(key@),
                None => !self.has(key@),
            },
    {
        match self.find(key) {
            Some(i) => Some(&self.entries[i].1),
            None => None,
        }
    }

    /// Puts `value` under `key`: in place of the value there, or as a new key
    /// after the others.
    pub fn insert(&mut self, key: String, value: V)
        requires
            old(self).wf(),
        ensures
            final(self).wf(),
            final(self).view_map() == old(self).view_map().insert(key@, value),
            old(self).has(key@) ==> final(self).keys() == old(self).keys(),
            !old(self).has(key@) ==> final(self).keys() == old(self).keys().push(key@),
    {
        let ghost k = key@;
        let ghost pre = *self;
        match self.find(key.as_str()) {
            Some(i) => {
                self.entries.set(i, (key, value));
                proof {
                    assert(self.wf());
                    assert(self.keys() =~= pre.keys()) by {
                        assert forall|m: int| 0 <= m < self.entries@.len() implies #[trigger] self.keys()[m]
                            == pre.keys()[m] by {}
                    }
                    self.lemma_index_of(i as int);
                    assert forall|q: Seq<char>| #[trigger] self.has(q) == pre.view_map().insert(k, value).dom().contains(q) by {
                        if self.has(q) {
                            let m = choose|m: int| 0 <= m < self.entries@.len() && #[trigger] self.entries@[m].0@ == q;
                            if m != i {
                                assert(pre.entries@[m].0@ == q);
                            }
                        }
                        if pre.has(q) {
                            let m = choose|m: int| 0 <= m < pre.entries@.len() && #[trigger] pre.entries@[m].0@ == q;
                            if m != i {
                                assert(self.entries@[m].0@ == q);
                            }
                        }
                    }
                    assert forall|q: Seq<char>| #[trigger] self.has(q) implies self.at(q) == pre.view_map().insert(k, value)[q] by {
                        let m = self.index_of(q);
                        self.lemma_index_of(m);
                        if m != i {
                            pre.lemma_index_of(m);
                        }
                    }
                    assert(self.view_map() =~= pre.view_map().insert(k, value));
                }
            }
            None => {
                self.entries.push((key, value));
                proof {
                    let n = pre.entries@.len() as int;
                    assert(self.wf()) by {
                        assert forall|a: int, b: int| 0 <= a < b < self.entries@.len() implies #[trigger] self.entries@[a].0@
                            != #[trigger] self.entries@[b].0@ by {
                            if b == n {
                                assert(pre.entries@[a].0@ != k);
                            } else {
                                assert(pre.entries@[a].0@ != pre.entries@[b].0@);
                            }
                        }
                    }
                    assert(self.keys() =~= pre.keys().push(k));
                    self.lemma_index_of(n);
                    assert forall|q: Seq<char>| #[trigger] self.has(q) == pre.view_map().insert(k, value).dom().contains(q) by {
                        if self.has(q) {
                            let m = choose|m: int| 0 <= m < self.entries@.len() && #[trigger] self.entries@[m].0@ == q;
                            if m != n {
                                assert(pre.entries@[m].0@ == q);
                            }
                        }
                        if pre.has(q) {
                            let m = choose|m: int| 0 <= m < pre.entries@.len() && #[trigger] pre.entries@[m].0@ == q;
                            assert(self.entries@[m].0@ == q);
                        }
                    }
                    assert forall|q: Seq<char>| #[trigger] self.has(q) implies self.at(q) == pre.view_map().insert(k, value)[q] by {
                        let m = self.index_of(q);
                        self.lemma_index_of(m);
                        if m != n {
                            pre.lemma_index_of(m);
                        }
                    }
                    assert(self.view_map() =~= pre.view_map().insert(k, value));
                }
            }
        }
    }

    /// The keys, in order.
    pub fn key_list(&self) -> (res: Vec<String>)
        ensures
            texts(res@) == self.keys(),
    {
        let mut res: Vec<String> = Vec::new();
        let mut i: usize = 0;
        while i < self.entries.len()
            invariant
                i <= self.entries@.len(),
                texts(res@) == self.keys().take(i as int),
            decreases self.entries@.len() - i,
        {
            res.push(self.entries[i].0.clone());
            assert(self.keys().take(i + 1) =~= self.keys().take(i as int).push(self.entries@[i as int].0@));
            assert(texts(res@) =~= self.keys().take(i + 1));
            i = i + 1;
        }
        assert(self.keys().take(i as int) =~= self.keys());
        res
    }
}

} // verus!
