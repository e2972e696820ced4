//! A small map from text keys to ids, kept as a list of distinct keys.
use vstd::prelude::*;

use crate::text::chars_eq;

verus! {

/// Ids filed under text keys; each key appears once.
#[derive(Debug)]
pub struct KeyedIds {
    pub entries: Vec<(Vec<char>, u128)>,
}

pub open spec fn has_key_at(e: Seq<(Vec<char>, u128)>, k: Seq<char>, i: int) -> bool {
    0 <= i < e.len() && e[i].0@ == k
}

pub open spec fn entries_map(e: Seq<(Vec<char>, u128)>) -> Map<Seq<char>, u128> {
    Map::new(
        |k: Seq<char>| exists|i: int| has_key_at(e, k, i),
        |k: Seq<char>| e[choose|i: int| has_key_at(e, k, i)].1,
    )
}

pub open spec fn keys_distinct(e: Seq<(Vec<char>, u128)>) -> bool {
    forall|i: int, j: int|
        0 <= i < e.len() && 0 <= j < e.len() && i != j ==> #[trigger] e[i].0@ != #[trigger] e[j].0@
}

proof fn lemma_value_at(e: Seq<(Vec<char>, u128)>, k: Seq<char>, i: int)
    requires
        keys_distinct(e),
        has_key_at(e, k, i),
    ensures
        entries_map(e).contains_key(k),
        entries_map(e)[k] == e[i].1,
{
    let j = choose|j: int| has_key_at(e, k, j);
    assert(has_key_at(e, k, j));
    assert(i == j);
}

impl View for KeyedIds {
    type V = Map<Seq<char>, u128>;

    open spec fn view(&self) -> Map<Seq<char>, u128> {
        entries_map(self.entries@)
    }
}

impl KeyedIds {

    pub open spec fn wf(&self) -> bool {
        keys_distinct(self.entries@)
    }

    pub fn new() -> (r: KeyedIds)
        ensures
            r.wf(),
            r.view() == Map::<Seq<char>, u128>::empty(),
    {
        let r = KeyedIds { entries: Vec::new() };
        assert(r.view() =~= Map::<Seq<char>, u128>::empty());
        r
    }

    fn position(&self, key: &Vec<char>) -> (r: Option<usize>)
        ensures
            match r {
                Some(i) => has_key_at(self.entries@, key@, i as int),
                None => forall|i: int| !has_key_at(self.entries@, key@, i),
            },
    {
        let mut i: usize = 0;
        while i < self.entries.len()
            invariant
                i <= self.entries@.len(),
                forall|j: int| 0 <= j < i ==> !has_key_at(self.entries@, key@, j),
            decreases self.entries.len() - i,
        {
            if chars_eq(&self.entries[i].0, key) {
                return Some(i);
            }
            i += 1;
        }
        None
    }

    /// The id under `key`.
    pub fn get(&self, key: &Vec<char>) -> (r: Option<u128>)
        requires
            self.wf(),
        ensures
            match r {
                Some(v) => self.view().contains_key(key@) && self.view()[key@] == v,
                None => !self.view().contains_key(key@),
            },
    {
        match self.position(key) {
            Some(i) => {
                proof {
                    lemma_value_at(self.entries@, key@, i as int);
                }
                Some(self.entries[i].1)
            },
            None => None,
        }
    }

    /// Files `id` under `key`, replacing what was there.
    pub fn insert(&mut self, key: Vec<char>, id: u128)
        requires
            old(self).wf(),
        ensures
            final(self).wf(),
            final(self).view() == old(self).view().insert(key@, id),
    {
        let ghost k = key@;
        match self.position(&key) {
            Some(i) => {
                self.entries.set(i, (key, id));
                proof {
                    let e = self.entries@;
                    let o = old(self).entries@;
                    assert forall|a: int, b: int|
                        0 <= a < e.len() && 0 <= b < e.len() && a != b implies #[trigger] e[a].0@
                        != #[trigger] e[b].0@ by {
                        if a == i {
                            assert(o[b].0@ != o[i as int].0@);
                        } else if b == i {
                            assert(o[a].0@ != o[i as int].0@);
                        }
                    }
                    assert forall|kk: Seq<char>| #[trigger] entries_map(e).contains_key(kk)
                        == old(self).view().insert(k, id).contains_key(kk) by {
                        if exists|j: int| has_key_at(o, kk, j) {
                            let j = choose|j: int| has_key_at(o, kk, j);
                            assert(has_key_at(e, kk, j));
                        }
                        if exists|j: int| has_key_at(e, kk, j) {
                            let j = choose|j: int| has_key_at(e, kk, j);
                            if j != i {
                                assert(has_key_at(o, kk, j));
                            }
                        }
                    }
                    assert forall|kk: Seq<char>| #[trigger] entries_map(e).contains_key(kk) implies entries_map(e)[kk]
                        == old(self).view().insert(k, id)[kk] by {
                        let j = choose|j: int| has_key_at(e, kk, j);
                        lemma_value_at(e, kk, j);
                        if kk != k {
                            assert(j != i);
                            assert(has_key_at(o, kk, j));
                            lemma_value_at(o, kk, j);
                        } else {
                            lemma_value_at(e, kk, i as int);
                        }
                    }
                    assert(entries_map(e) =~= old(self).view().insert(k, id));
                }
            },
            None => {
                self.entries.push((key, id));
                proof {
                    let e = self.entries@;
                    let o = old(self).entries@;
                    let n = o.len() as int;
                    assert forall|a: int, b: int|
                        0 <= a < e.len() && 0 <= b < e.len() && a != b implies #[trigger] e[a].0@
                        != #[trigger] e[b].0@ by {
                        if a == n {
                            assert(!has_key_at(o, k, b));
                        } else if b == n {
                            assert(!has_key_at(o, k, a));
                        }
                    }
                    assert forall|kk: Seq<char>| #[trigger] entries_map(e).contains_key(kk)
                        == old(self).view().insert(k, id).contains_key(kk) by {
                        if exists|j: int| has_key_at(o, kk, j) {
                            let j = choose|j: int| has_key_at(o, kk, j);
                            assert(has_key_at(e, kk, j));
                        }
                        if kk == k {
                            assert(has_key_at(e, kk, n));
                        }
                        if exists|j: int| has_key_at(e, kk, j) {
                            let j = choose|j: int| has_key_at(e, kk, j);
                            if j != n {
                                assert(has_key_at(o, kk, j));
                            }
                        }
                    }
                    assert forall|kk: Seq<char>| #[trigger] entries_map(e).contains_key(kk) implies entries_map(e)[kk]
                        == old(self).view().insert(k, id)[kk] by {
                        let j = choose|j: int| has_key_at(e, kk, j);
                        lemma_value_at(e, kk, j);
                        if kk != k {
                            assert(j != n);
                            assert(has_key_at(o, kk, j));
                            lemma_value_at(o, kk, j);
                        } else {
                            lemma_value_at(e, kk, n);
                        }
                    }
                    assert(entries_map(e) =~= old(self).view().insert(k, id));
                }
            },
        }
    }

    /// Files `id` under `key` unless the key is already taken.
    pub fn insert_if_absent(&mut self, key: Vec<char>, id: u128)
        requires
            old(self).wf(),
        ensures
            final(self).wf(),
            final(self).view() == if old(self).view().contains_key(key@) {
                old(self).view()
            } else {
                old(self).view().insert(key@, id)
            },
    {
        match self.get(&key) {
            Some(_) => {},
            None => self.insert(key, id),
        }
    }

    /// Removes the key and its id.
    pub fn remove(&mut self, key: &Vec<char>)
        requires
            old(self).wf(),
        ensures
            final(self).wf(),
            final(self).view() == old(self).view().remove(key@),
    {
        let ghost k = key@;
        match self.position(key) {
            Some(i) => {
                self.entries.remove(i);
                proof {
                    let e = self.entries@;
                    let o = old(self).entries@;
                    assert(e =~= o.remove(i as int));
                    assert forall|a: int, b: int|
                        0 <= a < e.len() && 0 <= b < e.len() && a != b implies #[trigger] e[a].0@
                        != #[trigger] e[b].0@ by {
                        let a2 = if a < i { a } else { a + 1 };
                        let b2 = if b < i { b } else { b + 1 };
                        assert(e[a] == o[a2] && e[b] == o[b2]);
                    }
                    assert forall|kk: Seq<char>| #[trigger] entries_map(e).contains_key(kk)
                        == old(self).view().remove(k).contains_key(kk) by {
                        if exists|j: int| has_key_at(o, kk, j) {
                            let j = choose|j: int| has_key_at(o, kk, j);
                            if kk != k {
                                assert(j != i);
                                let j2 = if j < i { j } else { j - 1 };
                                assert(has_key_at(e, kk, j2));
                            }
                        }
                        if exists|j: int| has_key_at(e, kk, j) {
                            let j = choose|j: int| has_key_at(e, kk, j);
                            let j2 = if j < i { j } else { j + 1 };
                            assert(has_key_at(o, kk, j2));
                            assert(j2 != i);
                        }
                    }
                    assert forall|kk: Seq<char>| #[trigger] entries_map(e).contains_key(kk) implies entries_map(e)[kk]
                        == old(self).view().remove(k)[kk] by {
                        let j = choose|j: int| has_key_at(e, kk, j);
                        lemma_value_at(e, kk, j);
                        let j2 = if j < i { j } else { j + 1 };
                        assert(has_key_at(o, kk, j2));
                        lemma_value_at(o, kk, j2);
                    }
                    assert(entries_map(e) =~= old(self).view().remove(k));
                }
            },
            None => {
                proof {
                    assert(!old(self).view().contains_key(k));
                    assert(old(self).view().remove(k) =~= old(self).view());
                }
            },
        }
    }
}

} // verus!
