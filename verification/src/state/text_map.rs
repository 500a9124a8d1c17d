//! A map keyed by text, which keeps its entries in the order of their arrival.

use vstd::prelude::*;
use vstd::string::*;

use crate::text::same_text;

verus! {

/// Entries under pairwise different keys.
pub struct TextMap<V> {
    entries: Vec<(String, V)>,
}

impl<V> TextMap<V> {
    /// No two entries have the same key.
    pub closed spec fn wf(&self) -> bool {
        forall|i: int, j: int|
            #![trigger self.entries@[i], self.entries@[j]]
            0 <= i < j < self.entries@.len() ==> self.entries@[i].0@ != self.entries@[j].0@
    }

    /// The entry at place `i`.
    pub closed spec fn at(&self, i: int) -> (Seq<char>, V) {
        (self.entries@[i].0@, self.entries@[i].1)
    }

    /// The number of entries.
    pub closed spec fn size(&self) -> nat {
        self.entries@.len()
    }

    /// Some entry has this key.
    pub open spec fn holds(&self, key: Seq<char>) -> bool {
        exists|i: int| 0 <= i < self.size() && (#[trigger] self.at(i)).0 == key
    }

    /// The place of the entry with this key.
    pub open spec fn place(&self, key: Seq<char>) -> int {
        choose|i: int| 0 <= i < self.size() && (#[trigger] self.at(i)).0 == key
    }
}

impl<V> View for TextMap<V> {
    type V = Map<Seq<char>, V>;

    /// What stands under each key.
    open spec fn view(&self) -> Map<Seq<char>, V> {
        Map::new(|key: Seq<char>| self.holds(key), |key: Seq<char>| self.at(self.place(key)).1)
    }
}

/// What the entries of a map are, place by place.
pub proof fn lemma_entries<V>(m: &TextMap<V>)
    requires
        m.wf(),
    ensures
        forall|i: int|
            0 <= i < m.size() ==> m@.contains_key((#[trigger] m.at(i)).0) && m@[m.at(i).0] == m.at(
                i,
            ).1,
        forall|i: int, j: int|
            #![trigger m.at(i), m.at(j)]
            0 <= i < j < m.size() ==> m.at(i).0 != m.at(j).0,
        forall|key: Seq<char>| #[trigger]
            m@.contains_key(key) ==> exists|i: int|
                0 <= i < m.size() && (#[trigger] m.at(i)).0 == key,
{
    assert forall|i: int| 0 <= i < m.size() implies m@.contains_key((#[trigger] m.at(i)).0)
        && m@[m.at(i).0] == m.at(i).1 by {
        let key = m.at(i).0;
        assert(m.holds(key));
        let p = m.place(key);
        assert(m.entries@[p].0@ == m.entries@[i].0@);
        if p < i {
            assert(m.entries@[p].0@ != m.entries@[i].0@);
        } else if i < p {
            assert(m.entries@[i].0@ != m.entries@[p].0@);
        }
    }
    assert forall|i: int, j: int|
        #![trigger m.at(i), m.at(j)]
        0 <= i < j < m.size() implies m.at(i).0 != m.at(j).0 by {
        assert(m.entries@[i].0@ != m.entries@[j].0@);
    }
}

impl<V> TextMap<V> {
    /// A map without entries.
    pub fn new() -> (m: TextMap<V>)
        ensures
            m.wf(),
            m@ == Map::<Seq<char>, V>::empty(),
            m.size() == 0,
    {
        let m: TextMap<V> = TextMap { entries: Vec::new() };
        assert(m@ =~= Map::<Seq<char>, V>::empty());
        m
    }

    /// The number of entries.
    pub fn len(&self) -> (n: usize)
        ensures
            n == self.size(),
    {
        self.entries.len()
    }

    /// The key at place `i`.
    pub fn key_at(&self, i: usize) -> (key: &str)
        requires
            i < self.size(),
        ensures
            key@ == self.at(i as int).0,
    {
        self.entries[i].0.as_str()
    }

    /// The value at place `i`.
    pub fn value_at(&self, i: usize) -> (value: &V)
        requires
            i < self.size(),
        ensures
            *value == self.at(i as int).1,
    {
        &self.entries[i].1
    }

    /// The place of `key`, if it is there.
    fn find(&self, key: &str) -> (place: Option<usize>)
        requires
            self.wf(),
        ensures
            match place {
                Some(i) => i < self.size() && self.at(i as int).0 == key@ && self@.contains_key(
                    key@,
                ) && self@[key@] == self.at(i as int).1,
                None => !self@.contains_key(key@),
            },
    {
        let mut i: usize = 0;
        while i < self.entries.len()
            invariant
                self.wf(),
                i <= self.entries.len(),
                forall|k: int| 0 <= k < i ==> (#[trigger] self.at(k)).0 != key@,
            decreases self.entries.len() - i,
        {
            if same_text(self.entries[i].0.as_str(), key) {
                proof {
                    lemma_entries(self);
                    assert(self.at(i as int).0 == key@);
                }
                return Some(i);
            }
            assert(self.at(i as int).0 != key@);
            i += 1;
        }
        None
    }

    /// The value under `key`.
    pub fn get(&self, key: &str) -> (value: Option<&V>)
        requires
            self.wf(),
        ensures
            match value {
                Some(v) => self@.contains_key(key@) && *v == self@[key@],
                None => !self@.contains_key(key@),
            },
    {
        match self.find(key) {
            Some(i) => Some(&self.entries[i].1),
            None => None,
        }
    }

    /// Puts `value` under `key`, in place of what stood there.
    pub fn insert(&mut self, key: String, value: V)
        requires
            old(self).wf(),
        ensures
            final(self).wf(),
            final(self)@ == old(self)@.insert(key@, value),
    {
        let ghost before = *self;
        let ghost k = key@;
        match self.find(key.as_str()) {
            Some(i) => {
                self.entries.set(i, (key, value));
                proof {
                    assert forall|a: int, b: int|
                        #![trigger self.entries@[a], self.entries@[b]]
                        0 <= a < b < self.entries@.len() implies self.entries@[a].0@
                        != self.entries@[b].0@ by {
                        assert(before.at(a).0 == self.at(a).0);
                        assert(before.at(b).0 == self.at(b).0);
                        assert(before.entries@[a].0@ != before.entries@[b].0@);
                    }
                    lemma_entries(&before);
                    lemma_entries(self);
                    assert forall|x: Seq<char>| self@.contains_key(x) == before@.insert(
                        k,
                        value,
                    ).contains_key(x) by {
                        if before@.contains_key(x) {
                            let p = before.place(x);
                            assert(self.at(p).0 == x);
                        }
                        if self@.contains_key(x) {
                            let p = self.place(x);
                            assert(before.at(p).0 == x);
                        }
                    }
                    assert forall|x: Seq<char>| self@.contains_key(x) implies self@[x]
                        == before@.insert(k, value)[x] by {
                        let p = self.place(x);
                        assert(self.at(p).0 == x);
                        assert(before.at(p).0 == x);
                        if x == k {
                            assert(self.at(i as int).0 == k);
                            assert(p == i);
                        } else {
                            assert(p != i);
                            assert(self.at(p) == before.at(p));
                        }
                    }
                    assert(self@ =~= before@.insert(k, value));
                }
            },
            None => {
                self.entries.push((key, value));
                proof {
                    let n = before.size() as int;
                    lemma_entries(&before);
                    assert forall|a: int, b: int|
                        #![trigger self.entries@[a], self.entries@[b]]
                        0 <= a < b < self.entries@.len() implies self.entries@[a].0@
                        != self.entries@[b].0@ by {
                        assert(before.at(a) == self.at(a));
                        if b < n {
                            assert(before.entries@[a].0@ != before.entries@[b].0@);
                        } else {
                            assert(before@.contains_key(before.at(a).0));
                        }
                    }
                    lemma_entries(self);
                    assert forall|x: Seq<char>| self@.contains_key(x) == before@.insert(
                        k,
                        value,
                    ).contains_key(x) by {
                        if before@.contains_key(x) {
                            let p = before.place(x);
                            assert(self.at(p).0 == x);
                        }
                        if x == k {
                            assert(self.at(n).0 == x);
                        }
                        if self@.contains_key(x) {
                            let p = self.place(x);
                            if p < n {
                                assert(before.at(p).0 == x);
                            }
                        }
                    }
                    assert forall|x: Seq<char>| self@.contains_key(x) implies self@[x]
                        == before@.insert(k, value)[x] by {
                        let p = self.place(x);
                        assert(self.at(p).0 == x);
                        if p < n {
                            assert(before.at(p) == self.at(p));
                            assert(before@.contains_key(x));
                        }
                    }
                    assert(self@ =~= before@.insert(k, value));
                }
            },
        }
    }

    /// Takes the entry under `key` out and returns its value.
    pub fn remove(&mut self, key: &str) -> (value: Option<V>)
        requires
            old(self).wf(),
        ensures
            final(self).wf(),
            final(self)@ == old(self)@.remove(key@),
            match value {
                Some(v) => old(self)@.contains_key(key@) && v == old(self)@[key@],
                None => !old(self)@.contains_key(key@),
            },
    {
        let ghost before = *self;
        match self.find(key) {
            Some(i) => {
                let (_, value) = self.entries.remove(i);
                proof {
                    lemma_entries(&before);
                    assert forall|a: int|
                        0 <= a < self.size() implies #[trigger] self.at(a) == before.at(
                        if a < i {
                            a
                        } else {
                            a + 1
                        },
                    ) by {}
                    assert forall|a: int, b: int|
                        #![trigger self.entries@[a], self.entries@[b]]
                        0 <= a < b < self.entries@.len() implies self.entries@[a].0@
                        != self.entries@[b].0@ by {
                        let x = if a < i {
                            a
                        } else {
                            a + 1
                        };
                        let y = if b < i {
                            b
                        } else {
                            b + 1
                        };
                        assert(self.at(a) == before.at(x));
                        assert(self.at(b) == before.at(y));
                        assert(before.entries@[x].0@ != before.entries@[y].0@);
                    }
                    lemma_entries(self);
                    assert forall|x: Seq<char>| self@.contains_key(x) == before@.remove(
                        key@,
                    ).contains_key(x) by {
                        if before@.contains_key(x) && x != key@ {
                            let p = before.place(x);
                            assert(p != i);
                            let q = if p < i {
                                p
                            } else {
                                p - 1
                            };
                            assert(self.at(q) == before.at(p));
                        }
                        if self@.contains_key(x) {
                            let q = self.place(x);
                            let p = if q < i {
                                q
                            } else {
                                q + 1
                            };
                            assert(self.at(q) == before.at(p));
                            assert(before.at(i as int).0 == key@);
                        }
                    }
                    assert forall|x: Seq<char>| self@.contains_key(x) implies self@[x]
                        == before@.remove(key@)[x] by {
                        let q = self.place(x);
                        let p = if q < i {
                            q
                        } else {
                            q + 1
                        };
                        assert(self.at(q).0 == x);
                        assert(self.at(q) == before.at(p));
                    }
                    assert(self@ =~= before@.remove(key@));
                }
                Some(value)
            },
            None => {
                assert(self@ =~= before@.remove(key@));
                None
            },
        }
    }

    /// Takes every entry out.
    pub fn clear(&mut self)
        ensures
            final(self).wf(),
            final(self)@ == Map::<Seq<char>, V>::empty(),
            final(self).size() == 0,
    {
        self.entries.clear();
        assert(self@ =~= Map::<Seq<char>, V>::empty());
    }
}

} // verus!
