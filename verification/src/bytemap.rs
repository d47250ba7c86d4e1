//! A map from byte strings to values, kept as a list without repeated keys.

use crate::text::eq_bytes;
use vstd::prelude::*;

verus! {

/// A finite map keyed by byte strings.
pub struct ByteMap<V> {
    pub entries: Vec<(Vec<u8>, V)>,
}

impl<V> ByteMap<V> {
    /// No key occurs twice.
    pub open spec fn wf(&self) -> bool {
        forall|i: int, j: int|
            0 <= i < j < self.entries@.len() ==> (#[trigger] self.entries@[i]).0@ != (
            #[trigger] self.entries@[j]).0@
    }

    /// Whether `key` is mapped.
    pub open spec fn has(&self, key: Seq<u8>) -> bool {
        exists|i: int| 0 <= i < self.entries@.len() && (#[trigger] self.entries@[i]).0@ == key
    }

    /// The place of `key` in the list.
    pub open spec fn place(&self, key: Seq<u8>) -> int {
        choose|i: int| 0 <= i < self.entries@.len() && (#[trigger] self.entries@[i]).0@ == key
    }

    /// The value that `key` is mapped to.
    pub open spec fn value(&self, key: Seq<u8>) -> V {
        self.entries@[self.place(key)].1
    }

    /// The map that the list spells.
    pub open spec fn map(&self) -> Map<Seq<u8>, V> {
        Map::new(|k: Seq<u8>| self.has(k), |k: Seq<u8>| self.value(k))
    }

    /// The empty map.
    pub fn new() -> (m: ByteMap<V>)
        ensures
            m.wf(),
            m.map() == Map::<Seq<u8>, V>::empty(),
    {
        let m = ByteMap { entries: Vec::new() };
        assert(m.map() =~= Map::<Seq<u8>, V>::empty());
        m
    }

    /// In a list without repeated keys, a key stands at one place only.
    pub proof fn lemma_place(&self, i: int)
        requires
            self.wf(),
            0 <= i < self.entries@.len(),
        ensures
            self.has(self.entries@[i].0@),
            self.place(self.entries@[i].0@) == i,
            self.value(self.entries@[i].0@) == self.entries@[i].1,
    {
        let key = self.entries@[i].0@;
        let p = self.place(key);
        if p < i {
            assert(self.entries@[p].0@ != self.entries@[i].0@);
        }
        if i < p {
            assert(self.entries@[i].0@ != self.entries@[p].0@);
        }
    }

    /// The place of `key`, if it is mapped.
    pub fn index_of(&self, key: &[u8]) -> (at: Option<usize>)
        requires
            self.wf(),
        ensures
            match at {
                Some(i) => i < self.entries@.len() && self.entries@[i as int].0@ == key@
                    && self.has(key@) && self.place(key@) == i,
                None => !self.has(key@),
            },
    {
        let mut i: usize = 0;
        while i < self.entries.len()
            invariant
                self.wf(),
                i <= self.entries@.len(),
                forall|k: int| 0 <= k < i ==> (#[trigger] self.entries@[k]).0@ != key@,
            decreases self.entries@.len() - i,
        {
            if eq_bytes(self.entries[i].0.as_slice(), key) {
                proof {
                    self.lemma_place(i as int);
                }
                return Some(i);
            }
            i += 1;
        }
        None
    }

    /// Whether `key` is mapped.
    pub fn contains_key(&self, key: &[u8]) -> (b: bool)
        requires
            self.wf(),
        ensures
            b == self.map().contains_key(key@),
    {
        self.index_of(key).is_some()
    }

    /// The value that `key` is mapped to, if it is mapped.
    pub fn get(&self, key: &[u8]) -> (v: Option<&V>)
        requires
            self.wf(),
        ensures
            match v {
                Some(x) => self.map().contains_key(key@) && *x == self.map()[key@],
                None => !self.map().contains_key(key@),
            },
    {
        match self.index_of(key) {
            Some(i) => Some(&self.entries[i].1),
            None => None,
        }
    }

    /// Maps `key` to `value`, in place of what it was mapped to.
    pub fn insert(&mut self, key: Vec<u8>, value: V) -> (old_value: Option<V>)
        requires
            old(self).wf(),
        ensures
            final(self).wf(),
            final(self).map() == old(self).map().insert(key@, value),
            match old_value {
                Some(x) => old(self).map().contains_key(key@) && x == old(self).map()[key@],
                None => !old(self).map().contains_key(key@),
            },
    {
        let ghost before = *self;
        let found = self.index_of(key.as_slice());
        let old_value = match found {
            Some(i) => {
                let removed = self.entries.remove(i);
                proof {
                    assert forall|a: int, b: int| 0 <= a < b < self.entries@.len() implies (
                    #[trigger] self.entries@[a]).0@ != (#[trigger] self.entries@[b]).0@ by {
                        let a0 = if a < i {
                            a
                        } else {
                            a + 1
                        };
                        let b0 = if b < i {
                            b
                        } else {
                            b + 1
                        };
                        assert(self.entries@[a] == before.entries@[a0]);
                        assert(self.entries@[b] == before.entries@[b0]);
                    }
                    assert forall|k: int| 0 <= k < self.entries@.len() implies (
                    #[trigger] self.entries@[k]).0@ != key@ by {
                        let k0 = if k < i {
                            k
                        } else {
                            k + 1
                        };
                        assert(self.entries@[k] == before.entries@[k0]);
                        if k0 < i {
                            assert(before.entries@[k0].0@ != before.entries@[i as int].0@);
                        } else {
                            assert(before.entries@[i as int].0@ != before.entries@[k0].0@);
                        }
                    }
                }
                Some(removed.1)
            },
            None => None,
        };
        let ghost middle = *self;
        self.entries.push((key, value));
        proof {
            let n = middle.entries@.len() as int;
            assert(self.wf()) by {
                assert forall|a: int, b: int| 0 <= a < b < self.entries@.len() implies (
                #[trigger] self.entries@[a]).0@ != (#[trigger] self.entries@[b]).0@ by {
                    assert(self.entries@[a] == middle.entries@[a]);
                    if b < n {
                        assert(self.entries@[b] == middle.entries@[b]);
                    }
                }
            }
            let target = before.map().insert(key@, value);
            assert forall|k: Seq<u8>| self.map().contains_key(k) == target.contains_key(k) by {
                if k == key@ {
                    assert(self.entries@[n].0@ == k);
                } else {
                    if before.has(k) {
                        let p = before.place(k);
                        let q = match found {
                            Some(i) => if p < i {
                                p
                            } else {
                                p - 1
                            },
                            None => p,
                        };
                        assert(self.entries@[q] == before.entries@[p]);
                    }
                    if self.has(k) {
                        let q = self.place(k);
                        let p = match found {
                            Some(i) => if q < i {
                                q
                            } else {
                                q + 1
                            },
                            None => q,
                        };
                        assert(before.entries@[p] == self.entries@[q]);
                    }
                }
            }
            assert forall|k: Seq<u8>| self.map().contains_key(k) implies self.map()[k]
                == target[k] by {
                let q = self.place(k);
                self.lemma_place(q);
                if k == key@ {
                    self.lemma_place(n);
                } else {
                    let p = match found {
                        Some(i) => if q < i {
                            q
                        } else {
                            q + 1
                        },
                        None => q,
                    };
                    assert(before.entries@[p] == self.entries@[q]);
                    before.lemma_place(p);
                }
            }
            assert(self.map() =~= target);
        }
        old_value
    }
}

} // verus!
