use vstd::prelude::*;

verus! {

/// Does a key-value pair sequence hold `k` among its keys?
pub open spec fn pairs_contains_key<T>(ps: Seq<(Seq<char>, T)>, k: Seq<char>) -> bool {
    exists|i: int| 0 <= i < ps.len() && (#[trigger] ps[i]).0 == k
}

pub open spec fn pairs_index_of<T>(ps: Seq<(Seq<char>, T)>, k: Seq<char>) -> int {
    choose|i: int| 0 <= i < ps.len() && (#[trigger] ps[i]).0 == k
}

/// Insert with overwrite on a key-value pair sequence: an existing key keeps
/// its place and gets the new value, a fresh key goes to the end.
pub open spec fn pairs_upsert<T>(ps: Seq<(Seq<char>, T)>, k: Seq<char>, v: T) -> Seq<
    (Seq<char>, T),
> {
    if pairs_contains_key(ps, k) {
        ps.update(pairs_index_of(ps, k), (k, v))
    } else {
        ps.push((k, v))
    }
}

/// An association list from `String` keys to values, standing in for a hash
/// map keyed by name: the key order is the insertion order, a key occurs at
/// most once (`wf`), and inserting an existing key overwrites its value.
#[derive(Debug, PartialEq)]
pub struct KeyedMap<V> {
    pub entries: Vec<(String, V)>,
}

impl<V: View> View for KeyedMap<V> {
    type V = Seq<(Seq<char>, V::V)>;

    open spec fn view(&self) -> Seq<(Seq<char>, V::V)> {
        self.pair_view_seq()
    }
}

impl<V: View> KeyedMap<V> {
    /// The keys, in insertion order.
    pub open spec fn key_seq(self) -> Seq<Seq<char>> {
        self.entries@.map_values(|p: (String, V)| p.0@)
    }

    /// The entries, as views, in insertion order.
    pub open spec fn pair_view_seq(self) -> Seq<(Seq<char>, V::V)> {
        self.entries@.map_values(|p: (String, V)| (p.0@, p.1@))
    }

    pub open spec fn dom(self) -> Set<Seq<char>> {
        self.key_seq().to_set()
    }

    pub open spec fn spec_len(self) -> nat {
        self.entries@.len()
    }

    /// Every key occurs at most once.
    pub open spec fn wf(self) -> bool {
        forall|i: int, j: int|
            0 <= i < j < self.spec_len() ==> #[trigger] self.key_seq()[i] != #[trigger] self.key_seq()[j]
    }

    pub open spec fn index_of(self, k: Seq<char>) -> int {
        choose|i: int| 0 <= i < self.spec_len() && self.key_seq()[i] == k
    }

    pub open spec fn spec_value(self, k: Seq<char>) -> V::V {
        self.entries@[self.index_of(k)].1@
    }

    /// The contents as a mathematical map from key to value view.
    pub open spec fn as_map(self) -> Map<Seq<char>, V::V> {
        Map::new(|k: Seq<char>| self.dom().contains(k), |k: Seq<char>| self.spec_value(k))
    }

    proof fn lemma_dom_index(self, k: Seq<char>)
        ensures
            self.dom().contains(k) <==> exists|i: int|
                0 <= i < self.spec_len() && #[trigger] self.key_seq()[i] == k,
            self.dom().contains(k) ==> {
                &&& 0 <= self.index_of(k) < self.spec_len()
                &&& self.key_seq()[self.index_of(k)] == k
            },
    {
        assert(self.dom().contains(k) <==> self.key_seq().contains(k));
        if self.key_seq().contains(k) {
            let i = choose|i: int| 0 <= i < self.key_seq().len() && self.key_seq()[i] == k;
            assert(0 <= self.index_of(k) < self.spec_len() && self.key_seq()[self.index_of(k)] == k);
        }
    }

    pub fn new() -> (r: Self)
        ensures
            r.wf(),
            r.spec_len() == 0,
            r.as_map() == Map::<Seq<char>, V::V>::empty(),
            r.key_seq() == Seq::<Seq<char>>::empty(),
    {
        let r = KeyedMap { entries: Vec::new() };
        proof {
            assert(r.key_seq() =~= Seq::<Seq<char>>::empty());
            assert(r.as_map() =~= Map::<Seq<char>, V::V>::empty());
        }
        r
    }

    pub fn len(&self) -> (r: usize)
        ensures
            r == self.spec_len(),
    {
        self.entries.len()
    }

    /// The index of `key` among the entries, if it is present.
    fn find(&self, key: &String) -> (r: Option<usize>)
        ensures
            match r {
                Some(i) => i < self.spec_len() && self.key_seq()[i as int] == key@,
                None => !self.dom().contains(key@),
            },
    {
        let mut i: usize = 0;
        while i < self.entries.len()
            invariant
                0 <= i <= self.spec_len(),
                forall|j: int| 0 <= j < i ==> #[trigger] self.key_seq()[j] != key@,
            decreases self.spec_len() - i,
        {
            if self.entries[i].0 == *key {
                assert(self.key_seq()[i as int] == key@);
                return Some(i);
            }
            i += 1;
        }
        proof {
            self.lemma_dom_index(key@);
        }
        None
    }

    pub fn contains_key(&self, key: &String) -> (r: bool)
        ensures
            r == self.dom().contains(key@),
    {
        proof {
            self.lemma_dom_index(key@);
        }
        self.find(key).is_some()
    }

    pub fn get(&self, key: &String) -> (r: Option<&V>)
        requires
            self.wf(),
        ensures
            match r {
                Some(v) => self.dom().contains(key@) && v@ == self.as_map()[key@],
                None => !self.dom().contains(key@),
            },
    {
        proof {
            self.lemma_dom_index(key@);
        }
        match self.find(key) {
            Some(i) => {
                proof {
                    let j = self.index_of(key@);
                    assert(self.key_seq()[j] == key@ && self.key_seq()[i as int] == key@);
                    assert(j == i as int);
                }
                Some(&self.entries[i].1)
            }
            None => None,
        }
    }

    /// Insert with overwrite: the last write for a key wins; a fresh key goes
    /// to the end of the order.
    pub fn insert(&mut self, key: String, value: V)
        requires
            old(self).wf(),
        ensures
            final(self).wf(),
            final(self).as_map() == old(self).as_map().insert(key@, value@),
            final(self).key_seq() == if old(self).dom().contains(key@) {
                old(self).key_seq()
            } else {
                old(self).key_seq().push(key@)
            },
            final(self).dom() == old(self).dom().insert(key@),
            final(self).pair_view_seq() == pairs_upsert(old(self).pair_view_seq(), key@, value@),
            forall|j: int| 0 <= j < final(self).entries@.len() ==> ((
            #[trigger] final(self).entries@[j]).1 == value || (j < old(self).entries@.len()
                && final(self).entries@[j].1 == old(self).entries@[j].1)),
    {
        proof {
            old(self).lemma_dom_index(key@);
            assert forall|k: Seq<char>|
                pairs_contains_key(old(self).pair_view_seq(), k) implies old(self).dom().contains(
                k,
            ) by {
                let n = pairs_index_of(old(self).pair_view_seq(), k);
                assert(old(self).key_seq()[n] == k);
            }
            assert forall|k: Seq<char>|
                old(self).dom().contains(k) implies pairs_contains_key(
                old(self).pair_view_seq(),
                k,
            ) by {
                old(self).lemma_dom_index(k);
                let n = old(self).index_of(k);
                assert(old(self).pair_view_seq()[n].0 == k);
            }
        }
        let found = self.find(&key);
        match found {
            Some(i) => {
                self.entries[i] = (key, value);
                proof {
                    let ghost o = *old(self);
                    assert(self.key_seq() =~= o.key_seq());
                    assert(self.dom() =~= o.dom().insert(key@));
                    self.lemma_dom_index(key@);
                    assert forall|k: Seq<char>| self.dom().contains(k) implies
                        self.spec_value(k) == o.as_map().insert(key@, value@)[k] by {
                        self.lemma_dom_index(k);
                        o.lemma_dom_index(k);
                        let n = self.index_of(k);
                        if k == key@ {
                            assert(n == i as int);
                        } else {
                            assert(n != i as int);
                            assert(o.index_of(k) == n);
                        }
                    }
                    assert(self.as_map() =~= o.as_map().insert(key@, value@));
                    let pv = o.pair_view_seq();
                    assert(pv[i as int].0 == key@);
                    let n = pairs_index_of(pv, key@);
                    assert(pv[n].0 == key@);
                    assert(o.key_seq()[n] == key@ && o.key_seq()[i as int] == key@);
                    assert(n == i as int);
                    assert(self.pair_view_seq() =~= pv.update(i as int, (key@, value@)));
                }
            }
            None => {
                let ghost o = *old(self);
                self.entries.push((key, value));
                proof {
                    assert(self.key_seq() =~= o.key_seq().push(key@));
                    assert forall|k: Seq<char>| self.dom().contains(k) implies o.dom().insert(
                        key@,
                    ).contains(k) by {
                        let n = choose|n: int|
                            0 <= n < self.key_seq().len() && self.key_seq()[n] == k;
                        if n < o.spec_len() {
                            assert(o.key_seq()[n] == k);
                        }
                    }
                    assert forall|k: Seq<char>| o.dom().insert(key@).contains(k) implies
                        self.dom().contains(k) by {
                        if k == key@ {
                            assert(self.key_seq()[o.spec_len() as int] == k);
                        } else {
                            let n = choose|n: int|
                                0 <= n < o.key_seq().len() && o.key_seq()[n] == k;
                            assert(self.key_seq()[n] == k);
                        }
                    }
                    assert(self.dom() =~= o.dom().insert(key@));
                    assert(self.wf());
                    self.lemma_dom_index(key@);
                    assert forall|k: Seq<char>| self.dom().contains(k) implies
                        self.spec_value(k) == o.as_map().insert(key@, value@)[k] by {
                        self.lemma_dom_index(k);
                        o.lemma_dom_index(k);
                        let n = self.index_of(k);
                        if k == key@ {
                            assert(n == o.spec_len() as int);
                        } else {
                            assert(n < o.spec_len());
                            assert(o.index_of(k) == n);
                        }
                    }
                    assert(self.as_map() =~= o.as_map().insert(key@, value@));
                    assert(!pairs_contains_key(o.pair_view_seq(), key@));
                    assert(self.pair_view_seq() =~= o.pair_view_seq().push((key@, value@)));
                }
            }
        }
    }

    pub fn key_at(&self, i: usize) -> (r: &String)
        requires
            i < self.spec_len(),
        ensures
            r@ == self.key_seq()[i as int],
    {
        &self.entries[i].0
    }

    pub fn value_at(&self, i: usize) -> (r: &V)
        requires
            i < self.spec_len(),
        ensures
            *r == self.entries@[i as int].1,
    {
        &self.entries[i].1
    }

    /// Exchange the value at position `i` for another, keeping its key, and
    /// hand the old value out.
    pub fn swap_value_at(&mut self, i: usize, value: V) -> (r: V)
        requires
            i < old(self).spec_len(),
        ensures
            r == old(self).entries@[i as int].1,
            final(self).spec_len() == old(self).spec_len(),
            final(self).entries@ == old(self).entries@.update(
                i as int,
                (old(self).entries@[i as int].0, value),
            ),
            final(self).key_seq() == old(self).key_seq(),
            final(self).dom() == old(self).dom(),
            final(self).pair_view_seq() == old(self).pair_view_seq().update(
                i as int,
                (old(self).key_seq()[i as int], value@),
            ),
            old(self).wf() ==> final(self).wf(),
    {
        let (k, old_value) = self.entries.remove(i);
        self.entries.insert(i, (k, value));
        proof {
            let ghost o = *old(self);
            assert(self.entries@ =~= o.entries@.update(i as int, (o.entries@[i as int].0, value)));
            assert(self.key_seq() =~= o.key_seq());
            assert(self.dom() =~= o.dom());
            assert(self.pair_view_seq() =~= o.pair_view_seq().update(
                i as int,
                (o.key_seq()[i as int], value@),
            ));
        }
        old_value
    }

    /// Replace the value at position `i`, keeping its key.
    pub fn set_value_at(&mut self, i: usize, value: V)
        requires
            old(self).wf(),
            i < old(self).spec_len(),
        ensures
            final(self).wf(),
            final(self).spec_len() == old(self).spec_len(),
            final(self).key_seq() == old(self).key_seq(),
            final(self).dom() == old(self).dom(),
            final(self).entries@ == old(self).entries@.update(
                i as int,
                (old(self).entries@[i as int].0, value),
            ),
            final(self).as_map() == old(self).as_map().insert(old(self).key_seq()[i as int], value@),
            final(self).pair_view_seq() == old(self).pair_view_seq().update(
                i as int,
                (old(self).key_seq()[i as int], value@),
            ),
    {
        let k = self.entries[i].0.clone();
        self.entries[i] = (k, value);
        proof {
            let ghost o = *old(self);
            assert(self.key_seq() =~= o.key_seq());
            assert(self.dom() =~= o.dom());
            let ki = o.key_seq()[i as int];
            assert(self.dom().contains(ki));
            assert forall|k2: Seq<char>| self.dom().contains(k2) implies
                self.spec_value(k2) == o.as_map().insert(ki, value@)[k2] by {
                self.lemma_dom_index(k2);
                o.lemma_dom_index(k2);
                let n = self.index_of(k2);
                if k2 == ki {
                    assert(n == i as int);
                } else {
                    assert(n != i as int);
                    assert(o.index_of(k2) == n);
                }
            }
            assert(self.as_map() =~= o.as_map().insert(ki, value@));
            assert(self.pair_view_seq() =~= o.pair_view_seq().update(i as int, (ki, value@)));
        }
    }
}

} // verus!
