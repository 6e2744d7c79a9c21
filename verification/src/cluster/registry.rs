//! Values kept under text keys, in the order their keys first came.
use vstd::prelude::*;

verus! {

/// The keys of a list of entries, in order.
pub open spec fn keys_of<V>(s: Seq<(Seq<char>, V)>) -> Seq<Seq<char>> {
    s.map_values(|e: (Seq<char>, V)| e.0)
}

/// The value of the last entry under `k`.
pub open spec fn lookup<V>(s: Seq<(Seq<char>, V)>, k: Seq<char>) -> Option<V>
    decreases s.len(),
{
    if s.len() == 0 {
        None
    } else if s.last().0 == k {
        Some(s.last().1)
    } else {
        lookup(s.drop_last(), k)
    }
}

/// The entries as a map from key to value.
pub open spec fn as_map<V>(s: Seq<(Seq<char>, V)>) -> Map<Seq<char>, V> {
    Map::new(|k: Seq<char>| lookup(s, k) is Some, |k: Seq<char>| lookup(s, k)->0)
}

/// No key appears twice.
pub open spec fn distinct_keys<V>(s: Seq<(Seq<char>, V)>) -> bool {
    forall|i: int, j: int| 0 <= i < j < s.len() ==> #[trigger] s[i].0 != #[trigger] s[j].0
}

/// With distinct keys, an entry's key finds that entry's value.
pub proof fn lemma_lookup_index<V>(s: Seq<(Seq<char>, V)>, i: int)
    requires
        distinct_keys(s),
        0 <= i < s.len(),
    ensures
        lookup(s, s[i].0) == Some(s[i].1),
    decreases s.len(),
{
    if i < s.len() - 1 {
        assert(s[i].0 != s[s.len() - 1].0);
        assert(s.drop_last()[i] == s[i]);
        lemma_lookup_index(s.drop_last(), i);
    }
}

/// A key that no entry has finds nothing.
pub proof fn lemma_lookup_none<V>(s: Seq<(Seq<char>, V)>, k: Seq<char>)
    requires
        forall|i: int| 0 <= i < s.len() ==> (#[trigger] s[i]).0 != k,
    ensures
        lookup(s, k) is None,
    decreases s.len(),
{
    if s.len() > 0 {
        assert(s[s.len() - 1].0 != k);
        assert forall|i: int| 0 <= i < s.drop_last().len() implies (#[trigger] s.drop_last()[i]).0 != k by {
            assert(s.drop_last()[i] == s[i]);
        }
        lemma_lookup_none(s.drop_last(), k);
    }
}

/// With distinct keys, every key finds the entry that has it, or nothing.
pub proof fn lemma_lookup_all<V>(s: Seq<(Seq<char>, V)>)
    requires
        distinct_keys(s),
    ensures
        forall|i: int| 0 <= i < s.len() ==> lookup(s, (#[trigger] s[i]).0) == Some(s[i].1),
        forall|k: Seq<char>|
            (forall|i: int| 0 <= i < s.len() ==> (#[trigger] s[i]).0 != k) ==> #[trigger] lookup(s, k) is None,
{
    assert forall|i: int| 0 <= i < s.len() implies lookup(s, (#[trigger] s[i]).0) == Some(s[i].1) by {
        lemma_lookup_index(s, i);
    }
    assert forall|k: Seq<char>| (forall|i: int| 0 <= i < s.len() ==> (#[trigger] s[i]).0 != k) implies #[trigger] lookup(
        s,
        k,
    ) is None by {
        lemma_lookup_none(s, k);
    }
}

/// Values under text keys: each key once, in the order keys first came.
pub struct Registry<V> {
    entries: Vec<(String, V)>,
}

impl<V> View for Registry<V> {
    type V = Seq<(Seq<char>, V)>;

    closed spec fn view(&self) -> Seq<(Seq<char>, V)> {
        self.entries@.map_values(|e: (String, V)| (e.0@, e.1))
    }
}

impl<V> Registry<V> {
    /// Each key once.
    pub open spec fn wf(&self) -> bool {
        distinct_keys(self@)
    }

    /// No entry.
    pub fn new() -> (r: Self)
        ensures
            r.wf(),
            r@ == Seq::<(Seq<char>, V)>::empty(),
    {
        let r = Registry { entries: Vec::new() };
        assert(r@ =~= Seq::<(Seq<char>, V)>::empty());
        r
    }

    /// The number of entries.
    pub fn len(&self) -> (r: usize)
        ensures
            r == self@.len(),
    {
        self.entries.len()
    }

    /// The key and value of entry `i`.
    pub fn entry(&self, i: usize) -> (r: (&String, &V))
        requires
            i < self@.len(),
        ensures
            r.0@ == self@[i as int].0,
            *r.1 == self@[i as int].1,
    {
        let e = &self.entries[i];
        (&e.0, &e.1)
    }

    /// The value of entry `i`, to change in place; its key stays.
    pub fn value_mut(&mut self, i: usize) -> (r: &mut V)
        requires
            i < old(self)@.len(),
        ensures
            *r == old(self)@[i as int].1,
            final(self)@ == old(self)@.update(i as int, (old(self)@[i as int].0, *final(r))),
    {
        &mut self.entries[i].1
    }

    /// Where the entry under `k` stands.
    pub fn position(&self, k: &str) -> (r: Option<usize>)
        ensures
            r matches Some(i) ==> i < self@.len() && self@[i as int].0 == k@,
            r is None ==> forall|i: int| 0 <= i < self@.len() ==> (#[trigger] self@[i]).0 != k@,
    {
        let key = String::from_str(k);
        let mut i: usize = 0;
        while i < self.entries.len()
            invariant
                i <= self.entries.len(),
                key@ == k@,
                forall|j: int| 0 <= j < i ==> (#[trigger] self@[j]).0 != k@,
            decreases self.entries.len() - i,
        {
            if self.entries[i].0 == key {
                return Some(i);
            }
            i = i + 1;
        }
        None
    }

    /// The value under `k`.
    pub fn get(&self, k: &str) -> (r: Option<&V>)
        requires
            self.wf(),
        ensures
            match lookup(self@, k@) {
                Some(v) => r == Some(&v),
                None => r is None,
            },
    {
        proof {
            lemma_lookup_all(self@);
        }
        match self.position(k) {
            Some(i) => Some(&self.entries[i].1),
            None => None,
        }
    }

    /// Whether a value is kept under `k`.
    pub fn contains(&self, k: &str) -> (r: bool)
        requires
            self.wf(),
        ensures
            r == (lookup(self@, k@) is Some),
    {
        proof {
            lemma_lookup_all(self@);
        }
        self.position(k).is_some()
    }

    /// Keeps `v` under `k`, in place of the value kept there before; a new
    /// key comes last.
    pub fn insert(&mut self, k: String, v: V)
        requires
            old(self).wf(),
        ensures
            final(self).wf(),
            as_map(final(self)@) == as_map(old(self)@).insert(k@, v),
            lookup(old(self)@, k@) is Some ==> keys_of(final(self)@) == keys_of(old(self)@),
            lookup(old(self)@, k@) is None ==> keys_of(final(self)@) == keys_of(old(self)@).push(k@),
    {
        let ghost s = self@;
        proof {
            lemma_lookup_all(s);
        }
        match self.position(k.as_str()) {
            Some(i) => {
                let ghost kv = k@;
                self.entries.set(i, (k, v));
                proof {
                    assert(self@ =~= s.update(i as int, (kv, v)));
                    lemma_lookup_all(self@);
                    assert(as_map(self@) =~= as_map(s).insert(kv, v)) by {
                        assert forall|x: Seq<char>| #[trigger] lookup(self@, x) == (if x == kv {
                            Some(v)
                        } else {
                            lookup(s, x)
                        }) by {
                            if x != kv {
                                if exists|j: int| 0 <= j < s.len() && (#[trigger] s[j]).0 == x {
                                    let j = choose|j: int| 0 <= j < s.len() && (#[trigger] s[j]).0 == x;
                                    assert(self@[j] == s[j]);
                                } else {
                                    assert forall|j: int| 0 <= j < self@.len() implies (#[trigger] self@[j]).0 != x by {
                                        if j != i {
                                            assert(self@[j] == s[j]);
                                        }
                                    }
                                }
                            } else {
                                assert(self@[i as int] == (kv, v));
                            }
                        }
                    }
                    assert(keys_of(self@) =~= keys_of(s));
                }
            },
            None => {
                let ghost kv = k@;
                self.entries.push((k, v));
                proof {
                    assert(self@ =~= s.push((kv, v)));
                    assert(self@.drop_last() =~= s);
                    assert(as_map(self@) =~= as_map(s).insert(kv, v));
                    assert(keys_of(self@) =~= keys_of(s).push(kv));
                }
            },
        }
    }

    /// Takes out the value under `k`, if there is one.
    pub fn remove(&mut self, k: &str) -> (r: Option<V>)
        requires
            old(self).wf(),
        ensures
            final(self).wf(),
            r == lookup(old(self)@, k@),
            as_map(final(self)@) == as_map(old(self)@).remove(k@),
            keys_of(final(self)@).to_set() == keys_of(old(self)@).to_set().remove(k@),
    {
        let ghost s = self@;
        proof {
            lemma_lookup_all(s);
        }
        match self.position(k) {
            Some(i) => {
                let e = self.entries.remove(i);
                proof {
                    assert(self@ =~= s.remove(i as int));
                    lemma_lookup_all(self@);
                    assert(as_map(self@) =~= as_map(s).remove(k@)) by {
                        assert forall|x: Seq<char>| #[trigger] lookup(self@, x) == (if x == k@ {
                            None
                        } else {
                            lookup(s, x)
                        }) by {
                            if exists|j: int| 0 <= j < s.len() && (#[trigger] s[j]).0 == x {
                                let j = choose|j: int| 0 <= j < s.len() && (#[trigger] s[j]).0 == x;
                                if j < i {
                                    assert(self@[j] == s[j]);
                                } else if j > i {
                                    assert(self@[j - 1] == s[j]);
                                }
                            } else {
                                assert forall|j: int| 0 <= j < self@.len() implies (#[trigger] self@[j]).0 != x by {
                                    if j < i {
                                        assert(self@[j] == s[j]);
                                    } else {
                                        assert(self@[j] == s[j + 1]);
                                    }
                                }
                            }
                        }
                    }
                    assert(keys_of(self@).to_set() =~= keys_of(s).to_set().remove(k@)) by {
                        assert forall|x: Seq<char>| keys_of(self@).contains(x) implies keys_of(s).to_set().remove(
                            k@,
                        ).contains(x) by {
                            let j = choose|j: int| 0 <= j < keys_of(self@).len() && keys_of(self@)[j] == x;
                            if j < i {
                                assert(keys_of(s)[j] == x);
                            } else {
                                assert(keys_of(s)[j + 1] == x);
                            }
                        }
                        assert forall|x: Seq<char>| keys_of(s).to_set().remove(k@).contains(x) implies keys_of(
                            self@,
                        ).contains(x) by {
                            let j = choose|j: int| 0 <= j < keys_of(s).len() && keys_of(s)[j] == x;
                            if j < i {
                                assert(keys_of(self@)[j] == x);
                            } else {
                                assert(keys_of(self@)[j - 1] == x);
                            }
                        }
                    }
                }
                Some(e.1)
            },
            None => {
                proof {
                    assert(as_map(s) =~= as_map(s).remove(k@));
                    assert(keys_of(s).to_set() =~= keys_of(s).to_set().remove(k@)) by {
                        assert forall|x: Seq<char>| keys_of(s).contains(x) implies x != k@ by {
                            let j = choose|j: int| 0 <= j < keys_of(s).len() && keys_of(s)[j] == x;
                            assert(s[j].0 == x);
                        }
                    }
                }
                None
            },
        }
    }
}

} // verus!
