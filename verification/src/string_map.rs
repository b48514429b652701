//! A map from owned strings to values, kept as a list of entries in insertion order.
//!
//! The registries of the host (agents, request ids, virtual machines, response channels)
//! are all keyed by strings; this type gives them one verified implementation whose
//! model is a `Map` from the key's characters to the stored value.
use vstd::prelude::*;

verus! {

pub struct StringMap<V> {
    entries: Vec<(String, V)>,
    model: Ghost<Map<Seq<char>, V>>,
}

impl<V> View for StringMap<V> {
    type V = Map<Seq<char>, V>;

    closed spec fn view(&self) -> Map<Seq<char>, V> {
        self.model@
    }
}

impl<V> StringMap<V> {
    /// The entries, in the order in which their keys were first inserted.
    pub closed spec fn spec_entries(self) -> Seq<(String, V)> {
        self.entries@
    }

    /// Well-formedness: no key occurs twice, and the model holds exactly the entries.
    pub closed spec fn wf(self) -> bool {
        &&& forall|i: int, j: int|
            0 <= i < self.entries@.len() && 0 <= j < self.entries@.len() && i != j
                ==> #[trigger] self.entries@[i].0@ != #[trigger] self.entries@[j].0@
        &&& forall|i: int|
            0 <= i < self.entries@.len() ==> {
                &&& self.model@.contains_key(#[trigger] self.entries@[i].0@)
                &&& self.model@[self.entries@[i].0@] == self.entries@[i].1
            }
        &&& forall|k: Seq<char>|
            #[trigger] self.model@.contains_key(k) ==> exists|i: int|
                0 <= i < self.entries@.len() && #[trigger] self.entries@[i].0@ == k
        &&& self.model@.dom().finite()
        &&& self.model@.dom().len() == self.entries@.len()
    }

    /// The entries are the model, listed once each.
    pub proof fn lemma_entries_are_model(self)
        requires
            self.wf(),
        ensures
            self.spec_entries().len() == self@.len(),
            forall|i: int|
                0 <= i < self.spec_entries().len() ==> {
                    &&& self@.contains_key(#[trigger] self.spec_entries()[i].0@)
                    &&& self@[self.spec_entries()[i].0@] == self.spec_entries()[i].1
                },
            forall|k: Seq<char>|
                #[trigger] self@.contains_key(k) ==> exists|i: int|
                    0 <= i < self.spec_entries().len() && #[trigger] self.spec_entries()[i].0@
                        == k,
            forall|i: int, j: int|
                0 <= i < self.spec_entries().len() && 0 <= j < self.spec_entries().len() && i
                    != j ==> #[trigger] self.spec_entries()[i].0@
                    != #[trigger] self.spec_entries()[j].0@,
    {
        assert forall|k: Seq<char>| #[trigger] self@.contains_key(k) implies exists|i: int|
            0 <= i < self.spec_entries().len() && #[trigger] self.spec_entries()[i].0@ == k by {
            let i = choose|i: int| 0 <= i < self.entries@.len() && #[trigger] self.entries@[i].0@ == k;
            assert(self.spec_entries()[i].0@ == k);
        }
    }

    /// An empty map.
    pub fn new() -> (m: Self)
        ensures
            m.wf(),
            m@ == Map::<Seq<char>, V>::empty(),
    {
        StringMap { entries: Vec::new(), model: Ghost(Map::empty()) }
    }

    /// The number of keys.
    pub fn len(&self) -> (n: usize)
        requires
            self.wf(),
        ensures
            n == self@.len(),
    {
        self.entries.len()
    }

    /// The position of `key` among the entries, if it is there.
    fn position(&self, key: &String) -> (r: Option<usize>)
        requires
            self.wf(),
        ensures
            match r {
                Some(i) => i < self.entries@.len() && self.entries@[i as int].0@ == key@,
                None => !self@.contains_key(key@),
            },
    {
        let mut i: usize = 0;
        while i < self.entries.len()
            invariant
                self.wf(),
                i <= self.entries@.len(),
                forall|j: int| 0 <= j < i ==> self.entries@[j].0@ != key@,
            decreases self.entries@.len() - i,
        {
            if self.entries[i].0 == *key {
                return Some(i);
            }
            i = i + 1;
        }
        None
    }

    /// Whether `key` is present.
    pub fn contains_key(&self, key: &str) -> (b: bool)
        requires
            self.wf(),
        ensures
            b == self@.contains_key(key@),
    {
        let k = String::from_str(key);
        self.position(&k).is_some()
    }

    /// The value stored under `key`, if any.
    pub fn get(&self, key: &str) -> (r: Option<&V>)
        requires
            self.wf(),
        ensures
            match r {
                Some(v) => self@.contains_key(key@) && *v == self@[key@],
                None => !self@.contains_key(key@),
            },
    {
        let k = String::from_str(key);
        match self.position(&k) {
            Some(i) => Some(&self.entries[i].1),
            None => None,
        }
    }

    /// Stores `value` under `key`, giving back the value that was there before.
    pub fn insert(&mut self, key: String, value: V) -> (r: Option<V>)
        requires
            old(self).wf(),
        ensures
            final(self).wf(),
            final(self)@ == old(self)@.insert(key@, value),
            match r {
                Some(v) => old(self)@.contains_key(key@) && v == old(self)@[key@],
                None => !old(self)@.contains_key(key@),
            },
    {
        let ghost k = key@;
        let ghost old_entries = self.entries@;
        match self.position(&key) {
            Some(i) => {
                let previous = self.entries.remove(i);
                self.entries.insert(i, (key, value));
                self.model = Ghost(self.model@.insert(k, value));
                proof {
                    assert(self.entries@ == old_entries.update(i as int, (self.entries@[i as int])));
                    assert forall|kk: Seq<char>| #[trigger] self.model@.contains_key(kk) implies exists|j: int|
                        0 <= j < self.entries@.len() && #[trigger] self.entries@[j].0@ == kk by {
                        if kk != k {
                            let j = choose|j: int| 0 <= j < old_entries.len() && #[trigger] old_entries[j].0@ == kk;
                            assert(self.entries@[j].0@ == kk);
                        } else {
                            assert(self.entries@[i as int].0@ == kk);
                        }
                    }
                    assert(self.model@.dom() =~= old(self).model@.dom());
                }
                Some(previous.1)
            },
            None => {
                self.entries.push((key, value));
                self.model = Ghost(self.model@.insert(k, value));
                proof {
                    assert forall|kk: Seq<char>| #[trigger] self.model@.contains_key(kk) implies exists|j: int|
                        0 <= j < self.entries@.len() && #[trigger] self.entries@[j].0@ == kk by {
                        if kk != k {
                            let j = choose|j: int| 0 <= j < old_entries.len() && #[trigger] old_entries[j].0@ == kk;
                            assert(self.entries@[j].0@ == kk);
                        } else {
                            assert(self.entries@[old_entries.len() as int].0@ == kk);
                        }
                    }
                    assert(!old(self).model@.dom().contains(k));
                }
                None
            },
        }
    }

    /// Takes the entry under `key` out of the map.
    pub fn remove(&mut self, key: &str) -> (r: Option<V>)
        requires
            old(self).wf(),
        ensures
            final(self).wf(),
            final(self)@ == old(self)@.remove(key@),
            match r {
                Some(v) => old(self)@.contains_key(key@) && v == old(self)@[key@],
                None => !old(self)@.contains_key(key@),
            },
    {
        let k = String::from_str(key);
        let ghost old_entries = self.entries@;
        match self.position(&k) {
            Some(i) => {
                let previous = self.entries.remove(i);
                self.model = Ghost(self.model@.remove(key@));
                proof {
                    assert forall|a: int, b: int|
                        0 <= a < self.entries@.len() && 0 <= b < self.entries@.len() && a != b
                        implies #[trigger] self.entries@[a].0@ != #[trigger] self.entries@[b].0@ by {
                        let oa = if a < i { a } else { a + 1 };
                        let ob = if b < i { b } else { b + 1 };
                        assert(self.entries@[a] == old_entries[oa]);
                        assert(self.entries@[b] == old_entries[ob]);
                    }
                    assert forall|a: int| 0 <= a < self.entries@.len() implies {
                        &&& self.model@.contains_key(#[trigger] self.entries@[a].0@)
                        &&& self.model@[self.entries@[a].0@] == self.entries@[a].1
                    } by {
                        let oa = if a < i { a } else { a + 1 };
                        assert(self.entries@[a] == old_entries[oa]);
                        assert(old_entries[oa].0@ != old_entries[i as int].0@);
                    }
                    assert forall|kk: Seq<char>| #[trigger] self.model@.contains_key(kk) implies exists|j: int|
                        0 <= j < self.entries@.len() && #[trigger] self.entries@[j].0@ == kk by {
                        let j = choose|j: int| 0 <= j < old_entries.len() && #[trigger] old_entries[j].0@ == kk;
                        assert(j != i);
                        if j < i {
                            assert(self.entries@[j].0@ == kk);
                        } else {
                            assert(self.entries@[j - 1].0@ == kk);
                        }
                    }
                }
                Some(previous.1)
            },
            None => {
                proof {
                    assert(self.model@.remove(key@) =~= self.model@);
                }
                None
            },
        }
    }

    /// The entries, in insertion order.
    pub fn entries(&self) -> (r: &Vec<(String, V)>)
        ensures
            r@ == self.spec_entries(),
    {
        &self.entries
    }

    /// The keys, each once, in insertion order.
    pub fn keys(&self) -> (r: Vec<String>)
        requires
            self.wf(),
        ensures
            r@.len() == self@.len(),
            forall|i: int| 0 <= i < r@.len() ==> #[trigger] r@[i] == self.spec_entries()[i].0,
            forall|i: int| 0 <= i < r@.len() ==> self@.contains_key(#[trigger] r@[i]@),
            forall|k: Seq<char>|
                #[trigger] self@.contains_key(k) ==> exists|i: int| 0 <= i < r@.len() && #[trigger] r@[i]@ == k,
    {
        let mut out: Vec<String> = Vec::new();
        let mut i: usize = 0;
        while i < self.entries.len()
            invariant
                self.wf(),
                i <= self.entries@.len(),
                out@.len() == i,
                forall|j: int| 0 <= j < i ==> #[trigger] out@[j] == self.entries@[j].0,
            decreases self.entries@.len() - i,
        {
            out.push(self.entries[i].0.clone());
            i = i + 1;
        }
        proof {
            assert forall|k: Seq<char>| #[trigger] self@.contains_key(k) implies exists|j: int|
                0 <= j < out@.len() && #[trigger] out@[j]@ == k by {
                let j = choose|j: int| 0 <= j < self.entries@.len() && #[trigger] self.entries@[j].0@ == k;
                assert(out@[j]@ == k);
            }
        }
        out
    }
}

impl StringMap<String> {
    /// Removes every entry whose value is `value`; gives back the keys that were removed,
    /// in insertion order.
    pub fn remove_entries_with_value(&mut self, value: &str) -> (removed: Vec<String>)
        requires
            old(self).wf(),
        ensures
            final(self).wf(),
            forall|k: Seq<char>|
                #[trigger] final(self)@.contains_key(k) <==> (old(self)@.contains_key(k)
                    && old(self)@[k]@ != value@),
            forall|k: Seq<char>| #[trigger] final(self)@.contains_key(k) ==> final(self)@[k] == old(self)@[k],
            forall|t: int|
                0 <= t < removed@.len() ==> old(self)@.contains_key(#[trigger] removed@[t]@)
                    && old(self)@[removed@[t]@]@ == value@,
            forall|k: Seq<char>|
                old(self)@.contains_key(k) && #[trigger] old(self)@[k]@ == value@ ==> exists|t: int|
                    0 <= t < removed@.len() && #[trigger] removed@[t]@ == k,
    {
        let target = String::from_str(value);
        let ghost old_map = self@;
        let mut removed: Vec<String> = Vec::new();
        let mut i: usize = 0;
        while i < self.entries.len()
            invariant
                self.wf(),
                self@ == old_map,
                i <= self.entries@.len(),
                target@ == value@,
                forall|t: int|
                    0 <= t < removed@.len() ==> old_map.contains_key(#[trigger] removed@[t]@)
                        && old_map[removed@[t]@]@ == value@,
                forall|j: int|
                    0 <= j < i && #[trigger] self.entries@[j].1@ == value@ ==> exists|t: int|
                        0 <= t < removed@.len() && #[trigger] removed@[t]@ == self.entries@[j].0@,
            decreases self.entries@.len() - i,
        {
            let ghost removed_before = removed@;
            if self.entries[i].1 == target {
                removed.push(self.entries[i].0.clone());
                proof {
                    assert(removed@[removed@.len() - 1]@ == self.entries@[i as int].0@);
                }
            }
            proof {
                assert forall|j: int|
                    0 <= j < i + 1 && #[trigger] self.entries@[j].1@ == value@ implies exists|t: int|
                        0 <= t < removed@.len() && #[trigger] removed@[t]@ == self.entries@[j].0@ by {
                    if j < i {
                        let t = choose|t: int|
                            0 <= t < removed_before.len() && #[trigger] removed_before[t]@
                                == self.entries@[j].0@;
                        assert(removed@[t] == removed_before[t]);
                    } else {
                        assert(removed@[removed@.len() - 1]@ == self.entries@[i as int].0@);
                    }
                }
            }
            i = i + 1;
        }
        proof {
            assert forall|k: Seq<char>|
                old_map.contains_key(k) && #[trigger] old_map[k]@ == value@ implies exists|t: int|
                    0 <= t < removed@.len() && #[trigger] removed@[t]@ == k by {
                let j = choose|j: int| 0 <= j < self.entries@.len() && #[trigger] self.entries@[j].0@ == k;
                assert(self.entries@[j].1@ == value@);
            }
        }
        let mut r: usize = 0;
        while r < removed.len()
            invariant
                self.wf(),
                r <= removed@.len(),
                forall|t: int|
                    0 <= t < removed@.len() ==> old_map.contains_key(#[trigger] removed@[t]@)
                        && old_map[removed@[t]@]@ == value@,
                forall|k: Seq<char>|
                    old_map.contains_key(k) && #[trigger] old_map[k]@ == value@ ==> exists|t: int|
                        0 <= t < removed@.len() && #[trigger] removed@[t]@ == k,
                forall|k: Seq<char>|
                    #[trigger] self@.contains_key(k) <==> (old_map.contains_key(k) && !(exists|t: int|
                        0 <= t < r && #[trigger] removed@[t]@ == k)),
                forall|k: Seq<char>| #[trigger] self@.contains_key(k) ==> self@[k] == old_map[k],
            decreases removed@.len() - r,
        {
            let ghost before = self@;
            self.remove(removed[r].as_str());
            proof {
                assert forall|k: Seq<char>|
                    #[trigger] self@.contains_key(k) <==> (old_map.contains_key(k) && !(exists|t: int|
                        0 <= t < r + 1 && #[trigger] removed@[t]@ == k)) by {
                    if k == removed@[r as int]@ {
                        assert(!self@.contains_key(k));
                    } else {
                        if (exists|t: int| 0 <= t < r + 1 && #[trigger] removed@[t]@ == k) {
                            let t = choose|t: int| 0 <= t < r + 1 && #[trigger] removed@[t]@ == k;
                            assert(t < r);
                        }
                    }
                }
            }
            r = r + 1;
        }
        proof {
            assert forall|k: Seq<char>|
                #[trigger] self@.contains_key(k) <==> (old_map.contains_key(k) && old_map[k]@ != value@) by {
                if old_map.contains_key(k) && old_map[k]@ == value@ {
                    let t = choose|t: int| 0 <= t < removed@.len() && #[trigger] removed@[t]@ == k;
                }
                if (exists|t: int| 0 <= t < removed@.len() && #[trigger] removed@[t]@ == k) {
                    let t = choose|t: int| 0 <= t < removed@.len() && #[trigger] removed@[t]@ == k;
                    assert(old_map[removed@[t]@]@ == value@);
                }
            }
        }
        removed
    }
}

} // verus!
