use vstd::prelude::*;

verus! {

/// A map keyed by strings.  Entries are kept in the order in which their keys
/// were first inserted, and no key occurs twice.
#[derive(Debug)]
pub struct StrMap<V> {
    entries: Vec<(String, V)>,
}

spec fn keys_of<V>(entries: Seq<(String, V)>) -> Seq<Seq<char>> {
    Seq::new(entries.len(), |i: int| entries[i].0@)
}

impl<V> StrMap<V> {
    /// The keys, in insertion order.
    pub closed spec fn keys_seq(&self) -> Seq<Seq<char>> {
        keys_of(self.entries@)
    }

    #[verifier::type_invariant]
    closed spec fn keys_unique(&self) -> bool {
        self.keys_seq().no_duplicates()
    }

    closed spec fn as_map(&self) -> Map<Seq<char>, V> {
        Map::new(
            |k: Seq<char>| self.keys_seq().contains(k),
            |k: Seq<char>| self.entries@[self.keys_seq().index_of(k)].1,
        )
    }

    proof fn lemma_entry(&self, i: int)
        requires
            self.keys_unique(),
            0 <= i < self.entries@.len(),
        ensures
            self.as_map().contains_key(self.entries@[i].0@),
            self.as_map()[self.entries@[i].0@] == self.entries@[i].1,
    {
        let k = self.entries@[i].0@;
        assert(self.keys_seq()[i] == k);
        let j = self.keys_seq().index_of(k);
        assert(self.keys_seq()[j] == k);
    }

    proof fn lemma_absent(&self, k: Seq<char>)
        requires
            forall|i: int| 0 <= i < self.entries@.len() ==> self.entries@[i].0@ != k,
        ensures
            !self.as_map().contains_key(k),
    {
        if self.keys_seq().contains(k) {
            let j = choose|j: int| 0 <= j < self.keys_seq().len() && self.keys_seq()[j] == k;
            assert(self.entries@[j].0@ == k);
        }
    }

    /// An empty map.
    pub fn new() -> (m: Self)
        ensures
            m@ == Map::<Seq<char>, V>::empty(),
            m.keys_seq() == Seq::<Seq<char>>::empty(),
    {
        let m = StrMap { entries: Vec::new() };
        assert(m.as_map() =~= Map::<Seq<char>, V>::empty());
        assert(m.keys_seq() =~= Seq::<Seq<char>>::empty());
        m
    }

    /// Every key of the map occurs once in `keys_seq`, and nothing else does.
    pub proof fn lemma_keys(self)
        ensures
            forall|k: Seq<char>| #[trigger] self@.contains_key(k) <==> self.keys_seq().contains(k),
    {
    }

    fn find(&self, key: &str) -> (r: Option<usize>)
        ensures
            match r {
                Some(i) => i < self.entries@.len() && self.entries@[i as int].0@ == key@,
                None => forall|i: int| 0 <= i < self.entries@.len() ==> self.entries@[i].0@ != key@,
            },
    {
        let wanted = String::from_str(key);
        let n = self.entries.len();
        let mut i: usize = 0;
        while i < n
            invariant
                n == self.entries@.len(),
                wanted@ == key@,
                i <= n,
                forall|j: int| 0 <= j < i ==> self.entries@[j].0@ != key@,
            decreases n - i,
        {
            if self.entries[i].0 == wanted {
                return Some(i);
            }
            i = i + 1;
        }
        None
    }

    /// Copies of the keys, in insertion order.
    pub fn keys(&self) -> (r: Vec<String>)
        ensures
            r@.len() == self.keys_seq().len(),
            forall|i: int| 0 <= i < r@.len() ==> #[trigger] r@[i]@ == self.keys_seq()[i],
            self.keys_seq().no_duplicates(),
    {
        proof {
            use_type_invariant(self);
        }
        let mut r: Vec<String> = Vec::new();
        let n = self.entries.len();
        let mut i: usize = 0;
        while i < n
            invariant
                n == self.entries@.len(),
                i <= n,
                r@.len() == i,
                forall|j: int| 0 <= j < i ==> #[trigger] r@[j]@ == self.keys_seq()[j],
            decreases n - i,
        {
            r.push(self.entries[i].0.clone());
            i = i + 1;
        }
        r
    }

    /// The number of keys.
    pub fn len(&self) -> (n: usize)
        ensures
            n == self.keys_seq().len(),
            self.keys_seq().no_duplicates(),
    {
        proof {
            use_type_invariant(self);
        }
        self.entries.len()
    }

    /// Whether `key` has a value.
    pub fn contains_key(&self, key: &str) -> (b: bool)
        ensures
            b == self@.contains_key(key@),
    {
        proof {
            use_type_invariant(self);
        }
        match self.find(key) {
            Some(i) => {
                proof {
                    self.lemma_entry(i as int);
                }
                true
            },
            None => {
                proof {
                    self.lemma_absent(key@);
                }
                false
            },
        }
    }

    /// The value stored under `key`, if any.
    pub fn get(&self, key: &str) -> (r: Option<&V>)
        ensures
            match r {
                Some(v) => self@.contains_key(key@) && *v == self@[key@],
                None => !self@.contains_key(key@),
            },
    {
        proof {
            use_type_invariant(self);
        }
        match self.find(key) {
            Some(i) => {
                proof {
                    self.lemma_entry(i as int);
                }
                Some(&self.entries[i].1)
            },
            None => {
                proof {
                    self.lemma_absent(key@);
                }
                None
            },
        }
    }

    /// Stores `value` under `key`.  A key that is already present keeps its
    /// place in the order and its old value is returned; a new key goes last.
    pub fn insert(&mut self, key: String, value: V) -> (old_value: Option<V>)
        ensures
            final(self)@ == old(self)@.insert(key@, value),
            match old_value {
                Some(v) => old(self)@.contains_key(key@) && v == old(self)@[key@]
                    && final(self).keys_seq() == old(self).keys_seq(),
                None => !old(self)@.contains_key(key@)
                    && final(self).keys_seq() == old(self).keys_seq().push(key@),
            },
    {
        proof {
            use_type_invariant(&*self);
        }
        match self.find(key.as_str()) {
            Some(i) => {
                proof {
                    self.lemma_entry(i as int);
                }
                let ghost before = *self;
                let mut entries = Vec::new();
                std::mem::swap(&mut entries, &mut self.entries);
                let (_, prev) = entries.remove(i);
                entries.insert(i, (key, value));
                proof {
                    assert(entries@ =~= before.entries@.update(i as int, (key, value)));
                    assert(keys_of(entries@) =~= before.keys_seq());
                }
                self.entries = entries;
                proof {
                    assert(self.keys_seq() == before.keys_seq());
                    assert(self.keys_unique());
                    assert forall|k: Seq<char>| #[trigger] self.as_map().contains_key(k) implies
                        self.as_map()[k] == before.as_map().insert(key@, value)[k] by {
                        let j = self.keys_seq().index_of(k);
                        assert(0 <= j < self.entries@.len());
                        assert(self.keys_seq()[j] == k);
                        self.lemma_entry(j);
                        assert(self.entries@[j].0@ == k);
                        if j != i {
                            before.lemma_entry(j);
                            assert(self.keys_seq()[i as int] == key@);
                            assert(k != key@);
                        } else {
                            assert(k == key@);
                        }
                    }
                    assert(self.as_map() =~= before.as_map().insert(key@, value));
                }
                Some(prev)
            },
            None => {
                proof {
                    self.lemma_absent(key@);
                }
                let ghost before = *self;
                let ghost k = key@;
                let mut entries = Vec::new();
                std::mem::swap(&mut entries, &mut self.entries);
                entries.push((key, value));
                proof {
                    assert(keys_of(entries@) =~= before.keys_seq().push(k));
                    assert(!before.keys_seq().contains(k));
                }
                self.entries = entries;
                proof {
                    assert(self.keys_seq() == before.keys_seq().push(k));
                    assert(self.keys_unique());
                    assert forall|k2: Seq<char>| #[trigger] self.as_map().contains_key(k2) implies
                        self.as_map()[k2] == before.as_map().insert(k, value)[k2] by {
                        let j = self.keys_seq().index_of(k2);
                        assert(0 <= j < self.entries@.len());
                        assert(self.keys_seq()[j] == k2);
                        self.lemma_entry(j);
                        if j < before.entries@.len() {
                            before.lemma_entry(j);
                            assert(before.keys_seq()[j] == k2);
                            assert(k2 != k);
                        } else {
                            assert(k2 == k);
                        }
                    }
                    assert forall|k2: Seq<char>| #[trigger] before.as_map().insert(k, value).contains_key(k2)
                        implies self.as_map().contains_key(k2) by {
                        if k2 == k {
                            assert(self.keys_seq()[before.entries@.len() as int] == k);
                        } else {
                            let j = before.keys_seq().index_of(k2);
                            assert(self.keys_seq()[j] == k2);
                        }
                    }
                    assert(self.as_map() =~= before.as_map().insert(k, value));
                }
                None
            },
        }
    }

    /// Removes `key` and returns its value, if it had one.  The other keys keep
    /// their order.
    pub fn remove(&mut self, key: &str) -> (old_value: Option<V>)
        ensures
            final(self)@ == old(self)@.remove(key@),
            match old_value {
                Some(v) => old(self)@.contains_key(key@) && v == old(self)@[key@],
                None => !old(self)@.contains_key(key@),
            },
    {
        proof {
            use_type_invariant(&*self);
        }
        match self.find(key) {
            Some(i) => {
                proof {
                    self.lemma_entry(i as int);
                }
                let ghost before = *self;
                let mut entries = Vec::new();
                std::mem::swap(&mut entries, &mut self.entries);
                let (_, prev) = entries.remove(i);
                proof {
                    assert(keys_of(entries@) =~= before.keys_seq().remove(i as int));
                }
                self.entries = entries;
                proof {
                    let ghost kr = before.keys_seq().remove(i as int);
                    assert(self.keys_seq() == kr);
                    assert(self.keys_unique());
                    assert(before.keys_seq()[i as int] == key@);
                    assert forall|k: Seq<char>| #[trigger] self.as_map().contains_key(k) implies
                        before.as_map().remove(key@).contains_key(k)
                        && self.as_map()[k] == before.as_map().remove(key@)[k] by {
                        let j = self.keys_seq().index_of(k);
                        assert(0 <= j < self.entries@.len());
                        assert(self.keys_seq()[j] == k);
                        self.lemma_entry(j);
                        if j < i {
                            before.lemma_entry(j);
                            assert(before.keys_seq()[j] == k);
                        } else {
                            before.lemma_entry(j + 1);
                            assert(before.keys_seq()[j + 1] == k);
                        }
                    }
                    assert forall|k: Seq<char>| #[trigger] before.as_map().remove(key@).contains_key(k)
                        implies self.as_map().contains_key(k) by {
                        let j = before.keys_seq().index_of(k);
                        assert(before.keys_seq()[j] == k);
                        assert(j != i);
                        if j < i {
                            assert(self.keys_seq()[j] == k);
                        } else {
                            assert(self.keys_seq()[j - 1] == k);
                        }
                    }
                    assert(self.as_map() =~= before.as_map().remove(key@));
                }
                Some(prev)
            },
            None => {
                proof {
                    self.lemma_absent(key@);
                    assert(self.as_map() =~= self.as_map().remove(key@));
                }
                None
            },
        }
    }
}

impl<V> View for StrMap<V> {
    type V = Map<Seq<char>, V>;

    closed spec fn view(&self) -> Map<Seq<char>, V> {
        self.as_map()
    }
}

} // verus!
