use vstd::prelude::*;

verus! {

/// A map keyed by strings, held as a list of entries whose keys are pairwise
/// distinct. The order of the entries carries no meaning: only the map that
/// they spell out does.
#[derive(Debug)]
pub struct KeyedMap<V> {
    entries: Vec<(String, V)>,
}

/// Whether entry `i` of `entries` carries the key `k`.
pub open spec fn entry_has_key<V>(entries: Seq<(String, V)>, i: int, k: Seq<char>) -> bool {
    0 <= i < entries.len() && entries[i].0@ == k
}

/// No key occurs twice among `entries`.
pub open spec fn keys_distinct<V>(entries: Seq<(String, V)>) -> bool {
    forall|i: int, j: int|
        #![trigger entries[i], entries[j]]
        0 <= i < entries.len() && 0 <= j < entries.len() && i != j ==> entries[i].0@ != entries[j].0@
}

/// The map that a list of entries with distinct keys spells out.
pub open spec fn entries_map<V>(entries: Seq<(String, V)>) -> Map<Seq<char>, V> {
    Map::new(
        |k: Seq<char>| exists|i: int| entry_has_key(entries, i, k),
        |k: Seq<char>| entries[choose|i: int| entry_has_key(entries, i, k)].1,
    )
}

/// With distinct keys, the entry that carries a key determines the map's value there.
pub proof fn lemma_entries_map_at<V>(entries: Seq<(String, V)>, i: int)
    requires
        keys_distinct(entries),
        0 <= i < entries.len(),
    ensures
        entries_map(entries).dom().contains(entries[i].0@),
        entries_map(entries)[entries[i].0@] == entries[i].1,
{
    let k = entries[i].0@;
    assert(entry_has_key(entries, i, k));
    let j = choose|j: int| entry_has_key(entries, j, k);
    assert(entries[j].0@ == k);
    if j != i {
        assert(entries[i].0@ != entries[j].0@);
    }
}

/// Removing entry `i` from a list with distinct keys removes its key from the map.
pub proof fn lemma_entries_map_remove<V>(entries: Seq<(String, V)>, i: int)
    requires
        keys_distinct(entries),
        0 <= i < entries.len(),
    ensures
        keys_distinct(entries.remove(i)),
        entries_map(entries.remove(i)) == entries_map(entries).remove(entries[i].0@),
{
    let r = entries.remove(i);
    let k0 = entries[i].0@;
    assert forall|a: int, b: int|
        #![trigger r[a], r[b]]
        0 <= a < r.len() && 0 <= b < r.len() && a != b implies r[a].0@ != r[b].0@ by {
        let a2 = if a < i { a } else { a + 1 };
        let b2 = if b < i { b } else { b + 1 };
        assert(r[a] == entries[a2]);
        assert(r[b] == entries[b2]);
    }
    let m = entries_map(entries).remove(k0);
    assert forall|k: Seq<char>| #[trigger] entries_map(r).dom().contains(k) <==> m.dom().contains(k) by {
        if entries_map(r).dom().contains(k) {
            let a = choose|a: int| entry_has_key(r, a, k);
            let a2 = if a < i { a } else { a + 1 };
            assert(r[a] == entries[a2]);
            assert(entry_has_key(entries, a2, k));
            assert(a2 != i);
            assert(entries[a2].0@ != entries[i].0@);
        }
        if m.dom().contains(k) {
            let a2 = choose|a2: int| entry_has_key(entries, a2, k);
            assert(a2 != i);
            let a = if a2 < i { a2 } else { a2 - 1 };
            assert(r[a] == entries[a2]);
            assert(entry_has_key(r, a, k));
        }
    }
    assert forall|k: Seq<char>| #[trigger] entries_map(r).dom().contains(k) implies entries_map(r)[k] == m[k] by {
        let a = choose|a: int| entry_has_key(r, a, k);
        let a2 = if a < i { a } else { a + 1 };
        assert(r[a] == entries[a2]);
        lemma_entries_map_at(r, a);
        lemma_entries_map_at(entries, a2);
    }
    assert(entries_map(r) =~= m);
}

/// Appending an entry whose key is new adds that key to the map.
pub proof fn lemma_entries_map_push<V>(entries: Seq<(String, V)>, key: String, value: V)
    requires
        keys_distinct(entries),
        !entries_map(entries).dom().contains(key@),
    ensures
        keys_distinct(entries.push((key, value))),
        entries_map(entries.push((key, value))) == entries_map(entries).insert(key@, value),
{
    let p = entries.push((key, value));
    let n = entries.len() as int;
    assert forall|a: int, b: int|
        #![trigger p[a], p[b]]
        0 <= a < p.len() && 0 <= b < p.len() && a != b implies p[a].0@ != p[b].0@ by {
        if a == n {
            assert(!entry_has_key(entries, b, key@));
        } else if b == n {
            assert(!entry_has_key(entries, a, key@));
        } else {
            assert(p[a] == entries[a]);
            assert(p[b] == entries[b]);
        }
    }
    let m = entries_map(entries).insert(key@, value);
    assert forall|k: Seq<char>| #[trigger] entries_map(p).dom().contains(k) <==> m.dom().contains(k) by {
        if entries_map(p).dom().contains(k) {
            let a = choose|a: int| entry_has_key(p, a, k);
            if a < n {
                assert(entry_has_key(entries, a, k));
            }
        }
        if m.dom().contains(k) {
            if k == key@ {
                assert(entry_has_key(p, n, k));
            } else {
                let a = choose|a: int| entry_has_key(entries, a, k);
                assert(entry_has_key(p, a, k));
            }
        }
    }
    assert forall|k: Seq<char>| #[trigger] entries_map(p).dom().contains(k) implies entries_map(p)[k] == m[k] by {
        let a = choose|a: int| entry_has_key(p, a, k);
        lemma_entries_map_at(p, a);
        if a < n {
            lemma_entries_map_at(entries, a);
        }
    }
    assert(entries_map(p) =~= m);
}

/// `ks` lists every key of `m` exactly once, in some order.
pub open spec fn lists_keys_of<V>(ks: Seq<Seq<char>>, m: Map<Seq<char>, V>) -> bool {
    &&& ks.no_duplicates()
    &&& forall|k: Seq<char>| #[trigger] ks.contains(k) <==> m.dom().contains(k)
}

/// The values that `m` holds under the keys `ks`, in the order of `ks`.
pub open spec fn values_at<V>(ks: Seq<Seq<char>>, m: Map<Seq<char>, V>) -> Seq<V> {
    ks.map_values(|k: Seq<char>| m[k])
}

/// The keys of a list of entries, in list order.
pub open spec fn entry_keys<V>(entries: Seq<(String, V)>) -> Seq<Seq<char>> {
    entries.map_values(|e: (String, V)| e.0@)
}

/// The keys of entries with distinct keys list the keys of the map they spell out.
pub proof fn lemma_entry_keys_list_map<V>(entries: Seq<(String, V)>)
    requires
        keys_distinct(entries),
    ensures
        lists_keys_of(entry_keys(entries), entries_map(entries)),
{
    let ks = entry_keys(entries);
    assert forall|a: int, b: int| 0 <= a < ks.len() && 0 <= b < ks.len() && a != b implies ks[a]
        != ks[b] by {
        assert(entries[a].0@ != entries[b].0@);
    }
    assert forall|k: Seq<char>| #[trigger] ks.contains(k) <==> entries_map(entries).dom().contains(k) by {
        if ks.contains(k) {
            let a = choose|a: int| 0 <= a < ks.len() && ks[a] == k;
            assert(entry_has_key(entries, a, k));
        }
        if entries_map(entries).dom().contains(k) {
            let a = choose|a: int| entry_has_key(entries, a, k);
            assert(ks[a] == k);
        }
    }
}

impl<V> View for KeyedMap<V> {
    type V = Map<Seq<char>, V>;

    closed spec fn view(&self) -> Map<Seq<char>, V> {
        entries_map(self.entries@)
    }
}

impl<V> KeyedMap<V> {
    #[verifier::type_invariant]
    closed spec fn well_formed(self) -> bool {
        keys_distinct(self.entries@)
    }

    /// An empty map.
    pub fn new() -> (m: Self)
        ensures
            m@ == Map::<Seq<char>, V>::empty(),
    {
        let m = KeyedMap { entries: Vec::new() };
        assert(m@ =~= Map::<Seq<char>, V>::empty());
        m
    }

    /// The position of the entry that carries `key`, if one does.
    fn find(&self, key: &String) -> (r: Option<usize>)
        ensures
            match r {
                Some(i) => entry_has_key(self.entries@, i as int, key@),
                None => !self@.dom().contains(key@),
            },
    {
        let mut i: usize = 0;
        while i < self.entries.len()
            invariant
                0 <= i <= self.entries@.len(),
                forall|j: int| 0 <= j < i ==> !entry_has_key(self.entries@, j, key@),
            decreases self.entries@.len() - i,
        {
            if self.entries[i].0 == *key {
                return Some(i);
            }
            i = i + 1;
        }
        None
    }

    /// Whether `key` is present.
    pub fn contains_key(&self, key: &String) -> (r: bool)
        ensures
            r == self@.dom().contains(key@),
    {
        proof { use_type_invariant(self); }
        match self.find(key) {
            Some(i) => {
                proof { lemma_entries_map_at(self.entries@, i as int); }
                true
            },
            None => false,
        }
    }

    /// The value stored under `key`, if any.
    pub fn get(&self, key: &String) -> (r: Option<&V>)
        ensures
            match r {
                Some(v) => self@.dom().contains(key@) && *v == self@[key@],
                None => !self@.dom().contains(key@),
            },
    {
        proof { use_type_invariant(self); }
        match self.find(key) {
            Some(i) => {
                proof { lemma_entries_map_at(self.entries@, i as int); }
                Some(&self.entries[i].1)
            },
            None => None,
        }
    }

    /// The keys, each once, in no particular order.
    pub fn keys(&self) -> (r: Vec<String>)
        ensures
            lists_keys_of(r@.map_values(|k: String| k@), self@),
    {
        proof {
            use_type_invariant(self);
            lemma_entry_keys_list_map(self.entries@);
        }
        let mut r: Vec<String> = Vec::new();
        let mut i: usize = 0;
        while i < self.entries.len()
            invariant
                0 <= i <= self.entries@.len(),
                r@.len() == i,
                forall|j: int| 0 <= j < i ==> #[trigger] r@[j]@ == self.entries@[j].0@,
            decreases self.entries@.len() - i,
        {
            r.push(self.entries[i].0.clone());
            i = i + 1;
        }
        assert(r@.map_values(|k: String| k@) =~= entry_keys(self.entries@));
        r
    }

    /// Some entry of the map, if it has one; which one is left open.
    pub fn any_entry(&self) -> (r: Option<(&String, &V)>)
        ensures
            match r {
                Some((k, v)) => self@.dom().contains(k@) && *v == self@[k@],
                None => self@ == Map::<Seq<char>, V>::empty(),
            },
    {
        proof { use_type_invariant(self); }
        if self.entries.len() == 0 {
            assert(self@ =~= Map::<Seq<char>, V>::empty());
            None
        } else {
            proof { lemma_entries_map_at(self.entries@, 0); }
            let e = &self.entries[0];
            Some((&e.0, &e.1))
        }
    }

    /// All values, one per key, in no particular order.
    pub fn into_values(self) -> (r: Vec<V>)
        ensures
            exists|ks: Seq<Seq<char>>|
                lists_keys_of(ks, self@) && r@ == #[trigger] values_at(ks, self@),
    {
        proof {
            use_type_invariant(&self);
            lemma_entry_keys_list_map(self.entries@);
        }
        let ghost m = self@;
        let ghost es = self.entries@;
        let ghost ks = entry_keys(es);
        let mut entries = self.entries;
        let mut r: Vec<V> = Vec::new();
        while entries.len() > 0
            invariant
                keys_distinct(es),
                m == entries_map(es),
                r@.len() + entries@.len() == es.len(),
                entries@ =~= es.skip(r@.len() as int),
                forall|j: int| 0 <= j < r@.len() ==> r@[j] == es[j].1,
            decreases entries@.len(),
        {
            let (_k, v) = entries.remove(0);
            r.push(v);
        }
        assert forall|j: int| 0 <= j < r@.len() implies r@[j] == values_at(ks, m)[j] by {
            lemma_entries_map_at(es, j);
        }
        assert(r@ =~= values_at(ks, m));
        r
    }

    /// Whether the map has no entry.
    pub fn is_empty(&self) -> (r: bool)
        ensures
            r == (self@ == Map::<Seq<char>, V>::empty()),
    {
        proof { use_type_invariant(self); }
        if self.entries.len() == 0 {
            assert(self@ =~= Map::<Seq<char>, V>::empty());
            true
        } else {
            proof { lemma_entries_map_at(self.entries@, 0); }
            assert(self@.dom().contains(self.entries@[0].0@));
            false
        }
    }

    /// Moves the entries out, leaving the map empty.
    fn take_entries(&mut self) -> (entries: Vec<(String, V)>)
        ensures
            entries@ == old(self).entries@,
            keys_distinct(entries@),
    {
        proof { use_type_invariant(&*self); }
        let mut taken = KeyedMap { entries: Vec::new() };
        std::mem::swap(self, &mut taken);
        proof { use_type_invariant(&taken); }
        taken.entries
    }

    /// Removes `key` and hands back the value it held, if any.
    pub fn remove(&mut self, key: &String) -> (r: Option<V>)
        ensures
            final(self)@ == old(self)@.remove(key@),
            match r {
                Some(v) => old(self)@.dom().contains(key@) && v == old(self)@[key@],
                None => !old(self)@.dom().contains(key@),
            },
    {
        proof { use_type_invariant(&*self); }
        match self.find(key) {
            Some(i) => {
                proof {
                    lemma_entries_map_at(self.entries@, i as int);
                    lemma_entries_map_remove(self.entries@, i as int);
                }
                let mut entries = self.take_entries();
                let (_k, v) = entries.remove(i);
                *self = KeyedMap { entries };
                Some(v)
            },
            None => {
                assert(old(self)@.remove(key@) =~= old(self)@);
                None
            },
        }
    }

    /// Stores `value` under `key` and hands back the value it replaced, if any.
    pub fn insert(&mut self, key: String, value: V) -> (r: Option<V>)
        ensures
            final(self)@ == old(self)@.insert(key@, value),
            match r {
                Some(v) => old(self)@.dom().contains(key@) && v == old(self)@[key@],
                None => !old(self)@.dom().contains(key@),
            },
    {
        let previous = self.remove(&key);
        proof { use_type_invariant(&*self); }
        proof { lemma_entries_map_push(self.entries@, key, value); }
        let mut entries = self.take_entries();
        entries.push((key, value));
        *self = KeyedMap { entries };
        assert(old(self)@.remove(key@).insert(key@, value) =~= old(self)@.insert(key@, value));
        previous
    }
}

} // verus!
