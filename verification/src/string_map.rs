//! A small map from strings to values that keeps its entries in the order in
//! which their keys first arrived.
//!
//! Of a `HashMap` or a `BTreeMap` with `String` keys vstd promises nothing,
//! and its `StringHashMap` cannot be walked. This map can be walked, in an
//! order that its contracts state, which is what the effects of the
//! coordinator are stated in.

use vstd::prelude::*;

verus! {

/// The mapping that sends each of `keys` to the value at the same position.
pub open spec fn zip_map<V>(keys: Seq<Seq<char>>, values: Seq<V>) -> Map<Seq<char>, V> {
    Map::new(|k: Seq<char>| keys.contains(k), |k: Seq<char>| values[keys.index_of(k)])
}

/// What `zip_map` holds when no key occurs twice.
pub proof fn lemma_zip_map<V>(keys: Seq<Seq<char>>, values: Seq<V>)
    requires
        keys.no_duplicates(),
        keys.len() == values.len(),
    ensures
        zip_map(keys, values).dom().finite(),
        zip_map(keys, values).len() == keys.len(),
        zip_map(keys, values).dom() == keys.to_set(),
        forall|i: int|
            0 <= i < keys.len() ==> zip_map(keys, values).contains_key(#[trigger] keys[i])
                && zip_map(keys, values)[keys[i]] == values[i],
{
    assert(zip_map(keys, values).dom() =~= keys.to_set());
    keys.unique_seq_to_set();
    vstd::seq_lib::seq_to_set_is_finite(keys);
    assert forall|i: int| 0 <= i < keys.len() implies zip_map(keys, values).contains_key(
        #[trigger] keys[i],
    ) && zip_map(keys, values)[keys[i]] == values[i] by {
        let k = keys[i];
        assert(keys.contains(k));
        let j = keys.index_of(k);
        assert(j == i);
    }
}

/// Writing `value` under `key` at the key's own position, or behind the last
/// entry where the key is new, is an insertion into the mapping.
pub proof fn lemma_zip_map_insert<V>(keys: Seq<Seq<char>>, values: Seq<V>, key: Seq<char>, value: V)
    requires
        keys.no_duplicates(),
        keys.len() == values.len(),
    ensures
        keys.contains(key) ==> zip_map(keys, values.update(keys.index_of(key), value)) == zip_map(
            keys,
            values,
        ).insert(key, value),
        !keys.contains(key) ==> keys.push(key).no_duplicates() && zip_map(
            keys.push(key),
            values.push(value),
        ) == zip_map(keys, values).insert(key, value),
{
    let before = zip_map(keys, values);
    lemma_zip_map(keys, values);
    if keys.contains(key) {
        let at = keys.index_of(key);
        let updated = values.update(at, value);
        let after = zip_map(keys, updated);
        lemma_zip_map(keys, updated);
        assert forall|k: Seq<char>| after.contains_key(k) implies after[k] == before.insert(
            key,
            value,
        )[k] by {
            let i = keys.index_of(k);
            assert(keys[i] == k);
        }
        assert(after =~= before.insert(key, value));
    } else {
        let more_keys = keys.push(key);
        let more_values = values.push(value);
        assert(more_keys.no_duplicates()) by {
            assert forall|i: int, j: int|
                0 <= i < more_keys.len() && 0 <= j < more_keys.len() && i != j implies more_keys[i]
                != more_keys[j] by {
                if i < keys.len() && j < keys.len() {
                } else if i < keys.len() {
                    assert(keys[i] != key);
                } else {
                    assert(keys[j] != key);
                }
            }
        }
        let after = zip_map(more_keys, more_values);
        lemma_zip_map(more_keys, more_values);
        assert forall|k: Seq<char>| after.contains_key(k) <==> before.insert(
            key,
            value,
        ).contains_key(k) by {
            if after.contains_key(k) {
                let i = more_keys.index_of(k);
                if i < keys.len() {
                    assert(keys[i] == k);
                }
            }
            if before.contains_key(k) {
                let i = keys.index_of(k);
                assert(more_keys[i] == k);
            }
            if k == key {
                assert(more_keys[keys.len() as int] == k);
            }
        }
        assert forall|k: Seq<char>| after.contains_key(k) implies after[k] == before.insert(
            key,
            value,
        )[k] by {
            let i = more_keys.index_of(k);
            assert(more_keys[i] == k);
            if i < keys.len() {
                assert(keys[i] == k);
                assert(more_values[i] == values[i]);
            }
        }
        assert(after =~= before.insert(key, value));
    }
}

/// Taking the entry at `at` out removes its key from the mapping.
pub proof fn lemma_zip_map_remove<V>(keys: Seq<Seq<char>>, values: Seq<V>, at: int)
    requires
        keys.no_duplicates(),
        keys.len() == values.len(),
        0 <= at < keys.len(),
    ensures
        keys.remove(at).no_duplicates(),
        zip_map(keys.remove(at), values.remove(at)) == zip_map(keys, values).remove(keys[at]),
{
    let before = zip_map(keys, values);
    let less_keys = keys.remove(at);
    let less_values = values.remove(at);
    assert(less_keys.no_duplicates()) by {
        assert forall|i: int, j: int|
            0 <= i < less_keys.len() && 0 <= j < less_keys.len() && i != j implies less_keys[i]
            != less_keys[j] by {
            let bi = if i < at { i } else { i + 1 };
            let bj = if j < at { j } else { j + 1 };
            assert(keys[bi] != keys[bj]);
        }
    }
    let after = zip_map(less_keys, less_values);
    lemma_zip_map(keys, values);
    lemma_zip_map(less_keys, less_values);
    assert forall|k: Seq<char>| after.contains_key(k) <==> before.remove(keys[at]).contains_key(
        k,
    ) by {
        if after.contains_key(k) {
            let i = less_keys.index_of(k);
            let bi = if i < at { i } else { i + 1 };
            assert(keys[bi] == k);
        }
        if before.remove(keys[at]).contains_key(k) {
            let i = keys.index_of(k);
            let ai = if i < at { i } else { i - 1 };
            assert(less_keys[ai] == k);
        }
    }
    assert forall|k: Seq<char>| after.contains_key(k) implies after[k] == before.remove(
        keys[at],
    )[k] by {
        let i = less_keys.index_of(k);
        let bi = if i < at { i } else { i + 1 };
        assert(keys[bi] == k);
        assert(less_values[i] == values[bi]);
    }
    assert(after =~= before.remove(keys[at]));
}

/// The keys of a list of entries.
spec fn keys_of<V>(entries: Seq<(String, V)>) -> Seq<Seq<char>> {
    Seq::new(entries.len(), |i: int| entries[i].0@)
}

/// The values of a list of entries.
spec fn values_of<V>(entries: Seq<(String, V)>) -> Seq<V> {
    Seq::new(entries.len(), |i: int| entries[i].1)
}

/// A map from strings to values, kept as a list of entries with distinct
/// keys.
#[derive(Debug)]
pub struct StringMap<V> {
    entries: Vec<(String, V)>,
}

impl<V> View for StringMap<V> {
    type V = Map<Seq<char>, V>;

    open spec fn view(&self) -> Map<Seq<char>, V> {
        zip_map(self.keys(), self.values())
    }
}

impl<V> StringMap<V> {
    /// The keys, in the order in which they first arrived.
    pub closed spec fn keys(&self) -> Seq<Seq<char>> {
        keys_of(self.entries@)
    }

    /// The values, each at the position of its key.
    pub closed spec fn values(&self) -> Seq<V> {
        values_of(self.entries@)
    }

    /// No key occurs twice.
    #[verifier::type_invariant]
    pub closed spec fn well_formed(&self) -> bool {
        self.keys().no_duplicates()
    }

    /// What a well-formed map's keys, values and view have to do with each
    /// other.
    pub proof fn lemma_entries(&self)
        requires
            self.well_formed(),
        ensures
            self.keys().no_duplicates(),
            self.keys().len() == self.values().len(),
            self@.dom().finite(),
            self@.len() == self.keys().len(),
            self@.dom() == self.keys().to_set(),
            forall|i: int|
                0 <= i < self.keys().len() ==> self@.contains_key(#[trigger] self.keys()[i])
                    && self@[self.keys()[i]] == self.values()[i],
    {
        lemma_zip_map(self.keys(), self.values());
    }

    /// A map without entries.
    pub fn new() -> (res: Self)
        ensures
            res.keys() == Seq::<Seq<char>>::empty(),
            res.values() == Seq::<V>::empty(),
            res@ == Map::<Seq<char>, V>::empty(),
    {
        let res = StringMap { entries: Vec::new() };
        assert(res.keys() =~= Seq::<Seq<char>>::empty());
        assert(res.values() =~= Seq::<V>::empty());
        assert(res@ =~= Map::<Seq<char>, V>::empty());
        res
    }

    /// The number of entries.
    pub fn len(&self) -> (res: usize)
        ensures
            res == self.keys().len(),
            res == self.values().len(),
            res == self@.len(),
            self@.dom().finite(),
    {
        proof {
            use_type_invariant(self);
            self.lemma_entries();
        }
        self.entries.len()
    }

    /// Whether the map has no entries.
    pub fn is_empty(&self) -> (res: bool)
        ensures
            res == (self.keys().len() == 0),
            res == (self@ == Map::<Seq<char>, V>::empty()),
    {
        proof {
            use_type_invariant(self);
            self.lemma_entries();
            if self.keys().len() == 0 {
                assert(self@ =~= Map::<Seq<char>, V>::empty());
            } else {
                assert(self@.contains_key(self.keys()[0]));
            }
        }
        self.entries.len() == 0
    }

    /// The position of `key` among the keys, if it is one of them.
    pub fn position(&self, key: &str) -> (res: Option<usize>)
        ensures
            match res {
                Some(i) => self.keys().contains(key@) && i == self.keys().index_of(key@) && i
                    < self.keys().len() && self.keys()[i as int] == key@,
                None => !self.keys().contains(key@),
            },
            res is Some == self@.contains_key(key@),
    {
        proof {
            use_type_invariant(self);
        }
        let mut i: usize = 0;
        while i < self.entries.len()
            invariant
                i <= self.entries.len(),
                self.keys().no_duplicates(),
                forall|k: int| 0 <= k < i ==> self.keys()[k] != key@,
            decreases self.entries.len() - i,
        {
            if *self.entries[i].0.as_str() == *key {
                assert(self.keys()[i as int] == key@);
                proof {
                    self.lemma_entries();
                }
                return Some(i);
            }
            i += 1;
        }
        proof {
            self.lemma_entries();
        }
        None
    }

    /// Whether `key` has a value.
    pub fn contains_key(&self, key: &str) -> (res: bool)
        ensures
            res == self@.contains_key(key@),
    {
        self.position(key).is_some()
    }

    /// The value of `key`.
    pub fn get(&self, key: &str) -> (res: Option<&V>)
        ensures
            match res {
                Some(value) => self@.contains_key(key@) && *value == self@[key@],
                None => !self@.contains_key(key@),
            },
    {
        match self.position(key) {
            Some(i) => {
                proof {
                    use_type_invariant(self);
                    self.lemma_entries();
                }
                Some(&self.entries[i].1)
            },
            None => None,
        }
    }

    /// The entry at position `i`, if there are that many.
    pub fn entry(&self, i: usize) -> (res: Option<(&String, &V)>)
        ensures
            match res {
                Some((key, value)) => i < self.keys().len() && key@ == self.keys()[i as int]
                    && *value == self.values()[i as int] && self@.contains_key(key@) && self@[key@]
                    == *value,
                None => i >= self.keys().len(),
            },
    {
        proof {
            use_type_invariant(self);
            self.lemma_entries();
        }
        if i < self.entries.len() {
            assert(self.keys()[i as int] == self.entries@[i as int].0@);
            assert(self.values()[i as int] == self.entries@[i as int].1);
            Some((&self.entries[i].0, &self.entries[i].1))
        } else {
            None
        }
    }

    /// Gives `key` the value `value`, and hands back the value that it had.
    /// A key that is already there keeps its position; a new one goes last.
    pub fn insert(&mut self, key: String, value: V) -> (res: Option<V>)
        ensures
            final(self)@ == old(self)@.insert(key@, value),
            res == if old(self)@.contains_key(key@) {
                Some(old(self)@[key@])
            } else {
                None
            },
            old(self).keys().contains(key@) ==> final(self).keys() == old(self).keys() && final(self).values() == old(self).values().update(old(self).keys().index_of(key@), value),
            !old(self).keys().contains(key@) ==> final(self).keys() == old(self).keys().push(key@)
                && final(self).values() == old(self).values().push(value),
    {
        proof {
            use_type_invariant(&*self);
            self.lemma_entries();
            lemma_zip_map_insert(self.keys(), self.values(), key@, value);
        }
        let ghost keys = self.keys();
        let ghost values = self.values();
        let found = self.position(key.as_str());
        let mut entries: Vec<(String, V)> = Vec::new();
        core::mem::swap(&mut self.entries, &mut entries);
        let res = match found {
            Some(i) => {
                entries.push((key, value));
                let previous = entries.swap_remove(i);
                Some(previous.1)
            },
            None => {
                entries.push((key, value));
                None
            },
        };
        proof {
            match found {
                Some(i) => {
                    assert(keys_of(entries@) =~= keys);
                    assert(values_of(entries@) =~= values.update(i as int, value));
                },
                None => {
                    assert(keys_of(entries@) =~= keys.push(key@));
                    assert(values_of(entries@) =~= values.push(value));
                },
            }
        }
        self.entries = entries;
        res
    }

    /// Takes the first entry out and hands it back.
    pub fn pop_front(&mut self) -> (res: Option<(String, V)>)
        ensures
            match res {
                Some((key, value)) => old(self).keys().len() > 0 && key@ == old(self).keys()[0]
                    && value == old(self).values()[0] && final(self).keys() == old(self).keys().skip(1) && final(self).values() == old(self).values().skip(1) && final(self)@ == old(self)@.remove(key@) && !final(self).keys().contains(key@),
                None => old(self).keys().len() == 0 && final(self).keys() == old(self).keys()
                    && final(self).values() == old(self).values(),
            },
    {
        proof {
            use_type_invariant(&*self);
            self.lemma_entries();
        }
        let ghost keys = self.keys();
        let ghost values = self.values();
        if self.entries.len() == 0 {
            return None;
        }
        let mut entries: Vec<(String, V)> = Vec::new();
        core::mem::swap(&mut self.entries, &mut entries);
        let first = entries.remove(0);
        proof {
            lemma_zip_map_remove(keys, values, 0);
            assert(keys_of(entries@) =~= keys.remove(0));
            assert(values_of(entries@) =~= values.remove(0));
            assert(keys.remove(0) =~= keys.skip(1));
            assert(values.remove(0) =~= values.skip(1));
            assert(first.0@ == keys[0]);
            assert(!keys.skip(1).contains(keys[0])) by {
                if keys.skip(1).contains(keys[0]) {
                    let i = choose|i: int| 0 <= i < keys.skip(1).len() && keys.skip(1)[i] == keys[0];
                    assert(keys[i + 1] == keys[0]);
                }
            }
        }
        self.entries = entries;
        Some(first)
    }

    /// Takes `key` and its value out, and hands the value back.
    pub fn remove(&mut self, key: &str) -> (res: Option<V>)
        ensures
            final(self)@ == old(self)@.remove(key@),
            res == if old(self)@.contains_key(key@) {
                Some(old(self)@[key@])
            } else {
                None
            },
            old(self).keys().contains(key@) ==> final(self).keys() == old(self).keys().remove(
                old(self).keys().index_of(key@),
            ) && final(self).values() == old(self).values().remove(
                old(self).keys().index_of(key@),
            ),
            !old(self).keys().contains(key@) ==> final(self).keys() == old(self).keys() && final(self).values() == old(self).values(),
    {
        proof {
            use_type_invariant(&*self);
            self.lemma_entries();
        }
        let ghost keys = self.keys();
        let ghost values = self.values();
        match self.position(key) {
            Some(i) => {
                let mut entries: Vec<(String, V)> = Vec::new();
                core::mem::swap(&mut self.entries, &mut entries);
                let previous = entries.remove(i);
                proof {
                    lemma_zip_map_remove(keys, values, i as int);
                }
                proof {
                    assert(keys_of(entries@) =~= keys.remove(i as int));
                    assert(values_of(entries@) =~= values.remove(i as int));
                }
                self.entries = entries;
                Some(previous.1)
            },
            None => {
                assert(self@ =~= self@.remove(key@));
                None
            },
        }
    }
}

impl<V: Clone> Clone for StringMap<V> {
    /// A map with the same keys in the same order, each with a clone of its
    /// value.
    fn clone(&self) -> (res: Self)
        ensures
            res.keys() == self.keys(),
            res.values().len() == self.values().len(),
            forall|i: int|
                0 <= i < self.values().len() ==> cloned::<V>(
                    #[trigger] self.values()[i],
                    res.values()[i],
                ),
    {
        let n = self.len();
        proof {
            use_type_invariant(self);
            self.lemma_entries();
        }
        let mut res: StringMap<V> = StringMap::new();
        let mut i: usize = 0;
        while i < n
            invariant
                i <= n,
                n == self.keys().len(),
                n == self.values().len(),
                self.keys().no_duplicates(),
                res.keys() == self.keys().take(i as int),
                res.values().len() == i,
                forall|k: int|
                    0 <= k < i ==> cloned::<V>(#[trigger] self.values()[k], res.values()[k]),
            decreases n - i,
        {
            if let Some((key, value)) = self.entry(i) {
                let ghost before = res.values();
                assert(!res.keys().contains(key@)) by {
                    if res.keys().contains(key@) {
                        let k = choose|k: int| 0 <= k < res.keys().len() && res.keys()[k] == key@;
                        assert(self.keys()[k] == self.keys()[i as int]);
                    }
                }
                let copy = value.clone();
                let _ = res.insert(key.clone(), copy);
                assert(self.keys().take(i + 1) =~= self.keys().take(i as int).push(key@));
                assert forall|k: int| 0 <= k < i + 1 implies cloned::<V>(
                    #[trigger] self.values()[k],
                    res.values()[k],
                ) by {
                    if k < i {
                        assert(res.values()[k] == before[k]);
                    }
                }
            }
            i += 1;
        }
        assert(self.keys().take(n as int) =~= self.keys());
        res
    }
}

} // verus!
