//! A map keyed by strings, kept as a list of entries in which no key occurs twice.
use vstd::prelude::*;

verus! {

/// A map from strings to values.
pub struct StringMap<V> {
    entries: Vec<(String, V)>,
}

/// The list `entries` read as a map; of entries with the same key the first counts.
pub open spec fn entries_map<V>(entries: Seq<(String, V)>) -> Map<Seq<char>, V>
    decreases entries.len(),
{
    if entries.len() == 0 {
        Map::empty()
    } else {
        entries_map(entries.drop_first()).insert(entries[0].0@, entries[0].1)
    }
}

/// No key occurs twice in `entries`.
pub open spec fn distinct_keys<V>(entries: Seq<(String, V)>) -> bool {
    forall|i: int, j: int|
        0 <= i < j < entries.len() ==> #[trigger] entries[i].0@ != #[trigger] entries[j].0@
}

/// What the map of a list holds: the keys of the list, and the values where no key occurs twice.
pub proof fn lemma_entries_map<V>(entries: Seq<(String, V)>)
    ensures
        entries_map(entries).dom().finite(),
        forall|i: int|
            0 <= i < entries.len() ==> #[trigger] entries_map(entries).contains_key(
                entries[i].0@,
            ),
        forall|k: Seq<char>| #[trigger]
            entries_map(entries).contains_key(k) ==> exists|i: int|
                0 <= i < entries.len() && (#[trigger] entries[i]).0@ == k,
        distinct_keys(entries) ==> forall|i: int|
            0 <= i < entries.len() ==> #[trigger] entries_map(entries)[entries[i].0@]
                == entries[i].1,
    decreases entries.len(),
{
    if entries.len() > 0 {
        let rest = entries.drop_first();
        lemma_entries_map(rest);
        assert forall|i: int| 0 <= i < entries.len() implies #[trigger] entries_map(
            entries,
        ).contains_key(entries[i].0@) by {
            if i > 0 {
                assert(rest[i - 1] == entries[i]);
                assert(entries_map(rest).contains_key(rest[i - 1].0@));
            }
        }
        assert forall|k: Seq<char>| #[trigger]
            entries_map(entries).contains_key(k) implies exists|i: int|
            0 <= i < entries.len() && (#[trigger] entries[i]).0@ == k by {
            if k == entries[0].0@ {
            } else {
                assert(entries_map(rest).contains_key(k));
                let i = choose|i: int| 0 <= i < rest.len() && (#[trigger] rest[i]).0@ == k;
                assert(entries[i + 1].0@ == k);
            }
        }
        if distinct_keys(entries) {
            assert(distinct_keys(rest)) by {
                assert forall|i: int, j: int| 0 <= i < j < rest.len() implies #[trigger] rest[i].0@
                    != #[trigger] rest[j].0@ by {
                    assert(rest[i] == entries[i + 1]);
                    assert(rest[j] == entries[j + 1]);
                }
            }
            assert forall|i: int| 0 <= i < entries.len() implies #[trigger] entries_map(
                entries,
            )[entries[i].0@] == entries[i].1 by {
                if i > 0 {
                    assert(rest[i - 1] == entries[i]);
                    assert(entries_map(rest)[rest[i - 1].0@] == rest[i - 1].1);
                    assert(entries[0].0@ != entries[i].0@);
                }
            }
        }
    }
}

/// Two lists with distinct keys that hold the same entries, whatever their order, read as the
/// same map.
proof fn lemma_same_map<V>(entries: Seq<(String, V)>, m: Map<Seq<char>, V>)
    requires
        distinct_keys(entries),
        forall|i: int|
            0 <= i < entries.len() ==> #[trigger] m.contains_key(entries[i].0@)
                && m[entries[i].0@] == entries[i].1,
        forall|k: Seq<char>| #[trigger]
            m.contains_key(k) ==> exists|i: int|
                0 <= i < entries.len() && (#[trigger] entries[i]).0@ == k,
    ensures
        entries_map(entries) == m,
{
    lemma_entries_map(entries);
    assert forall|k: Seq<char>| entries_map(entries).contains_key(k) == m.contains_key(k) by {
        if entries_map(entries).contains_key(k) {
            let i = choose|i: int| 0 <= i < entries.len() && (#[trigger] entries[i]).0@ == k;
            assert(m.contains_key(entries[i].0@));
        }
        if m.contains_key(k) {
            let i = choose|i: int| 0 <= i < entries.len() && (#[trigger] entries[i]).0@ == k;
            assert(entries_map(entries).contains_key(entries[i].0@));
        }
    }
    assert forall|k: Seq<char>| entries_map(entries).contains_key(k) implies entries_map(
        entries,
    )[k] == m[k] by {
        let i = choose|i: int| 0 <= i < entries.len() && (#[trigger] entries[i]).0@ == k;
        assert(entries_map(entries)[entries[i].0@] == entries[i].1);
        assert(m.contains_key(entries[i].0@));
    }
    assert(entries_map(entries) =~= m);
}

impl<V> View for StringMap<V> {
    type V = Map<Seq<char>, V>;

    closed spec fn view(&self) -> Map<Seq<char>, V> {
        entries_map(self.entries@)
    }
}

impl<V> StringMap<V> {
    #[verifier::type_invariant]
    spec fn keys_are_distinct(self) -> bool {
        distinct_keys(self.entries@)
    }

    /// The empty map.
    pub fn new() -> (map: Self)
        ensures
            map@ == Map::<Seq<char>, V>::empty(),
    {
        StringMap { entries: Vec::new() }
    }

    /// The place of `key` in the list, if it is there.
    fn position(&self, key: &String) -> (found: Option<usize>)
        ensures
            match found {
                Some(i) => i < self.entries@.len() && self.entries@[i as int].0@ == key@,
                None => forall|i: int| 0 <= i < self.entries@.len() ==> self.entries@[i].0@ != key@,
            },
    {
        let mut i: usize = 0;
        while i < self.entries.len()
            invariant
                i <= self.entries@.len(),
                forall|j: int| 0 <= j < i ==> self.entries@[j].0@ != key@,
            decreases self.entries@.len() - i,
        {
            if self.entries[i].0 == *key {
                return Some(i);
            }
            i = i + 1;
        }
        None
    }

    /// The value stored under `key`.
    pub fn get(&self, key: &String) -> (value: Option<&V>)
        ensures
            match value {
                Some(v) => self@.contains_key(key@) && *v == self@[key@],
                None => !self@.contains_key(key@),
            },
    {
        proof {
            use_type_invariant(self);
            lemma_entries_map(self.entries@);
        }
        match self.position(key) {
            Some(i) => {
                assert(self@.contains_key(self.entries@[i as int].0@));
                assert(self@[self.entries@[i as int].0@] == self.entries@[i as int].1);
                Some(&self.entries[i].1)
            },
            None => None,
        }
    }

    /// Whether a value is stored under `key`.
    pub fn contains_key(&self, key: &String) -> (found: bool)
        ensures
            found == self@.contains_key(key@),
    {
        self.get(key).is_some()
    }

    /// Takes out the value stored under `key`, if there is one.
    pub fn remove(&mut self, key: &String) -> (value: Option<V>)
        ensures
            final(self)@ == old(self)@.remove(key@),
            match value {
                Some(v) => old(self)@.contains_key(key@) && v == old(self)@[key@],
                None => !old(self)@.contains_key(key@),
            },
    {
        proof {
            use_type_invariant(&*self);
            lemma_entries_map(self.entries@);
        }
        match self.position(key) {
            Some(i) => {
                let ghost before = self.entries@;
                assert(self@.contains_key(before[i as int].0@));
                assert(self@[before[i as int].0@] == before[i as int].1);
                let mut entries: Vec<(String, V)> = Vec::new();
                std::mem::swap(&mut entries, &mut self.entries);
                let (_, value) = entries.remove(i);
                proof {
                    let after = entries@;
                    assert(after =~= before.remove(i as int));
                    assert forall|a: int, b: int|
                        0 <= a < b < after.len() implies #[trigger] after[a].0@
                        != #[trigger] after[b].0@ by {
                        let c = if a < i { a } else { a + 1 };
                        let d = if b < i { b } else { b + 1 };
                        assert(before[c].0@ != before[d].0@);
                    }
                    let m = entries_map(before).remove(key@);
                    assert forall|a: int| 0 <= a < after.len() implies #[trigger] m.contains_key(
                        after[a].0@,
                    ) && m[after[a].0@] == after[a].1 by {
                        let c = if a < i { a } else { a + 1 };
                        assert(entries_map(before).contains_key(before[c].0@));
                        assert(entries_map(before)[before[c].0@] == before[c].1);
                    }
                    assert forall|k: Seq<char>| #[trigger] m.contains_key(k) implies exists|a: int|
                        0 <= a < after.len() && (#[trigger] after[a]).0@ == k by {
                        assert(entries_map(before).contains_key(k));
                        let c = choose|c: int|
                            0 <= c < before.len() && (#[trigger] before[c]).0@ == k;
                        let a = if c < i { c } else { c - 1 };
                        assert(after[a] == before[c]);
                    }
                    lemma_same_map(after, m);
                }
                self.entries = entries;
                Some(value)
            },
            None => {
                assert(self@.remove(key@) =~= self@);
                None
            },
        }
    }

    /// Stores `value` under `key`, in place of what was stored there.
    pub fn insert(&mut self, key: String, value: V)
        ensures
            final(self)@ == old(self)@.insert(key@, value),
    {
        let _ = self.remove(&key);
        proof {
            use_type_invariant(&*self);
            lemma_entries_map(self.entries@);
        }
        let ghost before = self.entries@;
        let mut entries: Vec<(String, V)> = Vec::new();
        std::mem::swap(&mut entries, &mut self.entries);
        entries.push((key, value));
        proof {
            let after = entries@;
            assert forall|a: int, b: int| 0 <= a < b < after.len() implies #[trigger] after[a].0@
                != #[trigger] after[b].0@ by {
                assert(after[a] == before[a]);
                assert(entries_map(before).contains_key(before[a].0@));
                if b < before.len() {
                    assert(before[a].0@ != before[b].0@);
                }
            }
            let m = entries_map(before).insert(key@, value);
            assert forall|a: int| 0 <= a < after.len() implies #[trigger] m.contains_key(
                after[a].0@,
            ) && m[after[a].0@] == after[a].1 by {
                if a < before.len() {
                    assert(after[a] == before[a]);
                    assert(entries_map(before).contains_key(before[a].0@));
                    assert(entries_map(before)[before[a].0@] == before[a].1);
                }
            }
            assert forall|k: Seq<char>| #[trigger] m.contains_key(k) implies exists|a: int|
                0 <= a < after.len() && (#[trigger] after[a]).0@ == k by {
                if k == key@ {
                    assert(after[before.len() as int].0@ == k);
                } else {
                    assert(entries_map(before).contains_key(k));
                    let c = choose|c: int| 0 <= c < before.len() && (#[trigger] before[c]).0@ == k;
                    assert(after[c] == before[c]);
                }
            }
            lemma_same_map(after, m);
            assert(old(self)@.remove(key@).insert(key@, value) =~= old(self)@.insert(key@, value));
        }
        self.entries = entries;
    }

    /// The entries, each key once, in no particular order.
    pub fn entries(&self) -> (entries: &Vec<(String, V)>)
        ensures
            distinct_keys(entries@),
            entries_map(entries@) == self@,
    {
        proof {
            use_type_invariant(self);
        }
        &self.entries
    }
}

/// A map holds finitely many keys.
pub proof fn keys_are_finite<V>(map: StringMap<V>)
    ensures
        map@.dom().finite(),
{
    lemma_entries_map(map.entries@);
}

impl<V: Clone> Clone for StringMap<V> {
    /// A map with the same keys, each with a clone of its value.
    fn clone(&self) -> (map: Self)
        ensures
            map@.dom() == self@.dom(),
            forall|k: Seq<char>| #[trigger]
                self@.contains_key(k) ==> cloned::<V>(self@[k], map@[k]),
    {
        proof {
            use_type_invariant(self);
        }
        let ghost source = self.entries@;
        let mut entries: Vec<(String, V)> = Vec::new();
        let mut i: usize = 0;
        while i < self.entries.len()
            invariant
                source == self.entries@,
                i <= source.len(),
                entries@.len() == i,
                forall|j: int| 0 <= j < i ==> (#[trigger] entries@[j]).0@ == source[j].0@,
                forall|j: int| 0 <= j < i ==> cloned::<V>(source[j].1, (#[trigger] entries@[j]).1),
            decreases source.len() - i,
        {
            let value = self.entries[i].1.clone();
            entries.push((self.entries[i].0.clone(), value));
            i = i + 1;
        }
        proof {
            let copy = entries@;
            assert forall|a: int, b: int| 0 <= a < b < copy.len() implies #[trigger] copy[a].0@
                != #[trigger] copy[b].0@ by {
                assert(source[a].0@ != source[b].0@);
            }
            lemma_entries_map(source);
            lemma_entries_map(copy);
            assert forall|k: Seq<char>| entries_map(copy).contains_key(k) == entries_map(
                source,
            ).contains_key(k) by {
                if entries_map(copy).contains_key(k) {
                    let a = choose|a: int| 0 <= a < copy.len() && (#[trigger] copy[a]).0@ == k;
                    assert(entries_map(source).contains_key(source[a].0@));
                }
                if entries_map(source).contains_key(k) {
                    let a = choose|a: int| 0 <= a < source.len() && (#[trigger] source[a]).0@ == k;
                    assert(copy[a].0@ == k);
                    assert(entries_map(copy).contains_key(copy[a].0@));
                }
            }
            assert(entries_map(copy).dom() =~= entries_map(source).dom());
            assert forall|k: Seq<char>| #[trigger]
                entries_map(source).contains_key(k) implies cloned::<V>(
                entries_map(source)[k],
                entries_map(copy)[k],
            ) by {
                let a = choose|a: int| 0 <= a < source.len() && (#[trigger] source[a]).0@ == k;
                assert(entries_map(source)[source[a].0@] == source[a].1);
                assert(entries_map(copy)[copy[a].0@] == copy[a].1);
            }
        }
        StringMap { entries }
    }
}

impl<V> Default for StringMap<V> {
    /// The empty map.
    fn default() -> (map: Self)
        ensures
            map@ == Map::<Seq<char>, V>::empty(),
    {
        StringMap::new()
    }
}

} // verus!
