//! A finite map from strings to strings, kept as a list of entries whose keys
//! are pairwise different.

use vstd::prelude::*;

verus! {

/// Some entry of `entries` has the key `key`.
pub open spec fn has_key(entries: Seq<(String, String)>, key: Seq<char>) -> bool {
    exists|i: int| 0 <= i < entries.len() && (#[trigger] entries[i]).0@ == key
}

/// The position of an entry with the key `key`.
pub open spec fn position_of(entries: Seq<(String, String)>, key: Seq<char>) -> int {
    choose|i: int| 0 <= i < entries.len() && (#[trigger] entries[i]).0@ == key
}

/// No two entries share a key.
pub open spec fn distinct_keys(entries: Seq<(String, String)>) -> bool {
    forall|i: int, j: int|
        0 <= i < j < entries.len() ==> (#[trigger] entries[i]).0@ != (#[trigger] entries[j]).0@
}

/// The map that a list of entries stands for.
pub open spec fn map_of(entries: Seq<(String, String)>) -> Map<Seq<char>, Seq<char>> {
    Map::new(
        |key: Seq<char>| has_key(entries, key),
        |key: Seq<char>| entries[position_of(entries, key)].1@,
    )
}

/// A map from strings to strings.
#[derive(Debug)]
pub struct StringMap {
    entries: Vec<(String, String)>,
}

impl View for StringMap {
    type V = Map<Seq<char>, Seq<char>>;

    closed spec fn view(&self) -> Map<Seq<char>, Seq<char>> {
        map_of(self.entries@)
    }
}

impl StringMap {
    #[verifier::type_invariant]
    spec fn keys_are_distinct(self) -> bool {
        distinct_keys(self.entries@)
    }

    /// The empty map.
    pub fn new() -> (r: StringMap)
        ensures
            r@ == Map::<Seq<char>, Seq<char>>::empty(),
    {
        let r = StringMap { entries: Vec::new() };
        proof {
            assert(r@ =~= Map::<Seq<char>, Seq<char>>::empty());
        }
        r
    }

    /// The position of `key` among the entries, if it is there.
    fn find(&self, key: &str) -> (r: Option<usize>)
        ensures
            match r {
                Some(i) => i < self.entries.len() && self.entries[i as int].0@ == key@,
                None => !has_key(self.entries@, key@),
            },
    {
        let wanted = key.to_owned();
        let mut i: usize = 0;
        while i < self.entries.len()
            invariant
                i <= self.entries.len(),
                wanted@ == key@,
                forall|j: int| 0 <= j < i ==> (#[trigger] self.entries[j]).0@ != key@,
            decreases self.entries.len() - i,
        {
            if self.entries[i].0 == wanted {
                return Some(i);
            }
            i += 1;
        }
        None
    }

    /// The value stored under `key`, if there is one.
    pub fn get(&self, key: &str) -> (r: Option<&String>)
        ensures
            match r {
                Some(value) => self@.contains_key(key@) && self@[key@] == value@,
                None => !self@.contains_key(key@),
            },
    {
        proof {
            use_type_invariant(self);
        }
        match self.find(key) {
            Some(i) => {
                proof {
                    assert(has_key(self.entries@, key@));
                    assert(position_of(self.entries@, key@) == i);
                }
                Some(&self.entries[i].1)
            },
            None => None,
        }
    }

    /// Whether a value is stored under `key`.
    pub fn contains_key(&self, key: &str) -> (r: bool)
        ensures
            r == self@.contains_key(key@),
    {
        self.get(key).is_some()
    }

    /// Stores `value` under `key`, in place of the value that was there, if any.
    pub fn insert(&mut self, key: String, value: String)
        ensures
            final(self)@ == old(self)@.insert(key@, value@),
    {
        proof {
            use_type_invariant(&*self);
        }
        let ghost before = self.entries@;
        let found = self.find(key.as_str());
        let mut entries: Vec<(String, String)> = Vec::new();
        core::mem::swap(&mut self.entries, &mut entries);
        match found {
            Some(i) => {
                entries.set(i, (key, value));
                proof {
                    let after = entries@;
                    assert forall|k: Seq<char>| has_key(after, k) <==> has_key(before, k) by {
                        if has_key(before, k) {
                            let j = position_of(before, k);
                            assert(after[j].0@ == k);
                        }
                        if has_key(after, k) {
                            let j = position_of(after, k);
                            assert(before[j].0@ == k);
                        }
                    }
                    assert(has_key(before, key@)) by {
                        assert(before[i as int].0@ == key@);
                    }
                    assert forall|k: Seq<char>| has_key(after, k) implies map_of(after)[k] == (
                    if k == key@ {
                        value@
                    } else {
                        map_of(before)[k]
                    }) by {
                        let j = position_of(after, k);
                        let j0 = position_of(before, k);
                        assert(after[j0].0@ == k);
                        assert(j == j0);
                        if k == key@ {
                            assert(j == i);
                        }
                    }
                    assert(map_of(after) =~= map_of(before).insert(key@, value@));
                }
            },
            None => {
                entries.push((key, value));
                proof {
                    let after = entries@;
                    let n = before.len() as int;
                    assert forall|k: Seq<char>| has_key(after, k) <==> (k == key@ || has_key(
                        before,
                        k,
                    )) by {
                        if has_key(before, k) {
                            let j = position_of(before, k);
                            assert(after[j].0@ == k);
                        }
                        if k == key@ {
                            assert(after[n].0@ == k);
                        }
                        if has_key(after, k) {
                            let j = position_of(after, k);
                            if j < n {
                                assert(before[j].0@ == k);
                            }
                        }
                    }
                    assert forall|k: Seq<char>| has_key(after, k) implies map_of(after)[k] == (
                    if k == key@ {
                        value@
                    } else {
                        map_of(before)[k]
                    }) by {
                        let j = position_of(after, k);
                        if k == key@ {
                            assert(after[n].0@ == k);
                            assert(j == n);
                        } else {
                            let j0 = position_of(before, k);
                            assert(after[j0].0@ == k);
                            assert(j == j0);
                        }
                    }
                    assert(map_of(after) =~= map_of(before).insert(key@, value@));
                }
            },
        }
        core::mem::swap(&mut self.entries, &mut entries);
    }
}

/// With pairwise different keys, each entry is what the map holds under its key.
pub proof fn lemma_map_of_entry(entries: Seq<(String, String)>, i: int)
    requires
        distinct_keys(entries),
        0 <= i < entries.len(),
    ensures
        map_of(entries).contains_key(entries[i].0@),
        map_of(entries)[entries[i].0@] == entries[i].1@,
{
    let key = entries[i].0@;
    assert(has_key(entries, key));
    let j = position_of(entries, key);
    assert(j == i);
}

/// With pairwise different keys, one more entry at the end is one insertion.
pub proof fn lemma_map_of_push(entries: Seq<(String, String)>, entry: (String, String))
    requires
        distinct_keys(entries.push(entry)),
    ensures
        map_of(entries.push(entry)) == map_of(entries).insert(entry.0@, entry.1@),
{
    let after = entries.push(entry);
    let n = entries.len() as int;
    assert(distinct_keys(entries)) by {
        assert forall|i: int, j: int| 0 <= i < j < entries.len() implies (#[trigger] entries[i]).0@
            != (#[trigger] entries[j]).0@ by {
            assert(after[i] == entries[i]);
            assert(after[j] == entries[j]);
        }
    }
    assert forall|k: Seq<char>| has_key(after, k) <==> (k == entry.0@ || has_key(entries, k)) by {
        if has_key(entries, k) {
            let j = position_of(entries, k);
            assert(after[j].0@ == k);
        }
        if k == entry.0@ {
            assert(after[n].0@ == k);
        }
        if has_key(after, k) {
            let j = position_of(after, k);
            if j < n {
                assert(entries[j].0@ == k);
            }
        }
    }
    assert forall|k: Seq<char>| has_key(after, k) implies map_of(after)[k] == (if k == entry.0@ {
        entry.1@
    } else {
        map_of(entries)[k]
    }) by {
        let j = position_of(after, k);
        lemma_map_of_entry(after, j);
        if k != entry.0@ {
            let j0 = position_of(entries, k);
            lemma_map_of_entry(entries, j0);
            assert(after[j0].0@ == k);
        } else {
            assert(after[n].0@ == k);
        }
    }
    assert(map_of(after) =~= map_of(entries).insert(entry.0@, entry.1@));
}

impl Clone for StringMap {
    fn clone(&self) -> (r: StringMap)
        ensures
            r@ == self@,
    {
        proof {
            use_type_invariant(self);
        }
        let mut entries: Vec<(String, String)> = Vec::new();
        let mut i: usize = 0;
        while i < self.entries.len()
            invariant
                i <= self.entries.len(),
                entries@ == self.entries@.take(i as int),
            decreases self.entries.len() - i,
        {
            entries.push((self.entries[i].0.clone(), self.entries[i].1.clone()));
            proof {
                assert(entries@ =~= self.entries@.take(i + 1));
            }
            i += 1;
        }
        proof {
            assert(self.entries@.take(i as int) =~= self.entries@);
        }
        StringMap { entries }
    }
}

impl StringMap {
    /// Whether the map holds nothing.
    pub fn is_empty(&self) -> (r: bool)
        ensures
            r == (self@ == Map::<Seq<char>, Seq<char>>::empty()),
    {
        proof {
            if self.entries.len() > 0 {
                assert(has_key(self.entries@, self.entries@[0].0@));
                assert(self@.contains_key(self.entries@[0].0@));
            } else {
                assert(self@ =~= Map::<Seq<char>, Seq<char>>::empty());
            }
        }
        self.entries.len() == 0
    }

    /// The entries of the map, each key once.
    pub fn to_vec(&self) -> (r: Vec<(String, String)>)
        ensures
            distinct_keys(r@),
            map_of(r@) == self@,
    {
        proof {
            use_type_invariant(self);
        }
        let copy = self.clone();
        proof {
            use_type_invariant(&copy);
        }
        copy.entries
    }

    /// Whether every entry of this map is an entry of `other`.
    pub fn is_included_in(&self, other: &StringMap) -> (r: bool)
        ensures
            r == self@.submap_of(other@),
    {
        proof {
            use_type_invariant(self);
        }
        let mut i: usize = 0;
        while i < self.entries.len()
            invariant
                i <= self.entries.len(),
                distinct_keys(self.entries@),
                forall|j: int|
                    0 <= j < i ==> other@.contains_key((#[trigger] self.entries[j]).0@)
                        && other@[self.entries[j].0@] == self.entries[j].1@,
            decreases self.entries.len() - i,
        {
            proof {
                lemma_map_of_entry(self.entries@, i as int);
            }
            match other.get(self.entries[i].0.as_str()) {
                Some(value) => {
                    if *value != self.entries[i].1 {
                        return false;
                    }
                },
                None => {
                    return false;
                },
            }
            i += 1;
        }
        proof {
            assert forall|k: Seq<char>| #[trigger] self@.dom().contains(k) implies other@.dom().contains(k)
                && self@[k] == other@[k] by {
                let j = position_of(self.entries@, k);
                lemma_map_of_entry(self.entries@, j);
            }
        }
        true
    }

    /// Whether both maps hold the same entries.
    pub fn same_as(&self, other: &StringMap) -> (r: bool)
        ensures
            r == (self@ == other@),
    {
        let r = self.is_included_in(other) && other.is_included_in(self);
        proof {
            if r {
                assert(self@ =~= other@);
            }
        }
        r
    }

    /// Adds every entry of `other`; where both maps hold a key, the value of
    /// `other` stays.
    pub fn extend(&mut self, other: &StringMap)
        ensures
            final(self)@ == old(self)@.union_prefer_right(other@),
    {
        proof {
            use_type_invariant(other);
        }
        let mut i: usize = 0;
        proof {
            assert(map_of(other.entries@.take(0)) =~= Map::<Seq<char>, Seq<char>>::empty());
            assert(self@ =~= old(self)@.union_prefer_right(map_of(other.entries@.take(0))));
        }
        while i < other.entries.len()
            invariant
                i <= other.entries.len(),
                distinct_keys(other.entries@),
                self@ == old(self)@.union_prefer_right(map_of(other.entries@.take(i as int))),
            decreases other.entries.len() - i,
        {
            let ghost so_far = other.entries@.take(i as int);
            let ghost entry = other.entries@[i as int];
            proof {
                assert(other.entries@.take(i + 1) =~= so_far.push(entry));
                assert(distinct_keys(so_far.push(entry))) by {
                    assert forall|a: int, b: int| 0 <= a < b < i + 1 implies (
                    #[trigger] so_far.push(entry)[a]).0@ != (#[trigger] so_far.push(entry)[b]).0@ by {
                        assert(so_far.push(entry)[a] == other.entries@[a]);
                        assert(so_far.push(entry)[b] == other.entries@[b]);
                    }
                }
                lemma_map_of_push(so_far, entry);
                assert(old(self)@.union_prefer_right(map_of(so_far)).insert(entry.0@, entry.1@)
                    =~= old(self)@.union_prefer_right(map_of(so_far).insert(entry.0@, entry.1@)));
            }
            self.insert(other.entries[i].0.clone(), other.entries[i].1.clone());
            i += 1;
        }
        proof {
            assert(other.entries@.take(i as int) =~= other.entries@);
        }
    }
}

impl PartialEq for StringMap {
    fn eq(&self, other: &StringMap) -> (r: bool) {
        self.same_as(other)
    }
}

impl vstd::std_specs::cmp::PartialEqSpecImpl for StringMap {
    open spec fn obeys_eq_spec() -> bool {
        true
    }

    open spec fn eq_spec(&self, other: &StringMap) -> bool {
        self@ == other@
    }
}

} // verus!
