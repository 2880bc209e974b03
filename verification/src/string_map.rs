//! A mapping from strings to strings. It serves as the localization mapping
//! of one field of one node, from key tag to translated string, and as the
//! resources of one key, from lookup key to translated string.

use vstd::prelude::*;

verus! {

/// A mapping from strings to strings, with at most one entry for each key.
/// Its view is the mapping itself, over the strings' contents.
pub struct StringMap {
    entries: Vec<(String, String)>,
}

/// Whether no two of the entries have the same key.
pub closed spec fn distinct_keys(entries: Seq<(String, String)>) -> bool {
    forall|i: int, j: int|
        0 <= i < entries.len() && 0 <= j < entries.len() && i != j ==> entries[i].0@
            != entries[j].0@
}

/// Whether one of the entries has this key.
pub closed spec fn has_key(entries: Seq<(String, String)>, key: Seq<char>) -> bool {
    exists|i: int| 0 <= i < entries.len() && #[trigger] entries[i].0@ == key
}

/// The place of an entry with this key, where there is one.
pub closed spec fn place_of(entries: Seq<(String, String)>, key: Seq<char>) -> int {
    choose|i: int| 0 <= i < entries.len() && #[trigger] entries[i].0@ == key
}

impl View for StringMap {
    type V = Map<Seq<char>, Seq<char>>;

    closed spec fn view(&self) -> Map<Seq<char>, Seq<char>> {
        entries_map(self.entries@)
    }
}

impl StringMap {
    #[verifier::type_invariant]
    closed spec fn well_formed(&self) -> bool {
        distinct_keys(self.entries@)
    }

    /// The mapping without entries.
    pub fn new() -> (map: StringMap)
        ensures
            map@ == Map::<Seq<char>, Seq<char>>::empty(),
    {
        let map = StringMap { entries: Vec::new() };
        assert(map@ =~= Map::<Seq<char>, Seq<char>>::empty());
        map
    }

    /// The place of the entry for a key among the entries, if any.
    fn find(&self, key: &String) -> (place: Option<usize>)
        ensures
            match place {
                Some(i) => i < self.entries@.len() && self.entries@[i as int].0@ == key@,
                None => !has_key(self.entries@, key@),
            },
    {
        let n: usize = self.entries.len();
        let mut i: usize = 0;
        while i < n
            invariant
                n == self.entries@.len(),
                i <= n,
                forall|j: int| 0 <= j < i ==> self.entries@[j].0@ != key@,
            decreases n - i,
        {
            if self.entries[i].0 == *key {
                return Some(i);
            }
            i = i + 1;
        }
        None
    }

    /// Whether the mapping has an entry for the key.
    pub fn contains_key(&self, key: &String) -> (found: bool)
        ensures
            found == self@.contains_key(key@),
    {
        self.find(key).is_some()
    }

    /// The value for the key, if the mapping has one.
    pub fn get(&self, key: &String) -> (value: Option<&String>)
        ensures
            match value {
                Some(t) => self@.contains_key(key@) && t@ == self@[key@],
                None => !self@.contains_key(key@),
            },
    {
        proof {
            use_type_invariant(self);
        }
        match self.find(key) {
            Some(i) => {
                assert(has_key(self.entries@, key@));
                Some(&self.entries[i].1)
            },
            None => None,
        }
    }

    /// The number of entries.
    pub fn len(&self) -> (n: usize)
        ensures
            n == self@.dom().len(),
            self@.dom().finite(),
    {
        proof {
            use_type_invariant(self);
            lemma_domain_size(self.entries@);
            assert(self@.dom() =~= key_set(self.entries@));
        }
        self.entries.len()
    }

    /// The entries as pairs of key and value, each key once, in no order
    /// that a caller may rely on.
    pub fn entries(&self) -> (pairs: Vec<(String, String)>)
        ensures
            pairs@.len() == self@.dom().len(),
            forall|i: int|
                0 <= i < pairs@.len() ==> self@.contains_key(#[trigger] pairs@[i].0@)
                    && self@[pairs@[i].0@] == pairs@[i].1@,
            forall|i: int, j: int|
                0 <= i < pairs@.len() && 0 <= j < pairs@.len() && i != j ==> pairs@[i].0@
                    != pairs@[j].0@,
            forall|key: Seq<char>|
                self@.contains_key(key) ==> exists|i: int|
                    0 <= i < pairs@.len() && #[trigger] pairs@[i].0@ == key,
    {
        proof {
            use_type_invariant(self);
            lemma_domain_size(self.entries@);
            assert(self@.dom() =~= key_set(self.entries@));
        }
        let mut pairs: Vec<(String, String)> = Vec::new();
        let n: usize = self.entries.len();
        let mut i: usize = 0;
        while i < n
            invariant
                n == self.entries@.len(),
                i <= n,
                pairs@.len() == i,
                forall|j: int|
                    0 <= j < i ==> pairs@[j].0@ == self.entries@[j].0@ && pairs@[j].1@
                        == self.entries@[j].1@,
            decreases n - i,
        {
            pairs.push((self.entries[i].0.clone(), self.entries[i].1.clone()));
            i = i + 1;
        }
        proof {
            assert forall|j: int| 0 <= j < pairs@.len() implies self@.contains_key(
                #[trigger] pairs@[j].0@,
            ) && self@[pairs@[j].0@] == pairs@[j].1@ by {
                assert(self.entries@[j].0@ == pairs@[j].0@);
                assert(has_key(self.entries@, pairs@[j].0@));
                assert(place_of(self.entries@, pairs@[j].0@) == j);
            }
            assert forall|key: Seq<char>| self@.contains_key(key) implies exists|j: int|
                0 <= j < pairs@.len() && #[trigger] pairs@[j].0@ == key by {
                let j = place_of(self.entries@, key);
                assert(pairs@[j].0@ == key);
            }
        }
        pairs
    }

    /// Writes the value for a key: a new entry where the mapping had none
    /// for the key, else in place of the value it had, which is returned.
    /// The other entries stay as they were.
    pub fn insert(&mut self, key: String, value: String) -> (previous: Option<String>)
        ensures
            final(self)@ == old(self)@.insert(key@, value@),
            match previous {
                Some(p) => old(self)@.contains_key(key@) && p@ == old(self)@[key@],
                None => !old(self)@.contains_key(key@),
            },
    {
        proof {
            use_type_invariant(&*self);
        }
        let ghost before = self.entries@;
        let place = self.find(&key);
        let mut entries: Vec<(String, String)> = Vec::new();
        core::mem::swap(&mut self.entries, &mut entries);
        let previous = match place {
            Some(i) => {
                assert(has_key(before, key@));
                let mut entry: (String, String) = (key, value);
                let slot: &mut (String, String) = &mut entries[i];
                core::mem::swap(slot, &mut entry);
                proof {
                    lemma_update_entry(before, i as int, key, value);
                }
                Some(entry.1)
            },
            None => {
                entries.push((key, value));
                proof {
                    lemma_push_entry(before, key, value);
                }
                None
            },
        };
        core::mem::swap(&mut self.entries, &mut entries);
        assert(self@ =~= old(self)@.insert(key@, value@));
        previous
    }
}

/// The mapping that the entries stand for.
pub closed spec fn entries_map(entries: Seq<(String, String)>) -> Map<Seq<char>, Seq<char>> {
    Map::new(
        |k: Seq<char>| has_key(entries, k),
        |k: Seq<char>| entries[place_of(entries, k)].1@,
    )
}

/// A new value in the place of an entry's value changes the mapping at that
/// entry's key and nowhere else.
proof fn lemma_update_entry(before: Seq<(String, String)>, i: int, key: String, value: String)
    requires
        distinct_keys(before),
        0 <= i < before.len(),
        before[i].0@ == key@,
    ensures
        distinct_keys(before.update(i, (key, value))),
        entries_map(before.update(i, (key, value))) == entries_map(before).insert(key@, value@),
{
    let after = before.update(i, (key, value));
    assert forall|k: Seq<char>| has_key(after, k) == (k == key@ || has_key(before, k)) by {
        if has_key(after, k) {
            let j = place_of(after, k);
            assert(before[j].0@ == k);
        }
        if has_key(before, k) {
            let j = place_of(before, k);
            assert(after[j].0@ == k);
        }
        if k == key@ {
            assert(after[i].0@ == k);
        }
    }
    assert forall|k: Seq<char>| has_key(after, k) implies after[place_of(after, k)].1@ == (if k
        == key@ {
        value@
    } else {
        before[place_of(before, k)].1@
    }) by {
        let j = place_of(after, k);
        if k != key@ {
            assert(before[j].0@ == k);
            assert(place_of(before, k) == j);
        }
    }
    assert(entries_map(after) =~= entries_map(before).insert(key@, value@));
}

/// An entry with a new key, put behind the others, adds that key to the
/// mapping and changes nothing else.
proof fn lemma_push_entry(before: Seq<(String, String)>, key: String, value: String)
    requires
        distinct_keys(before),
        !has_key(before, key@),
    ensures
        distinct_keys(before.push((key, value))),
        entries_map(before.push((key, value))) == entries_map(before).insert(key@, value@),
{
    let after = before.push((key, value));
    assert forall|a: int, b: int|
        0 <= a < after.len() && 0 <= b < after.len() && a != b implies after[a].0@
        != after[b].0@ by {
        if a < before.len() && b < before.len() {
        } else if a < before.len() {
            assert(before[a].0@ == after[a].0@);
        } else {
            assert(before[b].0@ == after[b].0@);
        }
    }
    assert forall|k: Seq<char>| has_key(after, k) == (k == key@ || has_key(before, k)) by {
        if has_key(after, k) {
            let j = place_of(after, k);
            if j < before.len() {
                assert(before[j].0@ == k);
            }
        }
        if has_key(before, k) {
            let j = place_of(before, k);
            assert(after[j].0@ == k);
        }
        if k == key@ {
            assert(after[before.len() as int].0@ == k);
        }
    }
    assert forall|k: Seq<char>| has_key(after, k) implies after[place_of(after, k)].1@ == (if k
        == key@ {
        value@
    } else {
        before[place_of(before, k)].1@
    }) by {
        let j = place_of(after, k);
        if k != key@ {
            assert(j < before.len());
            assert(before[j].0@ == k);
            assert(place_of(before, k) == j);
        } else {
            assert(after[before.len() as int].0@ == k);
        }
    }
    assert(entries_map(after) =~= entries_map(before).insert(key@, value@));
}

/// The keys of the entries.
pub closed spec fn key_set(entries: Seq<(String, String)>) -> Set<Seq<char>> {
    Set::new(|key: Seq<char>| has_key(entries, key))
}

/// Entries with distinct keys have as many keys as there are entries.
proof fn lemma_domain_size(entries: Seq<(String, String)>)
    requires
        distinct_keys(entries),
    ensures
        key_set(entries).finite(),
        key_set(entries).len() == entries.len(),
    decreases entries.len(),
{
    if entries.len() == 0 {
        assert(key_set(entries) =~= Set::<Seq<char>>::empty());
    } else {
        let front = entries.drop_last();
        let last = entries.last();
        assert(distinct_keys(front)) by {
            assert forall|i: int, j: int|
                0 <= i < front.len() && 0 <= j < front.len() && i != j implies front[i].0@
                != front[j].0@ by {
                assert(front[i] == entries[i]);
                assert(front[j] == entries[j]);
            }
        }
        lemma_domain_size(front);
        assert(!key_set(front).contains(last.0@)) by {
            if has_key(front, last.0@) {
                let j = place_of(front, last.0@);
                assert(front[j] == entries[j]);
                assert(entries[entries.len() - 1].0@ == last.0@);
            }
        }
        assert(key_set(entries) =~= key_set(front).insert(last.0@)) by {
            assert forall|key: Seq<char>| has_key(entries, key) == (key == last.0@ || has_key(
                front,
                key,
            )) by {
                if has_key(entries, key) {
                    let j = place_of(entries, key);
                    if j < front.len() {
                        assert(front[j].0@ == key);
                    }
                }
                if has_key(front, key) {
                    let j = place_of(front, key);
                    assert(entries[j].0@ == key);
                }
                if key == last.0@ {
                    assert(entries[entries.len() - 1].0@ == key);
                }
            }
        }
    }
}

} // verus!
