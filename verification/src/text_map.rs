//! A map from strings to small values, kept as a list of entries.

use vstd::prelude::*;

use crate::text::same_text;

verus! {

/// A map keyed by strings. No key occurs twice.
#[derive(Debug)]
pub struct TextMap<V> {
    entries: Vec<(String, V)>,
}

/// The keys of a list of entries.
pub open spec fn keys_of<V>(entries: Seq<(String, V)>) -> Seq<Seq<char>> {
    entries.map_values(|e: (String, V)| e.0@)
}

/// The map that a list of entries stands for.
pub open spec fn map_of<V>(entries: Seq<(String, V)>) -> Map<Seq<char>, V>
    decreases entries.len(),
{
    if entries.len() == 0 {
        Map::empty()
    } else {
        map_of(entries.drop_last()).insert(entries.last().0@, entries.last().1)
    }
}

/// A list of entries without repeated keys maps each key to its value and
/// nothing else to anything.
pub proof fn lemma_map_of<V>(entries: Seq<(String, V)>)
    requires
        keys_of(entries).no_duplicates(),
    ensures
        forall|k: Seq<char>|
            #[trigger] map_of(entries).contains_key(k) <==> keys_of(entries).contains(k),
        forall|i: int|
            0 <= i < entries.len() ==> map_of(entries)[(#[trigger] entries[i]).0@] == entries[i].1,
        map_of(entries).dom().finite(),
        map_of(entries).dom().len() == entries.len(),
    decreases entries.len(),
{
    if entries.len() > 0 {
        let init = entries.drop_last();
        assert(keys_of(init) == keys_of(entries).drop_last());
        assert(keys_of(init).no_duplicates());
        lemma_map_of(init);
        assert(keys_of(entries) == keys_of(init).push(entries.last().0@));
        assert forall|k: Seq<char>| #[trigger]
            map_of(entries).contains_key(k) <==> keys_of(entries).contains(k) by {
            if keys_of(init).contains(k) {
                let j = choose|j: int| 0 <= j < keys_of(init).len() && keys_of(init)[j] == k;
                assert(keys_of(entries)[j] == k);
            }
            if keys_of(entries).contains(k) {
                let j = choose|j: int| 0 <= j < keys_of(entries).len() && keys_of(entries)[j] == k;
                if j < init.len() {
                    assert(keys_of(init)[j] == k);
                }
            }
            assert(keys_of(entries)[entries.len() - 1] == entries.last().0@);
        }
        assert forall|i: int| 0 <= i < entries.len() implies map_of(entries)[(
        #[trigger] entries[i]).0@] == entries[i].1 by {
            if i < init.len() {
                assert(init[i] == entries[i]);
                assert(keys_of(entries)[i] == entries[i].0@);
                assert(keys_of(entries)[entries.len() - 1] == entries.last().0@);
            }
        }
        assert(!keys_of(init).contains(entries.last().0@)) by {
            if keys_of(init).contains(entries.last().0@) {
                let j = choose|j: int|
                    0 <= j < keys_of(init).len() && keys_of(init)[j] == entries.last().0@;
                assert(keys_of(entries)[j] == keys_of(entries)[entries.len() - 1]);
            }
        }
    }
}

impl<V> View for TextMap<V> {
    type V = Map<Seq<char>, V>;

    closed spec fn view(&self) -> Map<Seq<char>, V> {
        map_of(self.entries@)
    }
}

impl<V> TextMap<V> {
    #[verifier::type_invariant]
    spec fn keys_are_distinct(self) -> bool {
        keys_of(self.entries@).no_duplicates()
    }
}

impl<V: Copy> TextMap<V> {
    /// The empty map.
    pub fn new() -> (m: Self)
        ensures
            m@ == Map::<Seq<char>, V>::empty(),
    {
        TextMap { entries: Vec::new() }
    }

    /// The position of `key` among the entries.
    fn position(&self, key: &str) -> (at: Option<usize>)
        ensures
            match at {
                Some(i) => i < self.entries@.len() && self.entries@[i as int].0@ == key@,
                None => !keys_of(self.entries@).contains(key@),
            },
    {
        let mut i: usize = 0;
        while i < self.entries.len()
            invariant
                i <= self.entries@.len(),
                forall|j: int| 0 <= j < i ==> (#[trigger] self.entries@[j]).0@ != key@,
            decreases self.entries@.len() - i,
        {
            if same_text(&self.entries[i].0, key) {
                return Some(i);
            }
            i += 1;
        }
        proof {
            if keys_of(self.entries@).contains(key@) {
                let j = choose|j: int|
                    0 <= j < keys_of(self.entries@).len() && keys_of(self.entries@)[j] == key@;
                assert(self.entries@[j].0@ == key@);
            }
        }
        None
    }

    /// The value at `key`.
    pub fn get(&self, key: &str) -> (value: Option<V>)
        ensures
            value == if self@.contains_key(key@) {
                Some(self@[key@])
            } else {
                None
            },
    {
        proof {
            use_type_invariant(self);
            lemma_map_of(self.entries@);
        }
        match self.position(key) {
            Some(i) => {
                assert(keys_of(self.entries@)[i as int] == key@);
                Some(self.entries[i].1)
            },
            None => None,
        }
    }

    /// Puts `value` at `key`, in place of any value that is there.
    pub fn insert(&mut self, key: String, value: V)
        ensures
            final(self)@ == old(self)@.insert(key@, value),
    {
        proof {
            use_type_invariant(&*self);
            lemma_map_of(self.entries@);
        }
        let at: Option<usize> = self.position(&key);
        let mut entries: Vec<(String, V)> = Vec::new();
        std::mem::swap(&mut entries, &mut self.entries);
        let ghost before = entries@;
        match at {
            Some(i) => {
                entries.set(i, (key, value));
                assert(keys_of(entries@) == keys_of(before));
            },
            None => {
                entries.push((key, value));
                assert(keys_of(entries@) == keys_of(before).push(key@));
                assert(entries@.drop_last() == before);
            },
        }
        proof {
            lemma_map_of(entries@);
            if at is Some {
                let i = at->0 as int;
                let m = map_of(entries@);
                assert(keys_of(before)[i] == key@);
                assert(before[i].0@ == key@);
                assert forall|k: Seq<char>| m.contains_key(k) && k != key@ implies #[trigger] m[k]
                    == map_of(before)[k] by {
                    let j = choose|j: int|
                        0 <= j < keys_of(entries@).len() && keys_of(entries@)[j] == k;
                    assert(entries@[j] == before[j]);
                }
                assert(entries@[i].0@ == key@);
                assert(m =~= map_of(before).insert(key@, value));
            }
        }
        self.entries = entries;
    }

    /// Removes `key`, if it is there.
    pub fn remove(&mut self, key: &str)
        ensures
            final(self)@ == old(self)@.remove(key@),
    {
        proof {
            use_type_invariant(&*self);
            lemma_map_of(self.entries@);
        }
        let at: Option<usize> = self.position(key);
        let mut entries: Vec<(String, V)> = Vec::new();
        std::mem::swap(&mut entries, &mut self.entries);
        let ghost before = entries@;
        if let Some(i) = at {
            entries.remove(i);
            assert(keys_of(entries@) == keys_of(before).remove(i as int));
            assert(keys_of(before)[i as int] == key@);
            proof {
                lemma_map_of(entries@);
                let m = map_of(entries@);
                let w = map_of(before).remove(key@);
                assert forall|k: Seq<char>| #[trigger] m.contains_key(k) <==> w.contains_key(k) by {
                    if w.contains_key(k) {
                        let j = choose|j: int|
                            0 <= j < keys_of(before).len() && keys_of(before)[j] == k;
                        if j < i {
                            assert(keys_of(entries@)[j] == k);
                        } else {
                            assert(keys_of(entries@)[j - 1] == k);
                        }
                    }
                    if m.contains_key(k) {
                        let j = choose|j: int|
                            0 <= j < keys_of(entries@).len() && keys_of(entries@)[j] == k;
                        if j < i {
                            assert(keys_of(before)[j] == k);
                        } else {
                            assert(keys_of(before)[j + 1] == k);
                        }
                    }
                }
                assert forall|k: Seq<char>| m.contains_key(k) implies #[trigger] m[k] == w[k] by {
                    let j = choose|j: int|
                        0 <= j < keys_of(entries@).len() && keys_of(entries@)[j] == k;
                    if j < i {
                        assert(entries@[j] == before[j]);
                    } else {
                        assert(entries@[j] == before[j + 1]);
                    }
                }
                assert(m =~= w);
            }
        } else {
            assert(map_of(before) =~= map_of(before).remove(key@));
        }
        self.entries = entries;
    }

    /// The entries, each key once.
    pub fn items(&self) -> (items: &Vec<(String, V)>)
        ensures
            keys_of(items@).no_duplicates(),
            map_of(items@) == self@,
    {
        proof {
            use_type_invariant(self);
        }
        &self.entries
    }
}

impl<V: Copy> Clone for TextMap<V> {
    fn clone(&self) -> (m: Self)
        ensures
            m@ == self@,
    {
        proof {
            use_type_invariant(self);
        }
        let mut entries: Vec<(String, V)> = Vec::new();
        let mut i: usize = 0;
        while i < self.entries.len()
            invariant
                i <= self.entries@.len(),
                entries@ == self.entries@.take(i as int),
            decreases self.entries@.len() - i,
        {
            entries.push((self.entries[i].0.clone(), self.entries[i].1));
            assert(entries@ == self.entries@.take(i + 1));
            i += 1;
        }
        assert(entries@ == self.entries@);
        TextMap { entries }
    }
}

} // verus!
