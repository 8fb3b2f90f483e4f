//! A map from texts to values that keeps the order in which keys came.
use vstd::prelude::*;

use crate::assoc::{
    keys_of, lemma_domain, lemma_entry, lemma_push, lemma_remove, lemma_set, lemma_without_absent,
    map_of, without,
};
use crate::text::{same_text, text};

verus! {

/// A map from texts to values. Keys stand in the order in which they came.
#[derive(Debug)]
pub struct TextMap<T> {
    entries: Vec<(String, T)>,
}

/// Entries with the models of their keys.
pub open spec fn entries_view<T>(entries: Seq<(String, T)>) -> Seq<(Seq<char>, T)> {
    Seq::new(entries.len(), |i: int| (entries[i].0@, entries[i].1))
}

impl<T> View for TextMap<T> {
    type V = Map<Seq<char>, T>;

    closed spec fn view(&self) -> Map<Seq<char>, T> {
        map_of(entries_view(self.entries@))
    }
}

impl<T> TextMap<T> {
    /// The keys, in the order in which they came.
    pub closed spec fn keys(&self) -> Seq<Seq<char>> {
        keys_of(entries_view(self.entries@))
    }

    #[verifier::type_invariant]
    closed spec fn distinct(&self) -> bool {
        keys_of(entries_view(self.entries@)).no_duplicates()
    }

    /// A map without values.
    pub fn new() -> (r: Self)
        ensures
            r@ == Map::<Seq<char>, T>::empty(),
            r.keys() == Seq::<Seq<char>>::empty(),
    {
        let r = TextMap { entries: Vec::new() };
        proof {
            assert(r.keys() =~= Seq::<Seq<char>>::empty());
            assert(r@ =~= Map::<Seq<char>, T>::empty());
        }
        r
    }

    /// How many keys there are. The keys are those of the map, each once.
    pub fn len(&self) -> (r: usize)
        ensures
            r == self.keys().len(),
            r == self@.dom().len(),
            self.keys().no_duplicates(),
            self.keys().to_set() == self@.dom(),
            self@.dom().finite(),
    {
        proof {
            use_type_invariant(self);
            lemma_domain(entries_view(self.entries@));
        }
        self.entries.len()
    }

    fn position(&self, key: &str) -> (r: Option<usize>)
        ensures
            match r {
                Some(i) => i < self.entries@.len() && self.entries@[i as int].0@ == key@
                    && self@.contains_key(key@) && self@[key@] == self.entries@[i as int].1,
                None => !self@.contains_key(key@) && !self.keys().contains(key@),
            },
    {
        proof {
            use_type_invariant(self);
        }
        let ghost all = entries_view(self.entries@);
        let mut i: usize = 0;
        while i < self.entries.len()
            invariant
                i <= self.entries@.len(),
                all == entries_view(self.entries@),
                keys_of(all).no_duplicates(),
                forall|j: int| 0 <= j < i ==> keys_of(all)[j] != key@,
            decreases self.entries@.len() - i,
        {
            if same_text(self.entries[i].0.as_str(), key) {
                proof {
                    lemma_entry(all, i as int);
                }
                return Some(i);
            }
            i = i + 1;
        }
        None
    }

    /// The value of a key.
    pub fn get(&self, key: &str) -> (r: Option<&T>)
        ensures
            match r {
                Some(v) => self@.contains_key(key@) && *v == self@[key@],
                None => !self@.contains_key(key@),
            },
    {
        match self.position(key) {
            Some(i) => Some(&self.entries[i].1),
            None => None,
        }
    }

    /// Whether a key has a value.
    pub fn contains_key(&self, key: &str) -> (r: bool)
        ensures
            r == self@.contains_key(key@),
    {
        self.position(key).is_some()
    }

    /// The key at a position.
    pub fn key_at(&self, i: usize) -> (r: &str)
        requires
            i < self.keys().len(),
        ensures
            r@ == self.keys()[i as int],
            self@.contains_key(r@),
    {
        proof {
            use_type_invariant(self);
            lemma_entry(entries_view(self.entries@), i as int);
        }
        self.entries[i].0.as_str()
    }

    /// The value at a position.
    pub fn value_at(&self, i: usize) -> (r: &T)
        requires
            i < self.keys().len(),
        ensures
            *r == self@[self.keys()[i as int]],
    {
        proof {
            use_type_invariant(self);
            lemma_entry(entries_view(self.entries@), i as int);
        }
        &self.entries[i].1
    }

    /// Gives a key a value, in place of the one it had.
    pub fn insert(&mut self, key: &str, value: T)
        ensures
            final(self)@ == old(self)@.insert(key@, value),
            final(self).keys() == (if old(self)@.contains_key(key@) {
                old(self).keys()
            } else {
                old(self).keys().push(key@)
            }),
    {
        proof {
            use_type_invariant(&*self);
        }
        let ghost all = entries_view(self.entries@);
        let at = self.position(key);
        let mut entries: Vec<(String, T)> = Vec::new();
        core::mem::swap(&mut entries, &mut self.entries);
        match at {
            Some(i) => {
                entries.set(i, (text(key), value));
                proof {
                    lemma_set(all, i as int, value);
                    assert(entries_view(entries@) =~= all.update(i as int, (all[i as int].0, value)));
                }
            },
            None => {
                entries.push((text(key), value));
                proof {
                    lemma_push(all, key@, value);
                    assert(entries_view(entries@) =~= all.push((key@, value)));
                }
            },
        }
        self.entries = entries;
    }

    /// Takes a key out, with its value.
    pub fn remove(&mut self, key: &str) -> (r: Option<T>)
        ensures
            final(self)@ == old(self)@.remove(key@),
            final(self).keys() == without(old(self).keys(), key@),
            match r {
                Some(v) => old(self)@.contains_key(key@) && v == old(self)@[key@],
                None => !old(self)@.contains_key(key@),
            },
    {
        proof {
            use_type_invariant(&*self);
        }
        let ghost all = entries_view(self.entries@);
        match self.position(key) {
            Some(i) => {
                let mut entries: Vec<(String, T)> = Vec::new();
                core::mem::swap(&mut entries, &mut self.entries);
                let taken = entries.remove(i);
                proof {
                    lemma_remove(all, i as int);
                    assert(entries_view(entries@) =~= all.remove(i as int));
                }
                self.entries = entries;
                Some(taken.1)
            },
            None => {
                proof {
                    lemma_without_absent(keys_of(all), key@);
                    assert(self@ =~= old(self)@.remove(key@));
                }
                None
            },
        }
    }

    /// Takes out everything.
    pub fn clear(&mut self)
        ensures
            final(self)@ == Map::<Seq<char>, T>::empty(),
            final(self).keys() == Seq::<Seq<char>>::empty(),
    {
        *self = TextMap::new();
    }
}

} // verus!
