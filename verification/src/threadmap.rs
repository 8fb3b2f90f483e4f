//! A map from threads to values.
use vstd::prelude::*;

use crate::approval::{ThreadKey, ThreadV};
use crate::assoc::{
    keys_of, lemma_domain, lemma_entry, lemma_push, lemma_remove, lemma_set, lemma_without_absent,
    map_of, without,
};
use crate::text::same_text;

verus! {

/// A map from threads to values.
#[derive(Debug)]
pub struct ThreadMap<T> {
    entries: Vec<(ThreadKey, T)>,
}

/// Entries with the models of their keys.
pub open spec fn thread_entries<T>(entries: Seq<(ThreadKey, T)>) -> Seq<(ThreadV, T)> {
    Seq::new(entries.len(), |i: int| (entries[i].0@, entries[i].1))
}

impl<T> View for ThreadMap<T> {
    type V = Map<ThreadV, T>;

    closed spec fn view(&self) -> Map<ThreadV, T> {
        map_of(thread_entries(self.entries@))
    }
}

impl<T> ThreadMap<T> {
    /// The keys, in the order in which they came.
    pub closed spec fn keys(&self) -> Seq<ThreadV> {
        keys_of(thread_entries(self.entries@))
    }

    #[verifier::type_invariant]
    closed spec fn distinct(&self) -> bool {
        keys_of(thread_entries(self.entries@)).no_duplicates()
    }

    /// A map without values.
    pub fn new() -> (r: Self)
        ensures
            r@ == Map::<ThreadV, T>::empty(),
            r.keys() == Seq::<ThreadV>::empty(),
    {
        let r = ThreadMap { entries: Vec::new() };
        proof {
            assert(r.keys() =~= Seq::<ThreadV>::empty());
            assert(r@ =~= Map::<ThreadV, T>::empty());
        }
        r
    }

    /// How many keys there are. The keys are those of the map, each once.
    pub fn len(&self) -> (r: usize)
        ensures
            r == self.keys().len(),
            r == self@.dom().len(),
            self.keys().no_duplicates(),
            self.keys().to_set() == self@.dom(),
            self@.dom().finite(),
    {
        proof {
            use_type_invariant(self);
            lemma_domain(thread_entries(self.entries@));
        }
        self.entries.len()
    }

    fn position(&self, key: &ThreadKey) -> (r: Option<usize>)
        ensures
            match r {
                Some(i) => i < self.entries@.len() && self.entries@[i as int].0@ == key@
                    && self@.contains_key(key@) && self@[key@] == self.entries@[i as int].1,
                None => !self@.contains_key(key@) && !self.keys().contains(key@),
            },
    {
        proof {
            use_type_invariant(self);
        }
        let ghost all = thread_entries(self.entries@);
        let mut i: usize = 0;
        while i < self.entries.len()
            invariant
                i <= self.entries@.len(),
                all == thread_entries(self.entries@),
                keys_of(all).no_duplicates(),
                forall|j: int| 0 <= j < i ==> keys_of(all)[j] != key@,
            decreases self.entries@.len() - i,
        {
            if same_text(self.entries[i].0.user.as_str(), key.user.as_str()) && same_text(
                self.entries[i].0.agent.as_str(),
                key.agent.as_str(),
            ) {
                proof {
                    lemma_entry(all, i as int);
                }
                return Some(i);
            }
            i = i + 1;
        }
        None
    }

    /// The value of a key.
    pub fn get(&self, key: &ThreadKey) -> (r: Option<&T>)
        ensures
            match r {
                Some(v) => self@.contains_key(key@) && *v == self@[key@],
                None => !self@.contains_key(key@),
            },
    {
        match self.position(key) {
            Some(i) => Some(&self.entries[i].1),
            None => None,
        }
    }

    /// Whether a key has a value.
    pub fn contains_key(&self, key: &ThreadKey) -> (r: bool)
        ensures
            r == self@.contains_key(key@),
    {
        self.position(key).is_some()
    }

    /// Gives a key a value, in place of the one it had.
    pub fn insert(&mut self, key: &ThreadKey, value: T)
        ensures
            final(self)@ == old(self)@.insert(key@, value),
            final(self).keys() == (if old(self)@.contains_key(key@) {
                old(self).keys()
            } else {
                old(self).keys().push(key@)
            }),
    {
        proof {
            use_type_invariant(&*self);
        }
        let ghost all = thread_entries(self.entries@);
        let at = self.position(key);
        let mut entries: Vec<(ThreadKey, T)> = Vec::new();
        core::mem::swap(&mut entries, &mut self.entries);
        match at {
            Some(i) => {
                entries.set(i, (key.clone(), value));
                proof {
                    lemma_set(all, i as int, value);
                    assert(thread_entries(entries@) =~= all.update(i as int, (all[i as int].0, value)));
                }
            },
            None => {
                entries.push((key.clone(), value));
                proof {
                    lemma_push(all, key@, value);
                    assert(thread_entries(entries@) =~= all.push((key@, value)));
                }
            },
        }
        self.entries = entries;
    }

    /// Takes a key out, with its value.
    pub fn remove(&mut self, key: &ThreadKey) -> (r: Option<T>)
        ensures
            final(self)@ == old(self)@.remove(key@),
            final(self).keys() == without(old(self).keys(), key@),
            match r {
                Some(v) => old(self)@.contains_key(key@) && v == old(self)@[key@],
                None => !old(self)@.contains_key(key@),
            },
    {
        proof {
            use_type_invariant(&*self);
        }
        let ghost all = thread_entries(self.entries@);
        match self.position(key) {
            Some(i) => {
                let mut entries: Vec<(ThreadKey, T)> = Vec::new();
                core::mem::swap(&mut entries, &mut self.entries);
                let taken = entries.remove(i);
                proof {
                    lemma_remove(all, i as int);
                    assert(thread_entries(entries@) =~= all.remove(i as int));
                }
                self.entries = entries;
                Some(taken.1)
            },
            None => {
                proof {
                    lemma_without_absent(keys_of(all), key@);
                    assert(self@ =~= old(self)@.remove(key@));
                }
                None
            },
        }
    }
}

} // verus!
