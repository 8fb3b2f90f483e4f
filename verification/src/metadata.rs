//! Named text values attached to a message.
use vstd::prelude::*;

use crate::text::{same_text, text};
use crate::textmap::TextMap;

verus! {

/// Named text values; each name has at most one value.
#[derive(Debug)]
pub struct Metadata {
    map: TextMap<String>,
}

/// The texts of a map's values.
pub open spec fn texts_of(m: Map<Seq<char>, String>) -> Map<Seq<char>, Seq<char>> {
    m.map_values(|s: String| s@)
}

impl View for Metadata {
    type V = Map<Seq<char>, Seq<char>>;

    closed spec fn view(&self) -> Map<Seq<char>, Seq<char>> {
        texts_of(self.map@)
    }
}

impl Metadata {
    /// No values.
    pub fn new() -> (r: Self)
        ensures
            r@ == Map::<Seq<char>, Seq<char>>::empty(),
    {
        let r = Metadata { map: TextMap::new() };
        proof {
            assert(r@ =~= Map::<Seq<char>, Seq<char>>::empty());
        }
        r
    }

    /// The value with the given name.
    pub fn get(&self, name: &str) -> (r: Option<&String>)
        ensures
            match r {
                Some(v) => self@.contains_key(name@) && v@ == self@[name@],
                None => !self@.contains_key(name@),
            },
    {
        self.map.get(name)
    }

    /// Whether the value with the given name is `value`.
    pub fn has(&self, name: &str, value: &str) -> (r: bool)
        ensures
            r == (self@.contains_key(name@) && self@[name@] == value@),
    {
        match self.get(name) {
            Some(v) => same_text(v.as_str(), value),
            None => false,
        }
    }

    /// Whether there is a value with the given name.
    pub fn contains_key(&self, name: &str) -> (r: bool)
        ensures
            r == self@.contains_key(name@),
    {
        self.map.contains_key(name)
    }

    /// Gives a name a value, in place of the one it had.
    pub fn insert(&mut self, name: &str, value: &str)
        ensures
            final(self)@ == old(self)@.insert(name@, value@),
    {
        self.map.insert(name, text(value));
        proof {
            assert(self@ =~= old(self)@.insert(name@, value@));
        }
    }
}

impl Clone for Metadata {
    fn clone(&self) -> (r: Self)
        ensures
            r@ == self@,
    {
        let mut map: TextMap<String> = TextMap::new();
        let n: usize = self.map.len();
        let mut i: usize = 0;
        let ghost keys = self.map.keys();
        while i < n
            invariant
                i <= n == keys.len(),
                keys == self.map.keys(),
                keys.to_set() == self.map@.dom(),
                forall|k: Seq<char>|
                    #[trigger] map@.contains_key(k) <==> exists|j: int|
                        0 <= j < i && #[trigger] keys[j] == k,
                forall|k: Seq<char>| #[trigger]
                    map@.contains_key(k) ==> map@[k] == self.map@[k],
            decreases n - i,
        {
            let ghost before = map@;
            map.insert(self.map.key_at(i), self.map.value_at(i).clone());
            proof {
                assert forall|k: Seq<char>| #[trigger] map@.contains_key(k) implies exists|j: int|
                    0 <= j < i + 1 && #[trigger] keys[j] == k by {
                    if before.contains_key(k) {
                        let j = choose|j: int| 0 <= j < i && #[trigger] keys[j] == k;
                        assert(keys[j] == k);
                    } else {
                        assert(keys[i as int] == k);
                    }
                }
            }
            i = i + 1;
        }
        let r = Metadata { map };
        proof {
            assert forall|k: Seq<char>| r@.contains_key(k) == #[trigger] self@.contains_key(k) by {
                if self.map@.contains_key(k) {
                    assert(keys.to_set().contains(k));
                    let j = keys.index_of(k);
                    assert(keys[j] == k);
                }
                if map@.contains_key(k) {
                    let j = choose|j: int| 0 <= j < n && #[trigger] keys[j] == k;
                    assert(keys.to_set().contains(keys[j]));
                }
            }
            assert(r@ =~= self@);
        }
        r
    }
}

impl Default for Metadata {
    fn default() -> (r: Self)
        ensures
            r@ == Map::<Seq<char>, Seq<char>>::empty(),
    {
        Metadata::new()
    }
}

} // verus!
