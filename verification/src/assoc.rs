//! Association lists: sequences of entries in which no key occurs twice.
use vstd::prelude::*;

verus! {

/// The keys of entries.
pub open spec fn keys_of<A, T>(entries: Seq<(A, T)>) -> Seq<A> {
    Seq::new(entries.len(), |i: int| entries[i].0)
}

/// The mapping that entries stand for.
pub open spec fn map_of<A, T>(entries: Seq<(A, T)>) -> Map<A, T> {
    Map::new(
        |k: A| keys_of(entries).contains(k),
        |k: A| entries[keys_of(entries).index_of(k)].1,
    )
}

/// A sequence without the occurrences of a key.
pub open spec fn without<A>(keys: Seq<A>, key: A) -> Seq<A>
    decreases keys.len(),
{
    if keys.len() == 0 {
        seq![]
    } else {
        let rest = without(keys.drop_last(), key);
        if keys.last() == key {
            rest
        } else {
            rest.push(keys.last())
        }
    }
}

/// A key that does not occur leaves the sequence as it is.
pub proof fn lemma_without_absent<A>(keys: Seq<A>, key: A)
    requires
        !keys.contains(key),
    ensures
        without(keys, key) == keys,
    decreases keys.len(),
{
    if keys.len() > 0 {
        let k = keys.drop_last();
        assert forall|i: int| 0 <= i < k.len() implies k[i] != key by {
            assert(keys[i] == k[i]);
        }
        lemma_without_absent(k, key);
        assert(keys[keys.len() - 1] != key);
        assert(k.push(keys.last()) =~= keys);
    }
}

/// A key that occurs once is taken out where it stands.
pub proof fn lemma_without_at<A>(keys: Seq<A>, key: A, i: int)
    requires
        keys.no_duplicates(),
        0 <= i < keys.len(),
        keys[i] == key,
    ensures
        without(keys, key) == keys.remove(i),
    decreases keys.len(),
{
    let k = keys.drop_last();
    if i == keys.len() - 1 {
        assert forall|j: int| 0 <= j < k.len() implies k[j] != key by {
            assert(keys[j] == k[j]);
        }
        lemma_without_absent(k, key);
        assert(keys.remove(i) =~= k);
    } else {
        assert(keys[keys.len() - 1] != keys[i]);
        lemma_without_at(k, key, i);
        assert(keys.remove(i) =~= k.remove(i).push(keys.last()));
    }
}

/// The mapping has exactly the keys of the entries.
pub proof fn lemma_domain<A, T>(entries: Seq<(A, T)>)
    requires
        keys_of(entries).no_duplicates(),
    ensures
        keys_of(entries).to_set() == map_of(entries).dom(),
        map_of(entries).dom().finite(),
        map_of(entries).dom().len() == entries.len(),
{
    keys_of(entries).unique_seq_to_set();
    assert(keys_of(entries).to_set() =~= map_of(entries).dom());
}

/// Each entry gives the value of its key.
pub proof fn lemma_entry<A, T>(entries: Seq<(A, T)>, i: int)
    requires
        keys_of(entries).no_duplicates(),
        0 <= i < entries.len(),
    ensures
        map_of(entries).contains_key(entries[i].0),
        map_of(entries)[entries[i].0] == entries[i].1,
{
    let keys = keys_of(entries);
    assert(keys[i] == entries[i].0);
    let k = keys.index_of(keys[i]);
    assert(keys[k] == keys[i] && 0 <= k < keys.len());
    assert(k == i);
}

/// A new value for a key that occurs.
pub proof fn lemma_set<A, T>(entries: Seq<(A, T)>, i: int, value: T)
    requires
        keys_of(entries).no_duplicates(),
        0 <= i < entries.len(),
    ensures
        ({
            let after = entries.update(i, (entries[i].0, value));
            &&& keys_of(after) == keys_of(entries)
            &&& map_of(after) == map_of(entries).insert(entries[i].0, value)
        }),
{
    let after = entries.update(i, (entries[i].0, value));
    let key = entries[i].0;
    assert(keys_of(after) =~= keys_of(entries));
    let a = map_of(after);
    let b = map_of(entries).insert(key, value);
    lemma_entry(entries, i);
    assert forall|k: A| #[trigger] a.contains_key(k) implies a[k] == b[k] by {
        let j = keys_of(after).index_of(k);
        assert(keys_of(after)[j] == k && 0 <= j < after.len());
        lemma_entry(after, j);
        lemma_entry(entries, j);
        if j != i {
            assert(keys_of(entries)[j] != keys_of(entries)[i]);
        }
    }
    assert(a.dom() =~= b.dom());
    assert(a =~= b);
}

/// An entry for a key that does not occur.
pub proof fn lemma_push<A, T>(entries: Seq<(A, T)>, key: A, value: T)
    requires
        keys_of(entries).no_duplicates(),
        !keys_of(entries).contains(key),
    ensures
        keys_of(entries.push((key, value))) == keys_of(entries).push(key),
        keys_of(entries.push((key, value))).no_duplicates(),
        map_of(entries.push((key, value))) == map_of(entries).insert(key, value),
{
    let after = entries.push((key, value));
    let keys = keys_of(entries);
    let more = keys_of(after);
    assert(more =~= keys.push(key));
    assert forall|x: int, y: int|
        0 <= x < more.len() && 0 <= y < more.len() && x != y implies more[x] != more[y] by {
        if x < entries.len() && y < entries.len() {
            assert(keys[x] != keys[y]);
        } else if x < entries.len() {
            assert(keys.contains(keys[x]));
        } else {
            assert(keys.contains(keys[y]));
        }
    }
    let a = map_of(after);
    let b = map_of(entries).insert(key, value);
    assert forall|k: A| a.contains_key(k) == #[trigger] b.contains_key(k) by {
        if keys.contains(k) {
            let j = keys.index_of(k);
            assert(more[j] == k);
        }
        assert(more[entries.len() as int] == key);
        if more.contains(k) && k != key {
            let j = more.index_of(k);
            assert(more[j] == k);
            assert(keys[j] == k);
        }
    }
    assert forall|k: A| #[trigger] a.contains_key(k) implies a[k] == b[k] by {
        let j = more.index_of(k);
        assert(more[j] == k && 0 <= j < after.len());
        lemma_entry(after, j);
        if j < entries.len() {
            lemma_entry(entries, j);
            assert(keys.contains(k));
        }
    }
    assert(a =~= b);
}

/// The entries without one of them.
pub proof fn lemma_remove<A, T>(entries: Seq<(A, T)>, i: int)
    requires
        keys_of(entries).no_duplicates(),
        0 <= i < entries.len(),
    ensures
        keys_of(entries.remove(i)) == without(keys_of(entries), entries[i].0),
        keys_of(entries.remove(i)).no_duplicates(),
        map_of(entries.remove(i)) == map_of(entries).remove(entries[i].0),
{
    let after = entries.remove(i);
    let key = entries[i].0;
    let keys = keys_of(entries);
    let less = keys_of(after);
    assert(less =~= keys.remove(i));
    assert(keys[i] == key);
    lemma_without_at(keys, key, i);
    assert forall|x: int, y: int|
        0 <= x < less.len() && 0 <= y < less.len() && x != y implies less[x] != less[y] by {
        let u = if x < i {
            x
        } else {
            x + 1
        };
        let w = if y < i {
            y
        } else {
            y + 1
        };
        assert(keys[u] != keys[w]);
    }
    let a = map_of(after);
    let b = map_of(entries).remove(key);
    assert forall|k: A| a.contains_key(k) == #[trigger] b.contains_key(k) by {
        if less.contains(k) {
            let j = less.index_of(k);
            let u = if j < i {
                j
            } else {
                j + 1
            };
            assert(less[j] == k);
            assert(keys[u] == k);
            assert(keys[u] != keys[i]);
        }
        if keys.contains(k) && k != key {
            let u = keys.index_of(k);
            assert(keys[u] == k);
            let j = if u < i {
                u
            } else {
                u - 1
            };
            assert(less[j] == k);
        }
    }
    assert forall|k: A| #[trigger] a.contains_key(k) implies a[k] == b[k] by {
        let j = less.index_of(k);
        let u = if j < i {
            j
        } else {
            j + 1
        };
        assert(less[j] == k && 0 <= j < after.len());
        lemma_entry(after, j);
        lemma_entry(entries, u);
        assert(keys[u] != keys[i]);
    }
    assert(a =~= b);
}

} // verus!
