//! Keyed entries kept in insertion order: the properties of objects and the
//! bindings of a scope. A key is found at its first occurrence; inserting
//! replaces that entry's value or appends a new entry.
use vstd::prelude::*;

verus! {

/// The index of the first occurrence of `key`, or -1.
pub open spec fn key_index(keys: Seq<Seq<char>>, key: Seq<char>) -> int
    decreases keys.len(),
{
    if keys.len() == 0 {
        -1
    } else {
        let i = key_index(keys.drop_last(), key);
        if i >= 0 {
            i
        } else if keys.last() == key {
            keys.len() - 1
        } else {
            -1
        }
    }
}

/// The keys of a sequence of entries.
pub open spec fn keys_of<V>(entries: Seq<(Seq<char>, V)>) -> Seq<Seq<char>> {
    entries.map_values(|e: (Seq<char>, V)| e.0)
}

/// The keys of a vector of entries, as sequences of characters.
pub open spec fn string_keys<V>(entries: Seq<(String, V)>) -> Seq<Seq<char>> {
    entries.map_values(|e: (String, V)| e.0@)
}

/// The value under `key`, if any.
pub open spec fn entry_lookup<V>(entries: Seq<(Seq<char>, V)>, key: Seq<char>) -> Option<V> {
    let i = key_index(keys_of(entries), key);
    if i >= 0 {
        Some(entries[i].1)
    } else {
        None
    }
}

/// The entries after setting `key` to `value`.
pub open spec fn entry_insert<V>(entries: Seq<(Seq<char>, V)>, key: Seq<char>, value: V) -> Seq<(Seq<char>, V)> {
    let i = key_index(keys_of(entries), key);
    if i >= 0 {
        entries.update(i, (key, value))
    } else {
        entries.push((key, value))
    }
}

/// `key_index` finds the first occurrence of the key, or reports that there is none.
pub proof fn lemma_key_index(keys: Seq<Seq<char>>, key: Seq<char>)
    ensures
        -1 <= key_index(keys, key) < keys.len(),
        key_index(keys, key) >= 0 ==> keys[key_index(keys, key)] == key,
        forall|j: int| 0 <= j < key_index(keys, key) ==> keys[j] != key,
        key_index(keys, key) == -1 <==> !keys.contains(key),
    decreases keys.len(),
{
    if keys.len() > 0 {
        lemma_key_index(keys.drop_last(), key);
        let i = key_index(keys.drop_last(), key);
        if i < 0 && keys.last() != key {
            assert forall|j: int| 0 <= j < keys.len() implies keys[j] != key by {
                if j < keys.len() - 1 {
                    assert(keys.drop_last()[j] == keys[j]);
                    assert(!keys.drop_last().contains(key));
                }
            }
        }
        if i >= 0 {
            assert(keys.drop_last()[i] == keys[i]);
            assert(keys.contains(key));
            assert forall|j: int| 0 <= j < i implies keys[j] != key by {
                assert(keys.drop_last()[j] == keys[j]);
            }
        }
        if i < 0 && keys.last() == key {
            assert(keys[keys.len() - 1] == key);
            assert forall|j: int| 0 <= j < keys.len() - 1 implies keys[j] != key by {
                assert(keys.drop_last()[j] == keys[j]);
                assert(!keys.drop_last().contains(key));
            }
        }
    }
}

/// Appending an entry keeps the index of an earlier occurrence.
pub proof fn lemma_key_index_push(keys: Seq<Seq<char>>, k: Seq<char>, key: Seq<char>)
    ensures
        key_index(keys.push(k), key) == (if key_index(keys, key) >= 0 {
            key_index(keys, key)
        } else if k == key {
            keys.len() as int
        } else {
            -1
        }),
{
    assert(keys.push(k).drop_last() =~= keys);
}

/// Entries inserted under a key are found under it; other keys keep their values.
pub proof fn lemma_insert_lookup<V>(entries: Seq<(Seq<char>, V)>, key: Seq<char>, value: V, other: Seq<char>)
    ensures
        entry_lookup(entry_insert(entries, key, value), key) == Some(value),
        other != key ==> entry_lookup(entry_insert(entries, key, value), other) == entry_lookup(entries, other),
{
    let ks = keys_of(entries);
    let i = key_index(ks, key);
    lemma_key_index(ks, key);
    lemma_key_index(ks, other);
    let e2 = entry_insert(entries, key, value);
    let ks2 = keys_of(e2);
    if i >= 0 {
        assert(ks2 =~= ks.update(i, key));
        lemma_key_index_update(ks, i, key, key);
        lemma_key_index_update(ks, i, key, other);
    } else {
        assert(ks2 =~= ks.push(key));
        lemma_key_index_push(ks, key, key);
        lemma_key_index_push(ks, key, other);
    }
}

/// Overwriting a key at its own first index leaves every first index unchanged.
pub proof fn lemma_key_index_update(keys: Seq<Seq<char>>, i: int, key: Seq<char>, probe: Seq<char>)
    requires
        0 <= i < keys.len(),
        keys[i] == key,
    ensures
        key_index(keys.update(i, key), probe) == key_index(keys, probe),
{
    assert(keys.update(i, key) =~= keys);
}

/// Inserting keeps keys distinct when they were distinct.
pub proof fn lemma_insert_keeps_distinct<V>(entries: Seq<(Seq<char>, V)>, key: Seq<char>, value: V)
    requires
        keys_of(entries).no_duplicates(),
    ensures
        keys_of(entry_insert(entries, key, value)).no_duplicates(),
{
    let ks = keys_of(entries);
    let i = key_index(ks, key);
    lemma_key_index(ks, key);
    if i >= 0 {
        assert(keys_of(entry_insert(entries, key, value)) =~= ks);
    } else {
        let ks2 = keys_of(entry_insert(entries, key, value));
        assert(ks2 =~= ks.push(key));
        assert forall|a: int, b: int| 0 <= a < ks2.len() && 0 <= b < ks2.len() && a != b implies ks2[a] != ks2[b] by {
            if a < ks.len() && b < ks.len() {
            } else if a == ks.len() {
                assert(ks2[b] == ks[b]);
            } else {
                assert(ks2[a] == ks[a]);
            }
        }
    }
}

/// Finds the first entry whose key is `key`.
pub fn find_key<V>(entries: &Vec<(String, V)>, key: &String) -> (r: Option<usize>)
    ensures
        match r {
            Some(i) => key_index(string_keys(entries@), key@) == i as int,
            None => key_index(string_keys(entries@), key@) == -1,
        },
{
    let ghost ks = string_keys(entries@);
    let mut found: Option<usize> = None;
    let mut i: usize = 0;
    while i < entries.len()
        invariant
            i <= entries@.len(),
            ks == string_keys(entries@),
            match found {
                Some(f) => key_index(ks.take(i as int), key@) == f as int,
                None => key_index(ks.take(i as int), key@) == -1,
            },
        decreases entries@.len() - i,
    {
        proof {
            assert(ks.take(i + 1).drop_last() =~= ks.take(i as int));
            assert(ks.take(i + 1).last() == entries@[i as int].0@);
        }
        if found.is_none() && entries[i].0 == *key {
            found = Some(i);
        }
        i += 1;
    }
    assert(ks.take(entries@.len() as int) =~= ks);
    found
}

} // verus!
