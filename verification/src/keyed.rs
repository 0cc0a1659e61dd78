//! Association lists keyed by text: (key, value) pairs with each key at
//! most once, as the history and the feed tokens keep them.

use vstd::prelude::*;

verus! {

/// Where `key` stands among the entries' keys (the last place, should it
/// repeat).
pub open spec fn key_index<V>(entries: Seq<(Seq<char>, V)>, key: Seq<char>) -> Option<int>
    decreases entries.len(),
{
    if entries.len() == 0 {
        None
    } else if entries.last().0 == key {
        Some(entries.len() - 1)
    } else {
        key_index(entries.drop_last(), key)
    }
}

/// The value kept for `key`, if any.
pub open spec fn lookup<V>(entries: Seq<(Seq<char>, V)>, key: Seq<char>) -> Option<V> {
    match key_index(entries, key) {
        Some(i) => Some(entries[i].1),
        None => None,
    }
}

/// No key is there twice.
pub open spec fn unique_keys<V>(entries: Seq<(Seq<char>, V)>) -> bool {
    forall|i: int, j: int|
        0 <= i < j < entries.len() ==> #[trigger] entries[i].0 != #[trigger] entries[j].0
}

/// The entries with `key` set to `t`: in place when it's there, else at
/// the end.
pub open spec fn upsert<V>(entries: Seq<(Seq<char>, V)>, key: Seq<char>, t: V) -> Seq<(Seq<char>, V)> {
    match key_index(entries, key) {
        Some(i) => entries.update(i, (key, t)),
        None => entries.push((key, t)),
    }
}

pub proof fn lemma_key_index<V>(entries: Seq<(Seq<char>, V)>, key: Seq<char>)
    ensures
        match key_index(entries, key) {
            Some(i) => 0 <= i < entries.len() && entries[i].0 == key && forall|j: int|
                i < j < entries.len() ==> entries[j].0 != key,
            None => forall|j: int| 0 <= j < entries.len() ==> entries[j].0 != key,
        },
    decreases entries.len(),
{
    if entries.len() > 0 && entries.last().0 != key {
        lemma_key_index(entries.drop_last(), key);
        let d = entries.drop_last();
        assert forall|j: int| 0 <= j < d.len() implies entries[j] == d[j] by {}
    }
}

pub proof fn lemma_key_at<V>(entries: Seq<(Seq<char>, V)>, key: Seq<char>, i: int)
    requires
        unique_keys(entries),
        0 <= i < entries.len(),
        entries[i].0 == key,
    ensures
        key_index(entries, key) == Some(i),
{
    lemma_key_index(entries, key);
}

pub proof fn lemma_upsert<V>(entries: Seq<(Seq<char>, V)>, key: Seq<char>, t: V)
    requires
        unique_keys(entries),
    ensures
        unique_keys(upsert(entries, key, t)),
        lookup(upsert(entries, key, t), key) == Some(t),
        forall|k: Seq<char>| k != key ==> lookup(#[trigger] upsert(entries, key, t), k) == lookup(entries, k),
        upsert(entries, key, t).len() == entries.len() + (if key_index(entries, key) is Some { 0int } else { 1 }),
        upsert(entries, key, t).last().0 == key || key_index(entries, key) is Some,
{
    lemma_key_index(entries, key);
    let u = upsert(entries, key, t);
    match key_index(entries, key) {
        Some(i) => {
            assert(u[i].0 == key);
            lemma_key_at(u, key, i);
            assert forall|k: Seq<char>| k != key implies lookup(u, k) == lookup(entries, k) by {
                lemma_key_index(entries, k);
                match key_index(entries, k) {
                    Some(j) => {
                        lemma_key_at(u, k, j);
                    },
                    None => {
                        lemma_key_index(u, k);
                    },
                }
            }
        },
        None => {
            assert(unique_keys(u));
            lemma_key_at(u, key, entries.len() as int);
            assert forall|k: Seq<char>| k != key implies lookup(u, k) == lookup(entries, k) by {
                lemma_key_index(entries, k);
                match key_index(entries, k) {
                    Some(j) => {
                        lemma_key_at(u, k, j);
                    },
                    None => {
                        lemma_key_index(u, k);
                    },
                }
            }
        },
    }
}

pub proof fn lemma_drop_first<V>(entries: Seq<(Seq<char>, V)>)
    requires
        unique_keys(entries),
        entries.len() > 0,
    ensures
        unique_keys(entries.drop_first()),
        lookup(entries.drop_first(), entries[0].0) is None,
        forall|k: Seq<char>|
            k != entries[0].0 ==> lookup(#[trigger] entries.drop_first(), k) == lookup(entries, k),
{
    let d = entries.drop_first();
    assert forall|j: int| 0 <= j < d.len() implies d[j] == entries[j + 1] by {}
    lemma_key_index(d, entries[0].0);
    assert forall|k: Seq<char>| k != entries[0].0 implies lookup(d, k) == lookup(entries, k) by {
        lemma_key_index(entries, k);
        match key_index(entries, k) {
            Some(j) => {
                lemma_key_at(d, k, j - 1);
            },
            None => {
                lemma_key_index(d, k);
            },
        }
    }
}

/// The entries with each key as its characters.
pub open spec fn keyed<V>(v: Seq<(String, V)>) -> Seq<(Seq<char>, V)> {
    v.map_values(|e: (String, V)| (e.0@, e.1))
}

/// Where `key` is among the entries' keys.
pub fn find_key<V>(entries: &Vec<(String, V)>, key: &String) -> (r: Option<usize>)
    ensures
        match r {
            Some(i) => key_index(keyed(entries@), key@) == Some(i as int),
            None => key_index(keyed(entries@), key@) is None,
        },
{
    let mut found: Option<usize> = None;
    let mut i: usize = 0;
    while i < entries.len()
        invariant
            i <= entries@.len(),
            match found {
                Some(j) => key_index(keyed(entries@).take(i as int), key@) == Some(j as int),
                None => key_index(keyed(entries@).take(i as int), key@) is None,
            },
        decreases entries@.len() - i,
    {
        assert(keyed(entries@).take(i + 1).drop_last() =~= keyed(entries@).take(i as int));
        if entries[i].0 == *key {
            found = Some(i);
        }
        i = i + 1;
    }
    assert(keyed(entries@).take(entries@.len() as int) =~= keyed(entries@));
    found
}

/// Sets `key` to `t` in `entries`, in place when it's there, else at the
/// end.
pub fn upsert_exec<V>(entries: &mut Vec<(String, V)>, key: String, t: V)
    ensures
        keyed(final(entries)@) == upsert(keyed(old(entries)@), key@, t),
{
    let ghost k = key@;
    let ghost tv = t;
    let r = find_key(entries, &key);
    proof {
        lemma_key_index(keyed(entries@), k);
    }
    match r {
        Some(i) => {
            entries.set(i, (key, t));
            assert(keyed(entries@) =~= keyed(old(entries)@).update(i as int, (k, tv)));
        },
        None => {
            entries.push((key, t));
            assert(keyed(entries@) =~= keyed(old(entries)@).push((k, tv)));
        },
    }
}

} // verus!
