//! Keyed entry lists. Wire frames carry JSON objects as ordered lists of
//! `(key, value)` pairs; these helpers look entries up by key and reach
//! elements of a vector for in-place update.

use vstd::prelude::*;

use crate::text::bytes_eq;

verus! {

/// First entry with the given key, searching from index `i`.
pub open spec fn spec_lookup_from<V>(entries: Seq<(Seq<u8>, V)>, key: Seq<u8>, i: int) -> Option<
    V,
>
    decreases entries.len() - i,
{
    if i < 0 || i >= entries.len() {
        None
    } else if entries[i].0 == key {
        Some(entries[i].1)
    } else {
        spec_lookup_from(entries, key, i + 1)
    }
}

/// First entry with the given key.
pub open spec fn spec_lookup<V>(entries: Seq<(Seq<u8>, V)>, key: Seq<u8>) -> Option<V> {
    spec_lookup_from(entries, key, 0)
}

/// Mathematical value of a keyed entry list whose values have views.
pub open spec fn entries_view<T: View>(s: Seq<(Vec<u8>, T)>) -> Seq<(Seq<u8>, T::V)> {
    s.map_values(|e: (Vec<u8>, T)| (e.0@, e.1@))
}

/// Index of the first entry with the given key, searching from index `i`.
pub open spec fn spec_index_of_from<V>(entries: Seq<(Seq<u8>, V)>, key: Seq<u8>, i: int) -> Option<
    int,
>
    decreases entries.len() - i,
{
    if i < 0 || i >= entries.len() {
        None
    } else if entries[i].0 == key {
        Some(i)
    } else {
        spec_index_of_from(entries, key, i + 1)
    }
}

/// Index of the first entry with the given key.
pub open spec fn spec_index_of<V>(entries: Seq<(Seq<u8>, V)>, key: Seq<u8>) -> Option<int> {
    spec_index_of_from(entries, key, 0)
}

/// The list with the given key bound to `v`: the first entry with that key
/// is replaced, or a new entry is appended when the key is absent.
pub open spec fn spec_upsert<V>(entries: Seq<(Seq<u8>, V)>, key: Seq<u8>, v: V) -> Seq<
    (Seq<u8>, V),
> {
    match spec_index_of(entries, key) {
        Some(i) => entries.update(i, (key, v)),
        None => entries.push((key, v)),
    }
}

/// Looking a key up after an upsert yields the new value for that key and
/// leaves every other key's binding unchanged.
pub proof fn lemma_upsert_lookup<V>(entries: Seq<(Seq<u8>, V)>, key: Seq<u8>, v: V, k: Seq<u8>)
    ensures
        spec_lookup(spec_upsert(entries, key, v), k) == if k == key {
            Some(v)
        } else {
            spec_lookup(entries, k)
        },
{
    lemma_upsert_lookup_from(entries, key, v, k, 0);
}

proof fn lemma_upsert_lookup_from<V>(
    entries: Seq<(Seq<u8>, V)>,
    key: Seq<u8>,
    v: V,
    k: Seq<u8>,
    j: int,
)
    requires
        0 <= j <= entries.len(),
        forall|t: int| 0 <= t < j ==> (#[trigger] entries[t]).0 != key,
    ensures
        spec_lookup_from(spec_upsert(entries, key, v), k, j) == if k == key {
            Some(v)
        } else {
            spec_lookup_from(entries, k, j)
        },
    decreases entries.len() - j,
{
    let u = spec_upsert(entries, key, v);
    if j == entries.len() {
        match spec_index_of_from(entries, key, 0) {
            Some(i) => {
                lemma_index_of_bounds(entries, key, 0);
                assert(false);
            },
            None => {
                assert(u == entries.push((key, v)));
                assert(u[j] == (key, v));
                assert(spec_lookup_from(u, k, j + 1) is None) by {
                    lemma_lookup_none_past_end(u, k, j + 1);
                }
            },
        }
    } else {
        match spec_index_of_from(entries, key, 0) {
            Some(i) => {
                lemma_index_of_bounds(entries, key, 0);
                assert(i >= j);
                assert(u == entries.update(i, (key, v)));
                if i == j {
                    assert(u[j] == (key, v));
                    if k != key {
                        assert(entries[j].0 == key);
                        lemma_lookup_unchanged_update(entries, key, v, k, j + 1, i);
                    }
                } else {
                    assert(u[j] == entries[j]);
                    assert(entries[j].0 != key);
                    lemma_upsert_lookup_from(entries, key, v, k, j + 1);
                }
            },
            None => {
                lemma_index_of_none(entries, key, 0);
                assert(u == entries.push((key, v)));
                assert(u[j] == entries[j]);
                assert(entries[j].0 != key);
                lemma_upsert_lookup_from(entries, key, v, k, j + 1);
            },
        }
    }
}

/// Past the end there is nothing to find.
proof fn lemma_lookup_none_past_end<V>(entries: Seq<(Seq<u8>, V)>, k: Seq<u8>, j: int)
    requires
        j >= entries.len(),
    ensures
        spec_lookup_from(entries, k, j) is None,
{
}

/// A found index lies in range, carries the key, and nothing before it does.
proof fn lemma_index_of_bounds<V>(entries: Seq<(Seq<u8>, V)>, key: Seq<u8>, j: int)
    requires
        0 <= j,
        spec_index_of_from(entries, key, j) is Some,
    ensures
        j <= spec_index_of_from(entries, key, j)->Some_0 < entries.len(),
        entries[spec_index_of_from(entries, key, j)->Some_0].0 == key,
        forall|t: int|
            j <= t < spec_index_of_from(entries, key, j)->Some_0 ==> (#[trigger] entries[t]).0
                != key,
    decreases entries.len() - j,
{
    if j < entries.len() && entries[j].0 != key {
        lemma_index_of_bounds(entries, key, j + 1);
    }
}

/// When no index is found, no entry from `j` on carries the key.
proof fn lemma_index_of_none<V>(entries: Seq<(Seq<u8>, V)>, key: Seq<u8>, j: int)
    requires
        0 <= j,
        spec_index_of_from(entries, key, j) is None,
    ensures
        forall|t: int| j <= t < entries.len() ==> (#[trigger] entries[t]).0 != key,
    decreases entries.len() - j,
{
    if j < entries.len() {
        lemma_index_of_none(entries, key, j + 1);
    }
}

/// Updating the entry at `i` does not change a lookup for a different key
/// that scans from past positions carrying other keys.
proof fn lemma_lookup_unchanged_update<V>(
    entries: Seq<(Seq<u8>, V)>,
    key: Seq<u8>,
    v: V,
    k: Seq<u8>,
    j: int,
    i: int,
)
    requires
        0 <= j <= entries.len(),
        0 <= i < entries.len(),
        entries[i].0 == key,
        k != key,
    ensures
        spec_lookup_from(entries.update(i, (key, v)), k, j) == spec_lookup_from(entries, k, j),
    decreases entries.len() - j,
{
    if j < entries.len() {
        let u = entries.update(i, (key, v));
        if j == i {
            assert(u[j].0 == key);
            assert(entries[j].0 == key);
            lemma_lookup_unchanged_update(entries, key, v, k, j + 1, i);
        } else {
            assert(u[j] == entries[j]);
            if u[j].0 != k {
                lemma_lookup_unchanged_update(entries, key, v, k, j + 1, i);
            }
        }
    }
}

/// Mathematical value of a keyed list of signed 8-bit values.
pub open spec fn propeller_entries_view(s: Seq<(Vec<u8>, i8)>) -> Seq<(Seq<u8>, i8)> {
    s.map_values(|e: (Vec<u8>, i8)| (e.0@, e.1))
}

/// Index of the first entry with the given key, if any.
pub fn find_key<T: View>(entries: &Vec<(Vec<u8>, T)>, key: &Vec<u8>) -> (r: Option<usize>)
    ensures
        match r {
            Some(i) => i < entries@.len() && entries@[i as int].0@ == key@ && spec_lookup(
                entries_view(entries@),
                key@,
            ) == Some(entries@[i as int].1@) && spec_index_of(entries_view(entries@), key@)
                == Some(i as int),
            None => spec_lookup(entries_view(entries@), key@) is None && spec_index_of(
                entries_view(entries@),
                key@,
            ) is None,
        },
{
    let ghost ev = entries_view(entries@);
    let mut i: usize = 0;
    while i < entries.len()
        invariant
            0 <= i <= entries@.len(),
            ev == entries_view(entries@),
            ev.len() == entries@.len(),
            forall|j: int| 0 <= j < entries@.len() ==> ev[j] == (entries@[j].0@, entries@[j].1@),
            spec_lookup_from(ev, key@, 0) == spec_lookup_from(ev, key@, i as int),
            spec_index_of_from(ev, key@, 0) == spec_index_of_from(ev, key@, i as int),
        decreases entries@.len() - i,
    {
        if bytes_eq(&entries[i].0, key) {
            return Some(i);
        }
        i = i + 1;
    }
    None
}

/// A mutable reference to one element of a vector; the vector afterwards
/// holds whatever the caller leaves behind the reference.
pub fn elem_at<T>(v: &mut Vec<T>, i: usize) -> (x: &mut T)
    requires
        i < old(v)@.len(),
    ensures
        *x == old(v)@[i as int],
        final(v)@ == old(v)@.update(i as int, *final(x)),
{
    &mut v[i]
}

} // verus!
