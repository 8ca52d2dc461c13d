//! Tables keyed by text, held as lists of entries with distinct keys.
//!
//! The frames of variables and the registry of commands are small vectors that are searched
//! by name. Their contracts speak of the map that such a vector stands for; the lemmas here
//! relate the two.

use vstd::prelude::*;

verus! {

/// Whether the entry at `i` exists and has the key `key`.
pub open spec fn has_key<V>(entries: Seq<(Seq<char>, V)>, i: int, key: Seq<char>) -> bool {
    0 <= i < entries.len() && entries[i].0 == key
}

/// No key occurs twice.
pub open spec fn distinct_keys<V>(entries: Seq<(Seq<char>, V)>) -> bool {
    forall|i: int, j: int|
        0 <= i < j < entries.len() ==> (#[trigger] entries[i]).0 != (#[trigger] entries[j]).0
}

/// The map that a list of entries stands for.
pub open spec fn table_of<V>(entries: Seq<(Seq<char>, V)>) -> Map<Seq<char>, V> {
    Map::new(
        |key: Seq<char>| exists|i: int| has_key(entries, i, key),
        |key: Seq<char>| entries[choose|i: int| has_key(entries, i, key)].1,
    )
}

/// The empty list stands for the empty map.
pub proof fn lemma_table_empty<V>()
    ensures
        table_of(Seq::<(Seq<char>, V)>::empty()) == Map::<Seq<char>, V>::empty(),
        distinct_keys(Seq::<(Seq<char>, V)>::empty()),
{
    assert(table_of(Seq::<(Seq<char>, V)>::empty()) =~= Map::<Seq<char>, V>::empty());
}

/// With distinct keys, the map holds each entry of the list.
pub proof fn lemma_table_entry<V>(entries: Seq<(Seq<char>, V)>, i: int)
    requires
        distinct_keys(entries),
        0 <= i < entries.len(),
    ensures
        table_of(entries).contains_key(entries[i].0),
        table_of(entries)[entries[i].0] == entries[i].1,
{
    let key = entries[i].0;
    assert(has_key(entries, i, key));
    let j = choose|j: int| has_key(entries, j, key);
    if j < i {
        assert(entries[j].0 != entries[i].0);
    } else if i < j {
        assert(entries[i].0 != entries[j].0);
    }
}

/// A key that no entry has is not in the map.
pub proof fn lemma_table_absent<V>(entries: Seq<(Seq<char>, V)>, key: Seq<char>)
    requires
        forall|i: int| !has_key(entries, i, key),
    ensures
        !table_of(entries).contains_key(key),
{
}

/// A key of the map is the key of some entry.
pub proof fn lemma_table_present<V>(entries: Seq<(Seq<char>, V)>, key: Seq<char>) -> (i: int)
    requires
        table_of(entries).contains_key(key),
    ensures
        has_key(entries, i, key),
{
    choose|i: int| has_key(entries, i, key)
}

/// Adding an entry with a new key inserts it into the map.
pub proof fn lemma_table_push<V>(entries: Seq<(Seq<char>, V)>, key: Seq<char>, value: V)
    requires
        distinct_keys(entries),
        !table_of(entries).contains_key(key),
    ensures
        distinct_keys(entries.push((key, value))),
        table_of(entries.push((key, value))) == table_of(entries).insert(key, value),
{
    let after = entries.push((key, value));
    assert forall|i: int, j: int| 0 <= i < j < after.len() implies (#[trigger] after[i]).0 != (
    #[trigger] after[j]).0 by {
        if j == entries.len() {
            assert(has_key(entries, i, entries[i].0));
            assert(entries[i].0 != key);
        } else {
            assert(entries[i].0 != entries[j].0);
        }
    }
    assert forall|k: Seq<char>| #[trigger]
        table_of(after).contains_key(k) == table_of(entries).insert(key, value).contains_key(
            k,
        ) by {
        if table_of(after).contains_key(k) {
            let i = lemma_table_present(after, k);
            if i < entries.len() {
                assert(has_key(entries, i, k));
            }
        }
        if table_of(entries).contains_key(k) {
            let i = lemma_table_present(entries, k);
            assert(has_key(after, i, k));
        }
        if k == key {
            assert(has_key(after, entries.len() as int, k));
        }
    }
    assert forall|k: Seq<char>| #[trigger]
        table_of(after).contains_key(k) implies table_of(after)[k] == table_of(entries).insert(
        key,
        value,
    )[k] by {
        let i = lemma_table_present(after, k);
        lemma_table_entry(after, i);
        if i < entries.len() {
            assert(has_key(entries, i, k));
            lemma_table_entry(entries, i);
        }
    }
    assert(table_of(after) =~= table_of(entries).insert(key, value));
}

/// Giving the entry at `i` another value binds its key to that value in the map.
pub proof fn lemma_table_update<V>(entries: Seq<(Seq<char>, V)>, i: int, value: V)
    requires
        distinct_keys(entries),
        0 <= i < entries.len(),
    ensures
        distinct_keys(entries.update(i, (entries[i].0, value))),
        table_of(entries.update(i, (entries[i].0, value))) == table_of(entries).insert(
            entries[i].0,
            value,
        ),
{
    let key = entries[i].0;
    let after = entries.update(i, (key, value));
    assert forall|a: int, b: int| 0 <= a < b < after.len() implies (#[trigger] after[a]).0 != (
    #[trigger] after[b]).0 by {
        assert(entries[a].0 != entries[b].0);
    }
    assert forall|k: Seq<char>| #[trigger]
        table_of(after).contains_key(k) == table_of(entries).insert(key, value).contains_key(
            k,
        ) by {
        if table_of(after).contains_key(k) {
            let j = lemma_table_present(after, k);
            assert(has_key(entries, j, k));
        }
        if table_of(entries).contains_key(k) {
            let j = lemma_table_present(entries, k);
            assert(has_key(after, j, k));
        }
        if k == key {
            assert(has_key(after, i, k));
        }
    }
    assert forall|k: Seq<char>| #[trigger]
        table_of(after).contains_key(k) implies table_of(after)[k] == table_of(entries).insert(
        key,
        value,
    )[k] by {
        let j = lemma_table_present(after, k);
        lemma_table_entry(after, j);
        assert(has_key(entries, j, k));
        lemma_table_entry(entries, j);
        if j != i {
            if j < i {
                assert(entries[j].0 != entries[i].0);
            } else {
                assert(entries[i].0 != entries[j].0);
            }
        }
    }
    assert(table_of(after) =~= table_of(entries).insert(key, value));
}

} // verus!
