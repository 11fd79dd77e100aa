//! Association lists keyed by text: the model behind JSON objects and the
//! string maps of a message. Where a name occurs twice, the later entry is the
//! one that counts.

use vstd::prelude::*;

verus! {

/// Position of the entry named `key` that counts: the last one.
pub open spec fn last_index<V>(entries: Seq<(Seq<char>, V)>, key: Seq<char>) -> Option<int>
    decreases entries.len(),
{
    if entries.len() == 0 {
        None
    } else if entries.last().0 == key {
        Some(entries.len() - 1)
    } else {
        last_index(entries.drop_last(), key)
    }
}

/// The value of the entry named `key`.
pub open spec fn lookup<V>(entries: Seq<(Seq<char>, V)>, key: Seq<char>) -> Option<V> {
    match last_index(entries, key) {
        Some(i) => Some(entries[i].1),
        None => None,
    }
}

/// `entries` with `key` set to `value`: in place where the name is present,
/// at the end where it is new.
pub open spec fn upsert<V>(entries: Seq<(Seq<char>, V)>, key: Seq<char>, value: V) -> Seq<
    (Seq<char>, V),
> {
    match last_index(entries, key) {
        Some(i) => entries.update(i, (key, value)),
        None => entries.push((key, value)),
    }
}

/// The finite map that `entries` denotes.
pub open spec fn as_map<V>(entries: Seq<(Seq<char>, V)>) -> Map<Seq<char>, V> {
    Map::new(
        |key: Seq<char>| last_index(entries, key) is Some,
        |key: Seq<char>| entries[last_index(entries, key).unwrap()].1,
    )
}

/// Where `last_index` finds an entry, it is in range, carries the name, and no
/// later entry does; where it finds none, no entry carries the name.
pub proof fn lemma_last_index_bounds<V>(entries: Seq<(Seq<char>, V)>, key: Seq<char>)
    ensures
        match last_index(entries, key) {
            Some(i) => 0 <= i < entries.len() && entries[i].0 == key && forall|j: int|
                i < j < entries.len() ==> (#[trigger] entries[j]).0 != key,
            None => forall|j: int| 0 <= j < entries.len() ==> (#[trigger] entries[j]).0 != key,
        },
    decreases entries.len(),
{
    if entries.len() > 0 && entries.last().0 != key {
        lemma_last_index_bounds(entries.drop_last(), key);
        match last_index(entries, key) {
            Some(i) => {
                assert forall|j: int| i < j < entries.len() implies (#[trigger] entries[j]).0
                    != key by {
                    if j < entries.len() - 1 {
                        assert(entries.drop_last()[j] == entries[j]);
                    }
                }
            },
            None => {
                assert forall|j: int| 0 <= j < entries.len() implies (#[trigger] entries[j]).0
                    != key by {
                    if j < entries.len() - 1 {
                        assert(entries.drop_last()[j] == entries[j]);
                    }
                }
            },
        }
    }
}

/// The last entry that carries a name is the one `last_index` finds.
pub proof fn lemma_last_index_is<V>(entries: Seq<(Seq<char>, V)>, key: Seq<char>, i: int)
    requires
        0 <= i < entries.len(),
        entries[i].0 == key,
        forall|j: int| i < j < entries.len() ==> (#[trigger] entries[j]).0 != key,
    ensures
        last_index(entries, key) == Some(i),
    decreases entries.len(),
{
    if i < entries.len() - 1 {
        assert forall|j: int| i < j < entries.drop_last().len() implies (
        #[trigger] entries.drop_last()[j]).0 != key by {
        }
        lemma_last_index_is(entries.drop_last(), key, i);
    }
}

/// Where no entry carries a name, `last_index` finds none.
pub proof fn lemma_last_index_none<V>(entries: Seq<(Seq<char>, V)>, key: Seq<char>)
    requires
        forall|j: int| 0 <= j < entries.len() ==> (#[trigger] entries[j]).0 != key,
    ensures
        last_index(entries, key) is None,
    decreases entries.len(),
{
    if entries.len() > 0 {
        assert forall|j: int| 0 <= j < entries.drop_last().len() implies (
        #[trigger] entries.drop_last()[j]).0 != key by {
        }
        lemma_last_index_none(entries.drop_last(), key);
    }
}

/// After `upsert`, the entry written reads back as written and every other
/// entry reads as before.
pub proof fn lemma_upsert_lookup<V>(
    entries: Seq<(Seq<char>, V)>,
    key: Seq<char>,
    value: V,
    other: Seq<char>,
)
    ensures
        lookup(upsert(entries, key, value), other) == if other == key {
            Some(value)
        } else {
            lookup(entries, other)
        },
{
    let after = upsert(entries, key, value);
    lemma_last_index_bounds(entries, key);
    lemma_last_index_bounds(entries, other);
    match last_index(entries, key) {
        Some(i) => {
            if other == key {
                assert forall|j: int| i < j < after.len() implies (#[trigger] after[j]).0
                    != key by {
                }
                lemma_last_index_is(after, key, i);
            } else {
                match last_index(entries, other) {
                    Some(k) => {
                        assert forall|j: int| k < j < after.len() implies (#[trigger] after[j]).0
                            != other by {
                        }
                        lemma_last_index_is(after, other, k);
                    },
                    None => {
                        assert forall|j: int| 0 <= j < after.len() implies (#[trigger] after[j]).0
                            != other by {
                        }
                        lemma_last_index_none(after, other);
                    },
                }
            }
        },
        None => {
            assert(after.drop_last() =~= entries);
        },
    }
}

/// As a map, `upsert` is `insert`.
pub proof fn lemma_upsert_as_map<V>(entries: Seq<(Seq<char>, V)>, key: Seq<char>, value: V)
    ensures
        as_map(upsert(entries, key, value)) == as_map(entries).insert(key, value),
{
    let after = upsert(entries, key, value);
    assert forall|other: Seq<char>|
        as_map(after).dom().contains(other) <==> as_map(entries).insert(key, value).dom().contains(
            other,
        ) by {
        lemma_upsert_lookup(entries, key, value, other);
    }
    assert forall|other: Seq<char>| as_map(after).dom().contains(other) implies as_map(after)[other]
        == as_map(entries).insert(key, value)[other] by {
        lemma_upsert_lookup(entries, key, value, other);
    }
}

} // verus!
