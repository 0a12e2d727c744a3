//! Sets and maps held as sequences: no element of a set and no key of a
//! map occurs twice, and what came first stays first.

use vstd::prelude::*;

verus! {

// ---------------------------------------------------------------------
// Sets
// ---------------------------------------------------------------------
/// The set with `x` added: behind the others where it is new, nowhere
/// where it is already there.
pub open spec fn put_item<T>(items: Seq<T>, x: T) -> Seq<T> {
    if items.contains(x) {
        items
    } else {
        items.push(x)
    }
}

/// The set that holds the elements of `items`, each where it first
/// occurs.
pub open spec fn distinct_of<T>(items: Seq<T>) -> Seq<T>
    decreases items.len(),
{
    if items.len() == 0 {
        Seq::empty()
    } else {
        put_item(distinct_of(items.drop_last()), items.last())
    }
}

/// Adding an element to a set leaves a set, which holds what the set
/// held and the element.
pub proof fn lemma_put_item<T>(items: Seq<T>, x: T)
    requires
        items.no_duplicates(),
    ensures
        put_item(items, x).no_duplicates(),
        put_item(items, x).contains(x),
        forall|y: T| #[trigger] put_item(items, x).contains(y) <==> (items.contains(y) || y == x),
{
    let after = put_item(items, x);
    if items.contains(x) {
    } else {
        assert(after[items.len() as int] == x);
        assert forall|y: T| #[trigger] after.contains(y) implies (items.contains(y) || y == x) by {
            let i = choose|i: int| 0 <= i < after.len() && after[i] == y;
            if i < items.len() {
                assert(items[i] == y);
            }
        }
        assert forall|y: T| (items.contains(y) || y == x) implies #[trigger] after.contains(y) by {
            if y == x {
            } else {
                let i = choose|i: int| 0 <= i < items.len() && items[i] == y;
                assert(after[i] == y);
            }
        }
    }
}

/// What `distinct_of` makes is a set with the elements of the sequence.
pub proof fn lemma_distinct_of<T>(items: Seq<T>)
    ensures
        distinct_of(items).no_duplicates(),
        forall|y: T| #[trigger] distinct_of(items).contains(y) <==> items.contains(y),
    decreases items.len(),
{
    if items.len() == 0 {
    } else {
        let front = items.drop_last();
        lemma_distinct_of(front);
        lemma_put_item(distinct_of(front), items.last());
        assert forall|y: T| #[trigger] distinct_of(items).contains(y) implies items.contains(y) by {
            if y == items.last() {
                assert(items[items.len() - 1] == y);
            } else {
                assert(distinct_of(front).contains(y));
                assert(front.contains(y));
                let i = choose|i: int| 0 <= i < front.len() && front[i] == y;
                assert(items[i] == y);
            }
        }
        assert forall|y: T| items.contains(y) implies #[trigger] distinct_of(items).contains(y) by {
            let i = choose|i: int| 0 <= i < items.len() && items[i] == y;
            if i == items.len() - 1 {
            } else {
                assert(front[i] == y);
                assert(front.contains(y));
            }
        }
    }
}

/// A sequence in which nothing occurs twice is the set of its elements.
pub proof fn lemma_distinct_of_set<T>(items: Seq<T>)
    requires
        items.no_duplicates(),
    ensures
        distinct_of(items) == items,
    decreases items.len(),
{
    if items.len() == 0 {
        assert(items =~= Seq::empty());
    } else {
        let front = items.drop_last();
        lemma_distinct_of_set(front);
        if front.contains(items.last()) {
            let i = choose|i: int| 0 <= i < front.len() && front[i] == items.last();
            assert(items[i] == items[items.len() - 1]);
        }
        assert(front.push(items.last()) =~= items);
    }
}

// ---------------------------------------------------------------------
// Maps
// ---------------------------------------------------------------------
/// The first position at or after `from` whose entry has the key `k`.
pub open spec fn key_position<K, V>(entries: Seq<(K, V)>, k: K, from: int) -> Option<int>
    decreases entries.len() - from,
{
    if from < 0 || from >= entries.len() {
        None
    } else if entries[from].0 == k {
        Some(from)
    } else {
        key_position(entries, k, from + 1)
    }
}

/// No key occurs twice.
pub open spec fn distinct_keys<K, V>(entries: Seq<(K, V)>) -> bool {
    forall|i: int, j: int|
        0 <= i < entries.len() && 0 <= j < entries.len() && i != j ==> entries[i].0 != entries[j].0
}

/// The map with `v` under `k`: in the place of the entry that had the
/// key, or behind the others where the key is new.
pub open spec fn put_entry<K, V>(entries: Seq<(K, V)>, k: K, v: V) -> Seq<(K, V)> {
    match key_position(entries, k, 0) {
        Some(i) => entries.update(i, (k, v)),
        None => entries.push((k, v)),
    }
}

/// The map that the entries make, put one after the other: each key
/// stands where it first occurs, with the value it last came with.
pub open spec fn merged<K, V>(entries: Seq<(K, V)>) -> Seq<(K, V)>
    decreases entries.len(),
{
    if entries.len() == 0 {
        Seq::empty()
    } else {
        put_entry(merged(entries.drop_last()), entries.last().0, entries.last().1)
    }
}

/// What `key_position` finds is the first entry with the key; it finds
/// none only where there is none.
pub proof fn lemma_key_position<K, V>(entries: Seq<(K, V)>, k: K, from: int)
    requires
        0 <= from,
    ensures
        match key_position(entries, k, from) {
            Some(i) => from <= i < entries.len() && entries[i].0 == k && forall|j: int|
                from <= j < i ==> entries[j].0 != k,
            None => forall|j: int| from <= j < entries.len() ==> entries[j].0 != k,
        },
    decreases entries.len() - from,
{
    if from < entries.len() && entries[from].0 != k {
        lemma_key_position(entries, k, from + 1);
    }
}

/// Putting an entry into a map leaves a map, each of whose entries is
/// the new one or one of the old.
pub proof fn lemma_put_entry<K, V>(entries: Seq<(K, V)>, k: K, v: V)
    requires
        distinct_keys(entries),
    ensures
        distinct_keys(put_entry(entries, k, v)),
        forall|i: int|
            0 <= i < put_entry(entries, k, v).len() ==> #[trigger] put_entry(entries, k, v)[i] == (
                k,
                v,
            ) || entries.contains(put_entry(entries, k, v)[i]),
{
    lemma_key_position(entries, k, 0);
    let after = put_entry(entries, k, v);
    assert forall|i: int| 0 <= i < after.len() && #[trigger] after[i] != (k, v) implies entries.contains(
        after[i],
    ) by {
        assert(entries[i] == after[i]);
    }
}

/// What `merged` makes is a map, each of whose entries is one of the
/// sequence.
pub proof fn lemma_merged<K, V>(entries: Seq<(K, V)>)
    ensures
        distinct_keys(merged(entries)),
        forall|i: int|
            0 <= i < merged(entries).len() ==> entries.contains(#[trigger] merged(entries)[i]),
    decreases entries.len(),
{
    if entries.len() == 0 {
    } else {
        let front = entries.drop_last();
        let last = entries.last();
        lemma_merged(front);
        lemma_put_entry(merged(front), last.0, last.1);
        assert forall|i: int| 0 <= i < merged(entries).len() implies entries.contains(
            #[trigger] merged(entries)[i],
        ) by {
            let e = merged(entries)[i];
            if e == (last.0, last.1) {
                assert(entries[entries.len() - 1] == e);
            } else {
                assert(merged(front).contains(e));
                let j = choose|j: int| 0 <= j < merged(front).len() && merged(front)[j] == e;
                assert(front.contains(merged(front)[j]));
                let m = choose|m: int| 0 <= m < front.len() && front[m] == e;
                assert(entries[m] == e);
            }
        }
    }
}

/// A sequence of entries in which no key occurs twice is the map that
/// they make.
pub proof fn lemma_merged_map<K, V>(entries: Seq<(K, V)>)
    requires
        distinct_keys(entries),
    ensures
        merged(entries) == entries,
    decreases entries.len(),
{
    if entries.len() == 0 {
        assert(entries =~= Seq::empty());
    } else {
        let front = entries.drop_last();
        let last = entries.last();
        lemma_merged_map(front);
        lemma_key_position(front, last.0, 0);
        assert(key_position(front, last.0, 0) is None) by {
            if key_position(front, last.0, 0) is Some {
                let i = key_position(front, last.0, 0)->Some_0;
                assert(entries[i].0 == entries[entries.len() - 1].0);
            }
        }
        assert(front.push((last.0, last.1)) =~= entries);
    }
}

} // verus!
