//! Skill tables: skill names with their values, in the order of an `IndexMap`.
use vstd::prelude::*;
use indexmap::IndexMap;
use crate::text::{parse_usize, parse_usize_spec};

verus! {

/// `IndexMap` of the `indexmap` crate; opaque here, its contents named by `skill_entries`.
#[verifier::external_type_specification]
#[verifier::external_body]
#[verifier::reject_recursive_types(K)]
#[verifier::reject_recursive_types(V)]
#[verifier::reject_recursive_types(S)]
pub struct ExIndexMap<K, V, S>(IndexMap<K, V, S>);

/// The entries of a skill table, in the table's order: each skill name with its value.
pub uninterp spec fn skill_entries(m: IndexMap<String, usize>) -> Seq<(Seq<char>, usize)>;

/// The position of the entry for `key`, or -1 where there is none (where several
/// entries had the key, the last one).
pub open spec fn index_of_key(entries: Seq<(Seq<char>, usize)>, key: Seq<char>) -> int
    decreases entries.len(),
{
    if entries.len() == 0 {
        -1
    } else if entries.last().0 == key {
        entries.len() - 1
    } else {
        index_of_key(entries.drop_last(), key)
    }
}

/// The value stored for `key`.
pub open spec fn lookup(entries: Seq<(Seq<char>, usize)>, key: Seq<char>) -> Option<usize> {
    let i = index_of_key(entries, key);
    if i >= 0 {
        Some(entries[i].1)
    } else {
        None
    }
}

/// The entries after storing `value` for `key`: an entry with the key keeps its place
/// and takes the new value; otherwise the pair is appended.
pub open spec fn insert_entry(entries: Seq<(Seq<char>, usize)>, key: Seq<char>, value: usize) -> Seq<(Seq<char>, usize)> {
    let i = index_of_key(entries, key);
    if i >= 0 {
        entries.update(i, (key, value))
    } else {
        entries.push((key, value))
    }
}

/// No two entries have the same key.
pub open spec fn distinct_keys(entries: Seq<(Seq<char>, usize)>) -> bool {
    forall|i: int, j: int|
        0 <= i < entries.len() && 0 <= j < entries.len() && i != j ==> entries[i].0 != entries[j].0
}

/// `sorted` is `orig` ordered by value from highest to lowest, entries of equal value
/// keeping their order: `p` says where each entry of `sorted` came from.
pub open spec fn sorts_by(p: Seq<int>, sorted: Seq<(Seq<char>, usize)>, orig: Seq<(Seq<char>, usize)>) -> bool {
    &&& p.len() == orig.len()
    &&& sorted.len() == orig.len()
    &&& forall|i: int| 0 <= i < p.len() ==> 0 <= #[trigger] p[i] < orig.len() && sorted[i] == orig[p[i]]
    &&& forall|i: int, j: int| 0 <= i < j < p.len() ==> p[i] != p[j]
    &&& forall|k: int| #![trigger orig[k]] 0 <= k < orig.len() ==> exists|i: int| 0 <= i < p.len() && #[trigger] p[i] == k
    &&& forall|i: int, j: int| 0 <= i < j < sorted.len() ==> sorted[i].1 >= sorted[j].1
    &&& forall|i: int, j: int|
        0 <= i < j < sorted.len() && sorted[i].1 == sorted[j].1 ==> p[i] < p[j]
}

/// `sorted` is the stable sort of `orig` by value, highest first.
pub open spec fn stable_desc_sort_of(sorted: Seq<(Seq<char>, usize)>, orig: Seq<(Seq<char>, usize)>) -> bool {
    exists|p: Seq<int>| sorts_by(p, sorted, orig)
}

/// `index_of_key` finds the last entry with the key, or -1 where none has it.
pub proof fn lemma_index_of_key(entries: Seq<(Seq<char>, usize)>, key: Seq<char>)
    ensures
        -1 <= index_of_key(entries, key) < entries.len(),
        index_of_key(entries, key) >= 0 ==> entries[index_of_key(entries, key)].0 == key,
        forall|j: int|
            index_of_key(entries, key) < j < entries.len() ==> #[trigger] entries[j].0 != key,
    decreases entries.len(),
{
    if entries.len() > 0 {
        lemma_index_of_key(entries.drop_last(), key);
        if entries.last().0 != key {
            assert forall|j: int| index_of_key(entries, key) < j < entries.len() implies #[trigger] entries[j].0
                != key by {
                if j < entries.len() - 1 {
                    assert(entries.drop_last()[j] == entries[j]);
                }
            }
        }
    }
}

/// An entry with the key after which no entry has it is the one `index_of_key` finds.
pub proof fn lemma_index_of_key_unique(entries: Seq<(Seq<char>, usize)>, key: Seq<char>, i: int)
    requires
        -1 <= i < entries.len(),
        i >= 0 ==> entries[i].0 == key,
        forall|j: int| i < j < entries.len() ==> #[trigger] entries[j].0 != key,
    ensures
        index_of_key(entries, key) == i,
    decreases entries.len(),
{
    if entries.len() > 0 && i != entries.len() - 1 {
        assert(entries[entries.len() - 1].0 != key);
        assert forall|j: int| i < j < entries.drop_last().len() implies #[trigger] entries.drop_last()[j].0
            != key by {
            assert(entries[j].0 != key);
        }
        lemma_index_of_key_unique(entries.drop_last(), key, i);
    }
}

/// After storing `value` for `key`, looking up `key` gives `value`, and looking up any
/// other key gives what it gave before.
pub proof fn lemma_lookup_insert(
    entries: Seq<(Seq<char>, usize)>,
    key: Seq<char>,
    value: usize,
    other: Seq<char>,
)
    ensures
        lookup(insert_entry(entries, key, value), key) == Some(value),
        other != key ==> lookup(insert_entry(entries, key, value), other) == lookup(entries, other),
{
    let e2 = insert_entry(entries, key, value);
    let i = index_of_key(entries, key);
    lemma_index_of_key(entries, key);
    lemma_index_of_key(entries, other);
    let o = index_of_key(entries, other);
    if i >= 0 {
        lemma_index_of_key_unique(e2, key, i);
        if other != key {
            assert forall|j: int| o < j < e2.len() implies #[trigger] e2[j].0 != other by {
                assert(entries[j].0 != other);
            }
            lemma_index_of_key_unique(e2, other, o);
        }
    } else {
        lemma_index_of_key_unique(e2, key, entries.len() as int);
        if other != key {
            assert forall|j: int| o < j < e2.len() implies #[trigger] e2[j].0 != other by {
                if j < entries.len() {
                    assert(entries[j].0 != other);
                }
            }
            lemma_index_of_key_unique(e2, other, o);
        }
    }
}

/// Storing twice under the same key is storing the second value once.
pub proof fn lemma_insert_overwrite(
    entries: Seq<(Seq<char>, usize)>,
    key: Seq<char>,
    first: usize,
    second: usize,
)
    ensures
        insert_entry(insert_entry(entries, key, first), key, second) == insert_entry(entries, key, second),
{
    lemma_index_of_key(entries, key);
    let i = index_of_key(entries, key);
    let e1 = insert_entry(entries, key, first);
    if i >= 0 {
        lemma_index_of_key_unique(e1, key, i);
        assert(insert_entry(e1, key, second) =~= insert_entry(entries, key, second));
    } else {
        lemma_index_of_key_unique(e1, key, entries.len() as int);
        assert(insert_entry(e1, key, second) =~= insert_entry(entries, key, second));
    }
}

/// Storing the value a key already has changes nothing.
pub proof fn lemma_insert_current(entries: Seq<(Seq<char>, usize)>, key: Seq<char>, value: usize)
    requires
        lookup(entries, key) == Some(value),
    ensures
        insert_entry(entries, key, value) == entries,
{
    lemma_index_of_key(entries, key);
    let i = index_of_key(entries, key);
    assert(entries[i] == (key, value));
    assert(insert_entry(entries, key, value) =~= entries);
}

/// Changing a skill and then storing its old value again gives back the same table,
/// entries in the same order.
pub proof fn lemma_write_back_restores(
    entries: Seq<(Seq<char>, usize)>,
    key: Seq<char>,
    old_value: usize,
    new_value: usize,
)
    requires
        lookup(entries, key) == Some(old_value),
    ensures
        insert_entry(insert_entry(entries, key, new_value), key, old_value) == entries,
{
    lemma_insert_overwrite(entries, key, new_value, old_value);
    lemma_insert_current(entries, key, old_value);
}

/// Storing a value keeps the keys distinct.
pub proof fn lemma_insert_distinct(entries: Seq<(Seq<char>, usize)>, key: Seq<char>, value: usize)
    requires
        distinct_keys(entries),
    ensures
        distinct_keys(insert_entry(entries, key, value)),
{
    lemma_index_of_key(entries, key);
    let e2 = insert_entry(entries, key, value);
    let i = index_of_key(entries, key);
    assert forall|a: int, b: int|
        0 <= a < e2.len() && 0 <= b < e2.len() && a != b implies e2[a].0 != e2[b].0 by {
        if i >= 0 {
            if a != i && b != i {
                assert(entries[a].0 != entries[b].0);
            } else if a == i {
                assert(entries[b].0 != entries[i].0);
            } else {
                assert(entries[a].0 != entries[i].0);
            }
        } else {
            if a < entries.len() && b < entries.len() {
                assert(entries[a].0 != entries[b].0);
            } else if a == entries.len() {
                assert(entries[b].0 != key);
            } else {
                assert(entries[a].0 != key);
            }
        }
    }
}

/// With distinct keys, the entry holding a key is the one `lookup` reads.
pub proof fn lemma_lookup_distinct(entries: Seq<(Seq<char>, usize)>, i: int)
    requires
        distinct_keys(entries),
        0 <= i < entries.len(),
    ensures
        lookup(entries, entries[i].0) == Some(entries[i].1),
{
    assert forall|j: int| i < j < entries.len() implies #[trigger] entries[j].0 != entries[i].0 by {}
    lemma_index_of_key_unique(entries, entries[i].0, i);
}

/// A key that no entry holds is not found.
pub proof fn lemma_lookup_absent(entries: Seq<(Seq<char>, usize)>, key: Seq<char>)
    requires
        forall|j: int| 0 <= j < entries.len() ==> #[trigger] entries[j].0 != key,
    ensures
        lookup(entries, key) is None,
{
    lemma_index_of_key_unique(entries, key, -1);
}

/// Sorting a table with distinct keys keeps them distinct and keeps the value of every
/// key.
pub proof fn lemma_sort_keeps_lookup(
    sorted: Seq<(Seq<char>, usize)>,
    orig: Seq<(Seq<char>, usize)>,
    key: Seq<char>,
)
    requires
        distinct_keys(orig),
        stable_desc_sort_of(sorted, orig),
    ensures
        distinct_keys(sorted),
        lookup(sorted, key) == lookup(orig, key),
{
    let p = choose|p: Seq<int>| sorts_by(p, sorted, orig);
    assert forall|a: int, b: int|
        0 <= a < sorted.len() && 0 <= b < sorted.len() && a != b implies sorted[a].0 != sorted[b].0 by {
        assert(p[a] != p[b]);
        assert(orig[p[a]].0 != orig[p[b]].0);
    }
    lemma_index_of_key(orig, key);
    let o = index_of_key(orig, key);
    if o >= 0 {
        let i = choose|i: int| 0 <= i < p.len() && #[trigger] p[i] == o;
        lemma_lookup_distinct(sorted, i);
        lemma_lookup_distinct(orig, o);
    } else {
        assert forall|j: int| 0 <= j < sorted.len() implies #[trigger] sorted[j].0 != key by {
            assert(sorted[j] == orig[p[j]]);
            assert(orig[p[j]].0 != key);
        }
        lemma_lookup_absent(sorted, key);
    }
}

/// Makes an empty table with `IndexMap::new`.
/// Claimed: the new map has no entries.
#[verifier::external_body]
pub(crate) fn map_new() -> (m: IndexMap<String, usize>)
    ensures
        skill_entries(m) == Seq::<(Seq<char>, usize)>::empty(),
{
    IndexMap::new()
}

/// Stores a value with `IndexMap::insert`.
/// Claimed, as its documentation says: an entry with an equal key keeps its place and
/// takes the new value, and the old value is returned; otherwise the pair is appended
/// last and `None` is returned.
#[verifier::external_body]
pub(crate) fn map_insert(m: &mut IndexMap<String, usize>, key: String, value: usize) -> (old_value: Option<usize>)
    ensures
        skill_entries(*final(m)) == insert_entry(skill_entries(*old(m)), key@, value),
        old_value == lookup(skill_entries(*old(m)), key@),
{
    m.insert(key, value)
}

/// Reads a value with `IndexMap::get`.
/// Claimed: the value of the entry whose key equals `key`, or `None` where there is none.
#[verifier::external_body]
pub(crate) fn map_get(m: &IndexMap<String, usize>, key: &str) -> (r: Option<usize>)
    ensures
        r == lookup(skill_entries(*m), key@),
{
    m.get(key).copied()
}

/// Counts entries with `IndexMap::len`.
/// Claimed: the number of entries.
#[verifier::external_body]
pub(crate) fn map_len(m: &IndexMap<String, usize>) -> (n: usize)
    ensures
        n == skill_entries(*m).len(),
{
    m.len()
}

/// Reads the entry at a position with `IndexMap::get_index`.
/// Claimed: the key and value at position `i` in the map's order, `None` past the end.
#[verifier::external_body]
pub(crate) fn map_get_index<'a>(m: &'a IndexMap<String, usize>, i: usize) -> (r: Option<(&'a String, usize)>)
    ensures
        r is Some <==> i < skill_entries(*m).len(),
        r matches Some(e) ==> e.0@ == skill_entries(*m)[i as int].0 && e.1 == skill_entries(*m)[i as int].1,
{
    m.get_index(i).map(|(k, v)| (k, *v))
}

/// Copies a table with `Clone::clone` of `IndexMap`.
/// Claimed: the copy has the same entries in the same order.
#[verifier::external_body]
pub(crate) fn map_clone(m: &IndexMap<String, usize>) -> (c: IndexMap<String, usize>)
    ensures
        skill_entries(c) == skill_entries(*m),
{
    m.clone()
}

/// The value on a sheet row (its second cell) read as a number.
pub open spec fn row_value(row: Vec<String>) -> usize {
    parse_usize_spec(row@[1]@).unwrap()
}

/// Every row has a name and a value cell, and the value cell holds a number.
pub open spec fn rows_well_formed(rows: Seq<Vec<String>>) -> bool {
    forall|i: int|
        0 <= i < rows.len() ==> (#[trigger] rows[i])@.len() >= 2 && parse_usize_spec(rows[i]@[1]@) is Some
}

/// The table that storing every row in order gives, before sorting.
pub open spec fn rows_table(rows: Seq<Vec<String>>) -> Seq<(Seq<char>, usize)>
    decreases rows.len(),
{
    if rows.len() == 0 {
        Seq::empty()
    } else {
        insert_entry(rows_table(rows.drop_last()), rows.last()@[0]@, row_value(rows.last()))
    }
}

/// The table stored from rows has distinct keys.
pub proof fn lemma_rows_table_distinct(rows: Seq<Vec<String>>)
    ensures
        distinct_keys(rows_table(rows)),
    decreases rows.len(),
{
    if rows.len() > 0 {
        lemma_rows_table_distinct(rows.drop_last());
        lemma_insert_distinct(rows_table(rows.drop_last()), rows.last()@[0]@, row_value(rows.last()));
    }
}

/// In the table built from a sheet's rows, every skill has the value of the last row
/// that names it, and a skill no row names is absent.
pub proof fn lemma_table_from_rows(sorted: Seq<(Seq<char>, usize)>, rows: Seq<Vec<String>>, key: Seq<char>)
    requires
        stable_desc_sort_of(sorted, rows_table(rows)),
    ensures
        distinct_keys(sorted),
        lookup(sorted, key) == lookup(rows_table(rows), key),
        lookup(rows_table(rows), key) == rows_lookup(rows, key),
{
    lemma_rows_table_distinct(rows);
    lemma_sort_keeps_lookup(sorted, rows_table(rows), key);
    lemma_rows_lookup(rows, key);
}

/// The value of the last row that names `key`, if any does.
pub open spec fn rows_lookup(rows: Seq<Vec<String>>, key: Seq<char>) -> Option<usize>
    decreases rows.len(),
{
    if rows.len() == 0 {
        None
    } else if rows.last()@[0]@ == key {
        Some(row_value(rows.last()))
    } else {
        rows_lookup(rows.drop_last(), key)
    }
}

/// Looking up the stored table agrees with the last row that names the key.
pub proof fn lemma_rows_lookup(rows: Seq<Vec<String>>, key: Seq<char>)
    ensures
        lookup(rows_table(rows), key) == rows_lookup(rows, key),
    decreases rows.len(),
{
    if rows.len() == 0 {
        lemma_lookup_absent(rows_table(rows), key);
    } else {
        lemma_rows_lookup(rows.drop_last(), key);
        lemma_lookup_insert(rows_table(rows.drop_last()), rows.last()@[0]@, row_value(rows.last()), key);
    }
}

/// Builds the skill table of a sheet from its rows (skill name, value), each row
/// overriding an earlier one with the same name, then sorts it by value, highest first,
/// equal values keeping their order.
pub fn skills_from_rows(rows: &Vec<Vec<String>>) -> (m: IndexMap<String, usize>)
    requires
        rows_well_formed(rows@),
    ensures
        stable_desc_sort_of(skill_entries(m), rows_table(rows@)),
{
    let mut m = map_new();
    let mut i: usize = 0;
    while i < rows.len()
        invariant
            i <= rows.len(),
            rows_well_formed(rows@),
            skill_entries(m) == rows_table(rows@.subrange(0, i as int)),
        decreases rows.len() - i,
    {
        let row = &rows[i];
        assert(rows@[i as int]@.len() >= 2);
        let name = row[0].clone();
        let value = match parse_usize(row[1].as_str()) {
            Some(v) => v,
            None => 0,
        };
        map_insert(&mut m, name, value);
        assert(rows@.subrange(0, i + 1).drop_last() =~= rows@.subrange(0, i as int));
        assert(rows@.subrange(0, i + 1).last() == rows@[i as int]);
        i = i + 1;
    }
    assert(rows@.subrange(0, i as int) =~= rows@);
    crate::order::sort_by_value_desc(&mut m);
    m
}

} // verus!
