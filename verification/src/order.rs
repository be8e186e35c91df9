//! Ordering skill tables by value.
use vstd::prelude::*;
use std::cmp::Ordering;
use indexmap::IndexMap;
use crate::skills::{skill_entries, stable_desc_sort_of};

verus! {

/// Compares two values so that the higher comes first.
pub fn value_descending(a: &usize, b: &usize) -> (o: Ordering)
    ensures
        *b < *a ==> o == Ordering::Less,
        *b == *a ==> o == Ordering::Equal,
        *b > *a ==> o == Ordering::Greater,
{
    if *b < *a {
        Ordering::Less
    } else if *b == *a {
        Ordering::Equal
    } else {
        Ordering::Greater
    }
}

/// Sorts a table with `IndexMap::sort_by`, comparing entries by `value_descending`.
/// Claimed, as its documentation says: the sort is stable, so the entries end up ordered
/// by value from highest to lowest, entries of equal value keeping their order.
#[verifier::external_body]
pub(crate) fn sort_by_value_desc(m: &mut IndexMap<String, usize>)
    ensures
        stable_desc_sort_of(skill_entries(*final(m)), skill_entries(*old(m))),
{
    m.sort_by(|_, a, _, b| value_descending(a, b))
}

} // verus!
