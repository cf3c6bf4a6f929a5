//! The insertion-ordered map of `indexmap` that indexes tag relations by the
//! 128-bit value of the tag's id.

use vstd::prelude::*;

verus! {

/// `indexmap::IndexMap`: a hash map that keeps its entries in insertion order.
#[verifier::external_type_specification]
#[verifier::external_body]
#[verifier::reject_recursive_types(K)]
#[verifier::reject_recursive_types(V)]
#[verifier::reject_recursive_types(S)]
pub struct ExIndexMap<K, V, S>(indexmap::IndexMap<K, V, S>);

/// The entries of the map, in the map's order.
pub uninterp spec fn index_map_entries(m: indexmap::IndexMap<u128, usize>) -> Seq<(u128, usize)>;

/// No key occurs twice.
pub open spec fn distinct_keys(e: Seq<(u128, usize)>) -> bool {
    forall|i: int, j: int| 0 <= i < j < e.len() ==> e[i].0 != e[j].0
}

/// Position of key `k`, if present.
pub open spec fn key_position(e: Seq<(u128, usize)>, k: u128) -> Option<int> {
    if exists|i: int| 0 <= i < e.len() && e[i].0 == k {
        Some(choose|i: int| 0 <= i < e.len() && e[i].0 == k)
    } else {
        None
    }
}

pub proof fn lemma_key_position(e: Seq<(u128, usize)>, k: u128)
    ensures
        key_position(e, k) matches Some(i) ==> 0 <= i < e.len() && e[i].0 == k,
        key_position(e, k) is None ==> forall|i: int| 0 <= i < e.len() ==> #[trigger] e[i].0 != k,
{
}

/// The entries after `insert(k, v)`: an existing key keeps its place and
/// takes the new value; a new key goes last.
pub open spec fn entries_after_insert(e: Seq<(u128, usize)>, k: u128, v: usize) -> Seq<(u128, usize)> {
    match key_position(e, k) {
        Some(i) => e.update(i, (k, v)),
        None => e.push((k, v)),
    }
}

/// The entries after `swap_remove(k)`: the last entry takes the place of the
/// removed one.
pub open spec fn entries_after_swap_remove(e: Seq<(u128, usize)>, k: u128) -> Seq<(u128, usize)> {
    match key_position(e, k) {
        Some(i) => if i == e.len() - 1 {
            e.drop_last()
        } else {
            e.drop_last().update(i, e.last())
        },
        None => e,
    }
}

/// `IndexMap::new`: an empty map.
#[verifier::external_body]
pub(crate) fn index_map_new() -> (m: indexmap::IndexMap<u128, usize>)
    ensures
        index_map_entries(m) == Seq::<(u128, usize)>::empty(),
{
    indexmap::IndexMap::new()
}

/// `IndexMap::insert`: if the key is present its value is replaced in place
/// and the old value returned, else the pair is appended.
#[verifier::external_body]
pub(crate) fn index_map_insert(m: &mut indexmap::IndexMap<u128, usize>, k: u128, v: usize) -> (r: Option<usize>)
    ensures
        index_map_entries(*final(m)) == entries_after_insert(index_map_entries(*old(m)), k, v),
        r == (match key_position(index_map_entries(*old(m)), k) {
            Some(i) => Some(index_map_entries(*old(m))[i].1),
            None => None::<usize>,
        }),
{
    m.insert(k, v)
}

/// `IndexMap::get`: the value stored under the key.
#[verifier::external_body]
pub(crate) fn index_map_get(m: &indexmap::IndexMap<u128, usize>, k: u128) -> (r: Option<usize>)
    ensures
        r == (match key_position(index_map_entries(*m), k) {
            Some(i) => Some(index_map_entries(*m)[i].1),
            None => None::<usize>,
        }),
{
    m.get(&k).copied()
}

/// `IndexMap::swap_remove`: removes the key, moving the last entry into its
/// place, and returns its value.
#[verifier::external_body]
pub(crate) fn index_map_swap_remove(m: &mut indexmap::IndexMap<u128, usize>, k: u128) -> (r: Option<usize>)
    ensures
        index_map_entries(*final(m)) == entries_after_swap_remove(index_map_entries(*old(m)), k),
        r == (match key_position(index_map_entries(*old(m)), k) {
            Some(i) => Some(index_map_entries(*old(m))[i].1),
            None => None::<usize>,
        }),
{
    m.swap_remove(&k)
}

/// `IndexMap::len`.
#[verifier::external_body]
pub(crate) fn index_map_len(m: &indexmap::IndexMap<u128, usize>) -> (n: usize)
    ensures
        n == index_map_entries(*m).len(),
{
    m.len()
}

/// `IndexMap::get_index`: the entry at a position of the order.
#[verifier::external_body]
pub(crate) fn index_map_get_index(m: &indexmap::IndexMap<u128, usize>, i: usize) -> (r: Option<(u128, usize)>)
    ensures
        r == (if i < index_map_entries(*m).len() {
            Some(index_map_entries(*m)[i as int])
        } else {
            None::<(u128, usize)>
        }),
{
    m.get_index(i).map(|(k, v)| (*k, *v))
}

} // verus!
