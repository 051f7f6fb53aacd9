//! The insertion-ordered map that holds a history, and what this library
//! relies on of its methods.

use indexmap::IndexMap;
use vstd::prelude::*;

use crate::entries::{has_key, put, EntrySeq};

verus! {

#[verifier::external_type_specification]
#[verifier::external_body]
#[verifier::reject_recursive_types(K)]
#[verifier::reject_recursive_types(V)]
#[verifier::reject_recursive_types(S)]
pub struct ExIndexMap<K, V, S>(IndexMap<K, V, S>);

/// The pairs that a history map holds, in the map's order.
pub uninterp spec fn entries_of(m: IndexMap<Vec<u8>, String>) -> EntrySeq;

/// Relies on `IndexMap::new`: a new map is empty.
#[verifier::external_body]
pub(crate) fn map_new() -> (r: IndexMap<Vec<u8>, String>)
    ensures
        entries_of(r) == Seq::<(Seq<u8>, Seq<char>)>::empty(),
{
    IndexMap::new()
}

/// Relies on `IndexMap::len`: the number of pairs.
#[verifier::external_body]
pub(crate) fn map_len(m: &IndexMap<Vec<u8>, String>) -> (r: usize)
    ensures
        r == entries_of(*m).len(),
{
    m.len()
}

/// Relies on `IndexMap::contains_key`: whether a pair with an equal key is held.
#[verifier::external_body]
pub(crate) fn map_contains_key(m: &IndexMap<Vec<u8>, String>, key: &Vec<u8>) -> (r: bool)
    ensures
        r == has_key(entries_of(*m), key@),
{
    m.contains_key(key)
}

/// Relies on `IndexMap::get_index`: the pair at `index`, here cloned, or `None`
/// past the end.
#[verifier::external_body]
pub(crate) fn map_get_index(m: &IndexMap<Vec<u8>, String>, index: usize) -> (r: Option<(Vec<u8>, String)>)
    ensures
        r is Some <==> index < entries_of(*m).len(),
        r is Some ==> (r->Some_0.0@, r->Some_0.1@) == entries_of(*m)[index as int],
{
    m.get_index(index).map(|(k, v)| (k.clone(), v.clone()))
}

/// Relies on `IndexMap::shift_insert` for a key that is not held: the pair goes
/// in at `index` and the pairs from there on move back by one.
#[verifier::external_body]
pub(crate) fn map_shift_insert(m: &mut IndexMap<Vec<u8>, String>, index: usize, key: Vec<u8>, value: String)
    requires
        index <= entries_of(*old(m)).len(),
        !has_key(entries_of(*old(m)), key@),
    ensures
        entries_of(*final(m)) == entries_of(*old(m)).insert(index as int, (key@, value@)),
{
    m.shift_insert(index, key, value);
}

/// Relies on `IndexMap::insert`: a held key keeps its place and takes the new
/// value; a new key goes last.
#[verifier::external_body]
pub(crate) fn map_insert(m: &mut IndexMap<Vec<u8>, String>, key: Vec<u8>, value: String)
    ensures
        entries_of(*final(m)) == put(entries_of(*old(m)), key@, value@),
{
    m.insert(key, value);
}

/// Relies on `IndexMap::shift_remove_index`: the pair at `index` leaves and the
/// pairs after it move forward by one; past the end nothing changes.
#[verifier::external_body]
pub(crate) fn map_shift_remove_index(m: &mut IndexMap<Vec<u8>, String>, index: usize) -> (r: Option<(Vec<u8>, String)>)
    ensures
        r is Some <==> index < entries_of(*old(m)).len(),
        index < entries_of(*old(m)).len() ==> entries_of(*final(m)) == entries_of(*old(m)).remove(index as int),
        index >= entries_of(*old(m)).len() ==> entries_of(*final(m)) == entries_of(*old(m)),
{
    m.shift_remove_index(index)
}

/// Relies on `IndexMap::truncate`: the first `len` pairs stay.
#[verifier::external_body]
pub(crate) fn map_truncate(m: &mut IndexMap<Vec<u8>, String>, len: usize)
    ensures
        len < entries_of(*old(m)).len() ==> entries_of(*final(m)) == entries_of(*old(m)).take(len as int),
        len >= entries_of(*old(m)).len() ==> entries_of(*final(m)) == entries_of(*old(m)),
{
    m.truncate(len);
}

/// Relies on `IndexMap::clear`: no pair stays.
#[verifier::external_body]
pub(crate) fn map_clear(m: &mut IndexMap<Vec<u8>, String>)
    ensures
        entries_of(*final(m)) == Seq::<(Seq<u8>, Seq<char>)>::empty(),
{
    m.clear();
}

} // verus!
