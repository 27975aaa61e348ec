//! Ordered maps keyed by 32-bit numbers.

use std::collections::BTreeMap;
use vstd::prelude::*;

verus! {

/// Puts `value` under `key`, in place of what was there.
pub(crate) fn put<V>(map: &mut BTreeMap<u32, V>, key: u32, value: V)
    ensures
        final(map)@ == old(map)@.insert(key, value),
{
    broadcast use vstd::laws_cmp::group_laws_cmp;

    map.insert(key, value);
}

/// What stands under `key`, if anything does.
pub(crate) fn get<'a, V>(map: &'a BTreeMap<u32, V>, key: u32) -> (found: Option<&'a V>)
    ensures
        found is Some == map@.contains_key(key),
        found matches Some(value) ==> *value == map@[key],
{
    broadcast use vstd::laws_cmp::group_laws_cmp;
    broadcast use vstd::std_specs::btree::group_btree_axioms;

    map.get(&key)
}

} // verus!
