//! The hash map behind the collision grid.
//!
//! The map is `bevy::utils::HashMap`, the hash map of the `hashbrown` crate
//! with a fixed hasher, which Verus cannot look into. This module holds it in
//! a struct of its own and states, for each method the grid calls, what that
//! method does to the map's contents. These statements are taken on trust
//! from the map's documentation; nothing in this module is proved.

use vstd::prelude::*;
use crate::records::DangerInGrid;

verus! {

/// A hash map from cell keys to the records of each cell.
#[verifier::external_body]
pub struct CellStore {
    cells: bevy::utils::HashMap<(i32, i32), Vec<DangerInGrid>>,
}

/// What a store holds: for each key present, the records under it.
pub uninterp spec fn stored(store: CellStore) -> Map<(i32, i32), Seq<DangerInGrid>>;

/// The contents of a store that holds no key.
pub open spec fn nothing_stored() -> Map<(i32, i32), Seq<DangerInGrid>> {
    Map::empty()
}

/// Makes a store with `HashMap::default`, which gives an empty map.
#[verifier::external_body]
pub(crate) fn store_new() -> (store: CellStore)
    ensures
        stored(store) == nothing_stored(),
{
    CellStore { cells: bevy::utils::HashMap::default() }
}

/// Reads with `HashMap::get`, which gives the value under a key or nothing
/// where the key is absent. The records found are copied out.
#[verifier::external_body]
pub(crate) fn store_get(store: &CellStore, key: (i32, i32)) -> (r: Option<Vec<DangerInGrid>>)
    ensures
        match r {
            Some(v) => stored(*store).contains_key(key) && v@ == stored(*store)[key],
            None => !stored(*store).contains_key(key),
        },
{
    store.cells.get(&key).cloned()
}

/// Writes with `HashMap::insert`, which puts the value under the key whether
/// or not the key was present, and leaves every other key alone.
#[verifier::external_body]
pub(crate) fn store_put(store: &mut CellStore, key: (i32, i32), records: Vec<DangerInGrid>)
    ensures
        stored(*final(store)) == stored(*old(store)).insert(key, records@),
{
    store.cells.insert(key, records);
}

/// Deletes with `HashMap::remove`, which takes the key out if it is present
/// and leaves every other key alone.
#[verifier::external_body]
pub(crate) fn store_remove(store: &mut CellStore, key: (i32, i32))
    ensures
        stored(*final(store)) == stored(*old(store)).remove(key),
{
    store.cells.remove(&key);
}

/// Empties the store with `HashMap::clear`, which removes every key.
#[verifier::external_body]
pub(crate) fn store_clear(store: &mut CellStore)
    ensures
        stored(*final(store)) == nothing_stored(),
{
    store.cells.clear();
}

} // verus!
