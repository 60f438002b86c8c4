//! Maps and sets keyed by numbers, hashed by [`rustc_hash::FxBuildHasher`].

use vstd::prelude::*;
use rustc_hash::{FxHashMap, FxHashSet};

verus! {

/// The hasher of the maps and sets.
#[verifier::external_type_specification]
#[verifier::external_body]
pub struct ExFxBuildHasher(rustc_hash::FxBuildHasher);

/// Make an empty map, by [`FxHashMap::default`].
///
/// The new map holds nothing.
#[verifier::external_body]
pub(crate) fn map_new<V>() -> (r: FxHashMap<usize, V>)
    ensures
        forall|key: usize| !r@.contains_key(key),
{
    FxHashMap::default()
}

/// Look up a key, by [`std::collections::HashMap::get`] on an [`FxHashMap`].
///
/// The value that the map holds under the key comes back, and `None` if it
/// holds none.
#[verifier::external_body]
pub(crate) fn map_get<V: Copy>(map: &FxHashMap<usize, V>, key: usize) -> (r: Option<V>)
    ensures
        r == (if map@.contains_key(key) {
            Some(map@[key])
        } else {
            None
        }),
{
    map.get(&key).copied()
}

/// Bind a key, by [`std::collections::HashMap::insert`] on an [`FxHashMap`].
///
/// Afterwards the map holds the value under the key, and all else as before;
/// what the key was bound to comes back.
#[verifier::external_body]
pub(crate) fn map_insert<V>(map: &mut FxHashMap<usize, V>, key: usize, value: V) -> (r: Option<V>)
    ensures
        final(map)@ == old(map)@.insert(key, value),
        r == (if old(map)@.contains_key(key) {
            Some(old(map)@[key])
        } else {
            None
        }),
{
    map.insert(key, value)
}

/// Unbind a key, by [`std::collections::HashMap::remove`] on an [`FxHashMap`].
///
/// Afterwards the map holds nothing under the key, and all else as before;
/// what the key was bound to comes back.
#[verifier::external_body]
pub(crate) fn map_remove<V>(map: &mut FxHashMap<usize, V>, key: usize) -> (r: Option<V>)
    ensures
        final(map)@ == old(map)@.remove(key),
        r == (if old(map)@.contains_key(key) {
            Some(old(map)@[key])
        } else {
            None
        }),
{
    map.remove(&key)
}

/// Make an empty set, by [`FxHashSet::default`].
///
/// The new set holds nothing.
#[verifier::external_body]
pub(crate) fn set_new() -> (r: FxHashSet<usize>)
    ensures
        forall|key: usize| !r@.contains(key),
{
    FxHashSet::default()
}

/// Look for an element, by [`std::collections::HashSet::contains`] on an
/// [`FxHashSet`].
///
/// Tells whether the set holds the element.
#[verifier::external_body]
pub(crate) fn set_contains(set: &FxHashSet<usize>, key: usize) -> (r: bool)
    ensures
        r == set@.contains(key),
{
    set.contains(&key)
}

/// Add an element, by [`std::collections::HashSet::insert`] on an
/// [`FxHashSet`].
///
/// Afterwards the set holds the element, and all else as before; whether the
/// element is new comes back.
#[verifier::external_body]
pub(crate) fn set_insert(set: &mut FxHashSet<usize>, key: usize) -> (r: bool)
    ensures
        final(set)@ == old(set)@.insert(key),
        r == !old(set)@.contains(key),
{
    set.insert(key)
}

/// Intersect two sets, by [`std::ops::BitAnd::bitand`] on [`FxHashSet`]s.
///
/// The new set holds what both sets hold.
#[verifier::external_body]
pub(crate) fn set_intersection(a: &FxHashSet<usize>, b: &FxHashSet<usize>) -> (r: FxHashSet<usize>)
    ensures
        r@ == a@.intersect(b@),
{
    a & b
}

/// Unite two sets, by [`std::ops::BitOr::bitor`] on [`FxHashSet`]s.
///
/// The new set holds what either set holds.
#[verifier::external_body]
pub(crate) fn set_union(a: &FxHashSet<usize>, b: &FxHashSet<usize>) -> (r: FxHashSet<usize>)
    ensures
        r@ == a@.union(b@),
{
    a | b
}

} // verus!
