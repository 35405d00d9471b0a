//! The concurrent map that the timeline cache keeps its entries in.

use dashmap::DashMap;
use vstd::prelude::*;

verus! {

/// What the map of a cache holds: for each key the handle of its timeline and the tick of its
/// last use.
pub uninterp spec fn cached_in(map: DashMap<String, (u64, u64)>) -> Map<Seq<char>, (u64, u64)>;

/// `DashMap::with_shard_amount`: a map without entries. The amount has to be a power of two above
/// one.
#[verifier::external_body]
pub(crate) fn new_cached(shard_amount: usize) -> (map: DashMap<String, (u64, u64)>)
    requires
        shard_amount == 64,
    ensures
        (cached_in(map) == Map::<Seq<char>, (u64, u64)>::empty()),
{
    DashMap::with_shard_amount(shard_amount)
}

/// `DashMap::get`: a copy of the entry under the key, if there is one.
#[verifier::external_body]
pub(crate) fn get_cached(map: &DashMap<String, (u64, u64)>, key: &str) -> (entry: Option<
    (u64, u64),
>)
    ensures
        match entry {
            Some(found) => cached_in(*map).contains_key(key@) && cached_in(*map)[key@] == found,
            None => !cached_in(*map).contains_key(key@),
        },
{
    map.get(key).map(|entry| *entry.value())
}

/// `DashMap::insert`: puts the entry under the key, in place of an older one.
#[verifier::external_body]
pub(crate) fn insert_cached(map: &mut DashMap<String, (u64, u64)>, key: String, value: (u64, u64))
    ensures
        cached_in(*final(map)) == cached_in(*old(map)).insert(key@, value),
{
    map.insert(key, value);
}

/// `DashMap::remove`: takes the entry under the key out and says whether there was one.
#[verifier::external_body]
pub(crate) fn remove_cached(map: &mut DashMap<String, (u64, u64)>, key: &str) -> (removed: bool)
    ensures
        removed == cached_in(*old(map)).contains_key(key@),
        cached_in(*final(map)) == cached_in(*old(map)).remove(key@),
{
    map.remove(key).is_some()
}

/// `DashMap::clear`: takes every entry out.
#[verifier::external_body]
pub(crate) fn clear_cached(map: &mut DashMap<String, (u64, u64)>)
    ensures
        (cached_in(*final(map)) == Map::<Seq<char>, (u64, u64)>::empty()),
{
    map.clear();
}

} // verus!
