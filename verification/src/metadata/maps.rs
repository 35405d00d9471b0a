//! The concurrent maps that the in-memory store keeps its records in.
//!
//! The maps are shared-state maps; here each is owned by one store and changed only through an
//! exclusive borrow, so a map holds what the last change left in it.

use dashmap::DashMap;
use vstd::prelude::*;

use crate::metadata::types::{
    GeneratorRecord, GeneratorRecordView, RequestRecord, RequestRecordView, TimelineRecord,
    TimelineRecordView,
};
use crate::text;

verus! {

#[verifier::external_type_specification]
#[verifier::external_body]
#[verifier::reject_recursive_types(K)]
#[verifier::reject_recursive_types(V)]
#[verifier::reject_recursive_types(S)]
pub struct ExDashMap<K, V, S>(dashmap::DashMap<K, V, S>);

/// The texts name each member of the set once.
pub open spec fn lists_texts(texts: Seq<String>, members: Set<Seq<char>>) -> bool {
    &&& forall|i: int, j: int|
        0 <= i < j < texts.len() ==> (#[trigger] texts[i])@ != (#[trigger] texts[j])@
    &&& forall|i: int| 0 <= i < texts.len() ==> members.contains((#[trigger] texts[i])@)
    &&& forall|member: Seq<char>| #[trigger]
        members.contains(member) ==> exists|i: int|
            0 <= i < texts.len() && (#[trigger] texts[i])@ == member
}

/// The ids name each member of the set once.
pub open spec fn lists_ids(ids: Seq<u32>, members: Set<u32>) -> bool {
    &&& ids.no_duplicates()
    &&& forall|id: u32| #[trigger] members.contains(id) <==> ids.contains(id)
}

/// The texts are in ascending order.
pub open spec fn texts_ascend(texts: Seq<String>) -> bool {
    forall|i: int, j: int|
        0 <= i < j < texts.len() ==> !text::text_before(
            (#[trigger] texts[j])@,
            (#[trigger] texts[i])@,
        )
}

/// `[String]::sort_unstable`: the same texts in ascending order of their bytes.
#[verifier::external_body]
pub(crate) fn sort_texts(texts: &mut Vec<String>)
    ensures
        final(texts)@.to_multiset() == old(texts)@.to_multiset(),
        texts_ascend(final(texts)@),
{
    texts.sort_unstable();
}

/// What a map of timeline records holds.
pub uninterp spec fn timelines_in(
    map: DashMap<String, (TimelineRecord, u64)>,
) -> Map<Seq<char>, (TimelineRecordView, u64)>;

/// `DashMap::new`: a map without entries.
#[verifier::external_body]
pub(crate) fn new_timelines() -> (map: DashMap<String, (TimelineRecord, u64)>)
    ensures
        (timelines_in(map) == Map::<Seq<char>, (TimelineRecordView, u64)>::empty()),
{
    DashMap::new()
}

/// `DashMap::get`: a copy of the entry under the key, if there is one.
#[verifier::external_body]
pub(crate) fn get_timelines(
    map: &DashMap<String, (TimelineRecord, u64)>,
    key: &str,
) -> (entry: Option<(TimelineRecord, u64)>)
    ensures
        match entry {
            Some(found) => timelines_in(*map).contains_key(key@)
                && timelines_in(*map)[key@] == (found.0@, found.1),
            None => !timelines_in(*map).contains_key(key@),
        },
{
    map.get(key).map(|entry| entry.value().clone())
}

/// `DashMap::insert`: puts the entry under the key, in place of an older one.
#[verifier::external_body]
pub(crate) fn insert_timelines(
    map: &mut DashMap<String, (TimelineRecord, u64)>,
    key: String,
    value: (TimelineRecord, u64),
)
    ensures
        timelines_in(*final(map)) == timelines_in(*old(map)).insert(key@, (value.0@, value.1)),
{
    map.insert(key, value);
}

/// `DashMap::iter`: the keys, each once, in no particular order.
#[verifier::external_body]
pub(crate) fn keys_of_timelines(map: &DashMap<String, (TimelineRecord, u64)>) -> (keys: Vec<String>)
    ensures
        lists_texts(keys@, timelines_in(*map).dom()),
{
    map.iter().map(|entry| entry.key().clone()).collect()
}

/// What a map of generator records holds.
pub uninterp spec fn generators_in(
    map: DashMap<u32, (GeneratorRecord, u64)>,
) -> Map<u32, (GeneratorRecordView, u64)>;

/// `DashMap::new`: a map without entries.
#[verifier::external_body]
pub(crate) fn new_generators() -> (map: DashMap<u32, (GeneratorRecord, u64)>)
    ensures
        (generators_in(map) == Map::<u32, (GeneratorRecordView, u64)>::empty()),
{
    DashMap::new()
}

/// `DashMap::get`: a copy of the entry under the key, if there is one.
#[verifier::external_body]
pub(crate) fn get_generators(
    map: &DashMap<u32, (GeneratorRecord, u64)>,
    key: u32,
) -> (entry: Option<(GeneratorRecord, u64)>)
    ensures
        match entry {
            Some(found) => generators_in(*map).contains_key(key)
                && generators_in(*map)[key] == (found.0@, found.1),
            None => !generators_in(*map).contains_key(key),
        },
{
    map.get(&key).map(|entry| entry.value().clone())
}

/// `DashMap::insert`: puts the entry under the key, in place of an older one.
#[verifier::external_body]
pub(crate) fn insert_generators(
    map: &mut DashMap<u32, (GeneratorRecord, u64)>,
    key: u32,
    value: (GeneratorRecord, u64),
)
    ensures
        generators_in(*final(map)) == generators_in(*old(map)).insert(key, (value.0@, value.1)),
{
    map.insert(key, value);
}

/// `DashMap::iter`: the keys, each once, in no particular order.
#[verifier::external_body]
pub(crate) fn keys_of_generators(map: &DashMap<u32, (GeneratorRecord, u64)>) -> (keys: Vec<u32>)
    ensures
        lists_ids(keys@, generators_in(*map).dom()),
{
    map.iter().map(|entry| *entry.key()).collect()
}

/// What a map of request records holds.
pub uninterp spec fn requests_in(
    map: DashMap<String, (RequestRecord, u64)>,
) -> Map<Seq<char>, (RequestRecordView, u64)>;

/// `DashMap::new`: a map without entries.
#[verifier::external_body]
pub(crate) fn new_requests() -> (map: DashMap<String, (RequestRecord, u64)>)
    ensures
        (requests_in(map) == Map::<Seq<char>, (RequestRecordView, u64)>::empty()),
{
    DashMap::new()
}

/// `DashMap::get`: a copy of the entry under the key, if there is one.
#[verifier::external_body]
pub(crate) fn get_requests(
    map: &DashMap<String, (RequestRecord, u64)>,
    key: &str,
) -> (entry: Option<(RequestRecord, u64)>)
    ensures
        match entry {
            Some(found) => requests_in(*map).contains_key(key@)
                && requests_in(*map)[key@] == (found.0@, found.1),
            None => !requests_in(*map).contains_key(key@),
        },
{
    map.get(key).map(|entry| entry.value().clone())
}

/// `DashMap::insert`: puts the entry under the key, in place of an older one.
#[verifier::external_body]
pub(crate) fn insert_requests(
    map: &mut DashMap<String, (RequestRecord, u64)>,
    key: String,
    value: (RequestRecord, u64),
)
    ensures
        requests_in(*final(map)) == requests_in(*old(map)).insert(key@, (value.0@, value.1)),
{
    map.insert(key, value);
}

/// `DashMap::remove`: takes the entry under the key out and says whether there was one.
#[verifier::external_body]
pub(crate) fn remove_requests(
    map: &mut DashMap<String, (RequestRecord, u64)>,
    key: &str,
) -> (removed: bool)
    ensures
        removed == requests_in(*old(map)).contains_key(key@),
        requests_in(*final(map)) == requests_in(*old(map)).remove(key@),
{
    map.remove(key).is_some()
}

/// `DashMap::iter`: the keys, each once, in no particular order.
#[verifier::external_body]
pub(crate) fn keys_of_requests(map: &DashMap<String, (RequestRecord, u64)>) -> (keys: Vec<String>)
    ensures
        lists_texts(keys@, requests_in(*map).dom()),
{
    map.iter().map(|entry| entry.key().clone()).collect()
}

/// What a map of cleanup index entries holds.
pub uninterp spec fn cleanup_entries_in(map: DashMap<String, String>) -> Map<Seq<char>, Seq<char>>;

/// `DashMap::new`: a map without entries.
#[verifier::external_body]
pub(crate) fn new_cleanup_entries() -> (map: DashMap<String, String>)
    ensures
        (cleanup_entries_in(map) == Map::<Seq<char>, Seq<char>>::empty()),
{
    DashMap::new()
}

/// `DashMap::get`: a copy of the entry under the key, if there is one.
#[verifier::external_body]
pub(crate) fn get_cleanup_entries(
    map: &DashMap<String, String>,
    key: &str,
) -> (entry: Option<String>)
    ensures
        match entry {
            Some(found) => cleanup_entries_in(*map).contains_key(key@)
                && cleanup_entries_in(*map)[key@] == found@,
            None => !cleanup_entries_in(*map).contains_key(key@),
        },
{
    map.get(key).map(|entry| entry.value().clone())
}

/// `DashMap::insert`: puts the entry under the key, in place of an older one.
#[verifier::external_body]
pub(crate) fn insert_cleanup_entries(map: &mut DashMap<String, String>, key: String, value: String)
    ensures
        cleanup_entries_in(*final(map)) == cleanup_entries_in(*old(map)).insert(key@, value@),
{
    map.insert(key, value);
}

/// `DashMap::remove`: takes the entry under the key out and says whether there was one.
#[verifier::external_body]
pub(crate) fn remove_cleanup_entries(
    map: &mut DashMap<String, String>,
    key: &str,
) -> (removed: bool)
    ensures
        removed == cleanup_entries_in(*old(map)).contains_key(key@),
        cleanup_entries_in(*final(map)) == cleanup_entries_in(*old(map)).remove(key@),
{
    map.remove(key).is_some()
}

/// `DashMap::iter`: the keys, each once, in no particular order.
#[verifier::external_body]
pub(crate) fn keys_of_cleanup_entries(map: &DashMap<String, String>) -> (keys: Vec<String>)
    ensures
        lists_texts(keys@, cleanup_entries_in(*map).dom()),
{
    map.iter().map(|entry| entry.key().clone()).collect()
}

} // verus!
