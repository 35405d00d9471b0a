//! Entries that carry a revision: found by key, created once, and replaced by whoever knows the
//! revision.

use vstd::prelude::*;

use crate::error::TsoError;

verus! {

pub type Entries<K, V> = Map<K, (V, u64)>;

/// What looking an entry up comes to. An entry of another schema is an error.
pub open spec fn finds<K, T: View>(
    entries: Entries<K, T::V>,
    key: K,
    supported: bool,
    schema_fault: Seq<char>,
    result: Result<Option<(T, u64)>, TsoError>,
) -> bool {
    if !entries.contains_key(key) {
        result matches Ok(None)
    } else if supported {
        result matches Ok(Some(found)) && (found.0@, found.1) == entries[key]
    } else {
        result matches Err(error) && error.is_internal(schema_fault)
    }
}

/// What creating an entry comes to: it starts at revision one, unless its key is taken.
pub open spec fn creates<K, V>(
    before: Entries<K, V>,
    key: K,
    value: V,
    supported: bool,
    schema_fault: Seq<char>,
    after: Entries<K, V>,
    result: Result<u64, TsoError>,
) -> bool {
    if !supported {
        &&& result matches Err(error) && error.is_internal(schema_fault)
        &&& after == before
    } else if before.contains_key(key) {
        &&& result == Err::<u64, TsoError>(TsoError::MetadataAlreadyExists)
        &&& after == before
    } else {
        &&& result == Ok::<u64, TsoError>(1)
        &&& after == before.insert(key, (value, 1))
    }
}

/// What replacing an entry comes to: its revision moves on by one, unless it is not the expected
/// one.
pub open spec fn exchanges<K, V>(
    before: Entries<K, V>,
    key: K,
    expected_revision: u64,
    value: V,
    supported: bool,
    schema_fault: Seq<char>,
    name: Seq<char>,
    after: Entries<K, V>,
    result: Result<u64, TsoError>,
) -> bool {
    if !supported {
        &&& result matches Err(error) && error.is_internal(schema_fault)
        &&& after == before
    } else if !before.contains_key(key) {
        &&& result matches Err(error) && error.is_not_found(name)
        &&& after == before
    } else if before[key].1 != expected_revision {
        &&& result == Err::<u64, TsoError>(TsoError::CasFailed)
        &&& after == before
    } else {
        &&& result == Ok::<u64, TsoError>((expected_revision + 1) as u64)
        &&& after == before.insert(key, (value, (expected_revision + 1) as u64))
    }
}

/// What deleting an entry comes to: it goes, unless its revision is not the expected one.
pub open spec fn deletes<K, V>(
    before: Entries<K, V>,
    key: K,
    expected_revision: u64,
    name: Seq<char>,
    after: Entries<K, V>,
    result: Result<(), TsoError>,
) -> bool {
    if !before.contains_key(key) {
        &&& result matches Err(error) && error.is_not_found(name)
        &&& after == before
    } else if before[key].1 != expected_revision {
        &&& result == Err::<(), TsoError>(TsoError::CasFailed)
        &&& after == before
    } else {
        &&& result is Ok
        &&& after == before.remove(key)
    }
}

/// An entry is deleted exactly where it stands at the revision that is expected, and all other
/// entries stay. Otherwise nothing changes.
pub proof fn entries_are_deleted_at_their_revision_only<K, V>(
    before: Entries<K, V>,
    key: K,
    expected_revision: u64,
    name: Seq<char>,
    after: Entries<K, V>,
    result: Result<(), TsoError>,
    other: K,
)
    requires
        deletes(before, key, expected_revision, name, after, result),
    ensures
        result is Ok <==> before.contains_key(key) && before[key].1 == expected_revision,
        result is Ok ==> !after.contains_key(key),
        result is Err ==> after == before,
        before.contains_key(key) && before[key].1 != expected_revision ==> result == Err::<
            (),
            TsoError,
        >(TsoError::CasFailed),
        other != key ==> after.contains_key(other) == before.contains_key(other) && (
        before.contains_key(other) ==> after[other] == before[other]),
{
}

/// What was created is found, at the revision that creating it returned, and the rest is as
/// before.
pub proof fn created_entries_are_found<K, T: View>(
    before: Entries<K, T::V>,
    key: K,
    record: T,
    supported: bool,
    schema_fault: Seq<char>,
    after: Entries<K, T::V>,
    revision: u64,
    found: Result<Option<(T, u64)>, TsoError>,
)
    requires
        creates(before, key, record@, supported, schema_fault, after, Ok(revision)),
        finds(after, key, supported, schema_fault, found),
    ensures
        found matches Ok(Some((value, at))) && value@ == record@ && at == revision,
        after.remove(key) == before,
{
    assert(after.remove(key) =~= before);
}

/// What was written in place of an entry is found, at the revision that the replacement returned,
/// and the rest is as before.
pub proof fn exchanged_entries_are_found<K, T: View>(
    before: Entries<K, T::V>,
    key: K,
    expected_revision: u64,
    record: T,
    supported: bool,
    schema_fault: Seq<char>,
    name: Seq<char>,
    after: Entries<K, T::V>,
    revision: u64,
    found: Result<Option<(T, u64)>, TsoError>,
)
    requires
        exchanges(
            before,
            key,
            expected_revision,
            record@,
            supported,
            schema_fault,
            name,
            after,
            Ok(revision),
        ),
        finds(after, key, supported, schema_fault, found),
    ensures
        found matches Ok(Some((value, at))) && value@ == record@ && at == revision,
        after.remove(key) == before.remove(key),
{
    assert(after.remove(key) =~= before.remove(key));
}

/// Of two replacements that expect the same revision only one succeeds.
pub proof fn revisions_are_used_once<K, V>(
    before: Entries<K, V>,
    key: K,
    expected_revision: u64,
    first: V,
    between: Entries<K, V>,
    first_result: Result<u64, TsoError>,
    second: V,
    after: Entries<K, V>,
    second_result: Result<u64, TsoError>,
    schema_fault: Seq<char>,
    name: Seq<char>,
)
    requires
        expected_revision < u64::MAX,
        exchanges(
            before,
            key,
            expected_revision,
            first,
            true,
            schema_fault,
            name,
            between,
            first_result,
        ),
        exchanges(
            between,
            key,
            expected_revision,
            second,
            true,
            schema_fault,
            name,
            after,
            second_result,
        ),
        first_result is Ok,
    ensures
        second_result == Err::<u64, TsoError>(TsoError::CasFailed),
        after == between,
{
}

/// A key is taken once: creating it again is refused and changes nothing.
pub proof fn keys_are_created_once<K, V>(
    before: Entries<K, V>,
    key: K,
    first: V,
    between: Entries<K, V>,
    first_result: Result<u64, TsoError>,
    second: V,
    after: Entries<K, V>,
    second_result: Result<u64, TsoError>,
    schema_fault: Seq<char>,
)
    requires
        creates(before, key, first, true, schema_fault, between, first_result),
        creates(between, key, second, true, schema_fault, after, second_result),
    ensures
        second_result == Err::<u64, TsoError>(TsoError::MetadataAlreadyExists),
        after == between,
{
}

} // verus!
