//! What holds of the in-memory store, told in what is written and what is read.

use vstd::prelude::*;

use crate::error::TsoError;
use crate::metadata::entries;
use crate::metadata::entries::Entries;
use crate::metadata::memory;
use crate::metadata::memory::Timelines;
use crate::metadata::memory_generators;
use crate::metadata::memory_generators::Generators;
use crate::metadata::memory_requests;
use crate::metadata::memory_requests::{PruneProgress, Requests};
use crate::metadata::types::{
    GeneratorBatchOp, RequestRecordState, RequestRecordView, TimelineBatchOp,
    TimelineFilterRecordListPage, TimelineRecordListPage, CURRENT_METADATA_SCHEMA_VERSION,
};
use crate::metadata::windows;
use crate::text;

verus! {

/// An entry is replaced exactly where it stands at the revision that is expected; it then holds what
/// was written, at a higher revision, and all other entries stay. Otherwise nothing changes.
pub proof fn entries_are_replaced_at_their_revision_only<K, V>(
    before: Entries<K, V>,
    key: K,
    expected: u64,
    value: V,
    supported: bool,
    schema_fault: Seq<char>,
    name: Seq<char>,
    after: Entries<K, V>,
    result: Result<u64, TsoError>,
    other: K,
)
    requires
        expected < u64::MAX,
        entries::exchanges(
            before,
            key,
            expected,
            value,
            supported,
            schema_fault,
            name,
            after,
            result,
        ),
    ensures
        result is Ok <==> supported && before.contains_key(key) && before[key].1 == expected,
        result matches Ok(revision) ==> revision == expected + 1 && after.contains_key(key)
            && after[key] == (value, revision),
        result is Err ==> after == before,
        supported && before.contains_key(key) && before[key].1 != expected ==> result == Err::<
            u64,
            TsoError,
        >(TsoError::CasFailed),
        supported && !before.contains_key(key) ==> (result matches Err(error)
            && error is TimelineNotFound),
        other != key ==> after.contains_key(other) == before.contains_key(other) && (
        before.contains_key(other) ==> after[other] == before[other]),
{
}

/// An entry is created exactly where there is none under its key; it then holds what was written,
/// at the first revision, and all other entries stay. Otherwise nothing changes.
pub proof fn entries_are_created_where_there_is_none<K, V>(
    before: Entries<K, V>,
    key: K,
    value: V,
    supported: bool,
    schema_fault: Seq<char>,
    after: Entries<K, V>,
    result: Result<u64, TsoError>,
    other: K,
)
    requires
        entries::creates(before, key, value, supported, schema_fault, after, result),
    ensures
        result is Ok <==> supported && !before.contains_key(key),
        result matches Ok(revision) ==> revision == 1 && after.contains_key(key) && after[key] == (
            value,
            revision,
        ),
        supported && before.contains_key(key) ==> result == Err::<u64, TsoError>(
            TsoError::MetadataAlreadyExists,
        ),
        result is Err ==> after == before,
        other != key ==> after.contains_key(other) == before.contains_key(other) && (
        before.contains_key(other) ==> after[other] == before[other]),
{
}

/// What is found is what stands under the key, with its revision, and nothing is found exactly where
/// nothing stands.
pub proof fn entries_are_found_as_they_stand<K, T: View>(
    store: Entries<K, T::V>,
    key: K,
    supported: bool,
    schema_fault: Seq<char>,
    result: Result<Option<(T, u64)>, TsoError>,
)
    requires
        entries::finds(store, key, supported, schema_fault, result),
    ensures
        result matches Ok(None) <==> !store.contains_key(key),
        result matches Ok(Some((value, revision))) ==> store[key].0 == value@ && store[key].1
            == revision,
        result is Err <==> store.contains_key(key) && !supported,
{
}

proof fn lemma_batch_fault(timelines: Timelines, operations: Seq<TimelineBatchOp>, from: int)
    requires
        0 <= from <= operations.len(),
    ensures
        memory::batch_fault(timelines, operations, from) is None <==> forall|i: int|
            from <= i < operations.len() ==> memory::operation_fault(timelines, operations, i) is None
                && #[trigger] operations[i] == operations[i],
    decreases operations.len() - from,
{
    if from < operations.len() {
        lemma_batch_fault(timelines, operations, from + 1);
        assert(operations[from] == operations[from]);
    }
}

/// A batch of timelines is written exactly where each operation writes a record of the current
/// schema, over a timeline that stands at the revision that the operation expects, and no two
/// operations name the same timeline.
pub proof fn batches_are_written_where_every_revision_is_met(
    timelines: Timelines,
    operations: Seq<TimelineBatchOp>,
)
    ensures
        memory::batch_fault(timelines, operations, 0) is None <==> {
            &&& forall|i: int|
                0 <= i < operations.len() ==> {
                    let operation = #[trigger] operations[i];
                    &&& operation.record.schema_version == CURRENT_METADATA_SCHEMA_VERSION
                    &&& timelines.contains_key(operation.timeline_key@)
                    &&& timelines[operation.timeline_key@].1 == operation.previous_revision
                }
            &&& forall|i: int, j: int|
                0 <= i < j < operations.len() ==> (#[trigger] operations[i]).timeline_key@ != (
                #[trigger] operations[j]).timeline_key@
        },
{
    lemma_batch_fault(timelines, operations, 0);
    if memory::batch_fault(timelines, operations, 0) is None {
        assert forall|i: int, j: int| 0 <= i < j < operations.len() implies (
        #[trigger] operations[i]).timeline_key@ != (#[trigger] operations[j]).timeline_key@ by {
            assert(memory::operation_fault(timelines, operations, j) is None);
            if operations[i].timeline_key@ == operations[j].timeline_key@ {
                assert(memory::named_before(operations, j));
            }
        }
        assert forall|i: int| 0 <= i < operations.len() implies {
            let operation = #[trigger] operations[i];
            &&& operation.record.schema_version == CURRENT_METADATA_SCHEMA_VERSION
            &&& timelines.contains_key(operation.timeline_key@)
            &&& timelines[operation.timeline_key@].1 == operation.previous_revision
        } by {
            assert(memory::operation_fault(timelines, operations, i) is None);
        }
    } else {
        let i = choose|i: int|
            0 <= i < operations.len() && !(memory::operation_fault(timelines, operations, i)
                is None && #[trigger] operations[i] == operations[i]);
        if memory::named_before(operations, i) {
            let k = choose|k: int|
                0 <= k < i && (#[trigger] operations[k]).timeline_key@
                    == operations[i].timeline_key@;
            assert(operations[k].timeline_key@ == operations[i].timeline_key@);
        }
    }
}

/// A batch of timelines writes each of its records under its timeline, one revision on, and leaves
/// all others as they are.
pub proof fn batches_write_their_records(
    timelines: Timelines,
    operations: Seq<TimelineBatchOp>,
    n: int,
    key: Seq<char>,
)
    requires
        0 <= n <= operations.len(),
        forall|i: int, j: int|
            0 <= i < j < operations.len() ==> (#[trigger] operations[i]).timeline_key@ != (
            #[trigger] operations[j]).timeline_key@,
        forall|i: int|
            0 <= i < operations.len() ==> (#[trigger] operations[i]).previous_revision < u64::MAX,
    ensures
        ({
            let after = memory::after_operations(timelines, operations, n);
            &&& forall|i: int|
                0 <= i < n && (#[trigger] operations[i]).timeline_key@ == key
                    ==> after.contains_key(key) && after[key].0 == operations[i].record@
                    && after[key].1 == operations[i].previous_revision + 1
            &&& (forall|i: int| 0 <= i < n ==> (#[trigger] operations[i]).timeline_key@ != key)
                ==> after.contains_key(key) == timelines.contains_key(key) && (
            timelines.contains_key(key) ==> after[key] == timelines[key])
        }),
        memory::new_revisions(operations).len() == operations.len(),
        forall|i: int|
            0 <= i < operations.len() ==> #[trigger] memory::new_revisions(operations)[i]
                == operations[i].previous_revision + 1,
    decreases n,
{
    if n > 0 {
        batches_write_their_records(timelines, operations, n - 1, key);
        let last = operations[n - 1];
        if last.timeline_key@ == key {
            assert forall|i: int|
                0 <= i < n && (#[trigger] operations[i]).timeline_key@ == key implies i == n - 1 by {
                if i < n - 1 {
                    assert(operations[i].timeline_key@ != operations[n - 1].timeline_key@);
                }
            }
        }
    }
}

/// A batch announces the routes that it changes, in the order of its operations, and no others.
pub proof fn batches_announce_the_routes_that_change(
    timelines: Timelines,
    operations: Seq<TimelineBatchOp>,
    n: int,
)
    requires
        0 <= n <= operations.len(),
    ensures
        memory::updates_of_operations(timelines, operations, n) == operations.take(n).filter(
            |operation: TimelineBatchOp|
                timelines[operation.timeline_key@].0.route != operation.record.route@,
        ).map_values(|operation: TimelineBatchOp| operation.record.route),
    decreases n,
{
    reveal(Seq::filter);
    let changes = |operation: TimelineBatchOp|
        timelines[operation.timeline_key@].0.route != operation.record.route@;
    let route = |operation: TimelineBatchOp| operation.record.route;
    if n == 0 {
        assert(memory::updates_of_operations(timelines, operations, n) =~= operations.take(
            n,
        ).filter(changes).map_values(route));
    } else {
        batches_announce_the_routes_that_change(timelines, operations, n - 1);
        assert(operations.take(n).drop_last() =~= operations.take(n - 1));
        assert(operations.take(n).last() == operations[n - 1]);
        assert(memory::updates_of_operations(timelines, operations, n) =~= operations.take(
            n,
        ).filter(changes).map_values(route));
    }
}

proof fn lemma_generator_batch_fault(
    generators: Generators,
    operations: Seq<GeneratorBatchOp>,
    from: int,
)
    requires
        0 <= from <= operations.len(),
    ensures
        memory_generators::generator_batch_fault(generators, operations, from) is None
            <==> forall|i: int|
            from <= i < operations.len() ==> {
                &&& !memory_generators::generator_named_before(operations, i)
                &&& generators.contains_key((#[trigger] operations[i]).generator_id)
                &&& generators[operations[i].generator_id].1 == operations[i].previous_revision
            },
    decreases operations.len() - from,
{
    if from < operations.len() {
        lemma_generator_batch_fault(generators, operations, from + 1);
        assert(operations[from] == operations[from]);
    }
}

/// A batch of generators is written exactly where every one stands at the revision that is expected
/// of it and none is named twice.
pub proof fn generator_batches_are_written_where_every_revision_is_met(
    generators: Generators,
    operations: Seq<GeneratorBatchOp>,
)
    ensures
        memory_generators::generator_batch_fault(generators, operations, 0) is None <==> {
            &&& forall|i: int|
                0 <= i < operations.len() ==> generators.contains_key(
                    (#[trigger] operations[i]).generator_id,
                ) && generators[operations[i].generator_id].1 == operations[i].previous_revision
            &&& forall|i: int, j: int|
                0 <= i < j < operations.len() ==> (#[trigger] operations[i]).generator_id != (
                #[trigger] operations[j]).generator_id
        },
{
    lemma_generator_batch_fault(generators, operations, 0);
    if memory_generators::generator_batch_fault(generators, operations, 0) is None {
        assert forall|i: int, j: int| 0 <= i < j < operations.len() implies (
        #[trigger] operations[i]).generator_id != (#[trigger] operations[j]).generator_id by {
            if operations[i].generator_id == operations[j].generator_id {
                assert(memory_generators::generator_named_before(operations, j));
            }
        }
    } else {
        let i = choose|i: int|
            0 <= i < operations.len() && !{
                &&& !memory_generators::generator_named_before(operations, i)
                &&& generators.contains_key((#[trigger] operations[i]).generator_id)
                &&& generators[operations[i].generator_id].1 == operations[i].previous_revision
            };
        if memory_generators::generator_named_before(operations, i) {
            let k = choose|k: int|
                0 <= k < i && (#[trigger] operations[k]).generator_id
                    == operations[i].generator_id;
            assert(operations[k].generator_id == operations[i].generator_id);
        }
    }
}

/// A batch of generators writes each of its records under its generator, one revision on, and leaves
/// all others as they are.
pub proof fn generator_batches_write_their_records(
    generators: Generators,
    operations: Seq<GeneratorBatchOp>,
    n: int,
    id: u32,
)
    requires
        0 <= n <= operations.len(),
        forall|i: int, j: int|
            0 <= i < j < operations.len() ==> (#[trigger] operations[i]).generator_id != (
            #[trigger] operations[j]).generator_id,
        forall|i: int|
            0 <= i < operations.len() ==> (#[trigger] operations[i]).previous_revision < u64::MAX,
    ensures
        ({
            let after = memory_generators::generators_after(generators, operations, n);
            &&& forall|i: int|
                0 <= i < n && (#[trigger] operations[i]).generator_id == id ==> after.contains_key(id)
                    && after[id].0 == operations[i].record@ && after[id].1
                    == operations[i].previous_revision + 1
            &&& (forall|i: int| 0 <= i < n ==> (#[trigger] operations[i]).generator_id != id)
                ==> after.contains_key(id) == generators.contains_key(id) && (
            generators.contains_key(id) ==> after[id] == generators[id])
        }),
        memory_generators::new_generator_revisions(operations).len() == operations.len(),
        forall|i: int|
            0 <= i < operations.len()
                ==> #[trigger] memory_generators::new_generator_revisions(operations)[i]
                == operations[i].previous_revision + 1,
    decreases n,
{
    if n > 0 {
        generator_batches_write_their_records(generators, operations, n - 1, id);
        let last = operations[n - 1];
        if last.generator_id == id {
            assert forall|i: int|
                0 <= i < n && (#[trigger] operations[i]).generator_id == id implies i == n - 1 by {
                if i < n - 1 {
                    assert(operations[i].generator_id != operations[n - 1].generator_id);
                }
            }
        }
    }
}

/// A page lists timelines past the cursor, rising by their keys, as many as it may hold. A timeline
/// past the cursor that is not in it comes after all that are, and then the page is full and names
/// its last key to go on from.
pub proof fn pages_list_timelines_in_order(
    timelines: Timelines,
    cursor: Option<Seq<char>>,
    limit: usize,
    window: Seq<Seq<char>>,
    page: TimelineRecordListPage,
    key: Seq<char>,
)
    requires
        0 < limit < usize::MAX,
        memory::is_page(timelines, cursor, limit, window, Ok(page)),
        forall|k: Seq<char>| #[trigger]
            timelines.contains_key(k) ==> timelines[k].0.route.timeline_key == k,
        timelines.contains_key(key),
        cursor matches Some(start) ==> text::text_before(start, key),
    ensures
        page.records@.len() <= limit,
        forall|i: int, j: int|
            0 <= i < j < page.records@.len() ==> text::text_before(
                (#[trigger] page.records@[i]).route.timeline_key@,
                (#[trigger] page.records@[j]).route.timeline_key@,
            ),
        forall|i: int|
            0 <= i < page.records@.len() ==> {
                let listed = (#[trigger] page.records@[i]).route.timeline_key@;
                &&& timelines.contains_key(listed) && timelines[listed].0 == page.records@[i]@
                &&& cursor matches Some(start) ==> text::text_before(start, listed)
            },
        (exists|i: int|
            0 <= i < page.records@.len() && (#[trigger] page.records@[i]).route.timeline_key@
                == key) || (page.records@.len() == limit && text::text_before(
            page.records@.last().route.timeline_key@,
            key,
        ) && (page.next_start_after_timeline_key matches Some(next) && next@
            == page.records@.last().route.timeline_key@)),
        page.next_start_after_timeline_key is None ==> exists|i: int|
            0 <= i < page.records@.len() && (#[trigger] page.records@[i]).route.timeline_key@
                == key,
{
    let shown = page.records@.len() as int;
    assert forall|i: int| 0 <= i < shown implies (
    #[trigger] page.records@[i]).route.timeline_key@ == window[i] by {
        assert(timelines.dom().contains(window[i]));
        assert(page.records@[i]@ == timelines[window[i]].0);
    }
    assert forall|i: int| 0 <= i < shown implies {
        let listed = (#[trigger] page.records@[i]).route.timeline_key@;
        &&& timelines.contains_key(listed) && timelines[listed].0 == page.records@[i]@
        &&& cursor matches Some(start) ==> text::text_before(start, listed)
    } by {
        assert(timelines.dom().contains(window[i]) && windows::after(cursor, window[i]));
    }
    assert(timelines.dom().contains(key) && windows::after(cursor, key));
    if window.contains(key) {
        let k = choose|k: int| 0 <= k < window.len() && window[k] == key;
        if k < shown {
            assert(page.records@[k].route.timeline_key@ == key);
        } else {
            assert(text::text_before(window[limit - 1], window[k]));
            assert(page.records@[limit - 1].route.timeline_key@ == window[limit - 1]);
            assert(timelines.dom().contains(window[limit - 1]));
        }
    } else {
        assert(window.len() == limit + 1);
        assert(text::text_before(window[limit - 1], key));
        assert(page.records@[limit - 1].route.timeline_key@ == window[limit - 1]);
        assert(timelines.dom().contains(window[limit - 1]));
    }
}

/// A request may be cleaned up once it is completed and was last touched before the time, not at it
/// and not after it.
pub proof fn completed_requests_are_cleaned_up_by_age(
    record: RequestRecordView,
    older_than_ms: u64,
    later_ms: u64,
)
    ensures
        memory_requests::prunable(record, older_than_ms) <==> record.state
            == RequestRecordState::Completed && record.updated_at_ms < older_than_ms,
        memory_requests::prunable(record, older_than_ms) && older_than_ms <= later_ms
            ==> memory_requests::prunable(record, later_ms),
        !memory_requests::prunable(record, record.updated_at_ms),
{
}

/// The keys of the requests that may be cleaned up.
pub open spec fn due(requests: Requests, older_than_ms: u64) -> Set<Seq<char>> {
    Set::new(
        |key: Seq<char>|
            requests.contains_key(key) && requests[key].0.state == RequestRecordState::Completed
                && requests[key].0.updated_at_ms < older_than_ms,
    )
}

proof fn lemma_due(requests: Requests, older_than_ms: u64)
    requires
        requests.dom().finite(),
    ensures
        due(requests, older_than_ms).finite(),
{
    vstd::set_lib::lemma_len_subset(due(requests, older_than_ms), requests.dom());
}

proof fn lemma_removed(requests: Requests, key: Seq<char>, older_than_ms: u64)
    requires
        requests.dom().finite(),
    ensures
        requests.remove(key).dom().finite(),
        due(requests, older_than_ms).contains(key) ==> due(
            requests.remove(key),
            older_than_ms,
        ).len() == due(requests, older_than_ms).len() - 1,
        !due(requests, older_than_ms).contains(key) ==> due(requests.remove(key), older_than_ms)
            == due(requests, older_than_ms),
{
    lemma_due(requests, older_than_ms);
    assert(due(requests.remove(key), older_than_ms) =~= due(requests, older_than_ms).remove(key));
}

proof fn lemma_entries_counted(
    start: PruneProgress,
    entries: Seq<Seq<char>>,
    n: int,
    older_than_ms: u64,
    limit: int,
)
    requires
        0 <= n,
        start.requests.dom().finite(),
        start.pruned <= limit,
    ensures
        ({
            let after = memory_requests::prune_entries(start, entries, n, older_than_ms, limit);
            &&& after.requests.dom().finite()
            &&& after.pruned + due(after.requests, older_than_ms).len() == start.pruned + due(
                start.requests,
                older_than_ms,
            ).len()
            &&& after.pruned <= limit
            &&& forall|key: Seq<char>|
                !due(start.requests, older_than_ms).contains(key) ==> #[trigger] after.requests.contains_key(
                    key,
                ) == start.requests.contains_key(key)
            &&& after.requests.submap_of(start.requests)
        }),
    decreases n,
{
    if n > 0 {
        lemma_entries_counted(start, entries, n - 1, older_than_ms, limit);
        let before = memory_requests::prune_entries(start, entries, n - 1, older_than_ms, limit);
        let request = before.index[entries[n - 1]];
        lemma_removed(before.requests, request, older_than_ms);
        if before.pruned < limit && before.requests.contains_key(request)
            && memory_requests::prunable(before.requests[request].0, older_than_ms) {
            assert(due(before.requests, older_than_ms).contains(request));
            assert(before.requests.submap_of(start.requests));
            assert(start.requests.dom().contains(request));
            assert(due(start.requests, older_than_ms).contains(request));
        }
    }
}

proof fn lemma_sweep_counted(requests: Requests, swept: Seq<Seq<char>>, older_than_ms: u64)
    requires
        requests.dom().finite(),
        swept.no_duplicates(),
        forall|i: int|
            0 <= i < swept.len() ==> due(requests, older_than_ms).contains(#[trigger] swept[i]),
    ensures
        due(requests.remove_keys(swept.to_set()), older_than_ms).len() == due(
            requests,
            older_than_ms,
        ).len() - swept.len(),
    decreases swept.len(),
{
    if swept.len() == 0 {
        assert(requests.remove_keys(swept.to_set()) =~= requests);
    } else {
        let less = swept.drop_last();
        let last = swept.last();
        assert forall|i: int| 0 <= i < less.len() implies due(requests, older_than_ms).contains(
            #[trigger] less[i],
        ) by {
            assert(less[i] == swept[i]);
        }
        lemma_sweep_counted(requests, less, older_than_ms);
        let before = requests.remove_keys(less.to_set());
        vstd::set_lib::lemma_len_subset(before.dom(), requests.dom());
        assert(swept.to_set() =~= less.to_set().insert(last)) by {
            assert forall|key: Seq<char>| swept.contains(key) <==> less.contains(key) || key
                == last by {
                if swept.contains(key) {
                    let k = choose|k: int| 0 <= k < swept.len() && swept[k] == key;
                    if k < less.len() {
                        assert(less[k] == key);
                    }
                }
                if less.contains(key) {
                    let k = choose|k: int| 0 <= k < less.len() && less[k] == key;
                    assert(swept[k] == key);
                }
                assert(swept[swept.len() - 1] == last);
            }
        }
        assert(requests.remove_keys(swept.to_set()) =~= before.remove(last));
        assert(!less.contains(last)) by {
            if less.contains(last) {
                let k = choose|k: int| 0 <= k < less.len() && less[k] == last;
                assert(swept[k] == swept[swept.len() - 1]);
            }
        }
        assert(due(requests, older_than_ms).contains(swept[swept.len() - 1]));
        assert(due(before, older_than_ms).contains(last));
        lemma_removed(before, last, older_than_ms);
    }
}

/// A cleanup deletes as many requests as it may, or all that are due where they are fewer, and says
/// how many; the requests that are not due stay.
pub proof fn cleanups_delete_what_is_due(
    before: PruneProgress,
    entries: Seq<Seq<char>>,
    swept: Seq<Seq<char>>,
    older_than_ms: u64,
    limit: int,
    after: PruneProgress,
)
    requires
        before.pruned == 0,
        0 <= limit,
        before.requests.dom().finite(),
        memory_requests::prunes(before, entries, swept, older_than_ms, limit, after),
    ensures
        after.pruned == if due(before.requests, older_than_ms).len() < limit {
            due(before.requests, older_than_ms).len() as int
        } else {
            limit
        },
        due(after.requests, older_than_ms).len() == due(before.requests, older_than_ms).len()
            - after.pruned,
        forall|key: Seq<char>|
            !due(before.requests, older_than_ms).contains(key)
                ==> #[trigger] after.requests.contains_key(key) == before.requests.contains_key(key)
                && (before.requests.contains_key(key) ==> after.requests[key]
                == before.requests[key]),
{
    let n = entries.len() as int;
    let indexed = memory_requests::prune_entries(before, entries, n, older_than_ms, limit);
    lemma_entries_counted(before, entries, n, older_than_ms, limit);
    lemma_sweep_counted(indexed.requests, swept, older_than_ms);
    if after.pruned < limit {
        assert forall|key: Seq<char>| !due(after.requests, older_than_ms).contains(key) by {
            if due(after.requests, older_than_ms).contains(key) {
                assert(indexed.requests.contains_key(key));
                assert(memory_requests::prunable(indexed.requests[key].0, older_than_ms));
                assert(swept.contains(key));
                assert(swept.to_set().contains(key));
            }
        }
        assert(due(after.requests, older_than_ms) =~= Set::<Seq<char>>::empty());
    }
    assert forall|key: Seq<char>|
        !due(before.requests, older_than_ms).contains(
            key,
        ) implies #[trigger] after.requests.contains_key(key) == before.requests.contains_key(key)
        && (before.requests.contains_key(key) ==> after.requests[key]
        == before.requests[key]) by {
        assert(indexed.requests.contains_key(key) == before.requests.contains_key(key));
        if indexed.requests.contains_key(key) {
            assert(indexed.requests.dom().contains(key));
            assert(indexed.requests[key] == before.requests[key]);
            if swept.contains(key) {
                let k = choose|k: int| 0 <= k < swept.len() && swept[k] == key;
                assert(memory_requests::prunable(indexed.requests[swept[k]].0, older_than_ms));
                assert(due(before.requests, older_than_ms).contains(key));
            }
        }
    }
}

/// A page of routes and states shows the same timelines in the same order: each with its route and
/// state as it stands, past the cursor, rising by the keys, as many as it may hold; and it names its
/// last key exactly where more follow.
pub proof fn filter_pages_list_timelines_in_order(
    timelines: Timelines,
    cursor: Option<Seq<char>>,
    limit: usize,
    window: Seq<Seq<char>>,
    page: TimelineFilterRecordListPage,
    key: Seq<char>,
)
    requires
        0 < limit < usize::MAX,
        memory::is_filter_page(timelines, cursor, limit, window, Ok(page)),
        forall|k: Seq<char>| #[trigger]
            timelines.contains_key(k) ==> timelines[k].0.route.timeline_key == k,
        timelines.contains_key(key),
        cursor matches Some(start) ==> text::text_before(start, key),
    ensures
        page.records@.len() <= limit,
        forall|i: int, j: int|
            0 <= i < j < page.records@.len() ==> text::text_before(
                (#[trigger] page.records@[i]).route.timeline_key@,
                (#[trigger] page.records@[j]).route.timeline_key@,
            ),
        forall|i: int|
            0 <= i < page.records@.len() ==> {
                let listed = (#[trigger] page.records@[i]).route.timeline_key@;
                &&& timelines.contains_key(listed)
                &&& timelines[listed].0.route == page.records@[i].route@
                &&& timelines[listed].0.state == page.records@[i].state
                &&& timelines[listed].0.schema_version == page.records@[i].schema_version
                &&& timelines[listed].0.schema_version >= 1
                &&& cursor matches Some(start) ==> text::text_before(start, listed)
            },
        page.next_start_after_timeline_key is None ==> exists|i: int|
            0 <= i < page.records@.len() && (#[trigger] page.records@[i]).route.timeline_key@
                == key,
        page.next_start_after_timeline_key matches Some(next) ==> page.records@.len() == limit
            && next@ == page.records@.last().route.timeline_key@,
{
    let shown = page.records@.len() as int;
    assert forall|i: int| 0 <= i < shown implies (
    #[trigger] page.records@[i]).route.timeline_key@ == window[i] by {
        assert(timelines.dom().contains(window[i]));
        assert(memory::is_filter_of(page.records@[i], timelines[window[i]].0));
    }
    assert forall|i: int| 0 <= i < shown implies {
        let listed = (#[trigger] page.records@[i]).route.timeline_key@;
        &&& timelines.contains_key(listed)
        &&& timelines[listed].0.route == page.records@[i].route@
        &&& timelines[listed].0.state == page.records@[i].state
        &&& timelines[listed].0.schema_version == page.records@[i].schema_version
        &&& timelines[listed].0.schema_version >= 1
        &&& cursor matches Some(start) ==> text::text_before(start, listed)
    } by {
        assert(timelines.dom().contains(window[i]) && windows::after(cursor, window[i]));
        assert(memory::is_filter_of(page.records@[i], timelines[window[i]].0));
        assert(memory::readable_schema(timelines[window[i]].0));
    }
    assert(timelines.dom().contains(key) && windows::after(cursor, key));
    if page.next_start_after_timeline_key is None {
        assert(window.contains(key));
        let k = choose|k: int| 0 <= k < window.len() && window[k] == key;
        assert(page.records@[k].route.timeline_key@ == key);
    } else {
        assert(page.records@[limit - 1].route.timeline_key@ == window[limit - 1]);
        assert(timelines.dom().contains(window[limit - 1]));
    }
}

/// A page fails exactly where a timeline that it would look at has another schema than the first
/// one; a page of routes and states only where it has an older one.
pub proof fn pages_fail_at_records_that_cannot_be_read(
    timelines: Timelines,
    cursor: Option<Seq<char>>,
    limit: usize,
    window: Seq<Seq<char>>,
    result: Result<TimelineRecordListPage, TsoError>,
    filters: Result<TimelineFilterRecordListPage, TsoError>,
)
    requires
        memory::is_page(timelines, cursor, limit, window, result),
        memory::is_filter_page(timelines, cursor, limit, window, filters),
    ensures
        result is Err <==> exists|i: int|
            0 <= i < window.len() && timelines[#[trigger] window[i]].0.schema_version != 1,
        filters is Err <==> exists|i: int|
            0 <= i < window.len() && timelines[#[trigger] window[i]].0.schema_version < 1,
        result is Err ==> result->Err_0 is Internal,
        filters is Err ==> filters->Err_0 is Internal,
{
    if result is Err {
        let i = choose|i: int|
            0 <= i < window.len() && !memory::current_schema(timelines[#[trigger] window[i]].0);
        assert(timelines[window[i]].0.schema_version != 1);
    } else {
        assert forall|i: int| 0 <= i < window.len() implies timelines[
            #[trigger] window[i]
        ].0.schema_version == 1 by {
            assert(memory::current_schema(timelines[window[i]].0));
        }
    }
    if filters is Err {
        let i = choose|i: int|
            0 <= i < window.len() && !memory::readable_schema(timelines[#[trigger] window[i]].0);
        assert(timelines[window[i]].0.schema_version < 1);
    } else {
        assert forall|i: int| 0 <= i < window.len() implies timelines[
            #[trigger] window[i]
        ].0.schema_version >= 1 by {
            assert(memory::readable_schema(timelines[window[i]].0));
        }
    }
}

/// A page names a key to go on from only where a timeline is left to list behind it.
pub proof fn pages_go_on_where_more_is_left(
    timelines: Timelines,
    cursor: Option<Seq<char>>,
    limit: usize,
    window: Seq<Seq<char>>,
    page: TimelineRecordListPage,
    filters: TimelineFilterRecordListPage,
)
    requires
        0 < limit,
        memory::is_page(timelines, cursor, limit, window, Ok(page)),
        memory::is_filter_page(timelines, cursor, limit, window, Ok(filters)),
        forall|k: Seq<char>| #[trigger]
            timelines.contains_key(k) ==> timelines[k].0.route.timeline_key == k,
    ensures
        page.next_start_after_timeline_key matches Some(next) ==> exists|k: Seq<char>| #[trigger]
            timelines.contains_key(k) && text::text_before(next@, k),
        filters.next_start_after_timeline_key matches Some(next) ==> exists|k: Seq<char>|
            #[trigger] timelines.contains_key(k) && text::text_before(next@, k),
        page.next_start_after_timeline_key is Some <==> filters.next_start_after_timeline_key
            is Some,
{
    if window.len() > limit {
        let last = window[limit - 1];
        let left = window[limit as int];
        assert(timelines.dom().contains(last));
        assert(timelines.dom().contains(left));
        assert(timelines.contains_key(last));
        assert(timelines.contains_key(left) && text::text_before(last, left));
    }
}

} // verus!
