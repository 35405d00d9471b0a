//! What every operation on the requests of the in-memory store keeps.

use vstd::prelude::*;

use crate::metadata::key_laws;
use crate::metadata::memory_requests;
use crate::metadata::memory_requests::{CleanupIndex, PruneProgress, Requests};
use crate::metadata::types::{RequestRecordState, RequestRecordView};
use crate::metadata::windows;
use crate::text;

verus! {

/// The request is completed.
pub open spec fn completed(requests: Requests, key: Seq<char>) -> bool {
    requests.contains_key(key) && requests[key].0.state == RequestRecordState::Completed
}

/// The entry is the one of this completed request.
pub open spec fn leads_to(
    requests: Requests,
    index: CleanupIndex,
    entry: Seq<char>,
    timeline: Seq<char>,
    id: Seq<char>,
) -> bool {
    let key = memory_requests::request_at(timeline, id);
    &&& index[entry] == key
    &&& completed(requests, key)
    &&& entry == memory_requests::index_at(requests[key].0, timeline, id)
}

/// A completed request has its entry.
pub open spec fn has_entry(
    requests: Requests,
    index: CleanupIndex,
    timeline: Seq<char>,
    id: Seq<char>,
) -> bool {
    let key = memory_requests::request_at(timeline, id);
    completed(requests, key) ==> {
        let entry = memory_requests::index_at(requests[key].0, timeline, id);
        index.contains_key(entry) && index[entry] == key
    }
}

/// The index holds one entry for each completed request, and nothing else.
pub open spec fn index_is_exact(requests: Requests, index: CleanupIndex) -> bool {
    &&& forall|timeline: Seq<char>, id: Seq<char>| #[trigger]
        has_entry(requests, index, timeline, id)
    &&& forall|entry: Seq<char>| #[trigger]
        index.contains_key(entry) ==> exists|timeline: Seq<char>, id: Seq<char>|
            #[trigger] leads_to(requests, index, entry, timeline, id)
}

/// An empty store has an exact index.
pub proof fn empty_indexes_are_exact()
    ensures
        index_is_exact(
            Map::<Seq<char>, (RequestRecordView, u64)>::empty(),
            Map::<Seq<char>, Seq<char>>::empty(),
        ),
{
}

/// Deleting a request keeps the index exact.
pub proof fn deletions_keep_the_index_exact(
    requests: Requests,
    index: CleanupIndex,
    timeline: Seq<char>,
    id: Seq<char>,
)
    requires
        index_is_exact(requests, index),
        requests.contains_key(memory_requests::request_at(timeline, id)),
    ensures
        index_is_exact(
            requests.remove(memory_requests::request_at(timeline, id)),
            memory_requests::index_without(
                index,
                requests[memory_requests::request_at(timeline, id)].0,
                timeline,
                id,
            ),
        ),
{
    let key = memory_requests::request_at(timeline, id);
    let record = requests[key].0;
    let gone = memory_requests::index_at(record, timeline, id);
    let after = requests.remove(key);
    let left = memory_requests::index_without(index, record, timeline, id);
    assert forall|t: Seq<char>, c: Seq<char>| #[trigger] has_entry(after, left, t, c) by {
        assert(has_entry(requests, index, t, c));
        let other = memory_requests::request_at(t, c);
        if completed(after, other) {
            let entry = memory_requests::index_at(after[other].0, t, c);
            if entry == gone {
                key_laws::cleanup_index_keys_never_collide(
                    ""@,
                    after[other].0.updated_at_ms,
                    t,
                    c,
                    record.updated_at_ms,
                    timeline,
                    id,
                );
            }
        }
    }
    assert forall|entry: Seq<char>| #[trigger] left.contains_key(entry) implies exists|
        t: Seq<char>,
        c: Seq<char>,
    | #[trigger] leads_to(after, left, entry, t, c) by {
        assert(index.contains_key(entry));
        let (t, c) = choose|t: Seq<char>, c: Seq<char>|
            #[trigger] leads_to(requests, index, entry, t, c);
        if memory_requests::request_at(t, c) == key {
            key_laws::request_keys_never_collide(""@, t, c, timeline, id);
        }
        assert(leads_to(after, left, entry, t, c));
    }
}

/// Writing a request that was not there keeps the index exact.
pub proof fn creations_keep_the_index_exact(
    requests: Requests,
    index: CleanupIndex,
    timeline: Seq<char>,
    id: Seq<char>,
    record: RequestRecordView,
    revision: u64,
)
    requires
        index_is_exact(requests, index),
        !requests.contains_key(memory_requests::request_at(timeline, id)),
    ensures
        index_is_exact(
            requests.insert(memory_requests::request_at(timeline, id), (record, revision)),
            memory_requests::index_with(index, record, timeline, id),
        ),
{
    let key = memory_requests::request_at(timeline, id);
    let new = memory_requests::index_at(record, timeline, id);
    let after = requests.insert(key, (record, revision));
    let grown = memory_requests::index_with(index, record, timeline, id);
    assert forall|t: Seq<char>, c: Seq<char>| #[trigger] has_entry(after, grown, t, c) by {
        assert(has_entry(requests, index, t, c));
        let other = memory_requests::request_at(t, c);
        if completed(after, other) {
            if other == key {
                key_laws::request_keys_never_collide(""@, t, c, timeline, id);
            } else {
                let entry = memory_requests::index_at(after[other].0, t, c);
                if entry == new {
                    key_laws::cleanup_index_keys_never_collide(
                        ""@,
                        after[other].0.updated_at_ms,
                        t,
                        c,
                        record.updated_at_ms,
                        timeline,
                        id,
                    );
                }
            }
        }
    }
    assert forall|entry: Seq<char>| #[trigger] grown.contains_key(entry) implies exists|
        t: Seq<char>,
        c: Seq<char>,
    | #[trigger] leads_to(after, grown, entry, t, c) by {
        if record.state == RequestRecordState::Completed && entry == new {
            assert(leads_to(after, grown, entry, timeline, id));
        } else {
            assert(index.contains_key(entry));
            let (t, c) = choose|t: Seq<char>, c: Seq<char>|
                #[trigger] leads_to(requests, index, entry, t, c);
            assert(leads_to(after, grown, entry, t, c));
        }
    }
}

/// Writing a request in place of another keeps the index exact.
pub proof fn replacements_keep_the_index_exact(
    requests: Requests,
    index: CleanupIndex,
    timeline: Seq<char>,
    id: Seq<char>,
    record: RequestRecordView,
    revision: u64,
)
    requires
        index_is_exact(requests, index),
        requests.contains_key(memory_requests::request_at(timeline, id)),
    ensures
        index_is_exact(
            requests.insert(memory_requests::request_at(timeline, id), (record, revision)),
            memory_requests::index_with(
                memory_requests::index_without(
                    index,
                    requests[memory_requests::request_at(timeline, id)].0,
                    timeline,
                    id,
                ),
                record,
                timeline,
                id,
            ),
        ),
{
    let key = memory_requests::request_at(timeline, id);
    deletions_keep_the_index_exact(requests, index, timeline, id);
    creations_keep_the_index_exact(
        requests.remove(key),
        memory_requests::index_without(index, requests[key].0, timeline, id),
        timeline,
        id,
        record,
        revision,
    );
    assert(requests.remove(key).insert(key, (record, revision)) =~= requests.insert(
        key,
        (record, revision),
    ));
}

proof fn lemma_entries_keep_the_index_exact(
    start: PruneProgress,
    entries: Seq<Seq<char>>,
    n: int,
    older_than_ms: u64,
    limit: int,
)
    requires
        index_is_exact(start.requests, start.index),
        0 <= n <= entries.len(),
        windows::is_order_of(entries, memory_requests::due_entries(start.index, older_than_ms)),
    ensures
        ({
            let after = memory_requests::prune_entries(start, entries, n, older_than_ms, limit);
            &&& index_is_exact(after.requests, after.index)
            &&& forall|k: int|
                n <= k < entries.len() ==> after.index.contains_key(#[trigger] entries[k])
        }),
    decreases n,
{
    let due = memory_requests::due_entries(start.index, older_than_ms);
    if n == 0 {
        assert forall|k: int| 0 <= k < entries.len() implies start.index.contains_key(
            #[trigger] entries[k],
        ) by {
            assert(due.contains(entries[k]));
        }
    } else {
        lemma_entries_keep_the_index_exact(start, entries, n - 1, older_than_ms, limit);
        let before = memory_requests::prune_entries(start, entries, n - 1, older_than_ms, limit);
        if before.pruned < limit {
            let entry = entries[n - 1];
            assert(before.index.contains_key(entry));
            assert(due.contains(entry));
            let (timeline, id) = choose|timeline: Seq<char>, id: Seq<char>|
                #[trigger] leads_to(before.requests, before.index, entry, timeline, id);
            let key = memory_requests::request_at(timeline, id);
            key_laws::cleanup_index_is_ordered_by_age(
                ""@,
                before.requests[key].0.updated_at_ms,
                timeline,
                id,
                older_than_ms,
            );
            deletions_keep_the_index_exact(before.requests, before.index, timeline, id);
            assert forall|k: int| n <= k < entries.len() implies before.index.remove(
                entry,
            ).contains_key(#[trigger] entries[k]) by {
                text::text_order_is_total(entries[n - 1], entries[k], entry);
                assert(entries[n - 1] != entries[k]);
            }
        }
    }
}

/// Pruning keeps the index exact.
pub proof fn pruning_keeps_the_index_exact(
    before: PruneProgress,
    entries: Seq<Seq<char>>,
    swept: Seq<Seq<char>>,
    older_than_ms: u64,
    limit: int,
    after: PruneProgress,
)
    requires
        index_is_exact(before.requests, before.index),
        memory_requests::prunes(before, entries, swept, older_than_ms, limit, after),
    ensures
        index_is_exact(after.requests, after.index),
{
    lemma_entries_keep_the_index_exact(
        before,
        entries,
        entries.len() as int,
        older_than_ms,
        limit,
    );
    let middle = memory_requests::prune_entries(
        before,
        entries,
        entries.len() as int,
        older_than_ms,
        limit,
    );
    assert forall|t: Seq<char>, c: Seq<char>| #[trigger]
        has_entry(after.requests, after.index, t, c) by {
        assert(has_entry(middle.requests, middle.index, t, c));
        let key = memory_requests::request_at(t, c);
        if completed(after.requests, key) {
            assert(!swept.to_set().contains(key));
            assert(!swept.contains(key));
        }
    }
    assert forall|entry: Seq<char>| #[trigger] after.index.contains_key(entry) implies exists|
        t: Seq<char>,
        c: Seq<char>,
    | #[trigger] leads_to(after.requests, after.index, entry, t, c) by {
        assert(middle.index.contains_key(entry));
        let (t, c) = choose|t: Seq<char>, c: Seq<char>|
            #[trigger] leads_to(middle.requests, middle.index, entry, t, c);
        assert(!swept.contains(middle.index[entry]));
        assert(leads_to(after.requests, after.index, entry, t, c));
    }
}

} // verus!
