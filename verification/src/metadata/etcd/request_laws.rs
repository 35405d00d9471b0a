//! What holds of request records and their cleanup index in the store.

use vstd::prelude::*;
use vstd::utf8::*;

use crate::error::TsoError;
use crate::metadata::etcd::json;
use crate::metadata::etcd::json::Found;
use crate::metadata::etcd::prune;
use crate::metadata::etcd::request_index;
use crate::metadata::etcd::store;
use crate::metadata::etcd::store::StoreView;
use crate::metadata::etcd::txn;
use crate::metadata::etcd::txn::{
    CleanupIndexEntryView, OperationView, PayloadView, Transaction, TxnReply,
};
use crate::metadata::key_laws;
use crate::metadata::keys;
use crate::metadata::types::{RequestRecord, RequestRecordView};

verus! {

/// The key under which a note stands.
pub open spec fn note_key(prefix: Seq<char>, note: CleanupIndexEntryView) -> Seq<u8> {
    encode_utf8(
        keys::request_cleanup_index_key_text(
            prefix,
            note.updated_at_ms,
            note.timeline_key,
            note.client_request_id,
        ),
    )
}

/// The note of a record.
pub open spec fn note_of(
    timeline: Seq<char>,
    id: Seq<char>,
    record: RequestRecordView,
) -> CleanupIndexEntryView {
    CleanupIndexEntryView {
        timeline_key: timeline,
        client_request_id: id,
        updated_at_ms: record.updated_at_ms,
    }
}

/// A key holds a record that was written at a revision.
pub open spec fn written(
    store: StoreView,
    key: Seq<u8>,
    record: RequestRecordView,
    revision: i64,
) -> bool {
    store::holds(store, key, PayloadView::Request(record)) && store[key].mod_revision == revision
}

/// A record that is completed is noted for cleanup, since it was written.
pub open spec fn noted(
    store: StoreView,
    prefix: Seq<char>,
    timeline: Seq<char>,
    id: Seq<char>,
) -> bool {
    let key = request_index::record_key(prefix, timeline, id);
    store.contains_key(key) ==> (store[key].value matches PayloadView::Request(record) && (
    request_index::prunable_candidate(record) ==> {
        let note = note_key(prefix, note_of(timeline, id, record));
        &&& store::holds(store, note, PayloadView::CleanupIndex(note_of(timeline, id, record)))
        &&& store[note].mod_revision == store[key].mod_revision
    }))
}

/// Every completed record is noted for cleanup.
pub open spec fn all_noted(store: StoreView, prefix: Seq<char>) -> bool {
    forall|timeline: Seq<char>, id: Seq<char>| #[trigger] noted(store, prefix, timeline, id)
}

/// What changes a record: the record itself, the note of the one that stood there, and its own.
pub open spec fn changes(
    prefix: Seq<char>,
    timeline: Seq<char>,
    id: Seq<char>,
    previous: Option<RequestRecordView>,
    next: Option<RequestRecordView>,
) -> Seq<OperationView> {
    let key = request_index::record_key(prefix, timeline, id);
    let none = Seq::<OperationView>::empty();
    seq![
        match next {
            Some(record) => OperationView::Put {
                key,
                value: PayloadView::Request(record),
                lease: None,
            },
            None => OperationView::Delete { key },
        },
    ] + (match previous {
        Some(record) => request_index::index_deletes(prefix, timeline, id, record),
        None => none,
    }) + (match next {
        Some(record) => request_index::index_puts(prefix, timeline, id, record),
        None => none,
    })
}

/// The record has a note, under this key.
spec fn is_noted_under(
    prefix: Seq<char>,
    timeline: Seq<char>,
    id: Seq<char>,
    record: Option<RequestRecordView>,
    key: Seq<u8>,
) -> bool {
    record matches Some(there) && request_index::prunable_candidate(there) && key == note_key(
        prefix,
        note_of(timeline, id, there),
    )
}

proof fn lemma_records_and_notes_differ(
    prefix: Seq<char>,
    timeline: Seq<char>,
    id: Seq<char>,
    note: CleanupIndexEntryView,
)
    ensures
        request_index::record_key(prefix, timeline, id) != note_key(prefix, note),
{
    if request_index::record_key(prefix, timeline, id) == note_key(prefix, note) {
        key_laws::encodings_never_collide(
            keys::request_key_text(prefix, timeline, id),
            keys::request_cleanup_index_key_text(
                prefix,
                note.updated_at_ms,
                note.timeline_key,
                note.client_request_id,
            ),
        );
        key_laws::cleanup_index_is_apart_from_the_requests(
            prefix,
            timeline,
            id,
            note.updated_at_ms,
            note.timeline_key,
            note.client_request_id,
        );
    }
}

proof fn lemma_record_keys_differ(
    prefix: Seq<char>,
    timeline: Seq<char>,
    id: Seq<char>,
    other_timeline: Seq<char>,
    other_id: Seq<char>,
)
    requires
        timeline != other_timeline || id != other_id,
    ensures
        request_index::record_key(prefix, timeline, id) != request_index::record_key(
            prefix,
            other_timeline,
            other_id,
        ),
{
    if request_index::record_key(prefix, timeline, id) == request_index::record_key(
        prefix,
        other_timeline,
        other_id,
    ) {
        key_laws::encodings_never_collide(
            keys::request_key_text(prefix, timeline, id),
            keys::request_key_text(prefix, other_timeline, other_id),
        );
        key_laws::request_keys_never_collide(prefix, timeline, id, other_timeline, other_id);
    }
}

proof fn lemma_notes_differ(
    prefix: Seq<char>,
    a: CleanupIndexEntryView,
    b: CleanupIndexEntryView,
)
    requires
        note_key(prefix, a) == note_key(prefix, b),
    ensures
        a == b,
{
    key_laws::encodings_never_collide(
        keys::request_cleanup_index_key_text(
            prefix,
            a.updated_at_ms,
            a.timeline_key,
            a.client_request_id,
        ),
        keys::request_cleanup_index_key_text(
            prefix,
            b.updated_at_ms,
            b.timeline_key,
            b.client_request_id,
        ),
    );
    key_laws::cleanup_index_keys_never_collide(
        prefix,
        a.updated_at_ms,
        a.timeline_key,
        a.client_request_id,
        b.updated_at_ms,
        b.timeline_key,
        b.client_request_id,
    );
}

/// Changing a record changes what stands under its key and under those of its notes, and nothing
/// else.
proof fn lemma_changes_at(
    store: StoreView,
    prefix: Seq<char>,
    timeline: Seq<char>,
    id: Seq<char>,
    previous: Option<RequestRecordView>,
    next: Option<RequestRecordView>,
    revision: i64,
    key: Seq<u8>,
)
    ensures
        ({
            let after = store::after_operations(
                store,
                changes(prefix, timeline, id, previous, next),
                revision,
            );
            if key == request_index::record_key(prefix, timeline, id) {
                match next {
                    Some(record) => written(after, key, record, revision),
                    None => !after.contains_key(key),
                }
            } else if is_noted_under(prefix, timeline, id, next, key) {
                &&& store::holds(
                    after,
                    key,
                    PayloadView::CleanupIndex(note_of(timeline, id, next->Some_0)),
                )
                &&& after[key].mod_revision == revision
            } else if is_noted_under(prefix, timeline, id, previous, key) {
                !after.contains_key(key)
            } else {
                store::same_at(store, after, key)
            }
        }),
{
    let none = Seq::<OperationView>::empty();
    let all = changes(prefix, timeline, id, previous, next);
    let first = none.push(all[0]);
    store::lemma_last_operation(store, none, all[0], revision);
    let drops = match previous {
        Some(record) => request_index::index_deletes(prefix, timeline, id, record),
        None => none,
    };
    let puts = match next {
        Some(record) => request_index::index_puts(prefix, timeline, id, record),
        None => none,
    };
    let half = first + drops;
    if let Some(record) = previous {
        lemma_records_and_notes_differ(prefix, timeline, id, note_of(timeline, id, record));
    }
    if let Some(record) = next {
        lemma_records_and_notes_differ(prefix, timeline, id, note_of(timeline, id, record));
    }
    if drops.len() == 1 {
        assert(half =~= first.push(drops[0]));
        store::lemma_last_operation(store, first, drops[0], revision);
    } else {
        assert(half =~= first);
    }
    if puts.len() == 1 {
        assert(all =~= half.push(puts[0]));
        store::lemma_last_operation(store, half, puts[0], revision);
    } else {
        assert(all =~= half);
    }
}

/// Where nothing changes but one record and notes of its own, the others stay noted.
proof fn lemma_others_stay_noted(
    store: StoreView,
    after: StoreView,
    prefix: Seq<char>,
    timeline: Seq<char>,
    id: Seq<char>,
    other_timeline: Seq<char>,
    other_id: Seq<char>,
)
    requires
        timeline != other_timeline || id != other_id,
        noted(store, prefix, other_timeline, other_id),
        forall|key: Seq<u8>|
            (key != request_index::record_key(prefix, timeline, id) && forall|time: u64|
                key != #[trigger] note_key(
                    prefix,
                    CleanupIndexEntryView {
                        timeline_key: timeline,
                        client_request_id: id,
                        updated_at_ms: time,
                    },
                )) ==> #[trigger] store::same_at(store, after, key),
    ensures
        noted(after, prefix, other_timeline, other_id),
{
    let key = request_index::record_key(prefix, other_timeline, other_id);
    lemma_record_keys_differ(prefix, timeline, id, other_timeline, other_id);
    assert(store::same_at(store, after, key)) by {
        assert forall|time: u64|
            key != #[trigger] note_key(
                prefix,
                CleanupIndexEntryView {
                    timeline_key: timeline,
                    client_request_id: id,
                    updated_at_ms: time,
                },
            ) by {
            lemma_records_and_notes_differ(
                prefix,
                other_timeline,
                other_id,
                CleanupIndexEntryView {
                    timeline_key: timeline,
                    client_request_id: id,
                    updated_at_ms: time,
                },
            );
        }
    }
    if store.contains_key(key) {
        let own = note_of(other_timeline, other_id, store[key].value->Request_0);
        lemma_records_and_notes_differ(prefix, timeline, id, own);
        assert(store::same_at(store, after, note_key(prefix, own))) by {
            assert forall|time: u64|
                note_key(prefix, own) != #[trigger] note_key(
                    prefix,
                    CleanupIndexEntryView {
                        timeline_key: timeline,
                        client_request_id: id,
                        updated_at_ms: time,
                    },
                ) by {
                let note = CleanupIndexEntryView {
                    timeline_key: timeline,
                    client_request_id: id,
                    updated_at_ms: time,
                };
                if note_key(prefix, own) == note_key(prefix, note) {
                    lemma_notes_differ(prefix, own, note);
                }
            }
        }
    }
}

/// Changing a record, whatever stood there, keeps every completed record noted.
proof fn lemma_changes_keep_noted(
    store: StoreView,
    prefix: Seq<char>,
    timeline: Seq<char>,
    id: Seq<char>,
    previous: Option<RequestRecordView>,
    next: Option<RequestRecordView>,
    revision: i64,
)
    requires
        all_noted(store, prefix),
    ensures
        all_noted(
            store::after_operations(
                store,
                changes(prefix, timeline, id, previous, next),
                revision,
            ),
            prefix,
        ),
{
    let after = store::after_operations(
        store,
        changes(prefix, timeline, id, previous, next),
        revision,
    );
    let record_key = request_index::record_key(prefix, timeline, id);
    assert forall|key: Seq<u8>|
        (key != record_key && forall|time: u64|
            key != #[trigger] note_key(
                prefix,
                CleanupIndexEntryView {
                    timeline_key: timeline,
                    client_request_id: id,
                    updated_at_ms: time,
                },
            )) implies #[trigger] store::same_at(store, after, key) by {
        lemma_changes_at(store, prefix, timeline, id, previous, next, revision, key);
        if let Some(record) = previous {
            assert(key != note_key(prefix, note_of(timeline, id, record)));
        }
        if let Some(record) = next {
            assert(key != note_key(prefix, note_of(timeline, id, record)));
        }
    }
    assert forall|other_timeline: Seq<char>, other_id: Seq<char>| #[trigger]
        noted(after, prefix, other_timeline, other_id) by {
        assert(noted(store, prefix, other_timeline, other_id));
        if other_timeline == timeline && other_id == id {
            lemma_changes_at(store, prefix, timeline, id, previous, next, revision, record_key);
            if let Some(record) = next {
                let note = note_key(prefix, note_of(timeline, id, record));
                lemma_changes_at(store, prefix, timeline, id, previous, next, revision, note);
                lemma_records_and_notes_differ(
                    prefix,
                    timeline,
                    id,
                    note_of(timeline, id, record),
                );
            }
        } else {
            lemma_others_stay_noted(
                store,
                after,
                prefix,
                timeline,
                id,
                other_timeline,
                other_id,
            );
        }
    }
}

/// Creating a record keeps every completed record noted for cleanup.
pub proof fn creations_keep_requests_noted(
    prefix: Seq<char>,
    timeline: Seq<char>,
    id: Seq<char>,
    record: RequestRecordView,
    txn: Transaction,
    store: StoreView,
    revision: i64,
    after: StoreView,
    reply: TxnReply,
)
    requires
        all_noted(store, prefix),
        request_index::creates_request(txn, prefix, timeline, id, record),
        store::commits(store, txn@, revision, after, reply),
    ensures
        all_noted(after, prefix),
{
    assert(txn@.operations =~= changes(prefix, timeline, id, None, Some(record)));
    lemma_changes_keep_noted(store, prefix, timeline, id, None, Some(record), revision);
}

/// Replacing a record keeps every completed record noted for cleanup.
pub proof fn replacements_keep_requests_noted(
    prefix: Seq<char>,
    timeline: Seq<char>,
    id: Seq<char>,
    expected_revision: u64,
    previous: RequestRecordView,
    next: RequestRecordView,
    txn: Transaction,
    store: StoreView,
    revision: i64,
    after: StoreView,
    reply: TxnReply,
)
    requires
        all_noted(store, prefix),
        request_index::replaces_request(
            txn,
            prefix,
            timeline,
            id,
            expected_revision,
            previous,
            next,
        ),
        store::commits(store, txn@, revision, after, reply),
    ensures
        all_noted(after, prefix),
{
    assert(txn@.operations =~= changes(prefix, timeline, id, Some(previous), Some(next)));
    lemma_changes_keep_noted(store, prefix, timeline, id, Some(previous), Some(next), revision);
}

/// Deleting a record keeps every completed record noted for cleanup.
pub proof fn deletions_keep_requests_noted(
    prefix: Seq<char>,
    timeline: Seq<char>,
    id: Seq<char>,
    expected_revision: u64,
    previous: RequestRecordView,
    txn: Transaction,
    store: StoreView,
    revision: i64,
    after: StoreView,
    reply: TxnReply,
)
    requires
        all_noted(store, prefix),
        request_index::deletes_request(txn, prefix, timeline, id, expected_revision, previous),
        store::commits(store, txn@, revision, after, reply),
    ensures
        all_noted(after, prefix),
{
    assert(txn@.operations =~= changes(prefix, timeline, id, Some(previous), None));
    lemma_changes_keep_noted(store, prefix, timeline, id, Some(previous), None, revision);
}

/// The cleanup deletes a record that its index names only where the record is completed and old
/// enough, as it was seen; and every completed record stays noted.
pub proof fn cleanups_delete_old_completed_records(
    prefix: Seq<char>,
    note: CleanupIndexEntryView,
    older_than_ms: u64,
    record: RequestRecordView,
    record_revision: i64,
    note_revision: i64,
    txn: Transaction,
    earlier: StoreView,
    at: i64,
    store: StoreView,
    revision: i64,
    after: StoreView,
    reply: TxnReply,
)
    requires
        all_noted(store, prefix),
        store::well_formed(earlier),
        store::may_become(earlier, at, store),
        written(
            earlier,
            request_index::record_key(prefix, note.timeline_key, note.client_request_id),
            record,
            record_revision,
        ),
        request_index::prunable(record, older_than_ms),
        prune::drops_record_and_index(
            txn,
            request_index::record_key(prefix, note.timeline_key, note.client_request_id),
            record_revision,
            note_key(prefix, note),
            note_revision,
        ),
        store::commits(store, txn@, revision, after, reply),
    ensures
        reply.succeeded ==> written(
            store,
            request_index::record_key(prefix, note.timeline_key, note.client_request_id),
            record,
            record_revision,
        ),
        all_noted(after, prefix),
{
    let timeline = note.timeline_key;
    let id = note.client_request_id;
    let record_key = request_index::record_key(prefix, timeline, id);
    if store::meets_all(store, txn@.conditions) {
        assert(store::meets(store, txn@.conditions[0]));
        let none = Seq::<OperationView>::empty();
        let first = none.push(txn@.operations[0]);
        assert(txn@.operations =~= first.push(txn@.operations[1]));
        store::lemma_last_operation(store, none, txn@.operations[0], revision);
        store::lemma_last_operation(store, first, txn@.operations[1], revision);
        lemma_records_and_notes_differ(prefix, timeline, id, note);
        lemma_dropping_keeps_noted(store, after, prefix, note);
    }
}

/// Where a record is gone, and perhaps a note of it too, every completed record is still noted.
proof fn lemma_dropping_keeps_noted(
    store: StoreView,
    after: StoreView,
    prefix: Seq<char>,
    note: CleanupIndexEntryView,
)
    requires
        all_noted(store, prefix),
        !after.contains_key(
            request_index::record_key(prefix, note.timeline_key, note.client_request_id),
        ),
        forall|key: Seq<u8>|
            key != request_index::record_key(prefix, note.timeline_key, note.client_request_id)
                && key != note_key(prefix, note) ==> #[trigger] store::same_at(store, after, key),
    ensures
        all_noted(after, prefix),
{
    let timeline = note.timeline_key;
    let id = note.client_request_id;
    let record_key = request_index::record_key(prefix, timeline, id);
    assert forall|key: Seq<u8>|
        (key != record_key && forall|time: u64|
            key != #[trigger] note_key(
                prefix,
                CleanupIndexEntryView {
                    timeline_key: timeline,
                    client_request_id: id,
                    updated_at_ms: time,
                },
            )) implies #[trigger] store::same_at(store, after, key) by {
        assert(note == CleanupIndexEntryView {
            timeline_key: timeline,
            client_request_id: id,
            updated_at_ms: note.updated_at_ms,
        });
        assert(key != note_key(
            prefix,
            CleanupIndexEntryView {
                timeline_key: timeline,
                client_request_id: id,
                updated_at_ms: note.updated_at_ms,
            },
        ));
    }
    assert forall|other_timeline: Seq<char>, other_id: Seq<char>| #[trigger]
        noted(after, prefix, other_timeline, other_id) by {
        assert(noted(store, prefix, other_timeline, other_id));
        if other_timeline != timeline || other_id != id {
            lemma_others_stay_noted(
                store,
                after,
                prefix,
                timeline,
                id,
                other_timeline,
                other_id,
            );
        }
    }
}

/// The cleanup deletes a record that its index misses only where the record is completed and old
/// enough, as it was seen; and every completed record stays noted.
pub proof fn sweeps_delete_old_completed_records(
    prefix: Seq<char>,
    timeline: Seq<char>,
    id: Seq<char>,
    older_than_ms: u64,
    record: RequestRecordView,
    record_revision: i64,
    txn: Transaction,
    earlier: StoreView,
    at: i64,
    store: StoreView,
    revision: i64,
    after: StoreView,
    reply: TxnReply,
)
    requires
        all_noted(store, prefix),
        store::well_formed(earlier),
        store::may_become(earlier, at, store),
        written(
            earlier,
            request_index::record_key(prefix, timeline, id),
            record,
            record_revision,
        ),
        request_index::prunable(record, older_than_ms),
        prune::drops_key(
            txn,
            request_index::record_key(prefix, timeline, id),
            record_revision,
        ),
        store::commits(store, txn@, revision, after, reply),
    ensures
        reply.succeeded ==> written(
            store,
            request_index::record_key(prefix, timeline, id),
            record,
            record_revision,
        ),
        all_noted(after, prefix),
{
    if store::meets_all(store, txn@.conditions) {
        assert(store::meets(store, txn@.conditions[0]));
        let none = Seq::<OperationView>::empty();
        assert(txn@.operations =~= none.push(txn@.operations[0]));
        store::lemma_last_operation(store, none, txn@.operations[0], revision);
        lemma_dropping_keeps_noted(store, after, prefix, note_of(timeline, id, record));
    }
}

/// A note that the cleanup drops as stale is the note of no completed record: the record was gone
/// or said otherwise when it was looked at, and had it been completed since, the note would have
/// been written anew.
pub proof fn stale_notes_note_nothing(
    prefix: Seq<char>,
    note: CleanupIndexEntryView,
    older_than_ms: u64,
    note_revision: i64,
    txn: Transaction,
    earlier: StoreView,
    at: i64,
    store: StoreView,
    revision: i64,
    after: StoreView,
    reply: TxnReply,
)
    requires
        store::well_formed(store),
        all_noted(store, prefix),
        0 < note_revision <= at,
        store::may_become(earlier, at, store),
        note.updated_at_ms < older_than_ms,
        ({
            let key = request_index::record_key(prefix, note.timeline_key, note.client_request_id);
            earlier.contains_key(key) ==> (earlier[key].value matches PayloadView::Request(record)
                && (record.updated_at_ms != note.updated_at_ms || !request_index::prunable(
                record,
                older_than_ms,
            )))
        }),
        prune::drops_key(txn, note_key(prefix, note), note_revision),
        store::commits(store, txn@, revision, after, reply),
    ensures
        all_noted(after, prefix),
{
    let timeline = note.timeline_key;
    let id = note.client_request_id;
    let record_key = request_index::record_key(prefix, timeline, id);
    if store::meets_all(store, txn@.conditions) {
        assert(store::meets(store, txn@.conditions[0]));
        let none = Seq::<OperationView>::empty();
        assert(txn@.operations =~= none.push(txn@.operations[0]));
        store::lemma_last_operation(store, none, txn@.operations[0], revision);
        assert forall|other_timeline: Seq<char>, other_id: Seq<char>| #[trigger]
            noted(after, prefix, other_timeline, other_id) by {
            let key = request_index::record_key(prefix, other_timeline, other_id);
            assert(noted(store, prefix, other_timeline, other_id));
            lemma_records_and_notes_differ(prefix, other_timeline, other_id, note);
            if store.contains_key(key) {
                let own = note_of(other_timeline, other_id, store[key].value->Request_0);
                if note_key(prefix, own) == note_key(prefix, note) {
                    lemma_notes_differ(prefix, own, note);
                }
            }
        }
    }
}

/// What a lookup of a key finds.
pub open spec fn finds(
    store: StoreView,
    key: Seq<u8>,
    found: Option<Found<RequestRecord>>,
) -> bool {
    match found {
        Some(entry) => {
            &&& entry.value matches Ok(record)
            &&& written(store, key, record@, entry.mod_revision)
        },
        None => !store.contains_key(key),
    }
}

/// A record that was created is read back as it was written, at the revision that its creator was
/// told; and nothing stood there before.
pub proof fn created_requests_are_read_back(
    prefix: Seq<char>,
    timeline: Seq<char>,
    id: Seq<char>,
    record: RequestRecord,
    txn: Transaction,
    store: StoreView,
    revision: i64,
    after: StoreView,
    reply: TxnReply,
    result: Result<u64, TsoError>,
    found: Option<Found<RequestRecord>>,
    loaded: Result<Option<(RequestRecord, u64)>, TsoError>,
)
    requires
        store::well_formed(store),
        request_index::creates_request(txn, prefix, timeline, id, record@.stamped()),
        store::commits(store, txn@, revision, after, reply),
        txn::created(
            Ok(reply),
            "Etcd request create txn failed"@,
            "invalid request create txn response"@,
            result,
        ),
        result is Ok,
        finds(after, request_index::record_key(prefix, timeline, id), found),
        json::loads_request(Ok(found), loaded),
    ensures
        !store.contains_key(request_index::record_key(prefix, timeline, id)),
        loaded matches Ok(Some((read, read_at))) && read@ == record@.stamped() && result
            == Ok::<u64, TsoError>(read_at),
{
    let key = request_index::record_key(prefix, timeline, id);
    let next = Some(record@.stamped());
    assert(store::meets(store, txn@.conditions[0]));
    assert(txn@.operations =~= changes(prefix, timeline, id, None, next));
    lemma_changes_at(store, prefix, timeline, id, None, next, revision, key);
}

/// A request that exists is not created again: nothing changes, and the creator is told so.
pub proof fn requests_are_created_once(
    prefix: Seq<char>,
    timeline: Seq<char>,
    id: Seq<char>,
    record: RequestRecordView,
    txn: Transaction,
    store: StoreView,
    revision: i64,
    after: StoreView,
    reply: TxnReply,
    result: Result<u64, TsoError>,
)
    requires
        store::well_formed(store),
        store.contains_key(request_index::record_key(prefix, timeline, id)),
        request_index::creates_request(txn, prefix, timeline, id, record),
        store::commits(store, txn@, revision, after, reply),
        txn::created(
            Ok(reply),
            "Etcd request create txn failed"@,
            "invalid request create txn response"@,
            result,
        ),
    ensures
        after == store,
        result == Err::<u64, TsoError>(TsoError::MetadataAlreadyExists),
{
    if store::meets_all(store, txn@.conditions) {
        assert(store::meets(store, txn@.conditions[0]));
    }
}

/// A record that was replaced is read back as it was written, at the revision that its writer was
/// told.
pub proof fn replaced_requests_are_read_back(
    prefix: Seq<char>,
    timeline: Seq<char>,
    id: Seq<char>,
    expected_revision: u64,
    previous: RequestRecordView,
    record: RequestRecord,
    txn: Transaction,
    store: StoreView,
    revision: i64,
    after: StoreView,
    reply: TxnReply,
    result: Result<u64, TsoError>,
    found: Option<Found<RequestRecord>>,
    loaded: Result<Option<(RequestRecord, u64)>, TsoError>,
)
    requires
        request_index::replaces_request(
            txn,
            prefix,
            timeline,
            id,
            expected_revision,
            previous,
            record@.stamped(),
        ),
        store::commits(store, txn@, revision, after, reply),
        txn::replaced(
            Ok(reply),
            "Etcd request CAS txn failed"@,
            "invalid request CAS txn response"@,
            result,
        ),
        result is Ok,
        finds(after, request_index::record_key(prefix, timeline, id), found),
        json::loads_request(Ok(found), loaded),
    ensures
        loaded matches Ok(Some((read, read_at))) && read@ == record@.stamped() && result
            == Ok::<u64, TsoError>(read_at),
{
    let key = request_index::record_key(prefix, timeline, id);
    let next = Some(record@.stamped());
    assert(txn@.operations =~= changes(prefix, timeline, id, Some(previous), next));
    lemma_changes_at(store, prefix, timeline, id, Some(previous), next, revision, key);
}

/// A record that was deleted is gone, and so is its note.
pub proof fn deleted_requests_are_gone(
    prefix: Seq<char>,
    timeline: Seq<char>,
    id: Seq<char>,
    expected_revision: u64,
    previous: RequestRecordView,
    txn: Transaction,
    store: StoreView,
    revision: i64,
    after: StoreView,
    reply: TxnReply,
    result: Result<(), TsoError>,
    found: Option<Found<RequestRecord>>,
    loaded: Result<Option<(RequestRecord, u64)>, TsoError>,
)
    requires
        request_index::deletes_request(txn, prefix, timeline, id, expected_revision, previous),
        store::commits(store, txn@, revision, after, reply),
        txn::deleted(Ok(reply), "Etcd request delete txn failed"@, result),
        result is Ok,
        finds(after, request_index::record_key(prefix, timeline, id), found),
        json::loads_request(Ok(found), loaded),
    ensures
        loaded matches Ok(None),
        request_index::prunable_candidate(previous) ==> !after.contains_key(
            note_key(prefix, note_of(timeline, id, previous)),
        ),
{
    let key = request_index::record_key(prefix, timeline, id);
    let note = note_of(timeline, id, previous);
    assert(txn@.operations =~= changes(prefix, timeline, id, Some(previous), None));
    lemma_changes_at(store, prefix, timeline, id, Some(previous), None, revision, key);
    lemma_records_and_notes_differ(prefix, timeline, id, note);
    lemma_changes_at(
        store,
        prefix,
        timeline,
        id,
        Some(previous),
        None,
        revision,
        note_key(prefix, note),
    );
}

/// A record that was written since it was read is neither replaced nor deleted: nothing changes.
pub proof fn late_changes_are_refused(
    prefix: Seq<char>,
    timeline: Seq<char>,
    id: Seq<char>,
    expected_revision: u64,
    previous: RequestRecordView,
    next: RequestRecordView,
    txn: Transaction,
    store: StoreView,
    revision: i64,
    after: StoreView,
    reply: TxnReply,
)
    requires
        request_index::replaces_request(
            txn,
            prefix,
            timeline,
            id,
            expected_revision,
            previous,
            next,
        ) || request_index::deletes_request(
            txn,
            prefix,
            timeline,
            id,
            expected_revision,
            previous,
        ),
        ({
            let key = request_index::record_key(prefix, timeline, id);
            store.contains_key(key) && store[key].mod_revision != txn::as_store_revision(
                expected_revision,
            )
        }),
        store::commits(store, txn@, revision, after, reply),
    ensures
        after == store,
        !reply.succeeded,
{
    if store::meets_all(store, txn@.conditions) {
        assert(store::meets(store, txn@.conditions[0]));
    }
}

} // verus!
