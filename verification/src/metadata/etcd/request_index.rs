//! Request records and the index from which completed ones are cleaned up.

use vstd::prelude::*;
use vstd::utf8::*;

use crate::error::TsoError;
use crate::metadata::etcd::txn;
use crate::metadata::etcd::txn::{
    delete, put, written_at, CleanupIndexEntryView, Condition, ConditionView, Operation,
    OperationView, Payload, PayloadView, RequestRecordCleanupIndexEntry, Transaction,
};
use crate::metadata::keys;
use crate::metadata::keys::{request_cleanup_index_key, request_key};
use crate::metadata::types;
use crate::metadata::types::{
    RequestRecord, RequestRecordState, RequestRecordView, CURRENT_METADATA_SCHEMA_VERSION,
};
use crate::text::join4;

verus! {

/// A record that may be cleaned up one day.
pub open spec fn prunable_candidate(record: RequestRecordView) -> bool {
    record.state == RequestRecordState::Completed
}

/// A record that may be cleaned up.
pub open spec fn prunable(record: RequestRecordView, older_than_ms: u64) -> bool {
    prunable_candidate(record) && record.updated_at_ms < older_than_ms
}

pub fn request_record_is_prunable_candidate(record: &RequestRecord) -> (answer: bool)
    ensures
        answer == prunable_candidate(record@),
{
    match record.state {
        RequestRecordState::Completed => true,
        _ => false,
    }
}

pub fn request_record_is_prunable(record: &RequestRecord, older_than_ms: u64) -> (answer: bool)
    ensures
        answer == prunable(record@, older_than_ms),
{
    request_record_is_prunable_candidate(record) && record.updated_at_ms < older_than_ms
}

/// The key of a request record.
pub open spec fn record_key(
    prefix: Seq<char>,
    timeline_key: Seq<char>,
    client_request_id: Seq<char>,
) -> Seq<u8> {
    encode_utf8(keys::request_key_text(prefix, timeline_key, client_request_id))
}

/// The key under which a record is noted for cleanup.
pub open spec fn index_key(
    prefix: Seq<char>,
    timeline_key: Seq<char>,
    client_request_id: Seq<char>,
    record: RequestRecordView,
) -> Seq<u8> {
    encode_utf8(
        keys::request_cleanup_index_key_text(
            prefix,
            record.updated_at_ms,
            timeline_key,
            client_request_id,
        ),
    )
}

/// What notes a record for cleanup: nothing unless it is completed.
pub open spec fn index_puts(
    prefix: Seq<char>,
    timeline_key: Seq<char>,
    client_request_id: Seq<char>,
    record: RequestRecordView,
) -> Seq<OperationView> {
    if prunable_candidate(record) {
        seq![
            OperationView::Put {
                key: index_key(prefix, timeline_key, client_request_id, record),
                value: PayloadView::CleanupIndex(
                    CleanupIndexEntryView {
                        timeline_key,
                        client_request_id,
                        updated_at_ms: record.updated_at_ms,
                    },
                ),
                lease: None,
            },
        ]
    } else {
        Seq::empty()
    }
}

/// What takes the note of a record back.
pub open spec fn index_deletes(
    prefix: Seq<char>,
    timeline_key: Seq<char>,
    client_request_id: Seq<char>,
    record: RequestRecordView,
) -> Seq<OperationView> {
    if prunable_candidate(record) {
        seq![
            OperationView::Delete {
                key: index_key(prefix, timeline_key, client_request_id, record),
            },
        ]
    } else {
        Seq::empty()
    }
}

pub fn request_cleanup_index_put_op(
    prefix: &str,
    timeline_key: &str,
    client_request_id: &str,
    record: &RequestRecord,
) -> (operation: Option<Operation>)
    ensures
        match operation {
            Some(put) => index_puts(prefix@, timeline_key@, client_request_id@, record@)
                == seq![put@],
            None => index_puts(prefix@, timeline_key@, client_request_id@, record@).len() == 0,
        },
{
    if !request_record_is_prunable_candidate(record) {
        return None;
    }
    let entry = RequestRecordCleanupIndexEntry {
        timeline_key: timeline_key.to_owned(),
        client_request_id: client_request_id.to_owned(),
        updated_at_ms: record.updated_at_ms,
    };
    let key = request_cleanup_index_key(
        prefix,
        record.updated_at_ms,
        timeline_key,
        client_request_id,
    );
    Some(put(key.as_str(), Payload::CleanupIndex(entry)))
}

pub fn request_cleanup_index_delete_op(
    prefix: &str,
    timeline_key: &str,
    client_request_id: &str,
    record: &RequestRecord,
) -> (operation: Option<Operation>)
    ensures
        match operation {
            Some(drop) => index_deletes(prefix@, timeline_key@, client_request_id@, record@)
                == seq![drop@],
            None => index_deletes(prefix@, timeline_key@, client_request_id@, record@).len() == 0,
        },
{
    if !request_record_is_prunable_candidate(record) {
        return None;
    }
    let key = request_cleanup_index_key(
        prefix,
        record.updated_at_ms,
        timeline_key,
        client_request_id,
    );
    Some(delete(key.as_str()))
}

fn push_some(operations: &mut Vec<Operation>, more: Option<Operation>)
    ensures
        txn::operation_views(final(operations)@) == match more {
            Some(operation) => txn::operation_views(old(operations)@) + seq![operation@],
            None => txn::operation_views(old(operations)@),
        },
{
    if let Some(operation) = more {
        operations.push(operation);
        assert(txn::operation_views(operations@) =~= txn::operation_views(old(operations)@)
            + seq![operation@]);
    }
}

fn only_if(condition: Condition, operations: Vec<Operation>) -> (txn: Transaction)
    ensures
        txn@.conditions == seq![condition@],
        txn@.operations == txn::operation_views(operations@),
{
    let mut conditions: Vec<Condition> = Vec::new();
    conditions.push(condition);
    let txn = Transaction { conditions, operations };
    assert(txn@.conditions =~= seq![condition@]);
    txn
}

/// A transaction creates a request record, with its note, where none stands.
pub open spec fn creates_request(
    txn: Transaction,
    prefix: Seq<char>,
    timeline_key: Seq<char>,
    client_request_id: Seq<char>,
    record: RequestRecordView,
) -> bool {
    let key = record_key(prefix, timeline_key, client_request_id);
    &&& txn@.conditions == seq![ConditionView::ModRevision { key, revision: 0 }]
    &&& txn@.operations == seq![
        OperationView::Put { key, value: PayloadView::Request(record), lease: None },
    ] + index_puts(prefix, timeline_key, client_request_id, record)
}

/// The transaction that creates a request record with its note.
pub fn create_request_txn(
    prefix: &str,
    timeline_key: &str,
    client_request_id: &str,
    record: &RequestRecord,
) -> (result: Result<Transaction, TsoError>)
    ensures
        match result {
            Ok(txn) => record.schema_version == CURRENT_METADATA_SCHEMA_VERSION && creates_request(
                txn,
                prefix@,
                timeline_key@,
                client_request_id@,
                record@.stamped(),
            ),
            Err(error) => record.schema_version != CURRENT_METADATA_SCHEMA_VERSION
                && error.is_internal(types::unsupported_schema("request"@, record.schema_version)),
        },
{
    match record.validate_schema_version() {
        Ok(()) => {},
        Err(error) => {
            return Err(error);
        },
    }
    let stamped = record.stamped_for_persistence();
    let key = request_key(prefix, timeline_key, client_request_id);
    let index_put = request_cleanup_index_put_op(prefix, timeline_key, client_request_id, &stamped);
    let mut operations: Vec<Operation> = Vec::new();
    operations.push(put(key.as_str(), Payload::Request(stamped)));
    let ghost first = txn::operation_views(operations@);
    push_some(&mut operations, index_put);
    let txn = only_if(written_at(key.as_str(), 0), operations);
    proof {
        let puts = index_puts(prefix@, timeline_key@, client_request_id@, record@.stamped());
        assert(txn@.operations =~= first + puts);
        assert(first =~= seq![
            OperationView::Put {
                key: record_key(prefix@, timeline_key@, client_request_id@),
                value: PayloadView::Request(record@.stamped()),
                lease: None,
            },
        ]);
    }
    Ok(txn)
}

/// The key under which a missing request record is reported.
pub open spec fn missing_name(timeline_key: Seq<char>, client_request_id: Seq<char>) -> Seq<char> {
    "request:"@ + timeline_key + ":"@ + client_request_id
}

/// Why a request record is not replaced or deleted, given what was loaded before.
pub open spec fn revision_fault(
    timeline_key: Seq<char>,
    client_request_id: Seq<char>,
    expected_revision: u64,
    loaded: Option<(RequestRecord, u64)>,
    error: TsoError,
) -> bool {
    match loaded {
        None => error.is_not_found(missing_name(timeline_key, client_request_id)),
        Some((_, revision)) => revision != expected_revision && error == TsoError::CasFailed,
    }
}

/// A request record was loaded and stands at the expected revision.
pub open spec fn at_revision(
    loaded: Option<(RequestRecord, u64)>,
    expected_revision: u64,
) -> bool {
    loaded matches Some((_, revision)) && revision == expected_revision
}

fn check_revision(
    timeline_key: &str,
    client_request_id: &str,
    expected_revision: u64,
    loaded: Option<(RequestRecord, u64)>,
) -> (result: Result<RequestRecord, TsoError>)
    ensures
        match result {
            Ok(record) => at_revision(loaded, expected_revision) && record == loaded->Some_0.0,
            Err(error) => revision_fault(
                timeline_key@,
                client_request_id@,
                expected_revision,
                loaded,
                error,
            ) && !at_revision(loaded, expected_revision),
        },
{
    match loaded {
        None => Err(
            TsoError::TimelineNotFound {
                timeline_key: join4("request:", timeline_key, ":", client_request_id),
            },
        ),
        Some((record, revision)) => {
            if revision != expected_revision {
                Err(TsoError::CasFailed)
            } else {
                Ok(record)
            }
        },
    }
}

/// A transaction replaces a request record that stands at a revision, and moves its note along.
pub open spec fn replaces_request(
    txn: Transaction,
    prefix: Seq<char>,
    timeline_key: Seq<char>,
    client_request_id: Seq<char>,
    revision: u64,
    previous: RequestRecordView,
    next: RequestRecordView,
) -> bool {
    let key = record_key(prefix, timeline_key, client_request_id);
    &&& txn@.conditions == seq![
        ConditionView::ModRevision { key, revision: txn::as_store_revision(revision) },
    ]
    &&& txn@.operations == seq![
        OperationView::Put { key, value: PayloadView::Request(next), lease: None },
    ] + index_deletes(prefix, timeline_key, client_request_id, previous) + index_puts(
        prefix,
        timeline_key,
        client_request_id,
        next,
    )
}

/// A transaction deletes a request record that stands at a revision, with its note.
pub open spec fn deletes_request(
    txn: Transaction,
    prefix: Seq<char>,
    timeline_key: Seq<char>,
    client_request_id: Seq<char>,
    revision: u64,
    previous: RequestRecordView,
) -> bool {
    let key = record_key(prefix, timeline_key, client_request_id);
    &&& txn@.conditions == seq![
        ConditionView::ModRevision { key, revision: txn::as_store_revision(revision) },
    ]
    &&& txn@.operations == seq![OperationView::Delete { key }] + index_deletes(
        prefix,
        timeline_key,
        client_request_id,
        previous,
    )
}

/// What replacing a request record begins with.
pub open spec fn begins_replacement(
    prefix: Seq<char>,
    timeline_key: Seq<char>,
    client_request_id: Seq<char>,
    expected_revision: u64,
    record: RequestRecord,
    loaded: Option<(RequestRecord, u64)>,
    result: Result<Transaction, TsoError>,
) -> bool {
    match result {
        Ok(txn) => {
            &&& record.schema_version == CURRENT_METADATA_SCHEMA_VERSION
            &&& at_revision(loaded, expected_revision)
            &&& replaces_request(
                txn,
                prefix,
                timeline_key,
                client_request_id,
                expected_revision,
                loaded->Some_0.0@,
                record@.stamped(),
            )
        },
        Err(error) => if record.schema_version != CURRENT_METADATA_SCHEMA_VERSION {
            error.is_internal(types::unsupported_schema("request"@, record.schema_version))
        } else {
            !at_revision(loaded, expected_revision) && revision_fault(
                timeline_key,
                client_request_id,
                expected_revision,
                loaded,
                error,
            )
        },
    }
}

/// What deleting a request record begins with.
pub open spec fn begins_deletion(
    prefix: Seq<char>,
    timeline_key: Seq<char>,
    client_request_id: Seq<char>,
    expected_revision: u64,
    loaded: Option<(RequestRecord, u64)>,
    result: Result<Transaction, TsoError>,
) -> bool {
    match result {
        Ok(txn) => {
            &&& at_revision(loaded, expected_revision)
            &&& deletes_request(
                txn,
                prefix,
                timeline_key,
                client_request_id,
                expected_revision,
                loaded->Some_0.0@,
            )
        },
        Err(error) => !at_revision(loaded, expected_revision) && revision_fault(
            timeline_key,
            client_request_id,
            expected_revision,
            loaded,
            error,
        ),
    }
}

/// The transaction that replaces a request record, and moves its note along. `loaded` is the record
/// as it stands.
pub fn compare_exchange_request_txn(
    prefix: &str,
    timeline_key: &str,
    client_request_id: &str,
    expected_revision: u64,
    record: &RequestRecord,
    loaded: Option<(RequestRecord, u64)>,
) -> (result: Result<Transaction, TsoError>)
    ensures
        begins_replacement(
            prefix@,
            timeline_key@,
            client_request_id@,
            expected_revision,
            *record,
            loaded,
            result,
        ),
        match result {
            Ok(txn) => {
                &&& record.schema_version == CURRENT_METADATA_SCHEMA_VERSION
                &&& at_revision(loaded, expected_revision)
                &&& replaces_request(
                    txn,
                    prefix@,
                    timeline_key@,
                    client_request_id@,
                    expected_revision,
                    loaded->Some_0.0@,
                    record@.stamped(),
                )
            },
            Err(error) => if record.schema_version != CURRENT_METADATA_SCHEMA_VERSION {
                error.is_internal(types::unsupported_schema("request"@, record.schema_version))
            } else {
                !at_revision(loaded, expected_revision) && revision_fault(
                    timeline_key@,
                    client_request_id@,
                    expected_revision,
                    loaded,
                    error,
                )
            },
        },
{
    match record.validate_schema_version() {
        Ok(()) => {},
        Err(error) => {
            return Err(error);
        },
    }
    let previous = match check_revision(
        timeline_key,
        client_request_id,
        expected_revision,
        loaded,
    ) {
        Ok(previous) => previous,
        Err(error) => {
            return Err(error);
        },
    };
    let stamped = record.stamped_for_persistence();
    let key = request_key(prefix, timeline_key, client_request_id);
    let index_delete = request_cleanup_index_delete_op(
        prefix,
        timeline_key,
        client_request_id,
        &previous,
    );
    let index_put = request_cleanup_index_put_op(prefix, timeline_key, client_request_id, &stamped);
    let mut operations: Vec<Operation> = Vec::new();
    operations.push(put(key.as_str(), Payload::Request(stamped)));
    let ghost first = txn::operation_views(operations@);
    push_some(&mut operations, index_delete);
    push_some(&mut operations, index_put);
    let revision: i64 = #[verifier::truncate] (expected_revision as i64);
    let txn = only_if(written_at(key.as_str(), revision), operations);
    proof {
        let drops = index_deletes(prefix@, timeline_key@, client_request_id@, previous@);
        let puts = index_puts(prefix@, timeline_key@, client_request_id@, record@.stamped());
        assert(txn@.operations =~= first + drops + puts);
        assert(first =~= seq![
            OperationView::Put {
                key: record_key(prefix@, timeline_key@, client_request_id@),
                value: PayloadView::Request(record@.stamped()),
                lease: None,
            },
        ]);
    }
    Ok(txn)
}

/// The transaction that deletes a request record with its note. `loaded` is the record as it
/// stands.
pub fn compare_delete_request_txn(
    prefix: &str,
    timeline_key: &str,
    client_request_id: &str,
    expected_revision: u64,
    loaded: Option<(RequestRecord, u64)>,
) -> (result: Result<Transaction, TsoError>)
    ensures
        begins_deletion(
            prefix@,
            timeline_key@,
            client_request_id@,
            expected_revision,
            loaded,
            result,
        ),
        match result {
            Ok(txn) => {
                &&& at_revision(loaded, expected_revision)
                &&& deletes_request(
                    txn,
                    prefix@,
                    timeline_key@,
                    client_request_id@,
                    expected_revision,
                    loaded->Some_0.0@,
                )
            },
            Err(error) => !at_revision(loaded, expected_revision) && revision_fault(
                timeline_key@,
                client_request_id@,
                expected_revision,
                loaded,
                error,
            ),
        },
{
    let previous = match check_revision(
        timeline_key,
        client_request_id,
        expected_revision,
        loaded,
    ) {
        Ok(previous) => previous,
        Err(error) => {
            return Err(error);
        },
    };
    let key = request_key(prefix, timeline_key, client_request_id);
    let index_delete = request_cleanup_index_delete_op(
        prefix,
        timeline_key,
        client_request_id,
        &previous,
    );
    let mut operations: Vec<Operation> = Vec::new();
    operations.push(delete(key.as_str()));
    let ghost first = txn::operation_views(operations@);
    push_some(&mut operations, index_delete);
    let revision: i64 = #[verifier::truncate] (expected_revision as i64);
    let txn = only_if(written_at(key.as_str(), revision), operations);
    proof {
        let drops = index_deletes(prefix@, timeline_key@, client_request_id@, previous@);
        assert(txn@.operations =~= first + drops);
        assert(first =~= seq![
            OperationView::Delete { key: record_key(prefix@, timeline_key@, client_request_id@) },
        ]);
    }
    Ok(txn)
}

} // verus!
