//! Timelines and the two indexes over them: by owner and by state.

use vstd::prelude::*;
use vstd::slice::*;
use vstd::utf8::*;

use crate::error::{timeline_not_found, TsoError};
use crate::metadata::etcd::txn;
use crate::metadata::etcd::txn::{
    delete, key_bytes, put, written_at, Condition, ConditionView, Operation, OperationView,
    Payload, PayloadView, Transaction, TxnReply,
};
use crate::metadata::keys;
use crate::metadata::keys::{
    timeline_key, timeline_status_owner_index_key, timeline_status_state_index_key,
};
use crate::metadata::types;
use crate::metadata::types::{TimelineRecord, TimelineRecordView, CURRENT_METADATA_SCHEMA_VERSION};

verus! {

/// The key of a timeline.
pub open spec fn record_key(prefix: Seq<char>, timeline: Seq<char>) -> Seq<u8> {
    encode_utf8(keys::timeline_key_text(prefix, timeline))
}

/// The key of a record in the index by owner.
pub open spec fn owner_key(prefix: Seq<char>, record: TimelineRecordView) -> Seq<char> {
    keys::timeline_status_owner_index_key_text(
        prefix,
        record.route.owner_worker_endpoint,
        record.route.timeline_key,
    )
}

/// The key of a record in the index by state.
pub open spec fn state_key(prefix: Seq<char>, record: TimelineRecordView) -> Seq<char> {
    keys::timeline_status_state_index_key_text(
        prefix,
        record.state.name(),
        record.route.timeline_key,
    )
}

/// What writes a record under a key.
pub open spec fn puts_record(key: Seq<u8>, record: TimelineRecordView) -> OperationView {
    OperationView::Put { key, value: PayloadView::Timeline(record), lease: None }
}

/// What enters a record into both indexes.
pub open spec fn index_puts(prefix: Seq<char>, record: TimelineRecordView) -> Seq<OperationView> {
    seq![
        puts_record(encode_utf8(owner_key(prefix, record)), record),
        puts_record(encode_utf8(state_key(prefix, record)), record),
    ]
}

/// What removes an index entry unless the next record has one under the same key.
pub open spec fn stale_entry(
    prefix: Seq<char>,
    entry: Seq<char>,
    next: TimelineRecordView,
) -> Seq<OperationView> {
    if entry == owner_key(prefix, next) || entry == state_key(prefix, next) {
        Seq::empty()
    } else {
        seq![OperationView::Delete { key: encode_utf8(entry) }]
    }
}

/// What removes the index entries of a record that the next one does not keep.
pub open spec fn stale_entries(
    prefix: Seq<char>,
    previous: TimelineRecordView,
    next: TimelineRecordView,
) -> Seq<OperationView> {
    stale_entry(prefix, owner_key(prefix, previous), next) + stale_entry(
        prefix,
        state_key(prefix, previous),
        next,
    )
}

fn owner_index_key(prefix: &str, record: &TimelineRecord) -> (key: String)
    ensures
        key@ == owner_key(prefix@, record@),
{
    timeline_status_owner_index_key(
        prefix,
        record.route.owner_worker_endpoint.as_str(),
        record.route.timeline_key.as_str(),
    )
}

fn state_index_key(prefix: &str, record: &TimelineRecord) -> (key: String)
    ensures
        key@ == state_key(prefix@, record@),
{
    timeline_status_state_index_key(
        prefix,
        record.state.as_str(),
        record.route.timeline_key.as_str(),
    )
}

/// Appends what enters a record into both indexes.
pub fn push_index_puts(prefix: &str, record: &TimelineRecord, operations: &mut Vec<Operation>)
    ensures
        txn::operation_views(final(operations)@) == txn::operation_views(old(operations)@)
            + index_puts(prefix@, record@),
{
    let by_owner = owner_index_key(prefix, record);
    let by_state = state_index_key(prefix, record);
    operations.push(put(by_owner.as_str(), Payload::Timeline(record.clone())));
    operations.push(put(by_state.as_str(), Payload::Timeline(record.clone())));
    assert(txn::operation_views(operations@) =~= txn::operation_views(old(operations)@)
        + index_puts(prefix@, record@));
}

fn push_stale_entry(
    entry: &String,
    next_owner: &String,
    next_state: &String,
    operations: &mut Vec<Operation>,
)
    ensures
        txn::operation_views(final(operations)@) == txn::operation_views(old(operations)@) + if
            entry@ == next_owner@ || entry@ == next_state@ {
            Seq::empty()
        } else {
            seq![OperationView::Delete { key: encode_utf8(entry@) }]
        },
{
    if *entry == *next_owner || *entry == *next_state {
        assert(txn::operation_views(operations@) =~= txn::operation_views(old(operations)@)
            + Seq::<OperationView>::empty());
    } else {
        operations.push(delete(entry.as_str()));
        assert(txn::operation_views(operations@) =~= txn::operation_views(old(operations)@) + seq![
            OperationView::Delete { key: encode_utf8(entry@) },
        ]);
    }
}

/// Appends what moves the index entries from one record to the next.
pub fn push_index_replacements(
    prefix: &str,
    previous: &TimelineRecord,
    next: &TimelineRecord,
    operations: &mut Vec<Operation>,
)
    ensures
        txn::operation_views(final(operations)@) == txn::operation_views(old(operations)@)
            + stale_entries(prefix@, previous@, next@) + index_puts(prefix@, next@),
{
    let next_owner = owner_index_key(prefix, next);
    let next_state = state_index_key(prefix, next);
    push_stale_entry(
        &owner_index_key(prefix, previous),
        &next_owner,
        &next_state,
        operations,
    );
    push_stale_entry(
        &state_index_key(prefix, previous),
        &next_owner,
        &next_state,
        operations,
    );
    assert(txn::operation_views(operations@) =~= txn::operation_views(old(operations)@)
        + stale_entries(prefix@, previous@, next@));
    push_index_puts(prefix, next, operations);
}

/// The proof that a lease lock is still held: its key still holds its token.
#[derive(Debug)]
pub struct Fence {
    pub key: String,
    pub token: Vec<u8>,
}

impl Fence {
    pub open spec fn condition(self) -> ConditionView {
        ConditionView::Value { key: encode_utf8(self.key@), value: self.token@ }
    }

    pub fn fence_compare(&self) -> (condition: Condition)
        ensures
            condition@ == self.condition(),
    {
        Condition::Value {
            key: key_bytes(self.key.as_str()),
            value: slice_to_vec(self.token.as_slice()),
        }
    }
}

/// A transaction creates a timeline with its index entries where none stands and some more holds.
pub open spec fn creates_timeline(
    txn: Transaction,
    prefix: Seq<char>,
    timeline: Seq<char>,
    record: TimelineRecordView,
    guard: Seq<ConditionView>,
) -> bool {
    let key = record_key(prefix, timeline);
    &&& txn@.conditions == seq![ConditionView::ModRevision { key, revision: 0 }] + guard
    &&& txn@.operations == seq![puts_record(key, record)] + index_puts(prefix, record)
}

/// The condition that a lock is still held, where there is one.
pub open spec fn guard(fence: Option<&Fence>) -> Seq<ConditionView> {
    match fence {
        Some(lock) => seq![lock.condition()],
        None => Seq::empty(),
    }
}

/// The transaction that creates a timeline with its index entries, where a lock is held if one is
/// given.
pub fn create_timeline_txn(
    prefix: &str,
    timeline: &str,
    record: &TimelineRecord,
    fence: Option<&Fence>,
) -> (result: Result<Transaction, TsoError>)
    ensures
        match result {
            Ok(txn) => record.schema_version == CURRENT_METADATA_SCHEMA_VERSION
                && creates_timeline(
                txn,
                prefix@,
                timeline@,
                record@.stamped(),
                guard(fence),
            ),
            Err(error) => record.schema_version != CURRENT_METADATA_SCHEMA_VERSION
                && error.is_internal(
                types::unsupported_schema("timeline"@, record.schema_version),
            ),
        },
{
    match record.validate_schema_version() {
        Ok(()) => {},
        Err(error) => {
            return Err(error);
        },
    }
    let stamped = record.stamped_for_persistence();
    let key = timeline_key(prefix, timeline);
    let mut operations: Vec<Operation> = Vec::new();
    operations.push(put(key.as_str(), Payload::Timeline(stamped.clone())));
    let ghost first = txn::operation_views(operations@);
    assert(first =~= seq![puts_record(record_key(prefix@, timeline@), record@.stamped())]);
    push_index_puts(prefix, &stamped, &mut operations);
    let mut conditions: Vec<Condition> = Vec::new();
    conditions.push(written_at(key.as_str(), 0));
    if let Some(lock) = fence {
        conditions.push(lock.fence_compare());
    }
    let txn = Transaction { conditions, operations };
    assert(txn@.conditions =~= seq![
        ConditionView::ModRevision { key: record_key(prefix@, timeline@), revision: 0 },
    ] + guard(fence));
    Ok(txn)
}

/// The result of creating a timeline. Under a lock a refusal is a lost race, not a clash.
pub fn create_timeline_result(reply: Result<TxnReply, String>, fenced: bool) -> (result: Result<
    u64,
    TsoError,
>)
    ensures
        if fenced {
            txn::replaced(reply, "Etcd txn failed"@, "invalid txn response"@, result)
        } else {
            txn::created(reply, "Etcd txn failed"@, "invalid txn response"@, result)
        },
{
    if fenced {
        txn::cas_result(reply, "Etcd txn failed", "invalid txn response")
    } else {
        txn::create_result(reply, "Etcd txn failed", "invalid txn response")
    }
}

/// A transaction replaces a timeline that stands at a revision, and moves its index entries.
pub open spec fn replaces_timeline(
    txn: Transaction,
    prefix: Seq<char>,
    timeline: Seq<char>,
    revision: u64,
    previous: TimelineRecordView,
    next: TimelineRecordView,
) -> bool {
    let key = record_key(prefix, timeline);
    &&& txn@.conditions == seq![
        ConditionView::ModRevision { key, revision: txn::as_store_revision(revision) },
    ]
    &&& txn@.operations == seq![puts_record(key, next)] + stale_entries(prefix, previous, next)
        + index_puts(prefix, next)
}

/// What replacing a timeline begins with.
pub open spec fn begins_replacement(
    prefix: Seq<char>,
    timeline: Seq<char>,
    expected_revision: u64,
    record: TimelineRecord,
    loaded: Option<(TimelineRecord, u64)>,
    result: Result<Transaction, TsoError>,
) -> bool {
    match result {
        Ok(txn) => {
            &&& record.schema_version == CURRENT_METADATA_SCHEMA_VERSION
            &&& loaded matches Some((previous, revision)) && revision == expected_revision
                && replaces_timeline(
                txn,
                prefix,
                timeline,
                expected_revision,
                previous@,
                record@.stamped(),
            )
        },
        Err(error) => if record.schema_version != CURRENT_METADATA_SCHEMA_VERSION {
            error.is_internal(types::unsupported_schema("timeline"@, record.schema_version))
        } else {
            match loaded {
                None => error.is_not_found(timeline),
                Some((_, revision)) => revision != expected_revision && error
                    == TsoError::CasFailed,
            }
        },
    }
}

/// The transaction that replaces a timeline and moves its index entries. `loaded` is the timeline as
/// it stands.
pub fn compare_exchange_timeline_txn(
    prefix: &str,
    timeline: &str,
    expected_revision: u64,
    record: &TimelineRecord,
    loaded: Option<(TimelineRecord, u64)>,
) -> (result: Result<Transaction, TsoError>)
    ensures
        begins_replacement(prefix@, timeline@, expected_revision, *record, loaded, result),
        match result {
            Ok(txn) => {
                &&& record.schema_version == CURRENT_METADATA_SCHEMA_VERSION
                &&& loaded matches Some((previous, revision)) && revision == expected_revision
                    && replaces_timeline(
                    txn,
                    prefix@,
                    timeline@,
                    expected_revision,
                    previous@,
                    record@.stamped(),
                )
            },
            Err(error) => if record.schema_version != CURRENT_METADATA_SCHEMA_VERSION {
                error.is_internal(types::unsupported_schema("timeline"@, record.schema_version))
            } else {
                match loaded {
                    None => error.is_not_found(timeline@),
                    Some((_, revision)) => revision != expected_revision && error
                        == TsoError::CasFailed,
                }
            },
        },
{
    match record.validate_schema_version() {
        Ok(()) => {},
        Err(error) => {
            return Err(error);
        },
    }
    match loaded {
        None => Err(timeline_not_found(timeline)),
        Some((previous, revision)) => {
            if revision != expected_revision {
                return Err(TsoError::CasFailed);
            }
            let stamped = record.stamped_for_persistence();
            let key = timeline_key(prefix, timeline);
            let mut operations: Vec<Operation> = Vec::new();
            operations.push(put(key.as_str(), Payload::Timeline(stamped.clone())));
            assert(txn::operation_views(operations@) =~= seq![
                puts_record(record_key(prefix@, timeline@), record@.stamped()),
            ]);
            push_index_replacements(prefix, &previous, &stamped, &mut operations);
            let at: i64 = #[verifier::truncate] (expected_revision as i64);
            let mut conditions: Vec<Condition> = Vec::new();
            conditions.push(written_at(key.as_str(), at));
            let txn = Transaction { conditions, operations };
            assert(txn@.conditions =~= seq![
                ConditionView::ModRevision {
                    key: record_key(prefix@, timeline@),
                    revision: txn::as_store_revision(expected_revision),
                },
            ]);
            Ok(txn)
        },
    }
}

/// What the timeline after a refusal comes to.
pub open spec fn recovers(
    record: TimelineRecordView,
    reloaded: Option<(TimelineRecord, u64)>,
    result: Result<u64, TsoError>,
) -> bool {
    result == match reloaded {
        Some((existing, revision)) => if existing@ == record {
            Ok::<u64, TsoError>(revision)
        } else {
            Err::<u64, TsoError>(TsoError::CasFailed)
        },
        None => Err::<u64, TsoError>(TsoError::CasFailed),
    }
}

/// The revision under which a replacement is known to have happened although the store refused it:
/// an earlier try may have gone through unnoticed, and then the very record that was to be written
/// stands there.
pub fn recovered_revision(record: &TimelineRecord, reloaded: Option<(TimelineRecord, u64)>) -> (
    result: Result<u64, TsoError>)
    ensures
        recovers(record@, reloaded, result),
        result == match reloaded {
            Some((existing, revision)) => if existing@ == record@ {
                Ok::<u64, TsoError>(revision)
            } else {
                Err::<u64, TsoError>(TsoError::CasFailed)
            },
            None => Err::<u64, TsoError>(TsoError::CasFailed),
        },
{
    match reloaded {
        Some((existing, revision)) => {
            if existing == *record {
                Ok(revision)
            } else {
                Err(TsoError::CasFailed)
            }
        },
        None => Err(TsoError::CasFailed),
    }
}

} // verus!
