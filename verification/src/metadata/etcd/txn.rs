//! What is asked of the store in one step: conditions and the operations that they guard.

use vstd::prelude::*;
use vstd::slice::*;
use vstd::utf8::*;

use crate::error::TsoError;
use crate::metadata::ownership::OwnershipPlanRecord;
use crate::metadata::types::{
    GeneratorRecord, GeneratorRecordView, RequestRecord, RequestRecordView, TimelineRecord,
    TimelineRecordView,
};
use crate::text::join3;

verus! {

/// Where a completed request is noted for cleanup.
#[derive(Debug, PartialEq, Eq)]
pub struct RequestRecordCleanupIndexEntry {
    pub timeline_key: String,
    pub client_request_id: String,
    pub updated_at_ms: u64,
}

pub struct CleanupIndexEntryView {
    pub timeline_key: Seq<char>,
    pub client_request_id: Seq<char>,
    pub updated_at_ms: u64,
}

impl View for RequestRecordCleanupIndexEntry {
    type V = CleanupIndexEntryView;

    open spec fn view(&self) -> CleanupIndexEntryView {
        CleanupIndexEntryView {
            timeline_key: self.timeline_key@,
            client_request_id: self.client_request_id@,
            updated_at_ms: self.updated_at_ms,
        }
    }
}

/// Who an instance says it is.
#[derive(Debug, Eq)]
pub struct InstanceIdentityLeaseRecord {
    pub instance_id: String,
    pub worker_id: String,
    pub advertise_endpoint: String,
    pub ownership_plan_id: String,
    pub ownership_modulo: u32,
    pub cluster_format_version: u32,
}

pub struct IdentityView {
    pub instance_id: Seq<char>,
    pub worker_id: Seq<char>,
    pub advertise_endpoint: Seq<char>,
    pub ownership_plan_id: Seq<char>,
    pub ownership_modulo: u32,
    pub cluster_format_version: u32,
}

impl View for InstanceIdentityLeaseRecord {
    type V = IdentityView;

    open spec fn view(&self) -> IdentityView {
        IdentityView {
            instance_id: self.instance_id@,
            worker_id: self.worker_id@,
            advertise_endpoint: self.advertise_endpoint@,
            ownership_plan_id: self.ownership_plan_id@,
            ownership_modulo: self.ownership_modulo,
            cluster_format_version: self.cluster_format_version,
        }
    }
}

impl Clone for InstanceIdentityLeaseRecord {
    fn clone(&self) -> (copy: Self)
        ensures
            copy == *self,
    {
        InstanceIdentityLeaseRecord {
            instance_id: self.instance_id.clone(),
            worker_id: self.worker_id.clone(),
            advertise_endpoint: self.advertise_endpoint.clone(),
            ownership_plan_id: self.ownership_plan_id.clone(),
            ownership_modulo: self.ownership_modulo,
            cluster_format_version: self.cluster_format_version,
        }
    }
}

impl PartialEq for InstanceIdentityLeaseRecord {
    fn eq(&self, other: &Self) -> (equal: bool) {
        self.instance_id == other.instance_id && self.worker_id == other.worker_id
            && self.advertise_endpoint == other.advertise_endpoint && self.ownership_plan_id
            == other.ownership_plan_id && self.ownership_modulo == other.ownership_modulo
            && self.cluster_format_version == other.cluster_format_version
    }
}

impl vstd::std_specs::cmp::PartialEqSpecImpl for InstanceIdentityLeaseRecord {
    open spec fn obeys_eq_spec() -> bool {
        true
    }

    open spec fn eq_spec(&self, other: &Self) -> bool {
        self@ == other@
    }
}

/// A condition on one key.
#[derive(Debug, PartialEq, Eq)]
pub enum Condition {
    /// The key was last written at this revision; zero stands for a key that does not exist.
    ModRevision { key: Vec<u8>, revision: i64 },
    /// The key was created at this revision; zero stands for a key that does not exist.
    CreateRevision { key: Vec<u8>, revision: i64 },
    /// The key holds these bytes.
    Value { key: Vec<u8>, value: Vec<u8> },
}

pub enum ConditionView {
    ModRevision { key: Seq<u8>, revision: i64 },
    CreateRevision { key: Seq<u8>, revision: i64 },
    Value { key: Seq<u8>, value: Seq<u8> },
}

impl View for Condition {
    type V = ConditionView;

    open spec fn view(&self) -> ConditionView {
        match self {
            Condition::ModRevision { key, revision } => ConditionView::ModRevision {
                key: key@,
                revision: *revision,
            },
            Condition::CreateRevision { key, revision } => ConditionView::CreateRevision {
                key: key@,
                revision: *revision,
            },
            Condition::Value { key, value } => ConditionView::Value { key: key@, value: value@ },
        }
    }
}

/// What is written under a key.
pub enum Payload {
    Timeline(TimelineRecord),
    Generator(GeneratorRecord),
    Request(RequestRecord),
    CleanupIndex(RequestRecordCleanupIndexEntry),
    OwnershipPlan(OwnershipPlanRecord),
    Identity(InstanceIdentityLeaseRecord),
    Bytes(Vec<u8>),
}

pub enum PayloadView {
    Timeline(TimelineRecordView),
    Generator(GeneratorRecordView),
    Request(RequestRecordView),
    CleanupIndex(CleanupIndexEntryView),
    OwnershipPlan(OwnershipPlanRecord),
    Identity(IdentityView),
    Bytes(Seq<u8>),
}

impl View for Payload {
    type V = PayloadView;

    open spec fn view(&self) -> PayloadView {
        match self {
            Payload::Timeline(record) => PayloadView::Timeline(record@),
            Payload::Generator(record) => PayloadView::Generator(record@),
            Payload::Request(record) => PayloadView::Request(record@),
            Payload::CleanupIndex(entry) => PayloadView::CleanupIndex(entry@),
            Payload::OwnershipPlan(plan) => PayloadView::OwnershipPlan(*plan),
            Payload::Identity(record) => PayloadView::Identity(record@),
            Payload::Bytes(bytes) => PayloadView::Bytes(bytes@),
        }
    }
}

/// One operation.
pub enum Operation {
    Put { key: Vec<u8>, value: Payload, lease: Option<i64> },
    Delete { key: Vec<u8> },
    DeletePrefix { prefix: Vec<u8> },
    Get { key: Vec<u8> },
}

pub enum OperationView {
    Put { key: Seq<u8>, value: PayloadView, lease: Option<i64> },
    Delete { key: Seq<u8> },
    DeletePrefix { prefix: Seq<u8> },
    Get { key: Seq<u8> },
}

impl View for Operation {
    type V = OperationView;

    open spec fn view(&self) -> OperationView {
        match self {
            Operation::Put { key, value, lease } => OperationView::Put {
                key: key@,
                value: value@,
                lease: *lease,
            },
            Operation::Delete { key } => OperationView::Delete { key: key@ },
            Operation::DeletePrefix { prefix } => OperationView::DeletePrefix { prefix: prefix@ },
            Operation::Get { key } => OperationView::Get { key: key@ },
        }
    }
}

/// Operations that happen all together where every condition holds, and not at all otherwise.
pub struct Transaction {
    pub conditions: Vec<Condition>,
    pub operations: Vec<Operation>,
}

pub struct TransactionView {
    pub conditions: Seq<ConditionView>,
    pub operations: Seq<OperationView>,
}

pub open spec fn condition_views(conditions: Seq<Condition>) -> Seq<ConditionView> {
    Seq::new(conditions.len(), |i: int| conditions[i]@)
}

pub open spec fn operation_views(operations: Seq<Operation>) -> Seq<OperationView> {
    Seq::new(operations.len(), |i: int| operations[i]@)
}

impl View for Transaction {
    type V = TransactionView;

    open spec fn view(&self) -> TransactionView {
        TransactionView {
            conditions: condition_views(self.conditions@),
            operations: operation_views(self.operations@),
        }
    }
}

/// The answer to a transaction that reached the store.
#[derive(Debug, Clone, Copy, PartialEq, Eq, Structural)]
pub struct TxnReply {
    pub succeeded: bool,
    /// The revision of the first operation, where that was a write and says it.
    pub first_put_revision: Option<i64>,
    /// The revision of the whole answer, where it says it.
    pub header_revision: Option<i64>,
}

/// A key as bytes.
pub fn key_bytes(key: &str) -> (bytes: Vec<u8>)
    ensures
        bytes@ == encode_utf8(key@),
{
    slice_to_vec(key.as_bytes())
}

/// The condition that a key was last written at a revision.
pub fn written_at(key: &str, revision: i64) -> (condition: Condition)
    ensures
        condition@ == (ConditionView::ModRevision { key: encode_utf8(key@), revision }),
{
    Condition::ModRevision { key: key_bytes(key), revision }
}

/// The write of a value under a key, without a lease.
pub fn put(key: &str, value: Payload) -> (operation: Operation)
    ensures
        operation@ == (OperationView::Put { key: encode_utf8(key@), value: value@, lease: None }),
{
    Operation::Put { key: key_bytes(key), value, lease: None }
}

/// The deletion of a key.
pub fn delete(key: &str) -> (operation: Operation)
    ensures
        operation@ == (OperationView::Delete { key: encode_utf8(key@) }),
{
    Operation::Delete { key: key_bytes(key) }
}

/// The transaction that does one thing under one condition.
pub fn guarded(condition: Condition, operation: Operation) -> (txn: Transaction)
    ensures
        txn@.conditions == seq![condition@],
        txn@.operations == seq![operation@],
{
    let mut conditions: Vec<Condition> = Vec::new();
    conditions.push(condition);
    let mut operations: Vec<Operation> = Vec::new();
    operations.push(operation);
    let txn = Transaction { conditions, operations };
    assert(txn@.conditions =~= seq![condition@]);
    assert(txn@.operations =~= seq![operation@]);
    txn
}

/// A revision as callers see it.
pub open spec fn as_revision(revision: i64) -> u64 {
    revision as u64
}

/// A revision as the store sees it.
pub open spec fn as_store_revision(revision: u64) -> i64 {
    revision as i64
}

/// An error that something outside reported, under a heading.
pub open spec fn is_reported(error: TsoError, heading: Seq<char>, reported: Seq<char>) -> bool {
    error.is_internal(heading + ": "@ + reported)
}

pub fn reported(heading: &str, report: &str) -> (error: TsoError)
    ensures
        is_reported(error, heading@, report@),
{
    TsoError::Internal(join3(heading, ": ", report))
}

/// What creating a record comes to, given the answer of the store.
pub open spec fn created(
    reply: Result<TxnReply, String>,
    txn_context: Seq<char>,
    invalid_context: Seq<char>,
    result: Result<u64, TsoError>,
) -> bool {
    match reply {
        Err(report) => result matches Err(error) && is_reported(error, txn_context, report@),
        Ok(answer) => if !answer.succeeded {
            result == Err::<u64, TsoError>(TsoError::MetadataAlreadyExists)
        } else {
            match answer.first_put_revision {
                Some(revision) => result == Ok::<u64, TsoError>(as_revision(revision)),
                None => result matches Err(error) && error.is_internal(invalid_context),
            }
        },
    }
}

/// What replacing a record comes to, given the answer of the store.
pub open spec fn replaced(
    reply: Result<TxnReply, String>,
    txn_context: Seq<char>,
    invalid_context: Seq<char>,
    result: Result<u64, TsoError>,
) -> bool {
    match reply {
        Err(report) => result matches Err(error) && is_reported(error, txn_context, report@),
        Ok(answer) => if !answer.succeeded {
            result == Err::<u64, TsoError>(TsoError::CasFailed)
        } else {
            match answer.first_put_revision {
                Some(revision) => result == Ok::<u64, TsoError>(as_revision(revision)),
                None => result matches Err(error) && error.is_internal(invalid_context),
            }
        },
    }
}

fn put_revision(answer: TxnReply, invalid_context: &str) -> (result: Result<u64, TsoError>)
    ensures
        match answer.first_put_revision {
            Some(revision) => result == Ok::<u64, TsoError>(as_revision(revision)),
            None => result matches Err(error) && error.is_internal(invalid_context@),
        },
{
    match answer.first_put_revision {
        Some(revision) => Ok(#[verifier::truncate] (revision as u64)),
        None => Err(TsoError::Internal(invalid_context.to_owned())),
    }
}

/// The result of creating a record.
pub fn create_result(
    reply: Result<TxnReply, String>,
    txn_context: &str,
    invalid_context: &str,
) -> (result: Result<u64, TsoError>)
    ensures
        created(reply, txn_context@, invalid_context@, result),
{
    match reply {
        Err(report) => Err(reported(txn_context, report.as_str())),
        Ok(answer) => {
            if !answer.succeeded {
                Err(TsoError::MetadataAlreadyExists)
            } else {
                put_revision(answer, invalid_context)
            }
        },
    }
}

/// The result of replacing a record.
pub fn cas_result(
    reply: Result<TxnReply, String>,
    txn_context: &str,
    invalid_context: &str,
) -> (result: Result<u64, TsoError>)
    ensures
        replaced(reply, txn_context@, invalid_context@, result),
{
    match reply {
        Err(report) => Err(reported(txn_context, report.as_str())),
        Ok(answer) => {
            if !answer.succeeded {
                Err(TsoError::CasFailed)
            } else {
                put_revision(answer, invalid_context)
            }
        },
    }
}

/// What deleting a record comes to, given the answer of the store.
pub open spec fn deleted(
    reply: Result<TxnReply, String>,
    txn_context: Seq<char>,
    result: Result<(), TsoError>,
) -> bool {
    match reply {
        Err(report) => result matches Err(error) && is_reported(error, txn_context, report@),
        Ok(answer) => result == if answer.succeeded {
            Ok::<(), TsoError>(())
        } else {
            Err::<(), TsoError>(TsoError::CasFailed)
        },
    }
}

/// The result of deleting a record.
pub fn delete_result(reply: Result<TxnReply, String>, txn_context: &str) -> (result: Result<
    (),
    TsoError,
>)
    ensures
        deleted(reply, txn_context@, result),
{
    match reply {
        Err(report) => Err(reported(txn_context, report.as_str())),
        Ok(answer) => {
            if answer.succeeded {
                Ok(())
            } else {
                Err(TsoError::CasFailed)
            }
        },
    }
}

/// What replacing several records at once comes to: they share one revision.
pub open spec fn replaced_together(
    reply: Result<TxnReply, String>,
    count: nat,
    txn_context: Seq<char>,
    invalid_context: Seq<char>,
    result: Result<Vec<u64>, TsoError>,
) -> bool {
    match reply {
        Err(report) => result matches Err(error) && is_reported(error, txn_context, report@),
        Ok(answer) => if !answer.succeeded {
            result == Err::<Vec<u64>, TsoError>(TsoError::CasFailed)
        } else {
            match answer.header_revision {
                Some(revision) => result matches Ok(revisions) && revisions@ == Seq::new(
                    count,
                    |i: int| as_revision(revision),
                ),
                None => result matches Err(error) && error.is_internal(invalid_context),
            }
        },
    }
}

/// The result of replacing several records at once.
pub fn cas_batch_result(
    reply: Result<TxnReply, String>,
    count: usize,
    txn_context: &str,
    invalid_context: &str,
) -> (result: Result<Vec<u64>, TsoError>)
    ensures
        replaced_together(reply, count as nat, txn_context@, invalid_context@, result),
{
    match reply {
        Err(report) => Err(reported(txn_context, report.as_str())),
        Ok(answer) => {
            if !answer.succeeded {
                return Err(TsoError::CasFailed);
            }
            match answer.header_revision {
                Some(revision) => {
                    let shared: u64 = #[verifier::truncate] (revision as u64);
                    let mut revisions: Vec<u64> = Vec::new();
                    let mut i: usize = 0;
                    while i < count
                        invariant
                            i <= count,
                            shared == as_revision(revision),
                            revisions@ == Seq::new(i as nat, |k: int| as_revision(revision)),
                        decreases count - i,
                    {
                        revisions.push(shared);
                        i = i + 1;
                        assert(revisions@ =~= Seq::new(i as nat, |k: int| as_revision(revision)));
                    }
                    Ok(revisions)
                },
                None => Err(TsoError::Internal(invalid_context.to_owned())),
            }
        },
    }
}

} // verus!
