//! Cleaning up completed request records: first by the index that notes them by age, then by
//! looking through all records for those that the index misses.

use vstd::prelude::*;
use vstd::slice::*;
use vstd::utf8::*;

use crate::error::TsoError;
use crate::metadata::etcd::json;
use crate::metadata::etcd::json::{load_request_record, Found};
use crate::metadata::etcd::ranges;
use crate::metadata::etcd::ranges::{
    next_etcd_key_after, prefix_range_end, reaches, request_record_prune_fetch_limit,
};
use crate::metadata::etcd::request_index;
use crate::metadata::etcd::request_index::request_record_is_prunable;
use crate::metadata::etcd::txn;
use crate::metadata::etcd::txn::{
    guarded, key_bytes, reported, Condition, ConditionView, Operation, OperationView,
    RequestRecordCleanupIndexEntry, Transaction,
};
use crate::metadata::keys;
use crate::metadata::keys::{
    request_cleanup_index_cutoff, request_cleanup_index_prefix, request_key, request_prefix,
};
use crate::metadata::types;
use crate::metadata::types::{RequestRecord, CURRENT_METADATA_SCHEMA_VERSION};
use crate::text;
use crate::text::text_from_utf8;

verus! {

/// A row of the index.
#[derive(Debug)]
pub struct IndexRow {
    pub key: Vec<u8>,
    pub mod_revision: i64,
    pub entry: Result<RequestRecordCleanupIndexEntry, String>,
}

/// A row of the records.
#[derive(Debug)]
pub struct RecordRow {
    pub key: Vec<u8>,
    pub mod_revision: i64,
    pub record: Result<RequestRecord, String>,
}

/// What the cleanup waits for.
#[derive(Debug)]
pub enum PruneWait {
    /// A page of the index.
    IndexPage,
    /// The record that an index row names.
    IndexedRecord { index_key: Vec<u8>, index_revision: i64, updated_at_ms: u64, record_key: Vec<u8> },
    /// The deletion of an index row that is of no use any more.
    StaleIndexDropped { missing: bool },
    /// The deletion of a record together with its index row.
    IndexedPruned,
    /// A page of the records.
    RecordPage,
    /// The deletion of a record.
    RecordPruned,
    /// Nothing: it is over.
    Nothing,
}

/// What the cleanup asks for.
pub enum PruneStep {
    ScanIndex { start: Vec<u8>, end: Vec<u8>, limit: i64 },
    LoadRecord { key: Vec<u8> },
    Commit { txn: Transaction },
    ScanRecords { start: Vec<u8>, end: Vec<u8>, limit: i64 },
    Done { pruned: usize },
    Failed { error: TsoError },
}

/// What it is answered.
pub enum PruneReply {
    IndexPage(Result<Vec<IndexRow>, String>),
    Record(Result<Option<Found<RequestRecord>>, String>),
    Committed(Result<bool, String>),
    RecordPage(Result<Vec<RecordRow>, String>),
}

/// A cleanup that is under way.
pub struct PruneRun {
    pub prefix: String,
    pub older_than_ms: u64,
    pub limit: usize,
    pub pruned: usize,
    pub wait: PruneWait,
    /// The rows of the current index page, and how many of them are dealt with.
    pub index_rows: Vec<IndexRow>,
    pub index_at: usize,
    /// The records of the current page that are to be deleted, and how many of them were tried.
    pub candidates: Vec<(Vec<u8>, i64)>,
    pub candidate_at: usize,
    /// The last key of the current page, and where the scan ends.
    pub last_key: Vec<u8>,
    pub range_end: Vec<u8>,
    pub fetch_limit: i64,
}

/// The last key of a page of index rows.
pub open spec fn last_index_key(rows: Seq<IndexRow>) -> Seq<u8> {
    rows.last().key@
}

/// The deletion of one key at the revision at which it was seen.
pub open spec fn drops_key(txn: Transaction, key: Seq<u8>, revision: i64) -> bool {
    &&& txn@.conditions == seq![ConditionView::ModRevision { key, revision }]
    &&& txn@.operations == seq![OperationView::Delete { key }]
}

/// The deletion of a record together with its index row, each at the revision at which it was seen.
pub open spec fn drops_record_and_index(
    txn: Transaction,
    record_key: Seq<u8>,
    record_revision: i64,
    index_key: Seq<u8>,
    index_revision: i64,
) -> bool {
    &&& txn@.conditions == seq![
        ConditionView::ModRevision { key: record_key, revision: record_revision },
        ConditionView::ModRevision { key: index_key, revision: index_revision },
    ]
    &&& txn@.operations == seq![
        OperationView::Delete { key: record_key },
        OperationView::Delete { key: index_key },
    ]
}

fn drop_key(key: &[u8], revision: i64) -> (txn: Transaction)
    ensures
        drops_key(txn, key@, revision),
{
    guarded(
        Condition::ModRevision { key: slice_to_vec(key), revision },
        Operation::Delete { key: slice_to_vec(key) },
    )
}

fn drop_record_and_index(
    record_key: &[u8],
    record_revision: i64,
    index_key: &[u8],
    index_revision: i64,
) -> (txn: Transaction)
    ensures
        drops_record_and_index(
            txn,
            record_key@,
            record_revision,
            index_key@,
            index_revision,
        ),
{
    let mut conditions: Vec<Condition> = Vec::new();
    conditions.push(
        Condition::ModRevision { key: slice_to_vec(record_key), revision: record_revision },
    );
    conditions.push(
        Condition::ModRevision { key: slice_to_vec(index_key), revision: index_revision },
    );
    let mut operations: Vec<Operation> = Vec::new();
    operations.push(Operation::Delete { key: slice_to_vec(record_key) });
    operations.push(Operation::Delete { key: slice_to_vec(index_key) });
    let txn = Transaction { conditions, operations };
    assert(txn@.conditions =~= seq![
        ConditionView::ModRevision { key: record_key@, revision: record_revision },
        ConditionView::ModRevision { key: index_key@, revision: index_revision },
    ]);
    assert(txn@.operations =~= seq![
        OperationView::Delete { key: record_key@ },
        OperationView::Delete { key: index_key@ },
    ]);
    txn
}

/// Why a page of records stops the cleanup: at the first row that does not decode, has another
/// schema, or is to be deleted under a key that is no text.
pub open spec fn row_fault(row: RecordRow, older_than_ms: u64, error: TsoError) -> bool {
    match row.record {
        Err(report) => txn::is_reported(
            error,
            "Request record prune deserialization failed"@,
            report@,
        ),
        Ok(record) => if record.schema_version != CURRENT_METADATA_SCHEMA_VERSION {
            error.is_internal(types::unsupported_schema("request"@, record.schema_version))
        } else {
            request_index::prunable(record@, older_than_ms) && !valid_utf8(row.key@)
                && txn::is_reported(
                error,
                "Request record key decode failed"@,
                text::utf8_fault(row.key@),
            )
        },
    }
}

/// The row stops the cleanup.
pub open spec fn faulty(row: RecordRow, older_than_ms: u64) -> bool {
    match row.record {
        Err(_) => true,
        Ok(record) => record.schema_version != CURRENT_METADATA_SCHEMA_VERSION || (
        request_index::prunable(record@, older_than_ms) && !valid_utf8(row.key@)),
    }
}

/// The keys and revisions of the rows that are to be deleted, in their order.
pub open spec fn chosen(rows: Seq<RecordRow>, older_than_ms: u64) -> Seq<(Seq<u8>, i64)>
    decreases rows.len(),
{
    if rows.len() == 0 {
        Seq::empty()
    } else {
        let before = chosen(rows.drop_last(), older_than_ms);
        if rows.last().record matches Ok(record) && request_index::prunable(
            record@,
            older_than_ms,
        ) {
            before.push((rows.last().key@, rows.last().mod_revision))
        } else {
            before
        }
    }
}

pub open spec fn candidate_views(candidates: Seq<(Vec<u8>, i64)>) -> Seq<(Seq<u8>, i64)> {
    Seq::new(candidates.len(), |i: int| (candidates[i].0@, candidates[i].1))
}

/// Picks the rows of a page that are to be deleted.
pub fn choose_candidates(rows: &Vec<RecordRow>, older_than_ms: u64) -> (result: Result<
    Vec<(Vec<u8>, i64)>,
    TsoError,
>)
    ensures
        match result {
            Ok(candidates) => {
                &&& forall|i: int| 0 <= i < rows@.len() ==> !faulty(#[trigger] rows@[i], older_than_ms)
                &&& candidate_views(candidates@) == chosen(rows@, older_than_ms)
            },
            Err(error) => exists|i: int|
                0 <= i < rows@.len() && #[trigger] faulty(rows@[i], older_than_ms) && row_fault(
                    rows@[i],
                    older_than_ms,
                    error,
                ) && (forall|k: int| 0 <= k < i ==> !faulty(#[trigger] rows@[k], older_than_ms)),
        },
{
    let mut candidates: Vec<(Vec<u8>, i64)> = Vec::new();
    let mut i: usize = 0;
    assert(rows@.take(0) =~= Seq::<RecordRow>::empty());
    assert(candidate_views(candidates@) =~= Seq::<(Seq<u8>, i64)>::empty());
    while i < rows.len()
        invariant
            i <= rows@.len(),
            forall|k: int| 0 <= k < i ==> !faulty(#[trigger] rows@[k], older_than_ms),
            candidate_views(candidates@) == chosen(rows@.take(i as int), older_than_ms),
        decreases rows@.len() - i,
    {
        let row = &rows[i];
        let ghost before = candidate_views(candidates@);
        assert(rows@.take(i + 1).drop_last() =~= rows@.take(i as int));
        assert(rows@.take(i + 1).last() == rows@[i as int]);
        match &row.record {
            Err(report) => {
                assert(faulty(rows@[i as int], older_than_ms));
                return Err(
                    reported("Request record prune deserialization failed", report.as_str()),
                );
            },
            Ok(record) => {
                match record.validate_schema_version() {
                    Ok(()) => {},
                    Err(error) => {
                        assert(faulty(rows@[i as int], older_than_ms));
                        return Err(error);
                    },
                }
                if request_record_is_prunable(record, older_than_ms) {
                    let key = slice_to_vec(row.key.as_slice());
                    match text_from_utf8(slice_to_vec(row.key.as_slice())) {
                        Ok(_) => {},
                        Err(fault) => {
                            assert(faulty(rows@[i as int], older_than_ms));
                            return Err(
                                reported("Request record key decode failed", fault.as_str()),
                            );
                        },
                    }
                    candidates.push((key, row.mod_revision));
                    assert(candidate_views(candidates@) =~= before.push(
                        (rows@[i as int].key@, rows@[i as int].mod_revision),
                    ));
                }
            },
        }
        i = i + 1;
    }
    assert(rows@.take(i as int) =~= rows@);
    Ok(candidates)
}

impl PruneRun {
    /// No more is deleted than was asked for, and the marks stay within their lists.
    pub open spec fn valid(self) -> bool {
        &&& self.pruned <= self.limit
        &&& self.index_at <= self.index_rows@.len()
        &&& self.candidate_at <= self.candidates@.len()
        &&& self.wait is IndexedRecord || self.wait is IndexedPruned || self.wait is RecordPage
            || self.wait is RecordPruned ==> self.pruned < self.limit
        &&& self.wait is IndexPage || self.wait is IndexedRecord || self.wait is StaleIndexDropped
            || self.wait is IndexedPruned ==> self.reads_index_by_limit()
    }

    /// The index is read by pages for the whole limit.
    pub open spec fn reads_index_by_limit(self) -> bool {
        self.fetch_limit == ranges::prune_fetch_limit(self.limit as int)
    }

    /// The reply is one to what the cleanup waits for.
    pub open spec fn awaits(self, reply: PruneReply) -> bool {
        match self.wait {
            PruneWait::IndexPage => reply is IndexPage,
            PruneWait::IndexedRecord { .. } => reply is Record,
            PruneWait::StaleIndexDropped { .. }
            | PruneWait::IndexedPruned
            | PruneWait::RecordPruned => reply is Committed,
            PruneWait::RecordPage => reply is RecordPage,
            PruneWait::Nothing => false,
        }
    }

    /// What the cleanup is after does not change.
    pub open spec fn same_task(self, other: PruneRun) -> bool {
        &&& self.prefix == other.prefix
        &&& self.older_than_ms == other.older_than_ms
        &&& self.limit == other.limit
    }

    /// It is over, with so many records deleted.
    pub open spec fn is_done(self, step: PruneStep) -> bool {
        step matches PruneStep::Done { pruned } && pruned == self.pruned && self.wait is Nothing
    }

    /// It is over, with an error.
    pub open spec fn is_failed(self, step: PruneStep) -> bool {
        step is Failed && self.wait is Nothing
    }

    /// It turns to the records: from the first one on.
    pub open spec fn begins_records(self, step: PruneStep) -> bool {
        let first = encode_utf8(keys::request_prefix_text(self.prefix@));
        if self.pruned >= self.limit {
            self.is_done(step)
        } else {
            &&& self.wait is RecordPage
            &&& step matches PruneStep::ScanRecords { start, end, limit }
            &&& start@ == first
            &&& end@ == ranges::range_end(first)
            &&& end@ == self.range_end@
            &&& limit == ranges::prune_fetch_limit(self.limit - self.pruned)
            &&& limit == self.fetch_limit
        }
    }

    /// It goes on with the index rows after `at`: it ends where enough is deleted, looks at the next
    /// row, reads the next page, or turns to the records where the index is through.
    pub open spec fn goes_on_with_index(self, at: nat, step: PruneStep) -> bool {
        let rows = self.index_rows@;
        if at < rows.len() {
            let row = rows[at as int];
            if self.pruned >= self.limit {
                self.is_done(step)
            } else {
                match row.entry {
                    Err(report) => self.is_failed(step) && txn::is_reported(
                        step->error,
                        "Request cleanup index deserialization failed"@,
                        report@,
                    ),
                    Ok(entry) => if !valid_utf8(row.key@) {
                        self.is_failed(step) && txn::is_reported(
                            step->error,
                            "Request cleanup index key decode failed"@,
                            text::utf8_fault(row.key@),
                        )
                    } else {
                        let named = request_index::record_key(
                            self.prefix@,
                            entry.timeline_key@,
                            entry.client_request_id@,
                        );
                        &&& step matches PruneStep::LoadRecord { key }
                        &&& key@ == named
                        &&& self.index_at == at + 1
                        &&& self.wait matches PruneWait::IndexedRecord {
                            index_key,
                            index_revision,
                            updated_at_ms,
                            record_key,
                        }
                        &&& index_key@ == row.key@
                        &&& index_revision == row.mod_revision
                        &&& updated_at_ms == entry.updated_at_ms
                        &&& record_key@ == named
                    },
                }
            }
        } else if rows.len() == 0 {
            self.begins_records(step)
        } else {
            let next = ranges::key_after(last_index_key(rows));
            let end = encode_utf8(
                keys::request_cleanup_index_cutoff_text(self.prefix@, self.older_than_ms),
            );
            if !text::bytes_before(next, end) {
                self.begins_records(step)
            } else {
                &&& self.wait is IndexPage
                &&& step matches PruneStep::ScanIndex { start, end: range_end, limit }
                &&& start@ == next
                &&& range_end@ == end
                &&& limit == ranges::prune_fetch_limit(self.limit as int)
            }
        }
    }

    /// It goes on with the candidates after `at`: it deletes the next one, reads the next page, or
    /// ends where the records are through.
    pub open spec fn goes_on_with_records(self, at: nat, step: PruneStep) -> bool {
        if at < self.candidates@.len() {
            &&& self.wait is RecordPruned
            &&& self.candidate_at == at + 1
            &&& step matches PruneStep::Commit { txn }
            &&& drops_key(txn, self.candidates@[at as int].0@, self.candidates@[at as int].1)
        } else {
            let next = ranges::key_after(self.last_key@);
            if !text::bytes_before(next, self.range_end@) {
                self.is_done(step)
            } else {
                &&& self.wait is RecordPage
                &&& step matches PruneStep::ScanRecords { start, end, limit }
                &&& start@ == next
                &&& end@ == self.range_end@
                &&& limit == self.fetch_limit
            }
        }
    }

    fn done(&mut self) -> (step: PruneStep)
        requires
            old(self).valid(),
        ensures
            final(self).valid(),
            final(self).same_task(*old(self)),
            final(self).pruned == old(self).pruned,
            final(self).is_done(step),
    {
        self.wait = PruneWait::Nothing;
        PruneStep::Done { pruned: self.pruned }
    }

    fn fail(&mut self, error: TsoError) -> (step: PruneStep)
        requires
            old(self).valid(),
        ensures
            final(self).valid(),
            final(self).same_task(*old(self)),
            final(self).pruned == old(self).pruned,
            final(self).index_rows == old(self).index_rows,
            final(self).index_at == old(self).index_at,
            final(self).is_failed(step),
            step == (PruneStep::Failed { error }),
    {
        self.wait = PruneWait::Nothing;
        PruneStep::Failed { error }
    }

    fn begin_records(&mut self) -> (step: PruneStep)
        requires
            old(self).valid(),
        ensures
            final(self).valid(),
            final(self).same_task(*old(self)),
            final(self).pruned == old(self).pruned,
            final(self).index_rows == old(self).index_rows,
            final(self).begins_records(step),
    {
        if self.pruned >= self.limit {
            self.wait = PruneWait::Nothing;
            return PruneStep::Done { pruned: self.pruned };
        }
        let first = request_prefix(self.prefix.as_str());
        self.range_end = prefix_range_end(first.as_str());
        self.fetch_limit = request_record_prune_fetch_limit(self.limit - self.pruned);
        self.wait = PruneWait::RecordPage;
        PruneStep::ScanRecords {
            start: key_bytes(first.as_str()),
            end: slice_to_vec(self.range_end.as_slice()),
            limit: self.fetch_limit,
        }
    }

    fn go_on_with_index(&mut self) -> (step: PruneStep)
        requires
            old(self).valid(),
            old(self).reads_index_by_limit(),
        ensures
            final(self).valid(),
            final(self).same_task(*old(self)),
            final(self).pruned == old(self).pruned,
            final(self).index_rows == old(self).index_rows,
            final(self).goes_on_with_index(old(self).index_at as nat, step),
    {
        if self.index_at < self.index_rows.len() {
            if self.pruned >= self.limit {
                self.wait = PruneWait::Nothing;
                return PruneStep::Done { pruned: self.pruned };
            }
            let at: usize = self.index_at;
            let row_key = slice_to_vec(self.index_rows[at].key.as_slice());
            let row_revision: i64 = self.index_rows[at].mod_revision;
            let (named, updated_at_ms) = match &self.index_rows[at].entry {
                Err(report) => {
                    let error = reported(
                        "Request cleanup index deserialization failed",
                        report.as_str(),
                    );
                    return self.fail(error);
                },
                Ok(entry) => (
                    request_key(
                        self.prefix.as_str(),
                        entry.timeline_key.as_str(),
                        entry.client_request_id.as_str(),
                    ),
                    entry.updated_at_ms,
                ),
            };
            match text_from_utf8(slice_to_vec(row_key.as_slice())) {
                Ok(_) => {},
                Err(fault) => {
                    let error = reported(
                        "Request cleanup index key decode failed",
                        fault.as_str(),
                    );
                    return self.fail(error);
                },
            }
            self.index_at = at + 1;
            self.wait = PruneWait::IndexedRecord {
                index_key: row_key,
                index_revision: row_revision,
                updated_at_ms,
                record_key: key_bytes(named.as_str()),
            };
            return PruneStep::LoadRecord { key: key_bytes(named.as_str()) };
        }
        if self.index_rows.len() == 0 {
            return self.begin_records();
        }
        let last: usize = self.index_rows.len() - 1;
        let next = next_etcd_key_after(self.index_rows[last].key.as_slice());
        let end = key_bytes(
            request_cleanup_index_cutoff(self.prefix.as_str(), self.older_than_ms).as_str(),
        );
        if reaches(next.as_slice(), end.as_slice()) {
            return self.begin_records();
        }
        self.wait = PruneWait::IndexPage;
        PruneStep::ScanIndex { start: next, end, limit: self.fetch_limit }
    }

    fn go_on_with_records(&mut self) -> (step: PruneStep)
        requires
            old(self).valid(),
            old(self).pruned < old(self).limit,
        ensures
            final(self).valid(),
            final(self).same_task(*old(self)),
            final(self).pruned == old(self).pruned,
            final(self).candidates == old(self).candidates,
            final(self).last_key == old(self).last_key,
            final(self).range_end == old(self).range_end,
            final(self).fetch_limit == old(self).fetch_limit,
            final(self).goes_on_with_records(old(self).candidate_at as nat, step),
    {
        if self.candidate_at < self.candidates.len() {
            let at: usize = self.candidate_at;
            let txn = drop_key(self.candidates[at].0.as_slice(), self.candidates[at].1);
            self.candidate_at = at + 1;
            self.wait = PruneWait::RecordPruned;
            return PruneStep::Commit { txn };
        }
        let next = next_etcd_key_after(self.last_key.as_slice());
        if reaches(next.as_slice(), self.range_end.as_slice()) {
            self.wait = PruneWait::Nothing;
            return PruneStep::Done { pruned: self.pruned };
        }
        self.wait = PruneWait::RecordPage;
        PruneStep::ScanRecords {
            start: next,
            end: slice_to_vec(self.range_end.as_slice()),
            limit: self.fetch_limit,
        }
    }

    /// The cleanup begins: nothing is deleted yet, and the index is read from its first row on.
    pub open spec fn begins(
        self,
        prefix: Seq<char>,
        older_than_ms: u64,
        limit: usize,
        step: PruneStep,
    ) -> bool {
        &&& self.valid()
        &&& self.prefix@ == prefix
        &&& self.older_than_ms == older_than_ms
        &&& self.limit == limit
        &&& self.pruned == 0
        &&& if limit == 0 {
            self.is_done(step)
        } else {
            &&& self.wait is IndexPage
            &&& step matches PruneStep::ScanIndex { start, end, limit: fetch }
            &&& start@ == encode_utf8(keys::request_cleanup_index_prefix_text(prefix))
            &&& end@ == encode_utf8(
                keys::request_cleanup_index_cutoff_text(prefix, older_than_ms),
            )
            &&& fetch == ranges::prune_fetch_limit(limit as int)
        }
    }

    /// Begins a cleanup of records that were completed before a time, of so many at most.
    pub fn start(prefix: &str, older_than_ms: u64, limit: usize) -> (begun: (Self, PruneStep))
        ensures
            begun.0.begins(prefix@, older_than_ms, limit, begun.1),
    {
        let start = key_bytes(request_cleanup_index_prefix(prefix).as_str());
        let end = key_bytes(request_cleanup_index_cutoff(prefix, older_than_ms).as_str());
        let fetch_limit: i64 = request_record_prune_fetch_limit(limit);
        let mut run = PruneRun {
            prefix: prefix.to_owned(),
            older_than_ms,
            limit,
            pruned: 0,
            wait: PruneWait::IndexPage,
            index_rows: Vec::new(),
            index_at: 0,
            candidates: Vec::new(),
            candidate_at: 0,
            last_key: Vec::new(),
            range_end: Vec::new(),
            fetch_limit,
        };
        if limit == 0 {
            let step = run.done();
            return (run, step);
        }
        (run, PruneStep::ScanIndex { start, end, limit: fetch_limit })
    }

    /// What is done about an indexed record: the row is dropped where the record is gone, changed or
    /// not to be deleted after all; otherwise both are deleted.
    pub open spec fn deals_with_record(
        self,
        before: PruneRun,
        reply: Result<Option<Found<RequestRecord>>, String>,
        step: PruneStep,
    ) -> bool {
        let wait = before.wait;
        let index_key = wait->index_key@;
        let index_revision = wait->index_revision;
        &&& self.index_rows == before.index_rows
        &&& self.index_at == before.index_at
        &&& exists|loaded: Result<Option<(RequestRecord, u64)>, TsoError>|
            {
                &&& #[trigger] json::loads_request(reply, loaded)
                &&& match loaded {
                    Err(error) => self.is_failed(step) && step->error == error,
                    Ok(None) => {
                        &&& self.wait == (PruneWait::StaleIndexDropped { missing: true })
                        &&& step matches PruneStep::Commit { txn }
                        &&& drops_key(txn, index_key, index_revision)
                    },
                    Ok(Some((record, revision))) => if record.updated_at_ms != wait->updated_at_ms
                        || !request_index::prunable(record@, self.older_than_ms) {
                        &&& self.wait == (PruneWait::StaleIndexDropped { missing: false })
                        &&& step matches PruneStep::Commit { txn }
                        &&& drops_key(txn, index_key, index_revision)
                    } else {
                        &&& self.wait is IndexedPruned
                        &&& step matches PruneStep::Commit { txn }
                        &&& drops_record_and_index(
                            txn,
                            wait->record_key@,
                            txn::as_store_revision(revision),
                            index_key,
                            index_revision,
                        )
                    },
                }
            }
    }

    /// What a reply comes to.
    pub open spec fn advances(self, before: PruneRun, reply: PruneReply, step: PruneStep) -> bool {
        match reply {
            PruneReply::IndexPage(page) => {
                &&& self.pruned == before.pruned
                &&& match page {
                    Err(report) => self.is_failed(step) && txn::is_reported(
                        step->error,
                        "Etcd request cleanup index scan failed"@,
                        report@,
                    ),
                    Ok(rows) => self.index_rows == rows && self.goes_on_with_index(0, step),
                }
            },
            PruneReply::Record(found) => {
                &&& self.pruned == before.pruned
                &&& self.deals_with_record(before, found, step)
            },
            PruneReply::Committed(committed) => match before.wait {
                PruneWait::StaleIndexDropped { missing } => {
                    &&& self.pruned == before.pruned
                    &&& match committed {
                        Err(report) => self.is_failed(step) && txn::is_reported(
                            step->error,
                            if missing {
                                "Etcd request cleanup index delete txn failed"@
                            } else {
                                "Etcd stale request cleanup index delete txn failed"@
                            },
                            report@,
                        ),
                        Ok(_) => self.index_rows == before.index_rows && self.goes_on_with_index(
                            before.index_at as nat,
                            step,
                        ),
                    }
                },
                PruneWait::IndexedPruned => match committed {
                    Err(report) => self.pruned == before.pruned && self.is_failed(step)
                        && txn::is_reported(step->error, "Etcd request prune txn failed"@, report@),
                    Ok(succeeded) => {
                        &&& self.pruned == before.pruned + if succeeded {
                            1int
                        } else {
                            0int
                        }
                        &&& self.index_rows == before.index_rows
                        &&& self.goes_on_with_index(before.index_at as nat, step)
                    },
                },
                _ => match committed {
                    Err(report) => self.pruned == before.pruned && self.is_failed(step)
                        && txn::is_reported(step->error, "Etcd request prune txn failed"@, report@),
                    Ok(succeeded) => {
                        &&& self.pruned == before.pruned + if succeeded {
                            1int
                        } else {
                            0int
                        }
                        &&& if self.pruned >= self.limit {
                            self.is_done(step)
                        } else {
                            &&& self.candidates == before.candidates
                            &&& self.last_key == before.last_key
                            &&& self.range_end == before.range_end
                            &&& self.fetch_limit == before.fetch_limit
                            &&& self.goes_on_with_records(before.candidate_at as nat, step)
                        }
                    },
                },
            },
            PruneReply::RecordPage(page) => {
                &&& self.pruned == before.pruned
                &&& match page {
                    Err(report) => self.is_failed(step) && txn::is_reported(
                        step->error,
                        "Etcd prune_requests failed"@,
                        report@,
                    ),
                    Ok(rows) => if rows@.len() == 0 {
                        self.is_done(step)
                    } else if exists|i: int|
                        0 <= i < rows@.len() && faulty(#[trigger] rows@[i], self.older_than_ms) {
                        self.is_failed(step) && exists|i: int|
                            0 <= i < rows@.len() && #[trigger] faulty(rows@[i], self.older_than_ms)
                                && row_fault(rows@[i], self.older_than_ms, step->error) && (
                            forall|k: int|
                                0 <= k < i ==> !faulty(#[trigger] rows@[k], self.older_than_ms))
                    } else {
                        &&& candidate_views(self.candidates@) == chosen(rows@, self.older_than_ms)
                        &&& self.last_key@ == rows@.last().key@
                        &&& self.range_end == before.range_end
                        &&& self.fetch_limit == before.fetch_limit
                        &&& self.goes_on_with_records(0, step)
                    },
                }
            },
        }
    }

    fn take_record(&mut self, found: Result<Option<Found<RequestRecord>>, String>) -> (step:
        PruneStep)
        requires
            old(self).valid(),
            old(self).wait is IndexedRecord,
        ensures
            final(self).valid(),
            final(self).same_task(*old(self)),
            final(self).pruned == old(self).pruned,
            final(self).deals_with_record(*old(self), found, step),
    {
        let mut wait = PruneWait::Nothing;
        std::mem::swap(&mut wait, &mut self.wait);
        if let PruneWait::IndexedRecord { index_key, index_revision, updated_at_ms, record_key } =
            wait {
            let loaded = load_request_record(found);
            let ghost known = loaded;
            assert(json::loads_request(found, known));
            match loaded {
                Err(error) => PruneStep::Failed { error },
                Ok(None) => {
                    self.wait = PruneWait::StaleIndexDropped { missing: true };
                    PruneStep::Commit { txn: drop_key(index_key.as_slice(), index_revision) }
                },
                Ok(Some((record, revision))) => {
                    if record.updated_at_ms != updated_at_ms || !request_record_is_prunable(
                        &record,
                        self.older_than_ms,
                    ) {
                        self.wait = PruneWait::StaleIndexDropped { missing: false };
                        return PruneStep::Commit {
                            txn: drop_key(index_key.as_slice(), index_revision),
                        };
                    }
                    self.wait = PruneWait::IndexedPruned;
                    let record_revision: i64 = #[verifier::truncate] (revision as i64);
                    PruneStep::Commit {
                        txn: drop_record_and_index(
                            record_key.as_slice(),
                            record_revision,
                            index_key.as_slice(),
                            index_revision,
                        ),
                    }
                },
            }
        } else {
            PruneStep::Done { pruned: self.pruned }
        }
    }

    fn take_record_page(&mut self, page: Result<Vec<RecordRow>, String>) -> (step: PruneStep)
        requires
            old(self).valid(),
            old(self).wait is RecordPage,
        ensures
            final(self).valid(),
            final(self).same_task(*old(self)),
            final(self).advances(*old(self), PruneReply::RecordPage(page), step),
    {
        match page {
            Err(report) => {
                let error = reported("Etcd prune_requests failed", report.as_str());
                self.fail(error)
            },
            Ok(rows) => {
                if rows.len() == 0 {
                    return self.done();
                }
                match choose_candidates(&rows, self.older_than_ms) {
                    Err(error) => self.fail(error),
                    Ok(candidates) => {
                        self.candidates = candidates;
                        self.candidate_at = 0;
                        self.last_key = slice_to_vec(rows[rows.len() - 1].key.as_slice());
                        self.go_on_with_records()
                    },
                }
            },
        }
    }

    /// Takes a reply and says what to ask for next.
    pub fn on_reply(&mut self, reply: PruneReply) -> (step: PruneStep)
        requires
            old(self).valid(),
            old(self).awaits(reply),
        ensures
            final(self).valid(),
            final(self).same_task(*old(self)),
            final(self).advances(*old(self), reply, step),
    {
        match reply {
            PruneReply::IndexPage(page) => match page {
                Err(report) => {
                    let error = reported(
                        "Etcd request cleanup index scan failed",
                        report.as_str(),
                    );
                    self.fail(error)
                },
                Ok(rows) => {
                    self.index_rows = rows;
                    self.index_at = 0;
                    self.go_on_with_index()
                },
            },
            PruneReply::Record(found) => self.take_record(found),
            PruneReply::RecordPage(page) => self.take_record_page(page),
            PruneReply::Committed(committed) => {
                match self.wait {
                    PruneWait::StaleIndexDropped { missing } => match committed {
                        Err(report) => {
                            let error = if missing {
                                reported(
                                    "Etcd request cleanup index delete txn failed",
                                    report.as_str(),
                                )
                            } else {
                                reported(
                                    "Etcd stale request cleanup index delete txn failed",
                                    report.as_str(),
                                )
                            };
                            self.fail(error)
                        },
                        Ok(_) => self.go_on_with_index(),
                    },
                    PruneWait::IndexedPruned => match committed {
                        Err(report) => {
                            let error = reported("Etcd request prune txn failed", report.as_str());
                            self.fail(error)
                        },
                        Ok(succeeded) => {
                            self.wait = PruneWait::Nothing;
                            if succeeded {
                                self.pruned = self.pruned + 1;
                            }
                            self.go_on_with_index()
                        },
                    },
                    _ => match committed {
                        Err(report) => {
                            let error = reported("Etcd request prune txn failed", report.as_str());
                            self.fail(error)
                        },
                        Ok(succeeded) => {
                            self.wait = PruneWait::Nothing;
                            if succeeded {
                                self.pruned = self.pruned + 1;
                                if self.pruned >= self.limit {
                                    return self.done();
                                }
                            }
                            self.go_on_with_records()
                        },
                    },
                }
            },
        }
    }
}

/// Of a page of records those are to be deleted that are completed and older than the time, each
/// under its key and at the revision at which it was seen.
pub proof fn candidates_are_old_and_completed(rows: Seq<RecordRow>, older_than_ms: u64)
    ensures
        chosen(rows, older_than_ms) == rows.filter(
            |row: RecordRow|
                row.record matches Ok(record) && record.state == types::RequestRecordState::Completed
                    && record.updated_at_ms < older_than_ms,
        ).map_values(|row: RecordRow| (row.key@, row.mod_revision)),
    decreases rows.len(),
{
    reveal(Seq::filter);
    let goes = |row: RecordRow|
        row.record matches Ok(record) && record.state == types::RequestRecordState::Completed
            && record.updated_at_ms < older_than_ms;
    let named = |row: RecordRow| (row.key@, row.mod_revision);
    if rows.len() > 0 {
        candidates_are_old_and_completed(rows.drop_last(), older_than_ms);
    }
    assert(chosen(rows, older_than_ms) =~= rows.filter(goes).map_values(named));
}

/// A cleanup begins with nothing deleted and keeps to the time and the number that it is given. It
/// looks at the index from its first entry up to that time, and is over at once where nothing is to
/// be deleted.
pub proof fn cleanups_begin_at_the_first_entry(
    run: PruneRun,
    prefix: Seq<char>,
    older_than_ms: u64,
    limit: usize,
    step: PruneStep,
)
    requires
        run.begins(prefix, older_than_ms, limit, step),
    ensures
        run.pruned == 0,
        run.prefix@ == prefix,
        run.older_than_ms == older_than_ms,
        run.limit == limit,
        step is Done <==> limit == 0,
        limit > 0 ==> (step matches PruneStep::ScanIndex { start, end, .. } && start@
            == encode_utf8(keys::request_cleanup_index_prefix_text(prefix)) && end@ == encode_utf8(
            keys::request_cleanup_index_cutoff_text(prefix, older_than_ms),
        )),
{
}

/// The next entry of the index is looked into by the key of the request that it notes. That record
/// goes only where it is still of the time that the entry notes, completed and old enough, and the
/// entry goes with it; in every other case the record stays.
pub proof fn entries_are_looked_into_before_records_go(
    run: PruneRun,
    at: nat,
    step: PruneStep,
    reply: Result<Option<Found<RequestRecord>>, String>,
    after: PruneRun,
    next: PruneStep,
)
    requires
        at < run.index_rows@.len(),
        run.goes_on_with_index(at, step),
        after.deals_with_record(run, reply, next),
    ensures
        run.pruned >= run.limit ==> step is Done,
        step matches PruneStep::LoadRecord { key } ==> {
            let row = run.index_rows@[at as int];
            &&& run.pruned < run.limit
            &&& row.entry matches Ok(entry)
            &&& key@ == request_index::record_key(
                run.prefix@,
                entry.timeline_key@,
                entry.client_request_id@,
            )
            &&& run.index_at == at + 1
            &&& next matches PruneStep::Commit { txn } ==> {
                &&& txn@.operations.contains(OperationView::Delete { key: row.key@ })
                &&& txn@.conditions.contains(
                    ConditionView::ModRevision { key: row.key@, revision: row.mod_revision },
                )
                &&& key@ != row.key@ && txn@.operations.contains(
                    OperationView::Delete { key: key@ },
                ) ==> {
                    &&& reply matches Ok(Some(found))
                    &&& found.value matches Ok(record)
                    &&& record.updated_at_ms == row.entry->Ok_0.updated_at_ms
                    &&& record.updated_at_ms < after.older_than_ms
                    &&& record.state == types::RequestRecordState::Completed
                }
            }
        },
{
    if step is LoadRecord {
        let row = run.index_rows@[at as int];
        let record_key = run.wait->record_key@;
        let gone = OperationView::Delete { key: row.key@ };
        let told = ConditionView::ModRevision { key: row.key@, revision: row.mod_revision };
        if let PruneStep::Commit { txn } = next {
            assert(seq![gone].contains(gone)) by {
                assert(seq![gone][0] == gone);
            }
            assert(seq![told].contains(told)) by {
                assert(seq![told][0] == told);
            }
            if txn@.operations.len() == 2 {
                assert(txn@.operations[1] == gone);
                assert(txn@.conditions[1] == told);
            } else {
                assert(txn@.operations == seq![gone]);
            }
        }
    }
}

} // verus!
