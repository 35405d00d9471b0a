//! Replacing several timelines at once, all or none.

use vstd::prelude::*;
use vstd::utf8::*;

use crate::error::{timeline_not_found, TsoError};
use crate::metadata::etcd::json;
use crate::metadata::etcd::json::{load_timeline, Found};
use crate::metadata::etcd::status_index;
use crate::metadata::etcd::status_index::{push_index_replacements, recovered_revision};
use crate::metadata::etcd::txn;
use crate::metadata::etcd::txn::{
    cas_batch_result, key_bytes, put, written_at, Condition, ConditionView, Operation,
    OperationView, Payload, Transaction, TxnReply,
};
use crate::metadata::keys::timeline_key;
use crate::metadata::types;
use crate::metadata::types::{TimelineBatchOp, TimelineRecord, CURRENT_METADATA_SCHEMA_VERSION};

verus! {

/// What the batch waits for.
#[derive(Debug, Clone, Copy, PartialEq, Eq, Structural)]
pub enum BatchWait {
    /// The timeline that is to be replaced next, as it stands.
    Timeline,
    /// The replacement.
    Committed,
    /// A timeline that may have been replaced by an earlier try.
    Recovered,
    Nothing,
}

/// What it asks for.
pub enum BatchStep {
    LoadTimeline { key: Vec<u8> },
    Commit { txn: Transaction },
    Done { revisions: Vec<u64> },
    Failed { error: TsoError },
}

/// What it is answered.
pub enum BatchReply {
    Timeline(Result<Option<Found<TimelineRecord>>, String>),
    Committed(Result<TxnReply, String>),
}

/// A replacement of several timelines that is under way.
pub struct TimelineBatchCas {
    pub prefix: String,
    pub operations: Vec<TimelineBatchOp>,
    /// The timelines as they stand, as far as they are loaded.
    pub previous: Vec<TimelineRecord>,
    /// The revisions of the timelines that turned out to be replaced already.
    pub recovered: Vec<u64>,
    pub wait: BatchWait,
}

/// The operation names a timeline that an earlier one names too.
pub open spec fn repeats(operations: Seq<TimelineBatchOp>, at: int) -> bool {
    exists|j: int|
        0 <= j < at && #[trigger] operations[j].timeline_key@ == operations[at].timeline_key@
}

/// Each timeline stands where the batch expects it.
pub open spec fn batch_conditions(
    prefix: Seq<char>,
    operations: Seq<TimelineBatchOp>,
) -> Seq<ConditionView> {
    Seq::new(
        operations.len(),
        |i: int|
            ConditionView::ModRevision {
                key: status_index::record_key(prefix, operations[i].timeline_key@),
                revision: txn::as_store_revision(operations[i].previous_revision),
            },
    )
}

/// Each timeline is written and its index entries are moved.
pub open spec fn batch_operations(
    prefix: Seq<char>,
    operations: Seq<TimelineBatchOp>,
    previous: Seq<TimelineRecord>,
) -> Seq<OperationView>
    decreases operations.len(),
{
    if operations.len() == 0 {
        Seq::empty()
    } else {
        let last = operations.last();
        batch_operations(prefix, operations.drop_last(), previous) + (seq![
            status_index::puts_record(
                status_index::record_key(prefix, last.timeline_key@),
                last.record@,
            ),
        ] + status_index::stale_entries(
            prefix,
            previous[operations.len() - 1]@,
            last.record@,
        ) + status_index::index_puts(prefix, last.record@))
    }
}

/// The transaction that replaces all the timelines.
pub fn batch_txn(
    prefix: &str,
    operations: &Vec<TimelineBatchOp>,
    previous: &Vec<TimelineRecord>,
) -> (txn: Transaction)
    requires
        previous@.len() == operations@.len(),
    ensures
        txn@.conditions == batch_conditions(prefix@, operations@),
        txn@.operations == batch_operations(prefix@, operations@, previous@),
{
    let mut conditions: Vec<Condition> = Vec::new();
    let mut writes: Vec<Operation> = Vec::new();
    let mut i: usize = 0;
    assert(txn::condition_views(conditions@) =~= batch_conditions(prefix@, operations@.take(0)));
    assert(txn::operation_views(writes@) =~= Seq::<OperationView>::empty());
    while i < operations.len()
        invariant
            i <= operations@.len(),
            previous@.len() == operations@.len(),
            txn::condition_views(conditions@) == batch_conditions(
                prefix@,
                operations@.take(i as int),
            ),
            txn::operation_views(writes@) == batch_operations(
                prefix@,
                operations@.take(i as int),
                previous@,
            ),
        decreases operations@.len() - i,
    {
        let operation = &operations[i];
        let key = timeline_key(prefix, operation.timeline_key.as_str());
        let revision: i64 = #[verifier::truncate] (operation.previous_revision as i64);
        let ghost before = txn::operation_views(writes@);
        let ghost earlier = txn::condition_views(conditions@);
        let condition = written_at(key.as_str(), revision);
        conditions.push(condition);
        assert(txn::condition_views(conditions@) =~= earlier.push(condition@));
        proof {
            let now = operations@.take(i + 1);
            assert(now.len() == i + 1);
            assert(earlier.len() == i);
            assert forall|k: int| 0 <= k < i implies #[trigger] earlier[k] == batch_conditions(
                prefix@,
                now,
            )[k] by {
                assert(now[k] == operations@.take(i as int)[k]);
            }
            assert(earlier.push(condition@) =~= batch_conditions(prefix@, now));
        }
        writes.push(put(key.as_str(), Payload::Timeline(operation.record.clone())));
        let ghost written = status_index::puts_record(
            status_index::record_key(prefix@, operation.timeline_key@),
            operation.record@,
        );
        assert(txn::operation_views(writes@) =~= before + seq![written]);
        push_index_replacements(prefix, &previous[i], &operation.record, &mut writes);
        proof {
            let now = operations@.take(i + 1);
            assert(now.drop_last() =~= operations@.take(i as int));
            assert(now.last() == operations@[i as int]);
            let stale = status_index::stale_entries(
                prefix@,
                previous@[i as int]@,
                operation.record@,
            );
            let puts = status_index::index_puts(prefix@, operation.record@);
            assert(before + seq![written] + stale + puts =~= before + (seq![written] + stale
                + puts));
        }
        i = i + 1;
    }
    assert(operations@.take(i as int) =~= operations@);
    Transaction { conditions, operations: writes }
}

/// The operations as they are written.
pub open spec fn stamped_operations(
    given: Seq<TimelineBatchOp>,
    stamped: Seq<TimelineBatchOp>,
) -> bool {
    stamped.len() == given.len() && forall|i: int|
        0 <= i < given.len() ==> (#[trigger] stamped[i]).timeline_key@ == given[i].timeline_key@
            && stamped[i].previous_revision == given[i].previous_revision && stamped[i].record@
            == given[i].record@.stamped()
}

fn stamp_operations(operations: &Vec<TimelineBatchOp>) -> (stamped: Vec<TimelineBatchOp>)
    ensures
        stamped_operations(operations@, stamped@),
{
    let mut stamped: Vec<TimelineBatchOp> = Vec::new();
    let mut i: usize = 0;
    while i < operations.len()
        invariant
            i <= operations@.len(),
            stamped_operations(operations@.take(i as int), stamped@),
        decreases operations@.len() - i,
    {
        stamped.push(
            TimelineBatchOp {
                timeline_key: operations[i].timeline_key.clone(),
                previous_revision: operations[i].previous_revision,
                record: operations[i].record.stamped_for_persistence(),
            },
        );
        i = i + 1;
    }
    assert(operations@.take(i as int) =~= operations@);
    stamped
}

impl TimelineBatchCas {
    pub open spec fn valid(self) -> bool {
        let count = self.operations@.len();
        &&& self.previous@.len() <= count
        &&& self.recovered@.len() <= count
        &&& self.wait == BatchWait::Timeline ==> self.previous@.len() < count
        &&& self.wait == BatchWait::Recovered ==> self.recovered@.len() < count
    }

    /// The reply is one to what the batch waits for.
    pub open spec fn awaits(self, reply: BatchReply) -> bool {
        match self.wait {
            BatchWait::Timeline => reply is Timeline,
            BatchWait::Recovered => reply is Timeline,
            BatchWait::Committed => reply is Committed,
            BatchWait::Nothing => false,
        }
    }

    pub open spec fn same_task(self, other: TimelineBatchCas) -> bool {
        self.prefix == other.prefix && self.operations == other.operations
    }

    pub open spec fn is_failed(self, step: BatchStep) -> bool {
        step is Failed && self.wait == BatchWait::Nothing
    }

    /// It loads the next timeline, refuses one that is named twice, or replaces them all where all
    /// are loaded.
    pub open spec fn goes_on(self, step: BatchStep) -> bool {
        let at = self.previous@.len() as int;
        if at < self.operations@.len() {
            if repeats(self.operations@, at) {
                self.is_failed(step) && step->error == TsoError::CasFailed
            } else {
                &&& self.wait == BatchWait::Timeline
                &&& step matches BatchStep::LoadTimeline { key }
                &&& key@ == status_index::record_key(
                    self.prefix@,
                    self.operations@[at].timeline_key@,
                )
            }
        } else {
            &&& self.wait == BatchWait::Committed
            &&& step matches BatchStep::Commit { txn }
            &&& txn@.conditions == batch_conditions(self.prefix@, self.operations@)
            &&& txn@.operations == batch_operations(
                self.prefix@,
                self.operations@,
                self.previous@,
            )
        }
    }

    /// It looks whether the next timeline was replaced by an earlier try, or is done where all were.
    pub open spec fn goes_on_recovering(self, step: BatchStep) -> bool {
        let at = self.recovered@.len() as int;
        if at < self.operations@.len() {
            &&& self.wait == BatchWait::Recovered
            &&& step matches BatchStep::LoadTimeline { key }
            &&& key@ == status_index::record_key(
                self.prefix@,
                self.operations@[at].timeline_key@,
            )
        } else {
            &&& self.wait == BatchWait::Nothing
            &&& step matches BatchStep::Done { revisions }
            &&& revisions@ == self.recovered@
        }
    }

    fn fail(&mut self, error: TsoError) -> (step: BatchStep)
        requires
            old(self).valid(),
        ensures
            final(self).valid(),
            final(self).same_task(*old(self)),
            final(self).previous == old(self).previous,
            final(self).recovered == old(self).recovered,
            final(self).is_failed(step),
            step == (BatchStep::Failed { error }),
    {
        self.wait = BatchWait::Nothing;
        BatchStep::Failed { error }
    }

    fn go_on(&mut self) -> (step: BatchStep)
        requires
            old(self).valid(),
        ensures
            final(self).valid(),
            final(self).same_task(*old(self)),
            final(self).previous == old(self).previous,
            final(self).recovered == old(self).recovered,
            final(self).goes_on(step),
    {
        let at: usize = self.previous.len();
        if at < self.operations.len() {
            let mut j: usize = 0;
            while j < at
                invariant
                    j <= at,
                    at < self.operations@.len(),
                    at == self.previous@.len(),
                    old(self).valid(),
                    *self == *old(self),
                    forall|k: int|
                        0 <= k < j ==> #[trigger] self.operations@[k].timeline_key@
                            != self.operations@[at as int].timeline_key@,
                decreases at - j,
            {
                if self.operations[j].timeline_key == self.operations[at].timeline_key {
                    assert(repeats(self.operations@, at as int));
                    return self.fail(TsoError::CasFailed);
                }
                j = j + 1;
            }
            let key = timeline_key(
                self.prefix.as_str(),
                self.operations[at].timeline_key.as_str(),
            );
            self.wait = BatchWait::Timeline;
            return BatchStep::LoadTimeline { key: key_bytes(key.as_str()) };
        }
        self.wait = BatchWait::Committed;
        BatchStep::Commit {
            txn: batch_txn(self.prefix.as_str(), &self.operations, &self.previous),
        }
    }

    fn go_on_recovering(&mut self) -> (step: BatchStep)
        requires
            old(self).valid(),
        ensures
            final(self).valid(),
            final(self).same_task(*old(self)),
            final(self).previous == old(self).previous,
            final(self).recovered == old(self).recovered,
            final(self).goes_on_recovering(step),
    {
        let at: usize = self.recovered.len();
        if at < self.operations.len() {
            let key = timeline_key(
                self.prefix.as_str(),
                self.operations[at].timeline_key.as_str(),
            );
            self.wait = BatchWait::Recovered;
            return BatchStep::LoadTimeline { key: key_bytes(key.as_str()) };
        }
        self.wait = BatchWait::Nothing;
        let mut revisions: Vec<u64> = Vec::new();
        let mut i: usize = 0;
        while i < self.recovered.len()
            invariant
                i <= self.recovered@.len(),
                revisions@ == self.recovered@.take(i as int),
            decreases self.recovered@.len() - i,
        {
            revisions.push(self.recovered[i]);
            i = i + 1;
            assert(self.recovered@.take(i as int) =~= self.recovered@.take(i - 1).push(
                self.recovered@[i - 1],
            ));
        }
        assert(self.recovered@.take(i as int) =~= self.recovered@);
        BatchStep::Done { revisions }
    }

    /// Begins to replace timelines. Every record must have the current schema.
    pub fn start(prefix: &str, operations: &Vec<TimelineBatchOp>) -> (begun: (Self, BatchStep))
        ensures
            begun.0.valid(),
            begun.0.prefix@ == prefix@,
            if exists|i: int|
                0 <= i < operations@.len() && (#[trigger] operations@[i]).record.schema_version
                    != CURRENT_METADATA_SCHEMA_VERSION {
                begun.0.is_failed(begun.1) && exists|i: int|
                    0 <= i < operations@.len() && (#[trigger] operations@[i]).record.schema_version
                        != CURRENT_METADATA_SCHEMA_VERSION && begun.1->error.is_internal(
                        types::unsupported_schema(
                            "timeline"@,
                            operations@[i].record.schema_version,
                        ),
                    ) && (forall|k: int|
                        0 <= k < i ==> (#[trigger] operations@[k]).record.schema_version
                            == CURRENT_METADATA_SCHEMA_VERSION)
            } else {
                &&& stamped_operations(operations@, begun.0.operations@)
                &&& begun.0.previous@.len() == 0
                &&& begun.0.recovered@.len() == 0
                &&& if operations@.len() == 0 {
                    begun.1 matches BatchStep::Done { revisions } && revisions@.len() == 0
                        && begun.0.wait == BatchWait::Nothing
                } else {
                    begun.0.goes_on(begun.1)
                }
            },
    {
        let mut run = TimelineBatchCas {
            prefix: prefix.to_owned(),
            operations: Vec::new(),
            previous: Vec::new(),
            recovered: Vec::new(),
            wait: BatchWait::Nothing,
        };
        let mut i: usize = 0;
        while i < operations.len()
            invariant
                i <= operations@.len(),
                run.valid(),
                run.prefix@ == prefix@,
                forall|k: int|
                    0 <= k < i ==> (#[trigger] operations@[k]).record.schema_version
                        == CURRENT_METADATA_SCHEMA_VERSION,
            decreases operations@.len() - i,
        {
            match operations[i].record.validate_schema_version() {
                Ok(()) => {},
                Err(error) => {
                    assert(operations@[i as int].record.schema_version
                        != CURRENT_METADATA_SCHEMA_VERSION);
                    let step = run.fail(error);
                    return (run, step);
                },
            }
            i = i + 1;
        }
        let mut run = TimelineBatchCas {
            prefix: prefix.to_owned(),
            operations: stamp_operations(operations),
            previous: Vec::new(),
            recovered: Vec::new(),
            wait: BatchWait::Nothing,
        };
        if run.operations.len() == 0 {
            return (run, BatchStep::Done { revisions: Vec::new() });
        }
        let step = run.go_on();
        (run, step)
    }

    /// What a timeline that was loaded before the replacement comes to.
    pub open spec fn takes_timeline(
        self,
        before: TimelineBatchCas,
        reply: Result<Option<Found<TimelineRecord>>, String>,
        step: BatchStep,
    ) -> bool {
        let operation = before.operations@[before.previous@.len() as int];
        exists|loaded: Result<Option<(TimelineRecord, u64)>, TsoError>|
            #[trigger] json::loads_timeline(reply, loaded) && match loaded {
                Err(error) => self.is_failed(step) && step->error == error,
                Ok(None) => self.is_failed(step) && step->error.is_not_found(
                    operation.timeline_key@,
                ),
                Ok(Some((record, revision))) => if revision != operation.previous_revision {
                    self.is_failed(step) && step->error == TsoError::CasFailed
                } else {
                    &&& self.previous@ == before.previous@.push(record)
                    &&& self.recovered == before.recovered
                    &&& self.goes_on(step)
                },
            }
    }

    /// What a timeline that was loaded after a refusal comes to.
    pub open spec fn takes_recovered(
        self,
        before: TimelineBatchCas,
        reply: Result<Option<Found<TimelineRecord>>, String>,
        step: BatchStep,
    ) -> bool {
        let operation = before.operations@[before.recovered@.len() as int];
        exists|loaded: Result<Option<(TimelineRecord, u64)>, TsoError>|
            #[trigger] json::loads_timeline(reply, loaded) && match loaded {
                Err(error) => self.is_failed(step) && step->error == error,
                Ok(None) => self.is_failed(step) && step->error == TsoError::CasFailed,
                Ok(Some((existing, revision))) => if existing@ != operation.record@ {
                    self.is_failed(step) && step->error == TsoError::CasFailed
                } else {
                    &&& self.recovered@ == before.recovered@.push(revision)
                    &&& self.goes_on_recovering(step)
                },
            }
    }

    /// What the answer to the replacement comes to. A refusal is looked into: an earlier try may
    /// have gone through unnoticed.
    pub open spec fn takes_commit(
        self,
        before: TimelineBatchCas,
        reply: Result<TxnReply, String>,
        step: BatchStep,
    ) -> bool {
        if reply matches Ok(answer) && !answer.succeeded {
            &&& self.recovered == before.recovered
            &&& self.goes_on_recovering(step)
        } else {
            &&& self.wait == BatchWait::Nothing
            &&& exists|result: Result<Vec<u64>, TsoError>|
                #[trigger] txn::replaced_together(
                    reply,
                    before.operations@.len(),
                    "Etcd batch txn failed"@,
                    "invalid batch txn response"@,
                    result,
                ) && match result {
                    Ok(revisions) => step == (BatchStep::Done { revisions }),
                    Err(error) => step == (BatchStep::Failed { error }),
                }
        }
    }

    /// Takes a reply and says what to ask for next.
    pub fn on_reply(&mut self, reply: BatchReply) -> (step: BatchStep)
        requires
            old(self).valid(),
            old(self).awaits(reply),
        ensures
            final(self).valid(),
            final(self).same_task(*old(self)),
            match reply {
                BatchReply::Timeline(found) => if old(self).wait == BatchWait::Timeline {
                    final(self).takes_timeline(*old(self), found, step)
                } else {
                    final(self).takes_recovered(*old(self), found, step)
                },
                BatchReply::Committed(answer) => final(self).takes_commit(
                    *old(self),
                    answer,
                    step,
                ),
            },
    {
        match reply {
            BatchReply::Timeline(found) => {
                let loaded = load_timeline(found);
                assert(json::loads_timeline(found, loaded));
                if self.wait == BatchWait::Timeline {
                    let at: usize = self.previous.len();
                    match loaded {
                        Err(error) => self.fail(error),
                        Ok(None) => {
                            let error = timeline_not_found(
                                self.operations[at].timeline_key.as_str(),
                            );
                            self.fail(error)
                        },
                        Ok(Some((record, revision))) => {
                            if revision != self.operations[at].previous_revision {
                                return self.fail(TsoError::CasFailed);
                            }
                            self.wait = BatchWait::Nothing;
                            self.previous.push(record);
                            self.go_on()
                        },
                    }
                } else {
                    let at: usize = self.recovered.len();
                    match loaded {
                        Err(error) => self.fail(error),
                        Ok(existing) => match recovered_revision(
                            &self.operations[at].record,
                            existing,
                        ) {
                            Err(error) => self.fail(error),
                            Ok(revision) => {
                                self.wait = BatchWait::Nothing;
                                self.recovered.push(revision);
                                self.go_on_recovering()
                            },
                        },
                    }
                }
            },
            BatchReply::Committed(answer) => {
                let refused = match &answer {
                    Ok(reply) => !reply.succeeded,
                    Err(_) => false,
                };
                if refused {
                    return self.go_on_recovering();
                }
                self.wait = BatchWait::Nothing;
                let count: usize = self.operations.len();
                let result = cas_batch_result(
                    answer,
                    count,
                    "Etcd batch txn failed",
                    "invalid batch txn response",
                );
                assert(txn::replaced_together(
                    answer,
                    count as nat,
                    "Etcd batch txn failed"@,
                    "invalid batch txn response"@,
                    result,
                ));
                match result {
                    Ok(revisions) => BatchStep::Done { revisions },
                    Err(error) => BatchStep::Failed { error },
                }
            },
        }
    }
}

/// Each timeline of a batch is loaded before anything is written, in the order of the batch, and a
/// batch that names a timeline twice is refused as soon as it comes to the second time.
pub proof fn batches_name_each_timeline_once(run: TimelineBatchCas, step: BatchStep)
    requires
        run.goes_on(step),
    ensures
        run.previous@.len() >= run.operations@.len() <==> step is Commit,
        run.previous@.len() < run.operations@.len() ==> {
            let at = run.previous@.len() as int;
            &&& step is LoadTimeline <==> forall|j: int|
                0 <= j < at ==> (#[trigger] run.operations@[j]).timeline_key@
                    != run.operations@[at].timeline_key@
            &&& step is LoadTimeline <==> step !is Failed
            &&& step matches BatchStep::Failed { error } ==> error == TsoError::CasFailed
            &&& step matches BatchStep::LoadTimeline { key } ==> key@ == status_index::record_key(
                run.prefix@,
                run.operations@[at].timeline_key@,
            )
        },
{
}

} // verus!
