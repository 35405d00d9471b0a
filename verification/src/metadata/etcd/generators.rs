//! Generator records: loading many, scanning all, and replacing several at once.

use std::collections::HashMap;

use vstd::prelude::*;
use vstd::slice::*;
use vstd::utf8::*;

use crate::error::TsoError;
use crate::metadata::etcd::listing::RangeQuery;
use crate::metadata::etcd::ranges;
use crate::metadata::etcd::ranges::{next_etcd_key_after, prefix_range_end};
use crate::metadata::etcd::txn;
use crate::metadata::etcd::txn::{
    cas_batch_result, cas_result, create_result, guarded, key_bytes, put, reported, written_at,
    Condition, ConditionView, Operation, OperationView, Payload, PayloadView, Transaction, TxnReply,
};
use crate::metadata::keys;
use crate::metadata::keys::{generator_key, generator_prefix};
use crate::metadata::types;
use crate::metadata::types::{
    GeneratorBatchOp, GeneratorRecord, GeneratorRecordView, CURRENT_METADATA_SCHEMA_VERSION,
};

verus! {

broadcast use vstd::std_specs::hash::group_hash_axioms;

/// How many generators are loaded in one step.
pub const GENERATOR_BATCH_GET_CHUNK_SIZE: usize = 64;

/// How many generators are scanned in one step.
pub const GENERATOR_SCAN_BATCH_RECORDS: usize = 128;

/// The key of a generator, as bytes.
pub open spec fn record_key(prefix: Seq<char>, generator_id: u32) -> Seq<u8> {
    encode_utf8(keys::generator_key_text(prefix, generator_id))
}

/// What writes a generator record.
pub open spec fn puts_generator(
    prefix: Seq<char>,
    generator_id: u32,
    record: GeneratorRecordView,
) -> OperationView {
    OperationView::Put {
        key: record_key(prefix, generator_id),
        value: PayloadView::Generator(record.stamped()),
        lease: None,
    }
}

/// The transaction that writes a generator record that was last written at a revision, or the
/// refusal of a record of another schema.
pub open spec fn writes_generator(
    prefix: Seq<char>,
    generator_id: u32,
    revision: i64,
    record: GeneratorRecord,
    result: Result<Transaction, TsoError>,
) -> bool {
    match result {
        Ok(txn) => {
            &&& record.schema_version == CURRENT_METADATA_SCHEMA_VERSION
            &&& txn@.conditions == seq![
                ConditionView::ModRevision { key: record_key(prefix, generator_id), revision },
            ]
            &&& txn@.operations == seq![puts_generator(prefix, generator_id, record@)]
        },
        Err(error) => record.schema_version != CURRENT_METADATA_SCHEMA_VERSION
            && error.is_internal(types::unsupported_schema("generator"@, record.schema_version)),
    }
}

fn write_generator_txn(
    prefix: &str,
    generator_id: u32,
    revision: i64,
    record: &GeneratorRecord,
) -> (result: Result<Transaction, TsoError>)
    ensures
        writes_generator(prefix@, generator_id, revision, *record, result),
{
    match record.validate_schema_version() {
        Ok(()) => {},
        Err(error) => {
            return Err(error);
        },
    }
    let key = generator_key(prefix, generator_id);
    Ok(
        guarded(
            written_at(key.as_str(), revision),
            put(key.as_str(), Payload::Generator(record.stamped_for_persistence())),
        ),
    )
}

/// The transaction that creates a generator record.
pub fn create_generator_txn(prefix: &str, generator_id: u32, record: &GeneratorRecord) -> (result:
    Result<Transaction, TsoError>)
    ensures
        writes_generator(prefix@, generator_id, 0, *record, result),
{
    write_generator_txn(prefix, generator_id, 0, record)
}

/// The transaction that replaces a generator record.
pub fn compare_exchange_generator_txn(
    prefix: &str,
    generator_id: u32,
    expected_revision: u64,
    record: &GeneratorRecord,
) -> (result: Result<Transaction, TsoError>)
    ensures
        writes_generator(
            prefix@,
            generator_id,
            txn::as_store_revision(expected_revision),
            *record,
            result,
        ),
{
    write_generator_txn(
        prefix,
        generator_id,
        #[verifier::truncate] (expected_revision as i64),
        record,
    )
}

// ---- replacing several ----

/// The first operation whose record has another schema.
pub open spec fn refuses_at(operations: Seq<GeneratorBatchOp>, i: int, error: TsoError) -> bool {
    &&& 0 <= i < operations.len()
    &&& operations[i].record.schema_version != CURRENT_METADATA_SCHEMA_VERSION
    &&& forall|k: int|
        0 <= k < i ==> (#[trigger] operations[k]).record.schema_version
            == CURRENT_METADATA_SCHEMA_VERSION
    &&& error.is_internal(
        types::unsupported_schema("generator"@, operations[i].record.schema_version),
    )
}

/// Every generator stands where the batch expects it.
pub open spec fn batch_conditions(
    prefix: Seq<char>,
    operations: Seq<GeneratorBatchOp>,
) -> Seq<ConditionView> {
    Seq::new(
        operations.len(),
        |i: int|
            ConditionView::ModRevision {
                key: record_key(prefix, operations[i].generator_id),
                revision: txn::as_store_revision(operations[i].previous_revision),
            },
    )
}

/// Every generator is written.
pub open spec fn batch_operations(
    prefix: Seq<char>,
    operations: Seq<GeneratorBatchOp>,
) -> Seq<OperationView> {
    Seq::new(
        operations.len(),
        |i: int| puts_generator(prefix, operations[i].generator_id, operations[i].record@),
    )
}

/// What replacing several generators begins with: nothing is asked of the store for no operations.
pub open spec fn begins_batch(
    prefix: Seq<char>,
    operations: Seq<GeneratorBatchOp>,
    result: Result<Option<Transaction>, TsoError>,
) -> bool {
    match result {
        Err(error) => exists|i: int| #[trigger] refuses_at(operations, i, error),
        Ok(None) => operations.len() == 0,
        Ok(Some(txn)) => {
            &&& operations.len() > 0
            &&& forall|i: int|
                0 <= i < operations.len() ==> (#[trigger] operations[i]).record.schema_version
                    == CURRENT_METADATA_SCHEMA_VERSION
            &&& txn@.conditions == batch_conditions(prefix, operations)
            &&& txn@.operations == batch_operations(prefix, operations)
        },
    }
}

/// The result of creating a generator.
pub fn create_generator_result(reply: Result<TxnReply, String>) -> (result: Result<u64, TsoError>)
    ensures
        txn::created(
            reply,
            "Etcd generator txn failed"@,
            "invalid generator txn response"@,
            result,
        ),
{
    create_result(reply, "Etcd generator txn failed", "invalid generator txn response")
}

/// The result of replacing a generator.
pub fn compare_exchange_generator_result(reply: Result<TxnReply, String>) -> (result: Result<
    u64,
    TsoError,
>)
    ensures
        txn::replaced(
            reply,
            "Etcd generator txn failed"@,
            "invalid generator txn response"@,
            result,
        ),
{
    cas_result(reply, "Etcd generator txn failed", "invalid generator txn response")
}

/// The transaction that replaces several generator records, all or none.
pub fn compare_exchange_generators_txn(prefix: &str, operations: &[GeneratorBatchOp]) -> (result:
    Result<Option<Transaction>, TsoError>)
    ensures
        begins_batch(prefix@, operations@, result),
{
    let mut i: usize = 0;
    while i < operations.len()
        invariant
            i <= operations@.len(),
            forall|k: int|
                0 <= k < i ==> (#[trigger] operations@[k]).record.schema_version
                    == CURRENT_METADATA_SCHEMA_VERSION,
        decreases operations@.len() - i,
    {
        match operations[i].record.validate_schema_version() {
            Ok(()) => {},
            Err(error) => {
                assert(refuses_at(operations@, i as int, error));
                return Err(error);
            },
        }
        i = i + 1;
    }
    if operations.len() == 0 {
        return Ok(None);
    }
    let mut conditions: Vec<Condition> = Vec::new();
    let mut writes: Vec<Operation> = Vec::new();
    let mut j: usize = 0;
    while j < operations.len()
        invariant
            j <= operations@.len(),
            conditions@.len() == j,
            writes@.len() == j,
            forall|k: int|
                0 <= k < j ==> (#[trigger] conditions@[k])@ == batch_conditions(
                    prefix@,
                    operations@,
                )[k],
            forall|k: int|
                0 <= k < j ==> (#[trigger] writes@[k])@ == batch_operations(
                    prefix@,
                    operations@,
                )[k],
        decreases operations@.len() - j,
    {
        let operation = &operations[j];
        let key = generator_key(prefix, operation.generator_id);
        conditions.push(
            written_at(
                key.as_str(),
                #[verifier::truncate] (operation.previous_revision as i64),
            ),
        );
        writes.push(
            put(key.as_str(), Payload::Generator(operation.record.stamped_for_persistence())),
        );
        j = j + 1;
    }
    let txn = Transaction { conditions, operations: writes };
    assert(txn@.conditions =~= batch_conditions(prefix@, operations@));
    assert(txn@.operations =~= batch_operations(prefix@, operations@));
    Ok(Some(txn))
}

/// The result of replacing several generator records.
pub fn compare_exchange_generators_result(reply: Result<TxnReply, String>, count: usize) -> (
    result: Result<Vec<u64>, TsoError>)
    ensures
        txn::replaced_together(
            reply,
            count as nat,
            "Etcd generator batch txn failed"@,
            "invalid generator batch txn response"@,
            result,
        ),
{
    cas_batch_result(
        reply,
        count,
        "Etcd generator batch txn failed",
        "invalid generator batch txn response",
    )
}

// ---- loading many ----

/// What the store answers to one lookup of a batch.
pub enum BatchGetAnswer {
    /// Not an answer to a lookup.
    Other,
    /// Nothing stands under the key.
    Missing,
    /// What stands under the key decodes to a record, or does not.
    Present(Result<GeneratorRecord, String>),
}

/// The answer stops the loading.
pub open spec fn answer_faulty(answer: BatchGetAnswer) -> bool {
    match answer {
        BatchGetAnswer::Other => true,
        BatchGetAnswer::Missing => false,
        BatchGetAnswer::Present(Err(_)) => true,
        BatchGetAnswer::Present(Ok(record)) => record.schema_version
            != CURRENT_METADATA_SCHEMA_VERSION,
    }
}

/// Why it does.
pub open spec fn answer_fault(answer: BatchGetAnswer, error: TsoError) -> bool {
    match answer {
        BatchGetAnswer::Other => error.is_internal("invalid generator batch get txn response"@),
        BatchGetAnswer::Missing => false,
        BatchGetAnswer::Present(Err(report)) => txn::is_reported(
            error,
            "Generator record batch deserialization failed"@,
            report@,
        ),
        BatchGetAnswer::Present(Ok(record)) => error.is_internal(
            types::unsupported_schema("generator"@, record.schema_version),
        ),
    }
}

/// The first answer that stops the loading, among those that answer a lookup.
pub open spec fn answers_stop(
    answers: Seq<BatchGetAnswer>,
    asked: nat,
    i: int,
    error: TsoError,
) -> bool {
    &&& 0 <= i < answers.len() && i < asked
    &&& answer_faulty(answers[i]) && answer_fault(answers[i], error)
    &&& forall|k: int| 0 <= k < i ==> !answer_faulty(#[trigger] answers[k])
}

pub type LoadedGenerators = Map<u32, Option<GeneratorRecord>>;

/// What is loaded once the first `count` answers are taken.
pub open spec fn with_answers(
    loaded: LoadedGenerators,
    ids: Seq<u32>,
    answers: Seq<BatchGetAnswer>,
    count: nat,
) -> LoadedGenerators
    decreases count,
{
    if count == 0 {
        loaded
    } else {
        let before = with_answers(loaded, ids, answers, (count - 1) as nat);
        match answers[count - 1] {
            BatchGetAnswer::Present(Ok(record)) => before.insert(ids[count - 1], Some(record)),
            _ => before,
        }
    }
}

/// What the loading asks for.
pub enum GeneratorLoadStep {
    Commit { txn: Transaction },
    Done { loaded: HashMap<u32, Option<GeneratorRecord>> },
    Failed { error: TsoError },
}

/// A loading of many generators that is under way.
pub struct GeneratorLoading {
    pub prefix: String,
    /// The generators to load, each once.
    pub ids: Vec<u32>,
    /// Where the generators start that are asked for now.
    pub next: usize,
    pub loaded: HashMap<u32, Option<GeneratorRecord>>,
}

/// The lookups of some generators.
pub open spec fn lookups(prefix: Seq<char>, ids: Seq<u32>) -> Seq<OperationView> {
    Seq::new(ids.len(), |i: int| OperationView::Get { key: record_key(prefix, ids[i]) })
}

impl GeneratorLoading {
    pub open spec fn valid(self) -> bool {
        self.next < self.ids@.len()
    }

    /// Where the generators end that are asked for now.
    pub open spec fn chunk_end(self) -> int {
        if self.ids@.len() - self.next > GENERATOR_BATCH_GET_CHUNK_SIZE {
            self.next + GENERATOR_BATCH_GET_CHUNK_SIZE
        } else {
            self.ids@.len() as int
        }
    }

    pub open spec fn chunk(self) -> Seq<u32> {
        self.ids@.subrange(self.next as int, self.chunk_end())
    }

    pub open spec fn asks(self, step: GeneratorLoadStep) -> bool {
        &&& step matches GeneratorLoadStep::Commit { txn }
        &&& txn@.conditions == Seq::<ConditionView>::empty()
        &&& txn@.operations == lookups(self.prefix@, self.chunk())
    }

    fn end_of_chunk(&self) -> (end: usize)
        requires
            self.valid(),
        ensures
            end == self.chunk_end(),
    {
        if self.ids.len() - self.next > GENERATOR_BATCH_GET_CHUNK_SIZE {
            self.next + GENERATOR_BATCH_GET_CHUNK_SIZE
        } else {
            self.ids.len()
        }
    }

    fn ask(&self) -> (step: GeneratorLoadStep)
        requires
            self.valid(),
        ensures
            self.asks(step),
    {
        let end = self.end_of_chunk();
        let mut operations: Vec<Operation> = Vec::new();
        let mut i: usize = self.next;
        while i < end
            invariant
                self.valid(),
                self.next <= i <= end,
                end == self.chunk_end(),
                operations@.len() == i - self.next,
                forall|k: int|
                    0 <= k < operations@.len() ==> (#[trigger] operations@[k])@ == (
                    OperationView::Get { key: record_key(self.prefix@, self.ids@[self.next + k]) }),
            decreases end - i,
        {
            let key = generator_key(self.prefix.as_str(), self.ids[i]);
            operations.push(Operation::Get { key: key_bytes(key.as_str()) });
            i = i + 1;
        }
        let txn = Transaction { conditions: Vec::new(), operations };
        assert(txn@.conditions =~= Seq::<ConditionView>::empty());
        assert(txn@.operations =~= lookups(self.prefix@, self.chunk()));
        GeneratorLoadStep::Commit { txn }
    }

    /// Every generator that is asked for starts without a record, and is asked for once.
    pub open spec fn begins(self, generator_ids: Seq<u32>) -> bool {
        &&& forall|id: u32| #[trigger] self.loaded@.contains_key(id) <==> generator_ids.contains(id)
        &&& forall|id: u32| #[trigger]
            self.loaded@.contains_key(id) ==> self.loaded@[id] is None
        &&& forall|id: u32| #[trigger] self.ids@.contains(id) <==> generator_ids.contains(id)
        &&& self.ids@.no_duplicates()
        &&& self.next == 0
    }

    /// Begins to load generators.
    pub fn start(prefix: &str, generator_ids: &[u32]) -> (begun: (Self, GeneratorLoadStep))
        ensures
            begun.0.prefix@ == prefix@,
            begun.0.ids@.len() > 0 ==> begun.0.begins(generator_ids@),
            if generator_ids@.len() == 0 {
                begun.1 matches GeneratorLoadStep::Done { loaded } && loaded@ == Map::<
                    u32,
                    Option<GeneratorRecord>,
                >::empty()
            } else {
                begun.0.begins(generator_ids@) && begun.0.valid() && begun.0.asks(begun.1)
            },
    {
        let mut loaded: HashMap<u32, Option<GeneratorRecord>> = HashMap::new();
        let mut ids: Vec<u32> = Vec::new();
        let mut i: usize = 0;
        while i < generator_ids.len()
            invariant
                i <= generator_ids@.len(),
                i > 0 ==> ids@.len() > 0,
                forall|id: u32| #[trigger]
                    loaded@.contains_key(id) <==> generator_ids@.take(i as int).contains(id),
                forall|id: u32| #[trigger] loaded@.contains_key(id) ==> loaded@[id] is None,
                forall|id: u32| #[trigger] ids@.contains(id) <==> loaded@.contains_key(id),
                ids@.no_duplicates(),
                i == 0 ==> loaded@ == Map::<u32, Option<GeneratorRecord>>::empty(),
            decreases generator_ids@.len() - i,
        {
            let id: u32 = generator_ids[i];
            let ghost known = ids@;
            proof {
                let before = generator_ids@.take(i as int);
                let after = generator_ids@.take(i + 1);
                assert(after =~= before.push(id));
                assert forall|other: u32| #[trigger] after.contains(other) <==> before.contains(
                    other,
                ) || other == id by {
                    if before.contains(other) {
                        let k = choose|k: int| 0 <= k < before.len() && before[k] == other;
                        assert(after[k] == other);
                    }
                    if other == id {
                        assert(after[i as int] == other);
                    }
                }
            }
            if !loaded.contains_key(&id) {
                assert(!known.contains(id));
                loaded.insert(id, None);
                ids.push(id);
                assert forall|other: u32| #[trigger] ids@.contains(other) <==> known.contains(other)
                    || other == id by {
                    if known.contains(other) {
                        let k = choose|k: int| 0 <= k < known.len() && known[k] == other;
                        assert(ids@[k] == other);
                    }
                    if other == id {
                        assert(ids@[known.len() as int] == other);
                    }
                }
                assert forall|a: int, b: int|
                    0 <= a < ids@.len() && 0 <= b < ids@.len() && a != b implies ids@[a]
                    != ids@[b] by {
                    if a == known.len() {
                        assert(ids@[b] == known[b] && known.contains(known[b]));
                    } else if b == known.len() {
                        assert(ids@[a] == known[a] && known.contains(known[a]));
                    } else {
                        assert(ids@[a] == known[a] && ids@[b] == known[b]);
                    }
                }
            } else {
                assert(known.contains(id));
            }
            i = i + 1;
        }
        assert(generator_ids@.take(i as int) =~= generator_ids@);
        let loading = GeneratorLoading { prefix: prefix.to_owned(), ids, next: 0, loaded };
        if generator_ids.len() == 0 {
            return (loading, GeneratorLoadStep::Done { loaded: HashMap::new() });
        }
        let step = loading.ask();
        (loading, step)
    }

    /// How many of the answers answer a lookup.
    pub open spec fn answered(self, answers: Seq<BatchGetAnswer>) -> nat {
        if answers.len() < self.chunk().len() {
            answers.len()
        } else {
            self.chunk().len()
        }
    }

    /// What is loaded once all the answers are taken.
    pub open spec fn loaded_with(self, answers: Seq<BatchGetAnswer>) -> LoadedGenerators {
        with_answers(self.loaded@, self.chunk(), answers, self.answered(answers))
    }

    /// What answers come to: the loading stops at a faulty one, ends after the last generators, and
    /// asks for the next ones otherwise.
    pub open spec fn advances(
        self,
        before: GeneratorLoading,
        answers: Seq<BatchGetAnswer>,
        step: GeneratorLoadStep,
    ) -> bool {
        ||| (step matches GeneratorLoadStep::Failed { error } && exists|i: int|
            #[trigger] answers_stop(answers, before.chunk().len(), i, error))
        ||| {
            &&& forall|k: int|
                0 <= k < before.answered(answers) ==> !answer_faulty(#[trigger] answers[k])
            &&& if before.chunk_end() == before.ids@.len() {
                step matches GeneratorLoadStep::Done { loaded } && loaded@ == before.loaded_with(
                    answers,
                )
            } else {
                &&& self.valid() && self.prefix == before.prefix && self.ids == before.ids
                &&& self.next == before.chunk_end()
                &&& self.loaded@ == before.loaded_with(answers)
                &&& self.asks(step)
            }
        }
    }

    /// Takes the answers and says what to do next.
    pub fn on_reply(&mut self, reply: Result<Vec<BatchGetAnswer>, String>) -> (step:
        GeneratorLoadStep)
        requires
            old(self).valid(),
        ensures
            match reply {
                Err(report) => step matches GeneratorLoadStep::Failed { error } && txn::is_reported(
                    error,
                    "Etcd get_generator_batch failed"@,
                    report@,
                ),
                Ok(answers) => final(self).advances(*old(self), answers@, step),
            },
    {
        match reply {
            Err(report) => GeneratorLoadStep::Failed {
                error: reported("Etcd get_generator_batch failed", report.as_str()),
            },
            Ok(answers) => self.take_answers(&answers),
        }
    }

    fn take_answers(&mut self, answers: &Vec<BatchGetAnswer>) -> (step: GeneratorLoadStep)
        requires
            old(self).valid(),
        ensures
            final(self).advances(*old(self), answers@, step),
    {
        let end = self.end_of_chunk();
        let asked: usize = end - self.next;
        let mut i: usize = 0;
        while i < asked && i < answers.len()
            invariant
                old(self).valid(),
                i <= asked,
                i <= answers@.len(),
                asked == old(self).chunk().len(),
                end == old(self).chunk_end(),
                end == old(self).next + asked,
                self.prefix == old(self).prefix,
                self.ids == old(self).ids,
                self.next == old(self).next,
                forall|k: int| 0 <= k < i ==> !answer_faulty(#[trigger] answers@[k]),
                self.loaded@ == with_answers(
                    old(self).loaded@,
                    old(self).chunk(),
                    answers@,
                    i as nat,
                ),
            decreases asked - i,
        {
            let id: u32 = self.ids[self.next + i];
            assert(id == old(self).chunk()[i as int]);
            match &answers[i] {
                BatchGetAnswer::Other => {
                    let error = TsoError::Internal(
                        "invalid generator batch get txn response".to_owned(),
                    );
                    assert(answers_stop(answers@, asked as nat, i as int, error));
                    return GeneratorLoadStep::Failed { error };
                },
                BatchGetAnswer::Missing => {},
                BatchGetAnswer::Present(Err(report)) => {
                    let error = reported(
                        "Generator record batch deserialization failed",
                        report.as_str(),
                    );
                    assert(answers_stop(answers@, asked as nat, i as int, error));
                    return GeneratorLoadStep::Failed { error };
                },
                BatchGetAnswer::Present(Ok(record)) => {
                    match record.validate_schema_version() {
                        Ok(()) => {},
                        Err(error) => {
                            assert(answers_stop(answers@, asked as nat, i as int, error));
                            return GeneratorLoadStep::Failed { error };
                        },
                    }
                    self.loaded.insert(id, Some(record.clone()));
                },
            }
            i = i + 1;
        }
        assert(i == old(self).answered(answers@));
        if end == self.ids.len() {
            let mut loaded: HashMap<u32, Option<GeneratorRecord>> = HashMap::new();
            std::mem::swap(&mut loaded, &mut self.loaded);
            GeneratorLoadStep::Done { loaded }
        } else {
            self.next = end;
            self.ask()
        }
    }
}

// ---- scanning all ----

/// A row of generators.
#[derive(Debug)]
pub struct GeneratorRow {
    pub key: Vec<u8>,
    pub record: Result<GeneratorRecord, String>,
}

pub open spec fn row_faulty(row: GeneratorRow) -> bool {
    match row.record {
        Err(_) => true,
        Ok(record) => record.schema_version != CURRENT_METADATA_SCHEMA_VERSION,
    }
}

/// The first row that stops the scan, and why.
pub open spec fn rows_stop(rows: Seq<GeneratorRow>, i: int, error: TsoError) -> bool {
    &&& 0 <= i < rows.len()
    &&& row_faulty(rows[i])
    &&& match rows[i].record {
        Err(report) => txn::is_reported(
            error,
            "Generator record scan deserialization failed"@,
            report@,
        ),
        Ok(record) => error.is_internal(
            types::unsupported_schema("generator"@, record.schema_version),
        ),
    }
    &&& forall|k: int| 0 <= k < i ==> !row_faulty(#[trigger] rows[k])
}

/// What the scan asks for.
pub enum GeneratorScanStep {
    Scan { query: RangeQuery },
    Done { records: Vec<GeneratorRecord> },
    Failed { error: TsoError },
}

/// A scan of all generators that is under way.
pub struct GeneratorScan {
    pub start: Vec<u8>,
    pub end: Vec<u8>,
    pub records: Vec<GeneratorRecord>,
}

impl GeneratorScan {
    pub open spec fn scans(self, step: GeneratorScanStep) -> bool {
        &&& step matches GeneratorScanStep::Scan { query }
        &&& query.start@ == self.start@
        &&& query.end@ == self.end@
        &&& query.limit == GENERATOR_SCAN_BATCH_RECORDS
    }

    fn scan(&self) -> (step: GeneratorScanStep)
        ensures
            self.scans(step),
    {
        GeneratorScanStep::Scan {
            query: RangeQuery {
                start: slice_to_vec(self.start.as_slice()),
                end: slice_to_vec(self.end.as_slice()),
                limit: GENERATOR_SCAN_BATCH_RECORDS as i64,
            },
        }
    }

    /// Begins a scan.
    pub fn start(prefix: &str) -> (begun: (Self, GeneratorScanStep))
        ensures
            begun.0.start@ == encode_utf8(keys::generator_prefix_text(prefix@)),
            begun.0.end@ == ranges::range_end(encode_utf8(keys::generator_prefix_text(prefix@))),
            begun.0.records@.len() == 0,
            begun.0.scans(begun.1),
    {
        let first = generator_prefix(prefix);
        let scan = GeneratorScan {
            start: key_bytes(first.as_str()),
            end: prefix_range_end(first.as_str()),
            records: Vec::new(),
        };
        let step = scan.scan();
        (scan, step)
    }

    /// What rows come to: the scan ends where there are none, stops at a faulty one, and goes on
    /// behind the last one otherwise.
    pub open spec fn advances(
        self,
        before: GeneratorScan,
        rows: Seq<GeneratorRow>,
        step: GeneratorScanStep,
    ) -> bool {
        if rows.len() == 0 {
            step matches GeneratorScanStep::Done { records } && records@ == before.records@
        } else {
            ||| (step matches GeneratorScanStep::Failed { error } && exists|i: int|
                #[trigger] rows_stop(rows, i, error))
            ||| {
                &&& forall|k: int| 0 <= k < rows.len() ==> !row_faulty(#[trigger] rows[k])
                &&& self.records@ == before.records@ + Seq::new(
                    rows.len(),
                    |k: int| rows[k].record->Ok_0,
                )
                &&& self.start@ == ranges::key_after(rows.last().key@)
                &&& self.end == before.end
                &&& self.scans(step)
            }
        }
    }

    /// Takes the rows that were read and says what to do next.
    pub fn on_rows(&mut self, read: Result<Vec<GeneratorRow>, String>) -> (step: GeneratorScanStep)
        ensures
            match read {
                Err(report) => step matches GeneratorScanStep::Failed { error } && txn::is_reported(
                    error,
                    "Etcd scan_generators failed"@,
                    report@,
                ),
                Ok(rows) => final(self).advances(*old(self), rows@, step),
            },
    {
        match read {
            Err(report) => GeneratorScanStep::Failed {
                error: reported("Etcd scan_generators failed", report.as_str()),
            },
            Ok(rows) => self.take_rows(&rows),
        }
    }

    fn take_rows(&mut self, rows: &Vec<GeneratorRow>) -> (step: GeneratorScanStep)
        ensures
            final(self).advances(*old(self), rows@, step),
    {
        if rows.len() == 0 {
            let mut records: Vec<GeneratorRecord> = Vec::new();
            std::mem::swap(&mut records, &mut self.records);
            return GeneratorScanStep::Done { records };
        }
        let mut i: usize = 0;
        assert(self.records@ =~= old(self).records@ + Seq::new(
            0,
            |k: int| rows@[k].record->Ok_0,
        ));
        while i < rows.len()
            invariant
                i <= rows@.len(),
                rows@.len() > 0,
                self.end == old(self).end,
                forall|k: int| 0 <= k < i ==> !row_faulty(#[trigger] rows@[k]),
                self.records@ == old(self).records@ + Seq::new(
                    i as nat,
                    |k: int| rows@[k].record->Ok_0,
                ),
            decreases rows@.len() - i,
        {
            match &rows[i].record {
                Err(report) => {
                    let error = reported(
                        "Generator record scan deserialization failed",
                        report.as_str(),
                    );
                    assert(rows_stop(rows@, i as int, error));
                    return GeneratorScanStep::Failed { error };
                },
                Ok(record) => {
                    match record.validate_schema_version() {
                        Ok(()) => {},
                        Err(error) => {
                            assert(rows_stop(rows@, i as int, error));
                            return GeneratorScanStep::Failed { error };
                        },
                    }
                    self.records.push(record.clone());
                },
            }
            i = i + 1;
            assert(self.records@ =~= old(self).records@ + Seq::new(
                i as nat,
                |k: int| rows@[k].record->Ok_0,
            ));
        }
        self.start = next_etcd_key_after(rows[rows.len() - 1].key.as_slice());
        self.scan()
    }
}

/// A record of the first schema is written, and no other; a batch is asked of the store only where
/// all its records are.
pub proof fn generators_of_another_schema_are_refused(
    prefix: Seq<char>,
    generator_id: u32,
    revision: i64,
    record: GeneratorRecord,
    single: Result<Transaction, TsoError>,
    operations: Seq<GeneratorBatchOp>,
    batch: Result<Option<Transaction>, TsoError>,
)
    requires
        writes_generator(prefix, generator_id, revision, record, single),
        begins_batch(prefix, operations, batch),
    ensures
        single is Ok <==> record.schema_version == 1,
        batch is Ok <==> forall|i: int|
            0 <= i < operations.len() ==> (#[trigger] operations[i]).record.schema_version == 1,
        batch matches Ok(None) <==> operations.len() == 0,
        batch matches Ok(Some(txn)) ==> txn@.conditions.len() == operations.len()
            && txn@.operations.len() == operations.len(),
{
    if batch is Err {
        let error = batch->Err_0;
        let i = choose|i: int| #[trigger] refuses_at(operations, i, error);
        assert(operations[i].record.schema_version != 1);
    }
}

/// Each answer lands under the generator that was asked for in its place: the record where there is
/// one, and what was there before where there is none. Other generators stay as they are.
pub proof fn answers_land_under_their_generators(
    loaded: LoadedGenerators,
    ids: Seq<u32>,
    answers: Seq<BatchGetAnswer>,
    count: nat,
    i: int,
    other: u32,
)
    requires
        ids.no_duplicates(),
        count <= ids.len(),
        0 <= i < count,
        !ids.contains(other),
    ensures
        ({
            let after = with_answers(loaded, ids, answers, count);
            &&& answers[i] matches BatchGetAnswer::Present(Ok(record)) ==> after.contains_key(
                ids[i],
            ) && after[ids[i]] == Some(record)
            &&& !(answers[i] matches BatchGetAnswer::Present(Ok(_))) ==> after.contains_key(ids[i])
                == loaded.contains_key(ids[i]) && after[ids[i]] == loaded[ids[i]]
            &&& after.contains_key(other) == loaded.contains_key(other)
            &&& after[other] == loaded[other]
        }),
    decreases count,
{
    let last = count - 1;
    lemma_answers_leave(loaded, ids, answers, last as nat, ids[last]);
    lemma_answers_leave(loaded, ids, answers, count, other);
    if i < last {
        answers_land_under_their_generators(loaded, ids, answers, last as nat, i, other);
        assert(ids[i] != ids[last]);
    }
}

proof fn lemma_answers_leave(
    loaded: LoadedGenerators,
    ids: Seq<u32>,
    answers: Seq<BatchGetAnswer>,
    count: nat,
    other: u32,
)
    requires
        count <= ids.len(),
        forall|k: int| 0 <= k < count ==> #[trigger] ids[k] != other,
    ensures
        with_answers(loaded, ids, answers, count).contains_key(other) == loaded.contains_key(other),
        with_answers(loaded, ids, answers, count)[other] == loaded[other],
    decreases count,
{
    if count > 0 {
        lemma_answers_leave(loaded, ids, answers, (count - 1) as nat, other);
        assert(ids[count - 1] != other);
    }
}

/// The answer is no record that can be read, and does not say that there is none.
pub open spec fn unreadable(answer: BatchGetAnswer) -> bool {
    match answer {
        BatchGetAnswer::Missing => false,
        BatchGetAnswer::Present(Ok(record)) => record.schema_version != 1,
        _ => true,
    }
}

/// Generators are asked for by sixty-four at most, one lot after the other, until all are; the
/// loading stops exactly at an answer that cannot be read.
pub proof fn generators_are_loaded_lot_by_lot(
    before: GeneratorLoading,
    after: GeneratorLoading,
    answers: Seq<BatchGetAnswer>,
    step: GeneratorLoadStep,
)
    requires
        before.valid(),
        answers.len() == before.chunk().len(),
        after.advances(before, answers, step),
    ensures
        0 < before.chunk().len() <= 64,
        before.chunk().len() < 64 ==> before.next + before.chunk().len() == before.ids@.len(),
        step is Failed <==> exists|k: int|
            0 <= k < answers.len() && unreadable(#[trigger] answers[k]),
        step is Done ==> before.next + before.chunk().len() == before.ids@.len(),
        step is Commit ==> {
            &&& after.next == before.next + 64
            &&& after.next < after.ids@.len()
            &&& after.ids@ == before.ids@
        },
{
    if step is Failed {
        let error = step->error;
        let i = choose|i: int| #[trigger] answers_stop(answers, before.chunk().len(), i, error);
        assert(unreadable(answers[i]));
    } else {
        assert forall|k: int| 0 <= k < answers.len() implies !unreadable(#[trigger] answers[k]) by {
            assert(!answer_faulty(answers[k]));
        }
    }
}

/// A scan hands every row on in its order, goes on right behind the last one, and ends exactly
/// where there are no more; it stops exactly at a row that cannot be read.
pub proof fn scans_hand_every_generator_on(
    before: GeneratorScan,
    after: GeneratorScan,
    rows: Seq<GeneratorRow>,
    step: GeneratorScanStep,
)
    requires
        after.advances(before, rows, step),
    ensures
        step is Done <==> rows.len() == 0,
        step matches GeneratorScanStep::Done { records } ==> records@ == before.records@,
        step is Failed <==> exists|k: int|
            0 <= k < rows.len() && !(#[trigger] rows[k].record matches Ok(record)
                && record.schema_version == 1),
        step matches GeneratorScanStep::Scan { query } ==> {
            &&& query.start@ == rows.last().key@.push(0)
            &&& query.end@ == before.end@
            &&& query.limit == 128
            &&& after.records@.len() == before.records@.len() + rows.len()
            &&& before.records@.is_prefix_of(after.records@)
            &&& forall|k: int|
                0 <= k < rows.len() ==> rows[k].record == Ok::<GeneratorRecord, String>(
                    #[trigger] after.records@[before.records@.len() + k],
                )
        },
{
    if step is Failed {
        let error = step->error;
        let i = choose|i: int| #[trigger] rows_stop(rows, i, error);
        assert(!(rows[i].record matches Ok(record) && record.schema_version == 1));
    } else {
        assert forall|k: int| 0 <= k < rows.len() implies (#[trigger] rows[k].record matches Ok(
            record,
        ) && record.schema_version == 1) by {
            assert(!row_faulty(rows[k]));
        }
    }
}

/// Every generator of a lot is looked up under its own key, in its place, whatever else stands.
pub proof fn lots_look_every_generator_up(
    loading: GeneratorLoading,
    step: GeneratorLoadStep,
    i: int,
)
    requires
        loading.valid(),
        loading.asks(step),
        0 <= i < loading.chunk().len(),
    ensures
        step matches GeneratorLoadStep::Commit { txn } && txn@.conditions.len() == 0
            && txn@.operations.len() == loading.chunk().len() && txn@.operations[i] == (
        OperationView::Get { key: record_key(loading.prefix@, loading.ids@[loading.next + i]) }),
{
}

} // verus!
