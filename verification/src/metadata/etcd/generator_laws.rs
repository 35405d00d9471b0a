//! What holds of generator records in the store.

use vstd::prelude::*;

use crate::error::TsoError;
use crate::metadata::etcd::generators;
use crate::metadata::etcd::json;
use crate::metadata::etcd::json::Found;
use crate::metadata::etcd::store;
use crate::metadata::etcd::store::StoreView;
use crate::metadata::etcd::txn;
use crate::metadata::etcd::txn::{OperationView, PayloadView, Transaction, TxnReply};
use crate::metadata::key_laws;
use crate::metadata::keys;
use crate::metadata::types::{GeneratorBatchOp, GeneratorRecord, GeneratorRecordView};

verus! {

/// A generator stands as it was written at a revision.
pub open spec fn written(
    store: StoreView,
    prefix: Seq<char>,
    generator_id: u32,
    record: GeneratorRecordView,
    revision: i64,
) -> bool {
    let key = generators::record_key(prefix, generator_id);
    store::holds(store, key, PayloadView::Generator(record)) && store[key].mod_revision == revision
}

/// What a lookup of a generator finds.
pub open spec fn finds(
    store: StoreView,
    prefix: Seq<char>,
    generator_id: u32,
    found: Option<Found<GeneratorRecord>>,
) -> bool {
    match found {
        Some(entry) => {
            &&& entry.value matches Ok(record)
            &&& written(store, prefix, generator_id, record@, entry.mod_revision)
        },
        None => !store.contains_key(generators::record_key(prefix, generator_id)),
    }
}

/// What a writer of a generator is told: as the creator of one, or as the one who replaces it.
pub open spec fn told(reply: TxnReply, result: Result<u64, TsoError>) -> bool {
    txn::created(
        Ok(reply),
        "Etcd generator txn failed"@,
        "invalid generator txn response"@,
        result,
    ) || txn::replaced(
        Ok(reply),
        "Etcd generator txn failed"@,
        "invalid generator txn response"@,
        result,
    )
}

/// A generator that was created or replaced is read back as it was written, at the revision that
/// its writer was told.
pub proof fn written_generators_are_read_back(
    prefix: Seq<char>,
    generator_id: u32,
    expected_revision: i64,
    record: GeneratorRecord,
    txn: Transaction,
    store: StoreView,
    revision: i64,
    after: StoreView,
    reply: TxnReply,
    result: Result<u64, TsoError>,
    found: Option<Found<GeneratorRecord>>,
    loaded: Result<Option<(GeneratorRecord, u64)>, TsoError>,
)
    requires
        generators::writes_generator(
            prefix,
            generator_id,
            expected_revision,
            record,
            Ok(txn),
        ),
        store::commits(store, txn@, revision, after, reply),
        told(reply, result),
        result is Ok,
        finds(after, prefix, generator_id, found),
        json::loads_generator(Ok(found), loaded),
    ensures
        loaded matches Ok(Some((read, at))) && read@ == record@.stamped() && result
            == Ok::<u64, TsoError>(at),
{
    let none = Seq::<OperationView>::empty();
    assert(txn@.operations =~= none.push(txn@.operations[0]));
    store::lemma_last_operation(store, none, txn@.operations[0], revision);
}

/// A generator that exists is not created again, and one that was written since it was read is not
/// replaced: nothing changes.
pub proof fn late_generators_are_refused(
    prefix: Seq<char>,
    generator_id: u32,
    expected_revision: i64,
    record: GeneratorRecord,
    txn: Transaction,
    store: StoreView,
    revision: i64,
    after: StoreView,
    reply: TxnReply,
)
    requires
        store::well_formed(store),
        ({
            let key = generators::record_key(prefix, generator_id);
            store.contains_key(key) && (expected_revision == 0 || store[key].mod_revision
                != expected_revision)
        }),
        generators::writes_generator(
            prefix,
            generator_id,
            expected_revision,
            record,
            Ok(txn),
        ),
        store::commits(store, txn@, revision, after, reply),
    ensures
        after == store,
        !reply.succeeded,
{
    if store::meets_all(store, txn@.conditions) {
        assert(store::meets(store, txn@.conditions[0]));
    }
}

/// No generator is named twice.
pub open spec fn names_each_once(operations: Seq<GeneratorBatchOp>) -> bool {
    forall|i: int, j: int|
        0 <= i < j < operations.len() ==> #[trigger] operations[i].generator_id
            != #[trigger] operations[j].generator_id
}

proof fn lemma_record_keys_differ(prefix: Seq<char>, a: u32, b: u32)
    requires
        a != b,
    ensures
        generators::record_key(prefix, a) != generators::record_key(prefix, b),
{
    if generators::record_key(prefix, a) == generators::record_key(prefix, b) {
        key_laws::encodings_never_collide(
            keys::generator_key_text(prefix, a),
            keys::generator_key_text(prefix, b),
        );
        key_laws::generator_keys_never_collide(prefix, a, b);
    }
}

proof fn lemma_batch_writes(
    prefix: Seq<char>,
    operations: Seq<GeneratorBatchOp>,
    store: StoreView,
    revision: i64,
)
    requires
        names_each_once(operations),
    ensures
        forall|i: int|
            0 <= i < operations.len() ==> written(
                store::after_operations(
                    store,
                    generators::batch_operations(prefix, operations),
                    revision,
                ),
                prefix,
                (#[trigger] operations[i]).generator_id,
                operations[i].record@.stamped(),
                revision,
            ),
    decreases operations.len(),
{
    if operations.len() > 0 {
        let earlier = operations.drop_last();
        let last = operations.last();
        let half = generators::batch_operations(prefix, earlier);
        let put = generators::puts_generator(prefix, last.generator_id, last.record@);
        assert(generators::batch_operations(prefix, operations) =~= half.push(put));
        lemma_batch_writes(prefix, earlier, store, revision);
        store::lemma_last_operation(store, half, put, revision);
        let middle = store::after_operations(store, half, revision);
        let after = store::after_operation(middle, put, revision);
        assert forall|i: int| 0 <= i < operations.len() implies written(
            after,
            prefix,
            (#[trigger] operations[i]).generator_id,
            operations[i].record@.stamped(),
            revision,
        ) by {
            if i < operations.len() - 1 {
                assert(earlier[i] == operations[i]);
                assert(operations[i].generator_id != operations[operations.len() - 1].generator_id);
                lemma_record_keys_differ(prefix, operations[i].generator_id, last.generator_id);
            }
        }
    }
}

/// A batch writes all of its generators or none: all stand as they were written, at one revision,
/// where it goes through, and nothing changes otherwise.
pub proof fn generator_batches_happen_as_a_whole(
    prefix: Seq<char>,
    operations: Seq<GeneratorBatchOp>,
    txn: Transaction,
    store: StoreView,
    revision: i64,
    after: StoreView,
    reply: TxnReply,
)
    requires
        names_each_once(operations),
        generators::begins_batch(prefix, operations, Ok(Some(txn))),
        store::commits(store, txn@, revision, after, reply),
    ensures
        reply.succeeded ==> reply.header_revision == Some(revision) && forall|i: int|
            0 <= i < operations.len() ==> written(
                after,
                prefix,
                (#[trigger] operations[i]).generator_id,
                operations[i].record@.stamped(),
                revision,
            ),
        !reply.succeeded ==> after == store,
        reply.succeeded <==> store::meets_all(
            store,
            generators::batch_conditions(prefix, operations),
        ),
{
    lemma_batch_writes(prefix, operations, store, revision);
}

} // verus!
