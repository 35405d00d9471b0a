//! What a transactional store does with what is asked of it: the model over which the laws of the
//! records and their indexes are stated.

use vstd::prelude::*;

use crate::metadata::etcd::ranges;
use crate::metadata::etcd::txn::{
    ConditionView, OperationView, PayloadView, TransactionView, TxnReply,
};
use crate::text;

verus! {

/// What stands under a key, and when it was created and last written.
pub struct EntryView {
    pub value: PayloadView,
    pub create_revision: i64,
    pub mod_revision: i64,
}

/// All that a store holds.
pub type StoreView = Map<Seq<u8>, EntryView>;

/// The key holds the value.
pub open spec fn holds(store: StoreView, key: Seq<u8>, value: PayloadView) -> bool {
    store.contains_key(key) && store[key].value == value
}

/// Two stores hold the same under a key.
pub open spec fn same_at(a: StoreView, b: StoreView, key: Seq<u8>) -> bool {
    &&& a.contains_key(key) == b.contains_key(key)
    &&& a.contains_key(key) ==> a[key] == b[key]
}

/// A condition is met. A key that does not exist has the revision zero and no value.
pub open spec fn meets(store: StoreView, condition: ConditionView) -> bool {
    match condition {
        ConditionView::ModRevision { key, revision } => revision == if store.contains_key(key) {
            store[key].mod_revision
        } else {
            0
        },
        ConditionView::CreateRevision { key, revision } => revision == if store.contains_key(key) {
            store[key].create_revision
        } else {
            0
        },
        ConditionView::Value { key, value } => holds(store, key, PayloadView::Bytes(value)),
    }
}

/// Every condition is met.
pub open spec fn meets_all(store: StoreView, conditions: Seq<ConditionView>) -> bool {
    forall|i: int| 0 <= i < conditions.len() ==> meets(store, #[trigger] conditions[i])
}

/// The store after one operation.
pub open spec fn after_operation(
    store: StoreView,
    operation: OperationView,
    revision: i64,
) -> StoreView {
    match operation {
        OperationView::Put { key, value, .. } => store.insert(
            key,
            EntryView {
                value,
                create_revision: if store.contains_key(key) {
                    store[key].create_revision
                } else {
                    revision
                },
                mod_revision: revision,
            },
        ),
        OperationView::Delete { key } => store.remove(key),
        OperationView::DeletePrefix { prefix } => store.remove_keys(
            Set::new(|key: Seq<u8>| prefix.is_prefix_of(key)),
        ),
        OperationView::Get { .. } => store,
    }
}

/// The store after all the operations of a transaction, which share its revision.
pub open spec fn after_operations(
    store: StoreView,
    operations: Seq<OperationView>,
    revision: i64,
) -> StoreView
    decreases operations.len(),
{
    if operations.len() == 0 {
        store
    } else {
        after_operation(
            after_operations(store, operations.drop_last(), revision),
            operations.last(),
            revision,
        )
    }
}

/// A transaction reaches the store, which then holds `after` and answers: all its operations happen
/// at a revision where all its conditions are met, and nothing happens otherwise.
pub open spec fn commits(
    store: StoreView,
    txn: TransactionView,
    revision: i64,
    after: StoreView,
    reply: TxnReply,
) -> bool {
    if meets_all(store, txn.conditions) {
        &&& after == after_operations(store, txn.operations, revision)
        &&& reply.succeeded
        &&& reply.header_revision == Some(revision)
        &&& reply.first_put_revision == if txn.operations.len() > 0 && txn.operations[0] is Put {
            Some(revision)
        } else {
            None
        }
    } else {
        after == store && !reply.succeeded
    }
}

/// What reading a range comes to: the keys in it that stand, in the order of their bytes, up to a
/// number of them.
pub open spec fn reads(
    store: StoreView,
    start: Seq<u8>,
    end: Seq<u8>,
    limit: i64,
    keys: Seq<Seq<u8>>,
) -> bool {
    &&& forall|i: int, j: int|
        0 <= i < j < keys.len() ==> text::bytes_before(#[trigger] keys[i], #[trigger] keys[j])
    &&& forall|i: int|
        0 <= i < keys.len() ==> store.contains_key(#[trigger] keys[i]) && ranges::in_range(
            keys[i],
            start,
            end,
        )
    &&& limit > 0 ==> keys.len() <= limit
    &&& forall|key: Seq<u8>| #[trigger]
        store.contains_key(key) && ranges::in_range(key, start, end) && !keys.contains(key) ==> {
            &&& 0 < limit == keys.len()
            &&& text::bytes_before(keys.last(), key)
        }
}

/// Nothing that stands was written at a revision that is not positive.
pub open spec fn well_formed(store: StoreView) -> bool {
    forall|key: Seq<u8>| #[trigger]
        store.contains_key(key) ==> store[key].create_revision > 0 && store[key].mod_revision > 0
}

/// Nothing that stands was written after a revision.
pub open spec fn reached(store: StoreView, revision: i64) -> bool {
    forall|key: Seq<u8>| #[trigger]
        store.contains_key(key) ==> store[key].mod_revision <= revision
}

/// A store that had reached a revision may have become another one since: what was not written
/// after that revision stood there then.
pub open spec fn may_become(earlier: StoreView, revision: i64, later: StoreView) -> bool {
    &&& reached(earlier, revision)
    &&& forall|key: Seq<u8>| #[trigger]
        later.contains_key(key) && later[key].mod_revision <= revision ==> earlier.contains_key(key)
            && earlier[key] == later[key]
}

/// One operation more is done last.
pub proof fn lemma_last_operation(
    store: StoreView,
    operations: Seq<OperationView>,
    last: OperationView,
    revision: i64,
)
    ensures
        after_operations(store, operations.push(last), revision) == after_operation(
            after_operations(store, operations, revision),
            last,
            revision,
        ),
{
    assert(operations.push(last).drop_last() =~= operations);
}

/// Operations are done one part after the other.
pub proof fn lemma_operations_in_parts(
    store: StoreView,
    first: Seq<OperationView>,
    second: Seq<OperationView>,
    revision: i64,
)
    ensures
        after_operations(store, first + second, revision) == after_operations(
            after_operations(store, first, revision),
            second,
            revision,
        ),
    decreases second.len(),
{
    if second.len() == 0 {
        assert(first + second =~= first);
    } else {
        assert((first + second).drop_last() =~= first + second.drop_last());
        lemma_operations_in_parts(store, first, second.drop_last(), revision);
    }
}

/// What committing comes to: the store stays well formed, and has become what it is now.
pub proof fn commits_move_the_store_on(
    store: StoreView,
    txn: TransactionView,
    at: i64,
    revision: i64,
    after: StoreView,
    reply: TxnReply,
)
    requires
        well_formed(store),
        reached(store, at),
        0 <= at < revision,
        commits(store, txn, revision, after, reply),
    ensures
        well_formed(after),
        reached(after, revision),
        may_become(store, at, after),
{
    lemma_operations_move_on(store, txn.operations, at, revision);
}

proof fn lemma_operations_move_on(
    store: StoreView,
    operations: Seq<OperationView>,
    at: i64,
    revision: i64,
)
    requires
        well_formed(store),
        reached(store, at),
        0 <= at < revision,
    ensures
        well_formed(after_operations(store, operations, revision)),
        reached(after_operations(store, operations, revision), revision),
        may_become(store, at, after_operations(store, operations, revision)),
    decreases operations.len(),
{
    if operations.len() > 0 {
        lemma_operations_move_on(store, operations.drop_last(), at, revision);
        let before = after_operations(store, operations.drop_last(), revision);
        let after = after_operation(before, operations.last(), revision);
        assert forall|key: Seq<u8>| #[trigger] after.contains_key(key) implies
            after[key].create_revision > 0 && 0 < after[key].mod_revision <= revision && (
        after[key].mod_revision <= at ==> store.contains_key(key) && store[key] == after[key]) by {
            assert(before.contains_key(key) || operations.last() is Put);
        }
    }
}

/// A store that may have become a second one, which may have become a third, may have become the
/// third.
pub proof fn stores_go_on_becoming(a: StoreView, at: i64, b: StoreView, later: i64, c: StoreView)
    requires
        may_become(a, at, b),
        may_become(b, later, c),
        at <= later,
    ensures
        may_become(a, at, c),
{
    assert forall|key: Seq<u8>| #[trigger] c.contains_key(key) && c[key].mod_revision
        <= at implies a.contains_key(key) && a[key] == c[key] by {
        assert(b.contains_key(key));
    }
}

} // verus!
