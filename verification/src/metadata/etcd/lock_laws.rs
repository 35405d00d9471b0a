//! What holds of locks, of what they guard, and of identities, in the store.

use vstd::prelude::*;
use vstd::utf8::*;

use crate::metadata::etcd::index_rebuild;
use crate::metadata::etcd::index_rebuild::{RebuildRun, RouteRow};
use crate::metadata::etcd::lease_lock;
use crate::metadata::etcd::lease_lock::LockTry;
use crate::metadata::etcd::status_index;
use crate::metadata::etcd::status_index::Fence;
use crate::metadata::etcd::store;
use crate::metadata::etcd::store::StoreView;
use crate::metadata::etcd::txn::{ConditionView, OperationView, PayloadView, Transaction, TxnReply};
use crate::metadata::identity::AcquireRun;
use crate::metadata::types::TimelineRecordView;

verus! {

/// The lock is held under a lease.
pub open spec fn holds_lock(store: StoreView, key: Seq<u8>, lease_id: i64) -> bool {
    store::holds(store, key, PayloadView::Bytes(lease_lock::lock_token(lease_id)))
}

/// A lock has one holder at most.
pub proof fn locks_have_one_holder(store: StoreView, key: Seq<u8>, a: i64, b: i64)
    requires
        holds_lock(store, key, a),
        holds_lock(store, key, b),
    ensures
        a == b,
{
    lease_lock::leases_have_their_own_tokens(a, b);
}

/// A lock is taken where nobody has it, and then held under the lease of who took it; a lock that
/// is held stays with its holder.
pub proof fn locks_are_taken_from_nobody(
    attempt: LockTry,
    conditions: Seq<ConditionView>,
    lease_id: i64,
    txn: Transaction,
    store: StoreView,
    revision: i64,
    after: StoreView,
    reply: TxnReply,
)
    requires
        store::well_formed(store),
        attempt.takes_lock(conditions, lease_id, txn),
        store::commits(store, txn@, revision, after, reply),
    ensures
        reply.succeeded ==> !store.contains_key(encode_utf8(attempt.key@)) && holds_lock(
            after,
            encode_utf8(attempt.key@),
            lease_id,
        ),
        !reply.succeeded ==> after == store,
{
    if store::meets_all(store, txn@.conditions) {
        let none = Seq::<OperationView>::empty();
        assert(txn@.operations =~= none.push(txn@.operations[0]));
        store::lemma_last_operation(store, none, txn@.operations[0], revision);
        assert(store::meets(store, txn@.conditions[conditions.len() as int]));
    }
}

/// A rebuild that lost its lock changes nothing any more.
pub proof fn rebuilds_need_their_lock(
    run: RebuildRun,
    row: RouteRow,
    txn: Transaction,
    store: StoreView,
    revision: i64,
    after: StoreView,
    reply: TxnReply,
)
    requires
        run.cleans_up(txn) || run.indexes_row(row, txn) || run.publishes(txn),
        !store::holds(
            store,
            encode_utf8(run.fence.key@),
            PayloadView::Bytes(run.fence.token@),
        ),
        store::commits(store, txn@, revision, after, reply),
    ensures
        after == store,
        !reply.succeeded,
{
    index_rebuild::rebuilds_are_fenced(run, row, txn);
    lemma_unmet(run.fence, txn, store);
}

/// A timeline is not created under a lock that was lost.
pub proof fn fenced_creations_need_their_lock(
    prefix: Seq<char>,
    timeline: Seq<char>,
    record: TimelineRecordView,
    fence: Fence,
    txn: Transaction,
    store: StoreView,
    revision: i64,
    after: StoreView,
    reply: TxnReply,
)
    requires
        status_index::creates_timeline(
            txn,
            prefix,
            timeline,
            record,
            status_index::guard(Some(&fence)),
        ),
        !store::holds(store, encode_utf8(fence.key@), PayloadView::Bytes(fence.token@)),
        store::commits(store, txn@, revision, after, reply),
    ensures
        after == store,
        !reply.succeeded,
{
    assert(txn@.conditions[1] == fence.condition());
    lemma_unmet(fence, txn, store);
}

proof fn lemma_unmet(fence: Fence, txn: Transaction, store: StoreView)
    requires
        txn@.conditions.contains(fence.condition()),
        !store::holds(store, encode_utf8(fence.key@), PayloadView::Bytes(fence.token@)),
    ensures
        !store::meets_all(store, txn@.conditions),
{
    let i = choose|i: int|
        0 <= i < txn@.conditions.len() && txn@.conditions[i] == fence.condition();
    assert(!store::meets(store, txn@.conditions[i]));
}

/// An identity is claimed where nobody has it; one that is held stays with its holder.
pub proof fn identities_are_taken_from_nobody(
    run: AcquireRun,
    txn: Transaction,
    store: StoreView,
    revision: i64,
    after: StoreView,
    reply: TxnReply,
)
    requires
        store::well_formed(store),
        run.claims(txn),
        store::commits(store, txn@, revision, after, reply),
    ensures
        reply.succeeded ==> !store.contains_key(run.identity_key()) && store::holds(
            after,
            run.identity_key(),
            PayloadView::Identity(run.record@),
        ),
        !reply.succeeded ==> after == store,
{
    if store::meets_all(store, txn@.conditions) {
        let none = Seq::<OperationView>::empty();
        assert(txn@.operations =~= none.push(txn@.operations[0]));
        store::lemma_last_operation(store, none, txn@.operations[0], revision);
        assert(store::meets(store, txn@.conditions[0]));
    }
}

} // verus!
