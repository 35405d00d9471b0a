//! What holds of timelines and their status index in the store.

use vstd::prelude::*;
use vstd::utf8::*;

use crate::error::TsoError;
use crate::metadata::etcd::index_rebuild::{RebuildRun, RouteRow};
use crate::metadata::etcd::json;
use crate::metadata::etcd::json::Found;
use crate::metadata::etcd::status_index;
use crate::metadata::etcd::store;
use crate::metadata::etcd::store::StoreView;
use crate::metadata::etcd::timeline_batch;
use crate::metadata::etcd::txn;
use crate::metadata::etcd::txn::{ConditionView, OperationView, PayloadView, Transaction, TxnReply};
use crate::metadata::key_laws;
use crate::metadata::keys;
use crate::metadata::types::{TimelineBatchOp, TimelineRecord, TimelineRecordView};
use crate::model::TimelineLifecycleState;

verus! {

/// The key is one of the status index, and not its marker.
pub open spec fn in_status_index(prefix: Seq<char>, key: Seq<u8>) -> bool {
    &&& encode_utf8(keys::timeline_status_index_prefix_text(prefix)).is_prefix_of(key)
    &&& key != encode_utf8(keys::timeline_status_index_marker_key_text(prefix))
}

/// The record stands under both of its index keys.
pub open spec fn indexed(store: StoreView, prefix: Seq<char>, record: TimelineRecordView) -> bool {
    let value = PayloadView::Timeline(record);
    &&& store::holds(store, encode_utf8(status_index::owner_key(prefix, record)), value)
    &&& store::holds(store, encode_utf8(status_index::state_key(prefix, record)), value)
}

/// A timeline that stands is the one that its key names, and is indexed as it stands.
pub open spec fn timeline_in_step(
    store: StoreView,
    prefix: Seq<char>,
    timeline: Seq<char>,
) -> bool {
    let key = status_index::record_key(prefix, timeline);
    store.contains_key(key) ==> (store[key].value matches PayloadView::Timeline(record)
        && record.route.timeline_key == timeline && indexed(store, prefix, record))
}

/// An index entry that stands is one of a timeline that stands, and says of it what the timeline
/// itself says.
pub open spec fn entry_in_step(store: StoreView, prefix: Seq<char>, key: Seq<u8>) -> bool {
    in_status_index(prefix, key) && store.contains_key(key) ==> (store[key].value matches
        PayloadView::Timeline(record) && store::holds(
        store,
        status_index::record_key(prefix, record.route.timeline_key),
        PayloadView::Timeline(record),
    ) && (key == encode_utf8(status_index::owner_key(prefix, record)) || key == encode_utf8(
        status_index::state_key(prefix, record),
    )))
}

/// What stands under the key of a timeline is a timeline of that name.
pub open spec fn named(store: StoreView, prefix: Seq<char>, timeline: Seq<char>) -> bool {
    let key = status_index::record_key(prefix, timeline);
    store.contains_key(key) ==> (store[key].value matches PayloadView::Timeline(record)
        && record.route.timeline_key == timeline)
}

/// The status index shows nothing but timelines that stand, as they stand. It may lack some.
pub open spec fn sound(store: StoreView, prefix: Seq<char>) -> bool {
    &&& forall|timeline: Seq<char>| #[trigger] named(store, prefix, timeline)
    &&& forall|key: Seq<u8>| #[trigger] entry_in_step(store, prefix, key)
}

/// The status index shows the timelines that stand, each by its owner and its state, and nothing
/// else.
pub open spec fn in_step(store: StoreView, prefix: Seq<char>) -> bool {
    &&& sound(store, prefix)
    &&& forall|timeline: Seq<char>| #[trigger] timeline_in_step(store, prefix, timeline)
}

/// Timelines that are indexed as they stand in one store are so in the other.
pub open spec fn keeps_timelines_in_step(
    store: StoreView,
    after: StoreView,
    prefix: Seq<char>,
) -> bool {
    forall|timeline: Seq<char>|
        timeline_in_step(store, prefix, timeline) ==> #[trigger] timeline_in_step(
            after,
            prefix,
            timeline,
        )
}

proof fn lemma_record_keys_lie_outside(prefix: Seq<char>, timeline: Seq<char>)
    ensures
        !encode_utf8(keys::timeline_status_index_prefix_text(prefix)).is_prefix_of(
            status_index::record_key(prefix, timeline),
        ),
{
    key_laws::status_index_is_apart_from_the_timelines(
        prefix,
        timeline,
        timeline,
        timeline,
        timeline,
        timeline,
    );
    key_laws::encodings_begin_as_texts_do(
        keys::timeline_key_text(prefix, timeline),
        keys::timeline_status_index_prefix_text(prefix),
    );
}

/// The lock of a rebuild is neither in the index nor a timeline.
proof fn lemma_rebuild_lock_lies_outside(prefix: Seq<char>, timeline: Seq<char>)
    ensures
        ({
            let lock = encode_utf8(keys::timeline_status_index_rebuild_lock_key_text(prefix));
            &&& !encode_utf8(keys::timeline_status_index_prefix_text(prefix)).is_prefix_of(lock)
            &&& lock != status_index::record_key(prefix, timeline)
        }),
{
    let lock = keys::timeline_status_index_rebuild_lock_key_text(prefix);
    let record = keys::timeline_key_text(prefix, timeline);
    key_laws::rebuild_lock_is_outside_the_status_index(prefix);
    key_laws::encodings_begin_as_texts_do(lock, keys::timeline_status_index_prefix_text(prefix));
    if encode_utf8(lock) == encode_utf8(record) {
        key_laws::encodings_never_collide(lock, record);
        reveal_strlit("cluster/timeline_status_index_rebuild_lock");
        reveal_strlit("routes/");
        let at = if prefix.len() == 0 {
            0
        } else {
            (prefix + "/"@).len() as int
        };
        assert(lock[at] == 'c');
        assert(record[at] == 'r');
    }
}

proof fn lemma_index_keys_lie_inside(prefix: Seq<char>, record: TimelineRecordView)
    ensures
        in_status_index(prefix, encode_utf8(status_index::owner_key(prefix, record))),
        in_status_index(prefix, encode_utf8(status_index::state_key(prefix, record))),
{
    let owner = record.route.owner_worker_endpoint;
    let state = record.state.name();
    let timeline = record.route.timeline_key;
    let by_owner = status_index::owner_key(prefix, record);
    let by_state = status_index::state_key(prefix, record);
    let index = keys::timeline_status_index_prefix_text(prefix);
    let marker = keys::timeline_status_index_marker_key_text(prefix);
    key_laws::status_index_entries_lie_in_their_ranges(prefix, owner, state, timeline);
    assert(key_laws::begins_with(by_owner, index));
    assert(key_laws::begins_with(by_state, index));
    key_laws::encodings_begin_as_texts_do(by_owner, index);
    key_laws::encodings_begin_as_texts_do(by_state, index);
    key_laws::status_index_is_apart_from_the_timelines(
        prefix,
        owner,
        timeline,
        state,
        timeline,
        timeline,
    );
    if encode_utf8(by_owner) == encode_utf8(marker) {
        key_laws::encodings_never_collide(by_owner, marker);
    }
    if encode_utf8(by_state) == encode_utf8(marker) {
        key_laws::encodings_never_collide(by_state, marker);
    }
}

/// Records of different timelines share no key.
proof fn lemma_timelines_share_no_key(
    prefix: Seq<char>,
    a: TimelineRecordView,
    b: TimelineRecordView,
)
    requires
        a.route.timeline_key != b.route.timeline_key,
    ensures
        encode_utf8(status_index::owner_key(prefix, a)) != encode_utf8(
            status_index::owner_key(prefix, b),
        ),
        encode_utf8(status_index::state_key(prefix, a)) != encode_utf8(
            status_index::state_key(prefix, b),
        ),
        status_index::record_key(prefix, a.route.timeline_key) != status_index::record_key(
            prefix,
            b.route.timeline_key,
        ),
{
    if encode_utf8(status_index::owner_key(prefix, a)) == encode_utf8(
        status_index::owner_key(prefix, b),
    ) {
        key_laws::encodings_never_collide(
            status_index::owner_key(prefix, a),
            status_index::owner_key(prefix, b),
        );
        key_laws::owner_index_keys_never_collide(
            prefix,
            a.route.owner_worker_endpoint,
            a.route.timeline_key,
            b.route.owner_worker_endpoint,
            b.route.timeline_key,
        );
    }
    if encode_utf8(status_index::state_key(prefix, a)) == encode_utf8(
        status_index::state_key(prefix, b),
    ) {
        key_laws::encodings_never_collide(
            status_index::state_key(prefix, a),
            status_index::state_key(prefix, b),
        );
        key_laws::state_index_keys_never_collide(
            prefix,
            a.state,
            a.route.timeline_key,
            b.state,
            b.route.timeline_key,
        );
    }
    lemma_record_keys_differ(prefix, a.route.timeline_key, b.route.timeline_key);
}

proof fn lemma_record_keys_differ(prefix: Seq<char>, a: Seq<char>, b: Seq<char>)
    requires
        a != b,
    ensures
        status_index::record_key(prefix, a) != status_index::record_key(prefix, b),
{
    if status_index::record_key(prefix, a) == status_index::record_key(prefix, b) {
        key_laws::encodings_never_collide(
            keys::timeline_key_text(prefix, a),
            keys::timeline_key_text(prefix, b),
        );
        key_laws::timeline_keys_never_collide(prefix, a, b);
    }
}

/// An entry by owner is never one by state.
proof fn lemma_indexes_share_no_key(
    prefix: Seq<char>,
    a: TimelineRecordView,
    b: TimelineRecordView,
)
    ensures
        encode_utf8(status_index::owner_key(prefix, a)) != encode_utf8(
            status_index::state_key(prefix, b),
        ),
{
    key_laws::status_index_is_apart_from_the_timelines(
        prefix,
        a.route.owner_worker_endpoint,
        a.route.timeline_key,
        b.state.name(),
        b.route.timeline_key,
        a.route.timeline_key,
    );
    if encode_utf8(status_index::owner_key(prefix, a)) == encode_utf8(
        status_index::state_key(prefix, b),
    ) {
        key_laws::encodings_never_collide(
            status_index::owner_key(prefix, a),
            status_index::state_key(prefix, b),
        );
    }
}

/// What writes a timeline: the record itself, and its index entries in place of those of the record
/// that stood there, if one did.
pub open spec fn writes(
    prefix: Seq<char>,
    timeline: Seq<char>,
    previous: Option<TimelineRecordView>,
    next: TimelineRecordView,
) -> Seq<OperationView> {
    seq![status_index::puts_record(status_index::record_key(prefix, timeline), next)] + (
    match previous {
        Some(old_record) => status_index::stale_entries(prefix, old_record, next),
        None => Seq::empty(),
    }) + status_index::index_puts(prefix, next)
}

/// What stands is the record that is replaced, or nothing where none is.
pub open spec fn stands(
    store: StoreView,
    prefix: Seq<char>,
    timeline: Seq<char>,
    previous: Option<TimelineRecordView>,
) -> bool {
    let key = status_index::record_key(prefix, timeline);
    match previous {
        Some(record) => store::holds(store, key, PayloadView::Timeline(record)),
        None => !store.contains_key(key),
    }
}

/// A key holds a record that was written at a revision.
pub open spec fn written(
    store: StoreView,
    key: Seq<u8>,
    record: TimelineRecordView,
    revision: i64,
) -> bool {
    store::holds(store, key, PayloadView::Timeline(record)) && store[key].mod_revision == revision
}

/// Writing a timeline changes its record and its index entries, and nothing else.
proof fn lemma_writes_at(
    store: StoreView,
    prefix: Seq<char>,
    timeline: Seq<char>,
    previous: Option<TimelineRecordView>,
    next: TimelineRecordView,
    revision: i64,
    key: Seq<u8>,
)
    ensures
        ({
            let after = store::after_operations(
                store,
                writes(prefix, timeline, previous, next),
                revision,
            );
            if key == encode_utf8(status_index::owner_key(prefix, next)) || key == encode_utf8(
                status_index::state_key(prefix, next),
            ) || key == status_index::record_key(prefix, timeline) {
                written(after, key, next, revision)
            } else if previous matches Some(record) && (key == encode_utf8(
                status_index::owner_key(prefix, record),
            ) || key == encode_utf8(status_index::state_key(prefix, record))) {
                !after.contains_key(key)
            } else {
                store::same_at(store, after, key)
            }
        }),
{
    let none = Seq::<OperationView>::empty();
    let first = none.push(
        status_index::puts_record(status_index::record_key(prefix, timeline), next),
    );
    let puts = status_index::index_puts(prefix, next);
    store::lemma_last_operation(store, none, first[0], revision);
    lemma_record_keys_lie_outside(prefix, timeline);
    lemma_index_keys_lie_inside(prefix, next);
    let stale = match previous {
        Some(record) => {
            lemma_index_keys_lie_inside(prefix, record);
            let by_owner = status_index::stale_entry(
                prefix,
                status_index::owner_key(prefix, record),
                next,
            );
            let by_state = status_index::stale_entry(
                prefix,
                status_index::state_key(prefix, record),
                next,
            );
            let half = first + by_owner;
            if by_owner.len() == 1 {
                assert(half =~= first.push(by_owner[0]));
                store::lemma_last_operation(store, first, by_owner[0], revision);
            } else {
                assert(half =~= first);
            }
            if by_state.len() == 1 {
                assert(half + by_state =~= half.push(by_state[0]));
                store::lemma_last_operation(store, half, by_state[0], revision);
            } else {
                assert(half + by_state =~= half);
            }
            assert(first + status_index::stale_entries(prefix, record, next) =~= half + by_state);
            status_index::stale_entries(prefix, record, next)
        },
        None => none,
    };
    let so_far = first + stale;
    if previous is None {
        assert(so_far =~= first);
    }
    let more = so_far.push(puts[0]);
    assert(writes(prefix, timeline, previous, next) =~= more.push(puts[1]));
    store::lemma_last_operation(store, so_far, puts[0], revision);
    store::lemma_last_operation(store, more, puts[1], revision);
}

/// Writing a timeline under its own name keeps the index sound, and brings that timeline in step.
proof fn lemma_writes_keep_step(
    store: StoreView,
    prefix: Seq<char>,
    timeline: Seq<char>,
    previous: Option<TimelineRecordView>,
    next: TimelineRecordView,
    revision: i64,
)
    requires
        sound(store, prefix),
        stands(store, prefix, timeline, previous),
        next.route.timeline_key == timeline,
    ensures
        ({
            let after = store::after_operations(
                store,
                writes(prefix, timeline, previous, next),
                revision,
            );
            &&& sound(after, prefix)
            &&& timeline_in_step(after, prefix, timeline)
            &&& keeps_timelines_in_step(store, after, prefix)
        }),
{
    let after = store::after_operations(store, writes(prefix, timeline, previous, next), revision);
    let record_key = status_index::record_key(prefix, timeline);
    let new_owner = encode_utf8(status_index::owner_key(prefix, next));
    let new_state = encode_utf8(status_index::state_key(prefix, next));
    assert(named(store, prefix, timeline));
    lemma_index_keys_lie_inside(prefix, next);
    lemma_writes_at(store, prefix, timeline, previous, next, revision, record_key);
    lemma_writes_at(store, prefix, timeline, previous, next, revision, new_owner);
    lemma_writes_at(store, prefix, timeline, previous, next, revision, new_state);
    assert forall|other: Seq<char>| #[trigger] named(after, prefix, other) && (timeline_in_step(
        store,
        prefix,
        other,
    ) ==> timeline_in_step(after, prefix, other)) by {
        let key = status_index::record_key(prefix, other);
        if other != timeline {
            assert(named(store, prefix, other));
            lemma_writes_at(store, prefix, timeline, previous, next, revision, key);
            lemma_record_keys_lie_outside(prefix, other);
            lemma_record_keys_differ(prefix, other, timeline);
            if let Some(old_record) = previous {
                lemma_index_keys_lie_inside(prefix, old_record);
            }
            if store.contains_key(key) {
                let record = store[key].value->Timeline_0;
                lemma_kept(store, prefix, timeline, previous, next, revision, record);
            }
        }
    }
    assert forall|key: Seq<u8>| #[trigger] entry_in_step(after, prefix, key) by {
        lemma_writes_at(store, prefix, timeline, previous, next, revision, key);
        lemma_record_keys_lie_outside(prefix, timeline);
        assert(entry_in_step(store, prefix, key));
        if in_status_index(prefix, key) && after.contains_key(key) && key != new_owner && key
            != new_state {
            let record = store[key].value->Timeline_0;
            if record.route.timeline_key != timeline {
                lemma_kept(store, prefix, timeline, previous, next, revision, record);
            }
        }
    }
    assert forall|other: Seq<char>|
        timeline_in_step(store, prefix, other) implies #[trigger] timeline_in_step(
        after,
        prefix,
        other,
    ) by {
        assert(named(after, prefix, other));
    }
}

/// The records of other timelines stay, and so do their index entries.
proof fn lemma_kept(
    store: StoreView,
    prefix: Seq<char>,
    timeline: Seq<char>,
    previous: Option<TimelineRecordView>,
    next: TimelineRecordView,
    revision: i64,
    record: TimelineRecordView,
)
    requires
        next.route.timeline_key == timeline,
        previous matches Some(old_record) ==> old_record.route.timeline_key == timeline,
        record.route.timeline_key != timeline,
    ensures
        ({
            let after = store::after_operations(
                store,
                writes(prefix, timeline, previous, next),
                revision,
            );
            &&& store::same_at(
                store,
                after,
                status_index::record_key(prefix, record.route.timeline_key),
            )
            &&& store::same_at(store, after, encode_utf8(status_index::owner_key(prefix, record)))
            &&& store::same_at(store, after, encode_utf8(status_index::state_key(prefix, record)))
        }),
{
    let record_key = status_index::record_key(prefix, record.route.timeline_key);
    let by_owner = encode_utf8(status_index::owner_key(prefix, record));
    let by_state = encode_utf8(status_index::state_key(prefix, record));
    lemma_writes_at(store, prefix, timeline, previous, next, revision, record_key);
    lemma_writes_at(store, prefix, timeline, previous, next, revision, by_owner);
    lemma_writes_at(store, prefix, timeline, previous, next, revision, by_state);
    lemma_record_keys_lie_outside(prefix, timeline);
    lemma_record_keys_lie_outside(prefix, record.route.timeline_key);
    lemma_index_keys_lie_inside(prefix, record);
    lemma_index_keys_lie_inside(prefix, next);
    lemma_timelines_share_no_key(prefix, record, next);
    lemma_indexes_share_no_key(prefix, record, next);
    lemma_indexes_share_no_key(prefix, next, record);
    if let Some(old_record) = previous {
        lemma_index_keys_lie_inside(prefix, old_record);
        lemma_timelines_share_no_key(prefix, record, old_record);
        lemma_indexes_share_no_key(prefix, record, old_record);
        lemma_indexes_share_no_key(prefix, old_record, record);
    }
}

/// Creating a timeline under its own name keeps the status index sound and what is in step in step,
/// and brings the new timeline in step.
pub proof fn creations_keep_the_status_index_in_step(
    prefix: Seq<char>,
    timeline: Seq<char>,
    record: TimelineRecordView,
    guard: Seq<ConditionView>,
    txn: Transaction,
    store: StoreView,
    revision: i64,
    after: StoreView,
    reply: TxnReply,
)
    requires
        store::well_formed(store),
        sound(store, prefix),
        status_index::creates_timeline(txn, prefix, timeline, record, guard),
        record.route.timeline_key == timeline,
        store::commits(store, txn@, revision, after, reply),
    ensures
        sound(after, prefix),
        keeps_timelines_in_step(store, after, prefix),
        reply.succeeded ==> timeline_in_step(after, prefix, timeline),
        in_step(store, prefix) ==> in_step(after, prefix),
{
    if store::meets_all(store, txn@.conditions) {
        assert(store::meets(store, txn@.conditions[0]));
        assert(txn@.operations =~= writes(prefix, timeline, None, record));
        lemma_writes_keep_step(store, prefix, timeline, None, record, revision);
    }
}

/// The record that a replacement is built on was read from a store that had reached a revision and
/// has since become the one in which the replacement is committed.
pub open spec fn was_read(
    earlier: StoreView,
    at: i64,
    store: StoreView,
    key: Seq<u8>,
    record: TimelineRecordView,
    revision: u64,
) -> bool {
    &&& store::well_formed(earlier)
    &&& written(earlier, key, record, txn::as_store_revision(revision))
    &&& store::may_become(earlier, at, store)
}

/// Replacing a timeline under its own name keeps the status index sound and what is in step in
/// step, and brings the timeline in step.
pub proof fn replacements_keep_the_status_index_in_step(
    prefix: Seq<char>,
    timeline: Seq<char>,
    expected_revision: u64,
    previous: TimelineRecordView,
    next: TimelineRecordView,
    txn: Transaction,
    earlier: StoreView,
    at: i64,
    store: StoreView,
    revision: i64,
    after: StoreView,
    reply: TxnReply,
)
    requires
        store::well_formed(store),
        sound(store, prefix),
        was_read(
            earlier,
            at,
            store,
            status_index::record_key(prefix, timeline),
            previous,
            expected_revision,
        ),
        status_index::replaces_timeline(
            txn,
            prefix,
            timeline,
            expected_revision,
            previous,
            next,
        ),
        next.route.timeline_key == timeline,
        store::commits(store, txn@, revision, after, reply),
    ensures
        sound(after, prefix),
        keeps_timelines_in_step(store, after, prefix),
        reply.succeeded ==> timeline_in_step(after, prefix, timeline),
        in_step(store, prefix) ==> in_step(after, prefix),
{
    if store::meets_all(store, txn@.conditions) {
        assert(store::meets(store, txn@.conditions[0]));
        assert(txn@.operations =~= writes(prefix, timeline, Some(previous), next));
        lemma_writes_keep_step(store, prefix, timeline, Some(previous), next, revision);
    }
}

/// What a lookup of a key finds.
pub open spec fn finds(
    store: StoreView,
    key: Seq<u8>,
    found: Option<Found<TimelineRecord>>,
) -> bool {
    match found {
        Some(entry) => {
            &&& entry.value matches Ok(record)
            &&& written(store, key, record@, entry.mod_revision)
        },
        None => !store.contains_key(key),
    }
}

/// A timeline that was created is read back as it was written, at the revision that its creator was
/// told; and nothing stood there before.
pub proof fn created_timelines_are_read_back(
    prefix: Seq<char>,
    timeline: Seq<char>,
    record: TimelineRecord,
    guard: Seq<ConditionView>,
    txn: Transaction,
    store: StoreView,
    revision: i64,
    after: StoreView,
    reply: TxnReply,
    result: Result<u64, TsoError>,
    found: Option<Found<TimelineRecord>>,
    loaded: Result<Option<(TimelineRecord, u64)>, TsoError>,
)
    requires
        store::well_formed(store),
        status_index::creates_timeline(txn, prefix, timeline, record@.stamped(), guard),
        store::commits(store, txn@, revision, after, reply),
        txn::created(Ok(reply), "Etcd txn failed"@, "invalid txn response"@, result),
        result is Ok,
        finds(after, status_index::record_key(prefix, timeline), found),
        json::loads_timeline(Ok(found), loaded),
    ensures
        !store.contains_key(status_index::record_key(prefix, timeline)),
        loaded matches Ok(Some((read, at))) && read@ == record@.stamped() && result
            == Ok::<u64, TsoError>(at),
{
    let key = status_index::record_key(prefix, timeline);
    assert(store::meets(store, txn@.conditions[0]));
    assert(txn@.operations =~= writes(prefix, timeline, None, record@.stamped()));
    lemma_writes_at(store, prefix, timeline, None, record@.stamped(), revision, key);
}

/// A timeline that exists is not created again: nothing changes, and the creator is told so.
pub proof fn timelines_are_created_once(
    prefix: Seq<char>,
    timeline: Seq<char>,
    record: TimelineRecordView,
    guard: Seq<ConditionView>,
    txn: Transaction,
    store: StoreView,
    revision: i64,
    after: StoreView,
    reply: TxnReply,
    result: Result<u64, TsoError>,
)
    requires
        store::well_formed(store),
        store.contains_key(status_index::record_key(prefix, timeline)),
        status_index::creates_timeline(txn, prefix, timeline, record, guard),
        store::commits(store, txn@, revision, after, reply),
        txn::created(Ok(reply), "Etcd txn failed"@, "invalid txn response"@, result),
    ensures
        after == store,
        result == Err::<u64, TsoError>(TsoError::MetadataAlreadyExists),
{
    if store::meets_all(store, txn@.conditions) {
        assert(store::meets(store, txn@.conditions[0]));
    }
}

/// A timeline that was replaced is read back as it was written, at the revision that its writer was
/// told.
pub proof fn replaced_timelines_are_read_back(
    prefix: Seq<char>,
    timeline: Seq<char>,
    expected_revision: u64,
    previous: TimelineRecordView,
    record: TimelineRecord,
    txn: Transaction,
    store: StoreView,
    revision: i64,
    after: StoreView,
    reply: TxnReply,
    result: Result<u64, TsoError>,
    found: Option<Found<TimelineRecord>>,
    loaded: Result<Option<(TimelineRecord, u64)>, TsoError>,
)
    requires
        status_index::replaces_timeline(
            txn,
            prefix,
            timeline,
            expected_revision,
            previous,
            record@.stamped(),
        ),
        store::commits(store, txn@, revision, after, reply),
        txn::replaced(Ok(reply), "Etcd txn failed"@, "invalid txn response"@, result),
        result is Ok,
        finds(after, status_index::record_key(prefix, timeline), found),
        json::loads_timeline(Ok(found), loaded),
    ensures
        loaded matches Ok(Some((read, at))) && read@ == record@.stamped() && result
            == Ok::<u64, TsoError>(at),
{
    let key = status_index::record_key(prefix, timeline);
    assert(txn@.operations =~= writes(prefix, timeline, Some(previous), record@.stamped()));
    lemma_writes_at(store, prefix, timeline, Some(previous), record@.stamped(), revision, key);
}

/// A timeline that was written since it was read is not replaced: nothing changes, and the writer
/// is told that it lost.
pub proof fn late_replacements_are_refused(
    prefix: Seq<char>,
    timeline: Seq<char>,
    expected_revision: u64,
    previous: TimelineRecordView,
    next: TimelineRecordView,
    txn: Transaction,
    store: StoreView,
    revision: i64,
    after: StoreView,
    reply: TxnReply,
    result: Result<u64, TsoError>,
)
    requires
        status_index::replaces_timeline(
            txn,
            prefix,
            timeline,
            expected_revision,
            previous,
            next,
        ),
        store.contains_key(status_index::record_key(prefix, timeline)),
        store[status_index::record_key(prefix, timeline)].mod_revision != txn::as_store_revision(
            expected_revision,
        ),
        store::commits(store, txn@, revision, after, reply),
        txn::replaced(Ok(reply), "Etcd txn failed"@, "invalid txn response"@, result),
    ensures
        after == store,
        result == Err::<u64, TsoError>(TsoError::CasFailed),
{
    if store::meets_all(store, txn@.conditions) {
        assert(store::meets(store, txn@.conditions[0]));
    }
}

/// No timeline is named twice, and each is written under its own name.
pub open spec fn well_named(operations: Seq<TimelineBatchOp>) -> bool {
    forall|i: int|
        0 <= i < operations.len() ==> !timeline_batch::repeats(operations, i)
            && #[trigger] operations[i].record@.route.timeline_key == operations[i].timeline_key@
}

/// A timeline is none of those that a batch writes.
pub open spec fn is_left_alone(operations: Seq<TimelineBatchOp>, timeline: Seq<char>) -> bool {
    forall|i: int|
        0 <= i < operations.len() ==> #[trigger] operations[i].timeline_key@ != timeline
}

proof fn lemma_batches_keep_step(
    store: StoreView,
    prefix: Seq<char>,
    operations: Seq<TimelineBatchOp>,
    previous: Seq<TimelineRecord>,
    revision: i64,
)
    requires
        sound(store, prefix),
        well_named(operations),
        operations.len() <= previous.len(),
        forall|i: int|
            0 <= i < operations.len() ==> stands(
                store,
                prefix,
                (#[trigger] operations[i]).timeline_key@,
                Some(previous[i]@),
            ),
    ensures
        ({
            let after = store::after_operations(
                store,
                timeline_batch::batch_operations(prefix, operations, previous),
                revision,
            );
            &&& sound(after, prefix)
            &&& keeps_timelines_in_step(store, after, prefix)
            &&& forall|i: int|
                0 <= i < operations.len() ==> timeline_in_step(
                    after,
                    prefix,
                    (#[trigger] operations[i]).timeline_key@,
                )
            &&& forall|timeline: Seq<char>|
                is_left_alone(operations, timeline) ==> store::same_at(
                    store,
                    after,
                    #[trigger] status_index::record_key(prefix, timeline),
                )
        }),
    decreases operations.len(),
{
    if operations.len() > 0 {
        let earlier = operations.drop_last();
        let last = operations.last();
        let at = operations.len() - 1;
        assert forall|i: int| 0 <= i < earlier.len() implies !timeline_batch::repeats(earlier, i)
            && #[trigger] earlier[i].record@.route.timeline_key == earlier[i].timeline_key@ by {
            assert(operations[i].record@.route.timeline_key == operations[i].timeline_key@);
            if timeline_batch::repeats(earlier, i) {
                let j = choose|j: int|
                    0 <= j < i && #[trigger] earlier[j].timeline_key@ == earlier[i].timeline_key@;
                assert(operations[j].timeline_key@ == operations[i].timeline_key@);
            }
        }
        lemma_batches_keep_step(store, prefix, earlier, previous, revision);
        let half = timeline_batch::batch_operations(prefix, earlier, previous);
        let middle = store::after_operations(store, half, revision);
        let timeline = last.timeline_key@;
        let rest = writes(prefix, timeline, Some(previous[at]@), last.record@);
        assert(timeline_batch::batch_operations(prefix, operations, previous) =~= half + rest);
        store::lemma_operations_in_parts(store, half, rest, revision);
        assert(operations[at].record@.route.timeline_key == timeline);
        assert(!timeline_batch::repeats(operations, at));
        assert(is_left_alone(earlier, timeline)) by {
            assert forall|i: int| 0 <= i < earlier.len() implies
                #[trigger] earlier[i].timeline_key@ != timeline by {
                assert(operations[i].timeline_key@ == earlier[i].timeline_key@);
            }
        }
        assert(stands(store, prefix, operations[at].timeline_key@, Some(previous[at]@)));
        assert(stands(middle, prefix, timeline, Some(previous[at]@)));
        lemma_writes_keep_step(
            middle,
            prefix,
            timeline,
            Some(previous[at]@),
            last.record@,
            revision,
        );
        let after = store::after_operations(middle, rest, revision);
        assert forall|i: int| 0 <= i < operations.len() implies timeline_in_step(
            after,
            prefix,
            (#[trigger] operations[i]).timeline_key@,
        ) by {
            if i < at {
                assert(timeline_in_step(middle, prefix, earlier[i].timeline_key@));
            }
        }
        assert forall|other: Seq<char>| is_left_alone(operations, other) implies store::same_at(
            store,
            after,
            #[trigger] status_index::record_key(prefix, other),
        ) by {
            let key = status_index::record_key(prefix, other);
            assert(operations[at].timeline_key@ != other);
            assert(is_left_alone(earlier, other)) by {
                assert forall|i: int| 0 <= i < earlier.len() implies
                    #[trigger] earlier[i].timeline_key@ != other by {
                    assert(operations[i].timeline_key@ != other);
                }
            }
            lemma_writes_at(
                middle,
                prefix,
                timeline,
                Some(previous[at]@),
                last.record@,
                revision,
                key,
            );
            lemma_record_keys_differ(prefix, other, timeline);
            lemma_record_keys_lie_outside(prefix, other);
            lemma_index_keys_lie_inside(prefix, last.record@);
            lemma_index_keys_lie_inside(prefix, previous[at]@);
        }
    }
}

/// Replacing several timelines at once keeps the status index sound and what is in step in step,
/// and brings all of them in step.
pub proof fn batches_keep_the_status_index_in_step(
    prefix: Seq<char>,
    operations: Seq<TimelineBatchOp>,
    previous: Seq<TimelineRecord>,
    txn: Transaction,
    earlier: Seq<StoreView>,
    at: Seq<i64>,
    store: StoreView,
    revision: i64,
    after: StoreView,
    reply: TxnReply,
)
    requires
        store::well_formed(store),
        sound(store, prefix),
        well_named(operations),
        previous.len() == operations.len(),
        earlier.len() == operations.len(),
        at.len() == operations.len(),
        forall|i: int|
            0 <= i < operations.len() ==> was_read(
                earlier[i],
                at[i],
                store,
                status_index::record_key(prefix, (#[trigger] operations[i]).timeline_key@),
                previous[i]@,
                operations[i].previous_revision,
            ),
        txn@.conditions == timeline_batch::batch_conditions(prefix, operations),
        txn@.operations == timeline_batch::batch_operations(prefix, operations, previous),
        store::commits(store, txn@, revision, after, reply),
    ensures
        sound(after, prefix),
        keeps_timelines_in_step(store, after, prefix),
        reply.succeeded ==> forall|i: int|
            0 <= i < operations.len() ==> timeline_in_step(
                after,
                prefix,
                (#[trigger] operations[i]).timeline_key@,
            ),
        in_step(store, prefix) ==> in_step(after, prefix),
{
    if store::meets_all(store, txn@.conditions) {
        assert forall|i: int| 0 <= i < operations.len() implies stands(
            store,
            prefix,
            (#[trigger] operations[i]).timeline_key@,
            Some(previous[i]@),
        ) by {
            assert(store::meets(store, txn@.conditions[i]));
        }
        lemma_batches_keep_step(store, prefix, operations, previous, revision);
    }
}

/// A batch happens as a whole or not at all: where one of its timelines was written since it was
/// read, nothing changes.
pub proof fn late_batches_are_refused(
    prefix: Seq<char>,
    operations: Seq<TimelineBatchOp>,
    previous: Seq<TimelineRecord>,
    txn: Transaction,
    store: StoreView,
    revision: i64,
    after: StoreView,
    reply: TxnReply,
    late: int,
)
    requires
        0 <= late < operations.len(),
        ({
            let key = status_index::record_key(prefix, operations[late].timeline_key@);
            store.contains_key(key) && store[key].mod_revision != txn::as_store_revision(
                operations[late].previous_revision,
            )
        }),
        txn@.conditions == timeline_batch::batch_conditions(prefix, operations),
        txn@.operations == timeline_batch::batch_operations(prefix, operations, previous),
        store::commits(store, txn@, revision, after, reply),
    ensures
        after == store,
        !reply.succeeded,
{
    if store::meets_all(store, txn@.conditions) {
        assert(store::meets(store, txn@.conditions[late]));
    }
}

/// A rebuild begins with an empty index, which is sound, and touches no timeline.
pub proof fn cleanups_empty_the_status_index(
    run: RebuildRun,
    txn: Transaction,
    store: StoreView,
    revision: i64,
    after: StoreView,
    reply: TxnReply,
    timeline: Seq<char>,
    key: Seq<u8>,
)
    requires
        forall|name: Seq<char>| #[trigger] named(store, run.prefix@, name),
        run.cleans_up(txn),
        store::commits(store, txn@, revision, after, reply),
        reply.succeeded,
    ensures
        in_status_index(run.prefix@, key) ==> !after.contains_key(key),
        store::same_at(store, after, status_index::record_key(run.prefix@, timeline)),
        sound(after, run.prefix@),
{
    let prefix = run.prefix@;
    let none = Seq::<OperationView>::empty();
    store::lemma_last_operation(store, none, txn@.operations[0], revision);
    assert(txn@.operations =~= none.push(txn@.operations[0]));
    lemma_record_keys_lie_outside(prefix, timeline);
    assert forall|name: Seq<char>| #[trigger] named(after, prefix, name) by {
        lemma_record_keys_lie_outside(prefix, name);
        assert(named(store, prefix, name));
    }
    assert forall|entry: Seq<u8>| #[trigger] entry_in_step(after, prefix, entry) by {}
}

/// A timeline that a rebuild enters as it was scanned is in step from then on; the index stays
/// sound, and what is in step stays in step.
pub proof fn rebuilt_timelines_are_in_step(
    run: RebuildRun,
    row: RouteRow,
    txn: Transaction,
    earlier: StoreView,
    at: i64,
    store: StoreView,
    revision: i64,
    after: StoreView,
    reply: TxnReply,
)
    requires
        store::well_formed(earlier),
        sound(store, run.prefix@),
        row.record is Ok,
        row.key@ == status_index::record_key(
            run.prefix@,
            row.record->Ok_0@.route.timeline_key,
        ),
        written(earlier, row.key@, row.record->Ok_0@, row.mod_revision),
        store::may_become(earlier, at, store),
        run.indexes_row(row, txn),
        store::commits(store, txn@, revision, after, reply),
        reply.succeeded,
    ensures
        sound(after, run.prefix@),
        keeps_timelines_in_step(store, after, run.prefix@),
        timeline_in_step(after, run.prefix@, row.record->Ok_0@.route.timeline_key),
{
    let prefix = run.prefix@;
    let record = row.record->Ok_0@;
    let timeline = record.route.timeline_key;
    let none = Seq::<OperationView>::empty();
    let puts = status_index::index_puts(prefix, record);
    let first = none.push(puts[0]);
    store::lemma_last_operation(store, none, puts[0], revision);
    store::lemma_last_operation(store, first, puts[1], revision);
    assert(puts =~= first.push(puts[1]));
    assert(store::meets(store, txn@.conditions[1]));
    lemma_index_keys_lie_inside(prefix, record);
    lemma_indexes_share_no_key(prefix, record, record);
    lemma_record_keys_lie_outside(prefix, timeline);
    assert forall|other: Seq<char>| #[trigger] named(after, prefix, other) by {
        lemma_record_keys_lie_outside(prefix, other);
        assert(named(store, prefix, other));
    }
    assert forall|key: Seq<u8>| #[trigger] entry_in_step(after, prefix, key) by {
        assert(entry_in_step(store, prefix, key));
        if in_status_index(prefix, key) && after.contains_key(key) && store.contains_key(key) {
            lemma_record_keys_lie_outside(
                prefix,
                store[key].value->Timeline_0.route.timeline_key,
            );
        }
    }
    assert forall|other: Seq<char>|
        timeline_in_step(store, prefix, other) implies #[trigger] timeline_in_step(
        after,
        prefix,
        other,
    ) by {
        let key = status_index::record_key(prefix, other);
        lemma_record_keys_lie_outside(prefix, other);
        if store.contains_key(key) && other != timeline {
            let kept = store[key].value->Timeline_0;
            lemma_timelines_share_no_key(prefix, kept, record);
            lemma_indexes_share_no_key(prefix, kept, record);
            lemma_indexes_share_no_key(prefix, record, kept);
        }
    }
}

/// Publishing the index changes no timeline and no entry.
pub proof fn publishing_keeps_the_status_index(
    run: RebuildRun,
    txn: Transaction,
    store: StoreView,
    revision: i64,
    after: StoreView,
    reply: TxnReply,
)
    requires
        run.fence.key@ == keys::timeline_status_index_rebuild_lock_key_text(run.prefix@),
        sound(store, run.prefix@),
        run.publishes(txn),
        store::commits(store, txn@, revision, after, reply),
    ensures
        sound(after, run.prefix@),
        keeps_timelines_in_step(store, after, run.prefix@),
        in_step(store, run.prefix@) ==> in_step(after, run.prefix@),
{
    let prefix = run.prefix@;
    if store::meets_all(store, txn@.conditions) {
        let none = Seq::<OperationView>::empty();
        let first = none.push(txn@.operations[0]);
        store::lemma_last_operation(store, none, txn@.operations[0], revision);
        store::lemma_last_operation(store, first, txn@.operations[1], revision);
        assert(txn@.operations =~= first.push(txn@.operations[1]));
        assert forall|key: Seq<u8>| in_status_index(prefix, key) implies #[trigger] store::same_at(
            store,
            after,
            key,
        ) by {
            lemma_rebuild_lock_lies_outside(prefix, Seq::empty());
        }
        assert forall|name: Seq<char>| store::same_at(
            store,
            after,
            #[trigger] status_index::record_key(prefix, name),
        ) by {
            lemma_rebuild_lock_lies_outside(prefix, name);
            lemma_record_keys_lie_outside(prefix, name);
            lemma_marker_lies_in_the_index(prefix);
        }
        assert forall|name: Seq<char>| #[trigger] named(after, prefix, name) by {
            assert(named(store, prefix, name));
        }
        assert forall|key: Seq<u8>| #[trigger] entry_in_step(after, prefix, key) by {
            assert(entry_in_step(store, prefix, key));
            assert(in_status_index(prefix, key) ==> store::same_at(store, after, key));
        }
        assert forall|name: Seq<char>|
            timeline_in_step(store, prefix, name) implies #[trigger] timeline_in_step(
            after,
            prefix,
            name,
        ) by {
            let key = status_index::record_key(prefix, name);
            if store.contains_key(key) {
                let record = store[key].value->Timeline_0;
                lemma_index_keys_lie_inside(prefix, record);
                assert(store::same_at(
                    store,
                    after,
                    encode_utf8(status_index::owner_key(prefix, record)),
                ));
                assert(store::same_at(
                    store,
                    after,
                    encode_utf8(status_index::state_key(prefix, record)),
                ));
            }
        }
    }
}

proof fn lemma_marker_lies_in_the_index(prefix: Seq<char>)
    ensures
        encode_utf8(keys::timeline_status_index_prefix_text(prefix)).is_prefix_of(
            encode_utf8(keys::timeline_status_index_marker_key_text(prefix)),
        ),
{
    let none = Seq::<char>::empty();
    key_laws::status_index_entries_lie_in_their_ranges(prefix, none, none, none);
    key_laws::encodings_begin_as_texts_do(
        keys::timeline_status_index_marker_key_text(prefix),
        keys::timeline_status_index_prefix_text(prefix),
    );
}

/// Looking through the range of an owner in an index that is in step shows timelines of that owner
/// alone, as they stand.
pub proof fn owner_ranges_show_owned_timelines(
    store: StoreView,
    prefix: Seq<char>,
    owner: Seq<char>,
    key: Seq<u8>,
)
    requires
        sound(store, prefix),
        store.contains_key(key),
        encode_utf8(keys::timeline_status_owner_index_prefix_text(prefix, owner)).is_prefix_of(key),
    ensures
        store[key].value matches PayloadView::Timeline(record) && keys::normal_endpoint(
            record.route.owner_worker_endpoint,
        ) == keys::normal_endpoint(owner) && store::holds(
            store,
            status_index::record_key(prefix, record.route.timeline_key),
            PayloadView::Timeline(record),
        ),
{
    let range = keys::timeline_status_owner_index_prefix_text(prefix, owner);
    lemma_ranges_lie_inside(prefix, owner, Seq::empty(), key);
    assert(entry_in_step(store, prefix, key));
    let record = store[key].value->Timeline_0;
    key_laws::owner_ranges_hold_their_own_entries(
        prefix,
        owner,
        record.route.owner_worker_endpoint,
        record.state.name(),
        record.route.timeline_key,
    );
    key_laws::encodings_begin_as_texts_do(status_index::owner_key(prefix, record), range);
    key_laws::encodings_begin_as_texts_do(status_index::state_key(prefix, record), range);
}

/// Looking through the range of a state shows timelines in that state alone, as they stand.
pub proof fn state_ranges_show_timelines_in_that_state(
    store: StoreView,
    prefix: Seq<char>,
    state: TimelineLifecycleState,
    key: Seq<u8>,
)
    requires
        sound(store, prefix),
        store.contains_key(key),
        encode_utf8(
            keys::timeline_status_state_index_prefix_text(prefix, state.name()),
        ).is_prefix_of(key),
    ensures
        store[key].value matches PayloadView::Timeline(record) && record.state == state
            && store::holds(
            store,
            status_index::record_key(prefix, record.route.timeline_key),
            PayloadView::Timeline(record),
        ),
{
    let range = keys::timeline_status_state_index_prefix_text(prefix, state.name());
    lemma_ranges_lie_inside(prefix, Seq::empty(), state.name(), key);
    assert(entry_in_step(store, prefix, key));
    let record = store[key].value->Timeline_0;
    key_laws::state_ranges_hold_their_own_entries(
        prefix,
        state,
        record.state,
        record.route.owner_worker_endpoint,
        record.route.timeline_key,
    );
    key_laws::encodings_begin_as_texts_do(status_index::owner_key(prefix, record), range);
    key_laws::encodings_begin_as_texts_do(status_index::state_key(prefix, record), range);
}

/// A timeline that stands is shown in the range of its owner and in that of its state.
pub proof fn ranges_show_every_timeline(
    store: StoreView,
    prefix: Seq<char>,
    timeline: Seq<char>,
    record: TimelineRecordView,
)
    requires
        in_step(store, prefix),
        store::holds(
            store,
            status_index::record_key(prefix, timeline),
            PayloadView::Timeline(record),
        ),
    ensures
        record.route.timeline_key == timeline,
        indexed(store, prefix, record),
        encode_utf8(
            keys::timeline_status_owner_index_prefix_text(
                prefix,
                record.route.owner_worker_endpoint,
            ),
        ).is_prefix_of(encode_utf8(status_index::owner_key(prefix, record))),
        encode_utf8(
            keys::timeline_status_state_index_prefix_text(prefix, record.state.name()),
        ).is_prefix_of(encode_utf8(status_index::state_key(prefix, record))),
{
    let owner = record.route.owner_worker_endpoint;
    let state = record.state.name();
    assert(timeline_in_step(store, prefix, timeline));
    key_laws::status_index_entries_lie_in_their_ranges(prefix, owner, state, timeline);
    key_laws::encodings_begin_as_texts_do(
        status_index::owner_key(prefix, record),
        keys::timeline_status_owner_index_prefix_text(prefix, owner),
    );
    key_laws::encodings_begin_as_texts_do(
        status_index::state_key(prefix, record),
        keys::timeline_status_state_index_prefix_text(prefix, state),
    );
}

/// What lies in the range of an owner or a state lies in the index, and is not its marker.
proof fn lemma_ranges_lie_inside(
    prefix: Seq<char>,
    owner: Seq<char>,
    state: Seq<char>,
    key: Seq<u8>,
)
    requires
        encode_utf8(keys::timeline_status_owner_index_prefix_text(prefix, owner)).is_prefix_of(key)
            || encode_utf8(
            keys::timeline_status_state_index_prefix_text(prefix, state),
        ).is_prefix_of(key),
    ensures
        in_status_index(prefix, key),
{
    let by_owner = keys::timeline_status_owner_index_prefix_text(prefix, owner);
    let by_state = keys::timeline_status_state_index_prefix_text(prefix, state);
    let index = keys::timeline_status_index_prefix_text(prefix);
    let marker = keys::timeline_status_index_marker_key_text(prefix);
    key_laws::status_index_entries_lie_in_their_ranges(prefix, owner, state, Seq::empty());
    key_laws::encodings_begin_as_texts_do(by_owner, index);
    key_laws::encodings_begin_as_texts_do(by_state, index);
    key_laws::encodings_begin_as_texts_do(marker, by_owner);
    key_laws::encodings_begin_as_texts_do(marker, by_state);
    reveal_strlit("timeline_status/by_owner/");
    reveal_strlit("timeline_status/by_state/");
    reveal_strlit("timeline_status/__ready");
    let at = if prefix.len() == 0 {
        16
    } else {
        (prefix + "/"@).len() as int + 16
    };
    assert(by_owner[at] == 'b');
    assert(by_state[at] == 'b');
    assert(marker[at] == '_');
    let bytes = encode_utf8(index);
    assert forall|i: int| 0 <= i < bytes.len() implies key[i] == bytes[i] by {
        assert(encode_utf8(by_owner)[i] == bytes[i]);
        assert(encode_utf8(by_state)[i] == bytes[i]);
    }
}

} // verus!
