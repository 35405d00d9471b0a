//! What a whole cleanup of request records comes to, over a store that nothing else changes
//! meanwhile.

use vstd::prelude::*;
use vstd::utf8::*;

use crate::error::TsoError;
use crate::metadata::etcd::json;
use crate::metadata::etcd::json::Found;
use crate::metadata::etcd::prune;
use crate::metadata::etcd::prune::{
    IndexRow, PruneReply, PruneRun, PruneStep, PruneWait, RecordRow,
};
use crate::metadata::etcd::ranges;
use crate::metadata::etcd::request_index;
use crate::metadata::etcd::store;
use crate::metadata::etcd::store::StoreView;
use crate::metadata::etcd::txn;
use crate::metadata::etcd::txn::{OperationView, PayloadView, Transaction, TxnReply};
use crate::metadata::key_laws;
use crate::metadata::keys;
use crate::metadata::types::RequestRecord;
use crate::text;

verus! {

/// Where the requests begin.
pub open spec fn requests(prefix: Seq<char>) -> Seq<u8> {
    encode_utf8(keys::request_prefix_text(prefix))
}

/// Where the cleanup index begins.
pub open spec fn index(prefix: Seq<char>) -> Seq<u8> {
    encode_utf8(keys::request_cleanup_index_prefix_text(prefix))
}

/// The key holds a request record that is completed and old enough.
pub open spec fn is_due(
    store: StoreView,
    prefix: Seq<char>,
    older_than_ms: u64,
    key: Seq<u8>,
) -> bool {
    &&& ranges::has_prefix(key, requests(prefix))
    &&& store.contains_key(key)
    &&& store[key].value matches PayloadView::Request(record) && request_index::prunable(
        record,
        older_than_ms,
    )
}

/// The keys of all the records that are due.
pub open spec fn due(store: StoreView, prefix: Seq<char>, older_than_ms: u64) -> Set<Seq<u8>> {
    Set::new(|key: Seq<u8>| is_due(store, prefix, older_than_ms, key))
}

/// What a range of the index reads as. A row that decodes is the one that stands.
pub open spec fn reads_index(
    store: StoreView,
    start: Seq<u8>,
    end: Seq<u8>,
    limit: i64,
    rows: Seq<IndexRow>,
) -> bool {
    &&& store::reads(store, start, end, limit, Seq::new(rows.len(), |i: int| rows[i].key@))
    &&& forall|i: int|
        0 <= i < rows.len() ==> {
            let entry = store[(#[trigger] rows[i]).key@];
            &&& rows[i].mod_revision == entry.mod_revision
            &&& rows[i].entry matches Ok(note) ==> entry.value == PayloadView::CleanupIndex(note@)
        }
}

/// What a range of the records reads as. A row that decodes is the one that stands.
pub open spec fn reads_records(
    store: StoreView,
    start: Seq<u8>,
    end: Seq<u8>,
    limit: i64,
    rows: Seq<RecordRow>,
) -> bool {
    &&& store::reads(store, start, end, limit, Seq::new(rows.len(), |i: int| rows[i].key@))
    &&& forall|i: int|
        0 <= i < rows.len() ==> {
            let entry = store[(#[trigger] rows[i]).key@];
            &&& rows[i].mod_revision == entry.mod_revision
            &&& rows[i].record matches Ok(record) ==> entry.value == PayloadView::Request(record@)
        }
}

/// What looking up a record comes to. A record that decodes is the one that stands.
pub open spec fn loads(
    store: StoreView,
    key: Seq<u8>,
    found: Option<Found<RequestRecord>>,
) -> bool {
    match found {
        None => !store.contains_key(key),
        Some(entry) => {
            &&& store.contains_key(key)
            &&& entry.mod_revision == store[key].mod_revision
            &&& entry.value matches Ok(record) ==> store[key].value == PayloadView::Request(record@)
        },
    }
}

/// The store answers a step, or the answer is lost. Nothing but the cleanup changes the store.
pub open spec fn answers(
    store: StoreView,
    step: PruneStep,
    reply: PruneReply,
    after: StoreView,
) -> bool {
    match step {
        PruneStep::ScanIndex { start, end, limit } => {
            &&& after == store
            &&& reply matches PruneReply::IndexPage(page)
            &&& page matches Ok(rows) ==> reads_index(store, start@, end@, limit, rows@)
        },
        PruneStep::LoadRecord { key } => {
            &&& after == store
            &&& reply matches PruneReply::Record(answer)
            &&& answer matches Ok(found) ==> loads(store, key@, found)
        },
        PruneStep::Commit { txn } => {
            &&& reply matches PruneReply::Committed(answer)
            &&& answer matches Ok(succeeded) ==> exists|revision: i64, told: TxnReply|
                #[trigger] store::commits(store, txn@, revision, after, told) && told.succeeded
                    == succeeded
        },
        PruneStep::ScanRecords { start, end, limit } => {
            &&& after == store
            &&& reply matches PruneReply::RecordPage(page)
            &&& page matches Ok(rows) ==> reads_records(store, start@, end@, limit, rows@)
        },
        PruneStep::Done { .. } | PruneStep::Failed { .. } => false,
    }
}

/// A cleanup from its beginning on: what it asked for, what it was answered, and what the store
/// held whenever it asked.
pub open spec fn cleaned(
    prefix: Seq<char>,
    older_than_ms: u64,
    limit: usize,
    runs: Seq<PruneRun>,
    steps: Seq<PruneStep>,
    replies: Seq<PruneReply>,
    stores: Seq<StoreView>,
) -> bool {
    &&& runs.len() == replies.len() + 1
    &&& steps.len() == replies.len() + 1
    &&& stores.len() == replies.len() + 1
    &&& runs[0].begins(prefix, older_than_ms, limit, steps[0])
    &&& forall|i: int|
        0 <= i < replies.len() ==> {
            &&& answers(stores[i], steps[i], #[trigger] replies[i], stores[i + 1])
            &&& runs[i + 1].valid()
            &&& runs[i + 1].same_task(runs[i])
            &&& runs[i + 1].advances(runs[i], replies[i], steps[i + 1])
        }
}

/// What was deleted and what is still due are together what was due at first; all other records
/// stand as they did.
spec fn counts(first: StoreView, run: PruneRun, store: StoreView) -> bool {
    let due_first = due(first, run.prefix@, run.older_than_ms);
    let due_now = due(store, run.prefix@, run.older_than_ms);
    &&& store::well_formed(store)
    &&& store.dom().finite()
    &&& run.pruned + due_now.len() == due_first.len()
    &&& due_now.subset_of(due_first)
    &&& forall|key: Seq<u8>|
        ranges::has_prefix(key, requests(run.prefix@)) && !due_first.contains(key)
            ==> #[trigger] store::same_at(first, store, key)
}

/// The rows of the index lie in the index.
spec fn index_rows_apart(run: PruneRun) -> bool {
    forall|i: int|
        0 <= i < run.index_rows@.len() ==> ranges::has_prefix(
            (#[trigger] run.index_rows@[i]).key@,
            index(run.prefix@),
        )
}

/// The scan of the records is on its way through their range.
spec fn scans_records(run: PruneRun, from: Seq<u8>) -> bool {
    &&& run.range_end@ == ranges::range_end(requests(run.prefix@))
    &&& run.fetch_limit > 0
    &&& !text::bytes_before(from, requests(run.prefix@))
}

/// The candidates from a place on are due, and stand as they were seen; each stands once.
spec fn candidates_stand(run: PruneRun, store: StoreView, at: int) -> bool {
    &&& forall|i: int|
        at <= i < run.candidates@.len() ==> {
            let candidate = #[trigger] run.candidates@[i];
            &&& is_due(store, run.prefix@, run.older_than_ms, candidate.0@)
            &&& store[candidate.0@].mod_revision == candidate.1
        }
    &&& forall|i: int, j: int|
        at <= i < j < run.candidates@.len() ==> (#[trigger] run.candidates@[i]).0@
            != (#[trigger] run.candidates@[j]).0@
}

/// The key is one of the candidates from a place on.
spec fn is_candidate(run: PruneRun, at: int, key: Seq<u8>) -> bool {
    exists|i: int| at <= i < run.candidates@.len() && (#[trigger] run.candidates@[i]).0@ == key
}

/// What is due is a candidate from a place on, or comes after the page.
spec fn nothing_missed(run: PruneRun, store: StoreView, at: int) -> bool {
    forall|key: Seq<u8>| #[trigger]
        is_due(store, run.prefix@, run.older_than_ms, key) ==> is_candidate(run, at, key)
            || text::bytes_before(run.last_key@, key)
}

/// What holds whenever the cleanup asks for something.
spec fn under_way(first: StoreView, run: PruneRun, step: PruneStep, store: StoreView) -> bool {
    &&& run.valid()
    &&& step is Failed || {
        &&& counts(first, run, store)
        &&& match run.wait {
            PruneWait::IndexPage => step matches PruneStep::ScanIndex { start, end, .. } && {
                &&& !text::bytes_before(start@, index(run.prefix@))
                &&& end@ == encode_utf8(
                    keys::request_cleanup_index_cutoff_text(run.prefix@, run.older_than_ms),
                )
            },
            PruneWait::IndexedRecord { index_key, record_key, .. } => {
                &&& step matches PruneStep::LoadRecord { key }
                &&& key@ == record_key@
                &&& index_rows_apart(run)
                &&& ranges::has_prefix(index_key@, index(run.prefix@))
                &&& ranges::has_prefix(record_key@, requests(run.prefix@))
            },
            PruneWait::StaleIndexDropped { .. } => {
                &&& index_rows_apart(run)
                &&& step matches PruneStep::Commit { txn }
                &&& drops_note(run.prefix@, txn)
            },
            PruneWait::IndexedPruned => {
                &&& index_rows_apart(run)
                &&& step matches PruneStep::Commit { txn }
                &&& drops_both(run, store, txn)
            },
            PruneWait::RecordPage => step matches PruneStep::ScanRecords { start, end, limit } && {
                &&& scans_records(run, start@)
                &&& end@ == run.range_end@
                &&& limit == run.fetch_limit
                &&& forall|key: Seq<u8>| #[trigger]
                    is_due(store, run.prefix@, run.older_than_ms, key) ==> !text::bytes_before(
                        key,
                        start@,
                    )
            },
            PruneWait::RecordPruned => {
                &&& step matches PruneStep::Commit { txn }
                &&& run.candidate_at > 0
                &&& prune::drops_key(
                    txn,
                    run.candidates@[run.candidate_at - 1].0@,
                    run.candidates@[run.candidate_at - 1].1,
                )
                &&& scans_records(run, run.last_key@)
                &&& candidates_stand(run, store, run.candidate_at - 1)
                &&& nothing_missed(run, store, run.candidate_at - 1)
            },
            PruneWait::Nothing => {
                &&& step matches PruneStep::Done { pruned }
                &&& pruned == run.pruned
                &&& run.pruned == run.limit || due(store, run.prefix@, run.older_than_ms).len() == 0
            },
        }
    }
}

spec fn drops_note(prefix: Seq<char>, txn: Transaction) -> bool {
    exists|key: Seq<u8>, revision: i64|
        #[trigger] prune::drops_key(txn, key, revision) && ranges::has_prefix(key, index(prefix))
}

spec fn drops_both(run: PruneRun, store: StoreView, txn: Transaction) -> bool {
    exists|key: Seq<u8>, revision: i64, note: Seq<u8>, note_revision: i64|
        #[trigger] prune::drops_record_and_index(txn, key, revision, note, note_revision) && is_due(
            store,
            run.prefix@,
            run.older_than_ms,
            key,
        ) && ranges::has_prefix(note, index(run.prefix@))
}

/// A key cannot lie in the index and among the requests.
proof fn lemma_apart(prefix: Seq<char>, key: Seq<u8>)
    requires
        ranges::has_prefix(key, index(prefix)),
    ensures
        !ranges::has_prefix(key, requests(prefix)),
{
    let a = index(prefix);
    let b = requests(prefix);
    if ranges::has_prefix(key, b) {
        key_laws::cleanup_index_range_is_apart_from_the_requests(prefix);
        key_laws::encodings_begin_as_texts_do(
            keys::request_cleanup_index_prefix_text(prefix),
            keys::request_prefix_text(prefix),
        );
        key_laws::encodings_begin_as_texts_do(
            keys::request_prefix_text(prefix),
            keys::request_cleanup_index_prefix_text(prefix),
        );
        if a.len() <= b.len() {
            assert(b.take(a.len() as int) =~= key.take(b.len() as int).take(a.len() as int));
            assert(key.take(b.len() as int).take(a.len() as int) =~= key.take(a.len() as int));
            assert(a.is_prefix_of(b));
        } else {
            assert(a.take(b.len() as int) =~= key.take(a.len() as int).take(b.len() as int));
            assert(key.take(a.len() as int).take(b.len() as int) =~= key.take(b.len() as int));
            assert(b.is_prefix_of(a));
        }
    }
}

/// What lies between a prefix and something that begins with it begins with it.
proof fn lemma_between(prefix: Seq<u8>, end: Seq<u8>, key: Seq<u8>)
    requires
        prefix.is_prefix_of(end),
        !text::bytes_before(key, prefix),
        text::bytes_before(key, end),
    ensures
        ranges::has_prefix(key, prefix),
    decreases prefix.len(),
{
    if prefix.len() == 0 {
        assert(key.take(0) =~= prefix);
    } else {
        assert(prefix[0] == end[0]);
        if key.len() > 0 && key[0] == prefix[0] {
            assert(prefix.drop_first() =~= end.drop_first().take(prefix.len() - 1));
            lemma_between(prefix.drop_first(), end.drop_first(), key.drop_first());
            assert(key.take(prefix.len() as int) =~= seq![key[0]] + key.drop_first().take(
                prefix.len() - 1,
            ));
            assert(prefix =~= seq![prefix[0]] + prefix.drop_first());
        }
    }
}

/// What is not before something that is not before a third is not before the third.
proof fn lemma_not_before(a: Seq<u8>, b: Seq<u8>, c: Seq<u8>)
    requires
        !text::bytes_before(b, a),
        !text::bytes_before(c, b),
    ensures
        !text::bytes_before(c, a),
{
    if text::bytes_before(c, a) {
        text::bytes_before_total(b, c);
        text::bytes_before_total(a, b);
        if b == c || a == b {
        } else {
            text::bytes_before_transitive(b, c, a);
        }
    }
}

/// The records that are due are finitely many.
proof fn lemma_due_finite(store: StoreView, prefix: Seq<char>, older_than_ms: u64)
    requires
        store.dom().finite(),
    ensures
        due(store, prefix, older_than_ms).finite(),
{
    vstd::set_lib::lemma_len_subset(due(store, prefix, older_than_ms), store.dom());
}

/// A change outside the requests changes nothing that counts.
proof fn lemma_note_dropped(
    first: StoreView,
    run: PruneRun,
    next: PruneRun,
    store: StoreView,
    note: Seq<u8>,
)
    requires
        counts(first, run, store),
        next.same_task(run),
        next.pruned == run.pruned,
        ranges::has_prefix(note, index(run.prefix@)),
    ensures
        counts(first, next, store.remove(note)),
{
    let after = store.remove(note);
    lemma_apart(run.prefix@, note);
    assert(due(after, run.prefix@, run.older_than_ms) =~= due(
        store,
        run.prefix@,
        run.older_than_ms,
    ));
    assert forall|key: Seq<u8>|
        ranges::has_prefix(key, requests(run.prefix@)) && !due(
            first,
            run.prefix@,
            run.older_than_ms,
        ).contains(key) implies #[trigger] store::same_at(first, after, key) by {
        assert(store::same_at(first, store, key));
    }
}

/// The deletion of a record that is due is counted.
proof fn lemma_record_dropped(
    first: StoreView,
    run: PruneRun,
    next: PruneRun,
    store: StoreView,
    dropped: Seq<u8>,
)
    requires
        counts(first, run, store),
        next.same_task(run),
        next.pruned == run.pruned + 1,
        is_due(store, run.prefix@, run.older_than_ms, dropped),
    ensures
        counts(first, next, store.remove(dropped)),
{
    let after = store.remove(dropped);
    let before_due = due(store, run.prefix@, run.older_than_ms);
    lemma_due_finite(store, run.prefix@, run.older_than_ms);
    assert(before_due.contains(dropped));
    assert(due(after, run.prefix@, run.older_than_ms) =~= before_due.remove(dropped));
    assert forall|key: Seq<u8>|
        ranges::has_prefix(key, requests(run.prefix@)) && !due(
            first,
            run.prefix@,
            run.older_than_ms,
        ).contains(key) implies #[trigger] store::same_at(first, after, key) by {
        assert(store::same_at(first, store, key));
        assert(due(first, run.prefix@, run.older_than_ms).contains(dropped));
    }
}

/// What begins with something is not before it.
proof fn lemma_prefix_not_before(key: Seq<u8>, prefix: Seq<u8>)
    requires
        ranges::has_prefix(key, prefix),
    ensures
        !text::bytes_before(key, prefix),
    decreases prefix.len(),
{
    if prefix.len() > 0 {
        assert(key[0] == key.take(prefix.len() as int)[0]);
        assert(key.drop_first().take(prefix.len() - 1) =~= key.take(
            prefix.len() as int,
        ).drop_first());
        lemma_prefix_not_before(key.drop_first(), prefix.drop_first());
    }
}

/// The key after one is not before it, and begins as it does.
proof fn lemma_key_after(key: Seq<u8>, prefix: Seq<u8>)
    ensures
        !text::bytes_before(ranges::key_after(key), key),
        ranges::has_prefix(key, prefix) ==> ranges::has_prefix(ranges::key_after(key), prefix),
{
    let next = ranges::key_after(key);
    assert(next.take(key.len() as int) =~= key);
    lemma_prefix_not_before(next, key);
    if ranges::has_prefix(key, prefix) {
        assert(next.take(prefix.len() as int) =~= key.take(prefix.len() as int));
    }
}

/// The range of the requests holds them and nothing else.
proof fn lemma_requests_range(prefix: Seq<char>, key: Seq<u8>)
    ensures
        ranges::in_range(key, requests(prefix), ranges::range_end(requests(prefix)))
            <==> ranges::has_prefix(key, requests(prefix)),
{
    reveal_strlit("requests_v2/");
    let whole = keys::request_prefix_text(prefix);
    let last = seq!['/'];
    let head = whole.drop_last();
    assert(whole =~= head + last);
    key_laws::encoding_distributes(head, last);
    is_ascii_chars_encode_utf8(last);
    assert(encode_utf8(last)[0] == last[0] as u8);
    ranges::prefix_ranges_are_exact(requests(prefix), key);
}

/// What a range of the index reads as lies in the index.
proof fn lemma_index_rows(
    store: StoreView,
    prefix: Seq<char>,
    older_than_ms: u64,
    start: Seq<u8>,
    limit: i64,
    rows: Seq<IndexRow>,
    i: int,
)
    requires
        !text::bytes_before(start, index(prefix)),
        reads_index(
            store,
            start,
            encode_utf8(keys::request_cleanup_index_cutoff_text(prefix, older_than_ms)),
            limit,
            rows,
        ),
        0 <= i < rows.len(),
    ensures
        ranges::has_prefix(rows[i].key@, index(prefix)),
{
    let end = keys::request_cleanup_index_cutoff_text(prefix, older_than_ms);
    let found = Seq::new(rows.len(), |k: int| rows[k].key@);
    assert(found[i] == rows[i].key@);
    key_laws::requests_and_their_index_lie_in_their_ranges(prefix, prefix, prefix, older_than_ms);
    key_laws::encodings_begin_as_texts_do(
        end,
        keys::request_cleanup_index_prefix_text(prefix),
    );
    lemma_not_before(index(prefix), start, rows[i].key@);
    lemma_between(index(prefix), encode_utf8(end), rows[i].key@);
}

/// Turning to the records misses none that is due.
proof fn lemma_begins_records(first: StoreView, run: PruneRun, step: PruneStep, store: StoreView)
    requires
        run.valid(),
        counts(first, run, store),
        run.begins_records(step),
    ensures
        under_way(first, run, step, store),
{
    let start = requests(run.prefix@);
    text::bytes_before_irreflexive(start);
    assert forall|key: Seq<u8>| #[trigger]
        is_due(store, run.prefix@, run.older_than_ms, key) implies !text::bytes_before(
        key,
        start,
    ) by {
        lemma_prefix_not_before(key, start);
    }
}

proof fn lemma_goes_on_with_index(
    first: StoreView,
    run: PruneRun,
    step: PruneStep,
    store: StoreView,
    at: nat,
)
    requires
        run.valid(),
        counts(first, run, store),
        index_rows_apart(run),
        run.goes_on_with_index(at, step),
    ensures
        under_way(first, run, step, store),
{
    let rows = run.index_rows@;
    if at < rows.len() {
        if let Ok(entry) = rows[at as int].entry {
            key_laws::requests_and_their_index_lie_in_their_ranges(
                run.prefix@,
                entry.timeline_key@,
                entry.client_request_id@,
                run.older_than_ms,
            );
            key_laws::encodings_begin_as_texts_do(
                keys::request_key_text(
                    run.prefix@,
                    entry.timeline_key@,
                    entry.client_request_id@,
                ),
                keys::request_prefix_text(run.prefix@),
            );
            let named = request_index::record_key(
                run.prefix@,
                entry.timeline_key@,
                entry.client_request_id@,
            );
            let start = requests(run.prefix@);
            if start.is_prefix_of(named) {
                assert(named.take(start.len() as int) =~= start);
            }
        }
    } else {
        if rows.len() > 0 {
            let last = prune::last_index_key(rows);
            assert(ranges::has_prefix(rows[rows.len() - 1].key@, index(run.prefix@)));
            lemma_key_after(last, index(run.prefix@));
            lemma_prefix_not_before(ranges::key_after(last), index(run.prefix@));
        }
        if run.begins_records(step) {
            lemma_begins_records(first, run, step, store);
        }
    }
}

proof fn lemma_goes_on_with_records(
    first: StoreView,
    run: PruneRun,
    step: PruneStep,
    store: StoreView,
    at: nat,
)
    requires
        run.valid(),
        counts(first, run, store),
        scans_records(run, run.last_key@),
        at <= run.candidates@.len(),
        candidates_stand(run, store, at as int),
        nothing_missed(run, store, at as int),
        run.goes_on_with_records(at, step),
    ensures
        under_way(first, run, step, store),
{
    if at == run.candidates@.len() {
        let next = ranges::key_after(run.last_key@);
        let start = requests(run.prefix@);
        let end = run.range_end@;
        lemma_key_after(run.last_key@, start);
        lemma_not_before(start, run.last_key@, next);
        assert forall|key: Seq<u8>| #[trigger]
            is_due(store, run.prefix@, run.older_than_ms, key) implies text::bytes_before(
            key,
            end,
        ) && !text::bytes_before(key, next) by {
            assert(!is_candidate(run, at as int, key));
            ranges::next_keys_leave_no_gap(run.last_key@, key);
            lemma_requests_range(run.prefix@, key);
        }
        if !text::bytes_before(next, end) {
            let left = due(store, run.prefix@, run.older_than_ms);
            assert forall|key: Seq<u8>| !left.contains(key) by {
                if left.contains(key) {
                    assert(is_due(store, run.prefix@, run.older_than_ms, key));
                    lemma_not_before(end, next, key);
                }
            }
            assert(left =~= Set::<Seq<u8>>::empty());
        }
    }
}

/// The candidate is a row that is to be deleted.
spec fn from_row(
    rows: Seq<RecordRow>,
    older_than_ms: u64,
    i: int,
    candidate: (Seq<u8>, i64),
) -> bool {
    &&& 0 <= i < rows.len()
    &&& candidate == (rows[i].key@, rows[i].mod_revision)
    &&& rows[i].record matches Ok(record) && request_index::prunable(record@, older_than_ms)
}

spec fn from_some_row(
    rows: Seq<RecordRow>,
    older_than_ms: u64,
    candidate: (Seq<u8>, i64),
) -> bool {
    exists|i: int| from_row(rows, older_than_ms, i, candidate)
}

/// The rows that are chosen are those that are to be deleted, each once.
proof fn lemma_chosen(rows: Seq<RecordRow>, older_than_ms: u64)
    requires
        forall|i: int, j: int|
            0 <= i < j < rows.len() ==> text::bytes_before(
                (#[trigger] rows[i]).key@,
                (#[trigger] rows[j]).key@,
            ),
    ensures
        forall|k: int|
            0 <= k < prune::chosen(rows, older_than_ms).len() ==> from_some_row(
                rows,
                older_than_ms,
                #[trigger] prune::chosen(rows, older_than_ms)[k],
            ),
        forall|i: int|
            0 <= i < rows.len() && from_row(
                rows,
                older_than_ms,
                i,
                ((#[trigger] rows[i]).key@, rows[i].mod_revision),
            ) ==> prune::chosen(rows, older_than_ms).contains(
                (rows[i].key@, rows[i].mod_revision),
            ),
        forall|k: int, l: int|
            0 <= k < l < prune::chosen(rows, older_than_ms).len() ==> (
            #[trigger] prune::chosen(rows, older_than_ms)[k]).0 != (#[trigger] prune::chosen(
                rows,
                older_than_ms,
            )[l]).0,
    decreases rows.len(),
{
    if rows.len() > 0 {
        let shorter = rows.drop_last();
        let before = prune::chosen(shorter, older_than_ms);
        let all = prune::chosen(rows, older_than_ms);
        let last = rows.len() - 1;
        assert forall|i: int, j: int| 0 <= i < j < shorter.len() implies text::bytes_before(
            (#[trigger] shorter[i]).key@,
            (#[trigger] shorter[j]).key@,
        ) by {
            assert(shorter[i] == rows[i] && shorter[j] == rows[j]);
        }
        lemma_chosen(shorter, older_than_ms);
        assert forall|k: int| 0 <= k < all.len() implies from_some_row(
            rows,
            older_than_ms,
            #[trigger] all[k],
        ) by {
            if k < before.len() {
                assert(from_some_row(shorter, older_than_ms, before[k]));
                let i = choose|i: int| from_row(shorter, older_than_ms, i, before[k]);
                assert(from_row(rows, older_than_ms, i, all[k]));
            } else {
                assert(from_row(rows, older_than_ms, last, all[k]));
            }
        }
        assert forall|i: int|
            0 <= i < rows.len() && from_row(
                rows,
                older_than_ms,
                i,
                ((#[trigger] rows[i]).key@, rows[i].mod_revision),
            ) implies all.contains((rows[i].key@, rows[i].mod_revision)) by {
            let candidate = (rows[i].key@, rows[i].mod_revision);
            if i < last {
                assert(shorter[i] == rows[i]);
                assert(from_row(shorter, older_than_ms, i, candidate));
                let k = choose|k: int| 0 <= k < before.len() && before[k] == candidate;
                assert(all[k] == candidate);
            } else {
                assert(all[before.len() as int] == candidate);
            }
        }
        assert forall|k: int, l: int| 0 <= k < l < all.len() implies (#[trigger] all[k]).0 != (
        #[trigger] all[l]).0 by {
            if l < before.len() {
                assert(before[k].0 != before[l].0);
            } else {
                assert(from_some_row(shorter, older_than_ms, before[k]));
                let i = choose|i: int| from_row(shorter, older_than_ms, i, before[k]);
                assert(shorter[i] == rows[i]);
                assert(text::bytes_before(rows[i].key@, rows[last].key@));
                text::bytes_before_irreflexive(rows[last].key@);
            }
        }
    }
}

/// A page of records gives candidates that are due, and misses none up to its last row.
proof fn lemma_record_page(
    run: PruneRun,
    next: PruneRun,
    store: StoreView,
    start: Seq<u8>,
    rows: Seq<RecordRow>,
)
    requires
        next.same_task(run),
        scans_records(run, start),
        reads_records(store, start, run.range_end@, run.fetch_limit, rows),
        rows.len() > 0,
        forall|key: Seq<u8>| #[trigger]
            is_due(store, run.prefix@, run.older_than_ms, key) ==> !text::bytes_before(key, start),
        forall|i: int|
            0 <= i < rows.len() ==> !prune::faulty(#[trigger] rows[i], run.older_than_ms),
        prune::candidate_views(next.candidates@) == prune::chosen(rows, run.older_than_ms),
        next.last_key@ == rows.last().key@,
        next.range_end == run.range_end,
        next.fetch_limit == run.fetch_limit,
    ensures
        scans_records(next, next.last_key@),
        candidates_stand(next, store, 0),
        nothing_missed(next, store, 0),
{
    let older = run.older_than_ms;
    let first = requests(run.prefix@);
    let found = Seq::new(rows.len(), |i: int| rows[i].key@);
    let picked = prune::chosen(rows, older);
    assert forall|i: int, j: int| 0 <= i < j < rows.len() implies text::bytes_before(
        (#[trigger] rows[i]).key@,
        (#[trigger] rows[j]).key@,
    ) by {
        assert(text::bytes_before(found[i], found[j]));
    }
    lemma_chosen(rows, older);
    assert(found[rows.len() - 1] == next.last_key@);
    assert(found.last() == next.last_key@);
    lemma_not_before(first, start, next.last_key@);
    assert forall|k: int| 0 <= k < next.candidates@.len() implies {
        let candidate = #[trigger] next.candidates@[k];
        &&& is_due(store, run.prefix@, older, candidate.0@)
        &&& store[candidate.0@].mod_revision == candidate.1
    } by {
        let candidate = next.candidates@[k];
        assert(picked[k] == (candidate.0@, candidate.1));
        assert(from_some_row(rows, older, picked[k]));
        let i = choose|i: int| from_row(rows, older, i, picked[k]);
        assert(found[i] == rows[i].key@);
        lemma_not_before(first, start, rows[i].key@);
        lemma_requests_range(run.prefix@, rows[i].key@);
    }
    assert forall|k: int, l: int| 0 <= k < l < next.candidates@.len() implies (
    #[trigger] next.candidates@[k]).0@ != (#[trigger] next.candidates@[l]).0@ by {
        assert(picked[k] == (next.candidates@[k].0@, next.candidates@[k].1));
        assert(picked[l] == (next.candidates@[l].0@, next.candidates@[l].1));
    }
    assert forall|key: Seq<u8>| #[trigger] is_due(store, run.prefix@, older, key) implies
        is_candidate(next, 0, key) || text::bytes_before(next.last_key@, key) by {
        lemma_requests_range(run.prefix@, key);
        if found.contains(key) {
            let i = choose|i: int| 0 <= i < found.len() && found[i] == key;
            let candidate = (rows[i].key@, rows[i].mod_revision);
            assert(!prune::faulty(rows[i], older));
            assert(from_row(rows, older, i, candidate));
            let k = choose|k: int| 0 <= k < picked.len() && picked[k] == candidate;
            assert(picked[k] == (next.candidates@[k].0@, next.candidates@[k].1));
            assert(next.candidates@[k].0@ == key);
        }
    }
}

/// Deleting one key that stands as it was seen succeeds.
proof fn lemma_drop_succeeds(
    store: StoreView,
    txn: Transaction,
    key: Seq<u8>,
    seen: i64,
    revision: i64,
    after: StoreView,
    told: TxnReply,
)
    requires
        prune::drops_key(txn, key, seen),
        store::commits(store, txn@, revision, after, told),
    ensures
        told.succeeded ==> after == store.remove(key),
        !told.succeeded ==> after == store,
        store.contains_key(key) && store[key].mod_revision == seen ==> told.succeeded,
{
    let none = Seq::<OperationView>::empty();
    assert(txn@.operations =~= none.push(txn@.operations[0]));
    store::lemma_last_operation(store, none, txn@.operations[0], revision);
}

/// Looking at an indexed record leaves what counts as it is.
proof fn lemma_indexed_record(
    first: StoreView,
    run: PruneRun,
    step: PruneStep,
    store: StoreView,
    answer: Result<Option<Found<RequestRecord>>, String>,
    next: PruneRun,
    next_step: PruneStep,
)
    requires
        under_way(first, run, step, store),
        run.wait is IndexedRecord,
        step !is Failed,
        answer matches Ok(found) ==> loads(store, run.wait->record_key@, found),
        next.valid(),
        next.same_task(run),
        next.pruned == run.pruned,
        next.deals_with_record(run, answer, next_step),
    ensures
        under_way(first, next, next_step, store),
{
    let wait = run.wait;
    let loaded = choose|loaded: Result<Option<(RequestRecord, u64)>, TsoError>|
        {
            &&& #[trigger] json::loads_request(answer, loaded)
            &&& match loaded {
                Err(error) => next.is_failed(next_step) && next_step->error == error,
                Ok(None) => {
                    &&& next.wait == (PruneWait::StaleIndexDropped { missing: true })
                    &&& next_step matches PruneStep::Commit { txn }
                    &&& prune::drops_key(txn, wait->index_key@, wait->index_revision)
                },
                Ok(Some((record, revision))) => if record.updated_at_ms != wait->updated_at_ms
                    || !request_index::prunable(record@, next.older_than_ms) {
                    &&& next.wait == (PruneWait::StaleIndexDropped { missing: false })
                    &&& next_step matches PruneStep::Commit { txn }
                    &&& prune::drops_key(txn, wait->index_key@, wait->index_revision)
                } else {
                    &&& next.wait is IndexedPruned
                    &&& next_step matches PruneStep::Commit { txn }
                    &&& prune::drops_record_and_index(
                        txn,
                        wait->record_key@,
                        txn::as_store_revision(revision),
                        wait->index_key@,
                        wait->index_revision,
                    )
                },
            }
        };
    if let PruneStep::Commit { txn } = next_step {
        if next.wait is IndexedPruned {
            assert(drops_both(next, store, txn));
        } else {
            assert(drops_note(next.prefix@, txn));
        }
    }
}

/// A commit while the index is gone through keeps the count.
proof fn lemma_index_commit(
    first: StoreView,
    run: PruneRun,
    txn: Transaction,
    store: StoreView,
    revision: i64,
    after: StoreView,
    told: TxnReply,
    next: PruneRun,
)
    requires
        under_way(first, run, PruneStep::Commit { txn }, store),
        run.wait is StaleIndexDropped || run.wait is IndexedPruned,
        store::commits(store, txn@, revision, after, told),
        next.same_task(run),
        next.pruned == run.pruned + if run.wait is IndexedPruned && told.succeeded {
            1int
        } else {
            0int
        },
    ensures
        counts(first, next, after),
{
    if run.wait is StaleIndexDropped {
        let (key, seen) = choose|key: Seq<u8>, seen: i64|
            #[trigger] prune::drops_key(txn, key, seen) && ranges::has_prefix(
                key,
                index(run.prefix@),
            );
        lemma_drop_succeeds(store, txn, key, seen, revision, after, told);
        if told.succeeded {
            lemma_note_dropped(first, run, next, store, key);
        }
    } else {
        let (key, seen, note, note_seen) = choose|
            key: Seq<u8>,
            seen: i64,
            note: Seq<u8>,
            note_seen: i64,
        |
            #[trigger] prune::drops_record_and_index(txn, key, seen, note, note_seen) && is_due(
                store,
                run.prefix@,
                run.older_than_ms,
                key,
            ) && ranges::has_prefix(note, index(run.prefix@));
        if told.succeeded {
            let none = Seq::<OperationView>::empty();
            let one = none.push(txn@.operations[0]);
            assert(txn@.operations =~= one.push(txn@.operations[1]));
            store::lemma_last_operation(store, none, txn@.operations[0], revision);
            store::lemma_last_operation(store, one, txn@.operations[1], revision);
            lemma_record_dropped(first, run, next, store, key);
            lemma_note_dropped(first, next, next, store.remove(key), note);
        }
    }
}

/// The deletion of a candidate succeeds, and leaves the other candidates as they are.
proof fn lemma_candidate_commit(
    first: StoreView,
    run: PruneRun,
    txn: Transaction,
    store: StoreView,
    revision: i64,
    after: StoreView,
    told: TxnReply,
    next: PruneRun,
)
    requires
        under_way(first, run, PruneStep::Commit { txn }, store),
        run.wait is RecordPruned,
        store::commits(store, txn@, revision, after, told),
        next.same_task(run),
        next.pruned == run.pruned + if told.succeeded {
            1int
        } else {
            0int
        },
    ensures
        told.succeeded,
        counts(first, next, after),
        candidates_stand(run, after, run.candidate_at as int),
        nothing_missed(run, after, run.candidate_at as int),
{
    let at = run.candidate_at - 1;
    let candidate = run.candidates@[at];
    let key = candidate.0@;
    lemma_drop_succeeds(store, txn, key, candidate.1, revision, after, told);
    lemma_record_dropped(first, run, next, store, key);
    assert forall|i: int| at + 1 <= i < run.candidates@.len() implies {
        let other = #[trigger] run.candidates@[i];
        &&& is_due(after, run.prefix@, run.older_than_ms, other.0@)
        &&& after[other.0@].mod_revision == other.1
    } by {
        assert(run.candidates@[at].0@ != run.candidates@[i].0@);
    }
    assert forall|other: Seq<u8>| #[trigger]
        is_due(after, run.prefix@, run.older_than_ms, other) implies is_candidate(
        run,
        at + 1,
        other,
    ) || text::bytes_before(run.last_key@, other) by {
        assert(is_due(store, run.prefix@, run.older_than_ms, other));
        if is_candidate(run, at, other) {
            let i = choose|i: int|
                at <= i < run.candidates@.len() && (#[trigger] run.candidates@[i]).0@ == other;
            assert(i != at);
        }
    }
}

/// What holds whenever the cleanup asks for something holds again when it asks next.
proof fn lemma_next(
    first: StoreView,
    run: PruneRun,
    step: PruneStep,
    store: StoreView,
    reply: PruneReply,
    after: StoreView,
    next: PruneRun,
    next_step: PruneStep,
)
    requires
        under_way(first, run, step, store),
        answers(store, step, reply, after),
        next.valid(),
        next.same_task(run),
        next.advances(run, reply, next_step),
    ensures
        under_way(first, next, next_step, after),
{
    match step {
        PruneStep::ScanIndex { start, end, limit } => {
            if let PruneReply::IndexPage(Ok(rows)) = reply {
                assert forall|i: int| 0 <= i < rows@.len() implies ranges::has_prefix(
                    (#[trigger] rows@[i]).key@,
                    index(run.prefix@),
                ) by {
                    lemma_index_rows(
                        store,
                        run.prefix@,
                        run.older_than_ms,
                        start@,
                        limit,
                        rows@,
                        i,
                    );
                }
                lemma_goes_on_with_index(first, next, next_step, store, 0);
            }
        },
        PruneStep::LoadRecord { key } => {
            if let PruneReply::Record(answer) = reply {
                lemma_indexed_record(first, run, step, store, answer, next, next_step);
            }
        },
        PruneStep::Commit { txn } => {
            if let PruneReply::Committed(Ok(succeeded)) = reply {
                let (revision, told) = choose|revision: i64, told: TxnReply|
                    #[trigger] store::commits(store, txn@, revision, after, told)
                        && told.succeeded == succeeded;
                if run.wait is RecordPruned {
                    lemma_candidate_commit(first, run, txn, store, revision, after, told, next);
                    if next.pruned < next.limit {
                        assert(candidates_stand(next, after, run.candidate_at as int));
                        assert forall|key: Seq<u8>| #[trigger]
                            is_due(after, next.prefix@, next.older_than_ms, key) implies
                            is_candidate(next, run.candidate_at as int, key)
                            || text::bytes_before(next.last_key@, key) by {
                            if is_candidate(run, run.candidate_at as int, key) {
                                let i = choose|i: int|
                                    run.candidate_at <= i < run.candidates@.len() && (
                                    #[trigger] run.candidates@[i]).0@ == key;
                                assert(next.candidates@[i].0@ == key);
                            }
                        }
                        lemma_goes_on_with_records(
                            first,
                            next,
                            next_step,
                            after,
                            run.candidate_at as nat,
                        );
                    }
                } else {
                    lemma_index_commit(first, run, txn, store, revision, after, told, next);
                    lemma_goes_on_with_index(first, next, next_step, after, run.index_at as nat);
                }
            }
        },
        PruneStep::ScanRecords { start, end, limit } => {
            if let PruneReply::RecordPage(Ok(rows)) = reply {
                if rows@.len() == 0 {
                    let left = due(store, run.prefix@, run.older_than_ms);
                    let found = Seq::new(rows@.len(), |i: int| rows@[i].key@);
                    assert forall|key: Seq<u8>| !left.contains(key) by {
                        if left.contains(key) {
                            assert(is_due(store, run.prefix@, run.older_than_ms, key));
                            lemma_requests_range(run.prefix@, key);
                            assert(!found.contains(key));
                        }
                    }
                    assert(left =~= Set::<Seq<u8>>::empty());
                } else if next_step !is Failed {
                    lemma_record_page(run, next, store, start@, rows@);
                    lemma_goes_on_with_records(first, next, next_step, store, 0);
                }
            }
        },
        _ => {},
    }
}

proof fn lemma_through(
    prefix: Seq<char>,
    older_than_ms: u64,
    limit: usize,
    runs: Seq<PruneRun>,
    steps: Seq<PruneStep>,
    replies: Seq<PruneReply>,
    stores: Seq<StoreView>,
    n: int,
)
    requires
        cleaned(prefix, older_than_ms, limit, runs, steps, replies, stores),
        store::well_formed(stores[0]),
        stores[0].dom().finite(),
        0 <= n <= replies.len(),
    ensures
        runs[n].prefix@ == prefix,
        runs[n].older_than_ms == older_than_ms,
        runs[n].limit == limit,
        under_way(stores[0], runs[n], steps[n], stores[n]),
    decreases n,
{
    if n == 0 {
        text::bytes_before_irreflexive(index(prefix));
    } else {
        lemma_through(prefix, older_than_ms, limit, runs, steps, replies, stores, n - 1);
        let reply = replies[n - 1];
        assert(runs[n - 1 + 1].advances(runs[n - 1], reply, steps[n - 1 + 1]));
        lemma_next(
            stores[0],
            runs[n - 1],
            steps[n - 1],
            stores[n - 1],
            reply,
            stores[n],
            runs[n],
            steps[n],
        );
    }
}

/// A cleanup that ends has deleted as many records as it was to delete at most, or all that were
/// due where they were fewer. Those that were not due stand as they did.
pub proof fn cleanups_delete_what_is_due(
    prefix: Seq<char>,
    older_than_ms: u64,
    limit: usize,
    runs: Seq<PruneRun>,
    steps: Seq<PruneStep>,
    replies: Seq<PruneReply>,
    stores: Seq<StoreView>,
)
    requires
        cleaned(prefix, older_than_ms, limit, runs, steps, replies, stores),
        store::well_formed(stores[0]),
        stores[0].dom().finite(),
        steps.last() is Done,
    ensures
        ({
            let due_first = due(stores[0], prefix, older_than_ms);
            let due_last = due(stores.last(), prefix, older_than_ms);
            &&& steps.last() matches PruneStep::Done { pruned }
            &&& pruned == if due_first.len() < limit {
                due_first.len()
            } else {
                limit as nat
            }
            &&& due_last.subset_of(due_first)
            &&& due_last.len() == due_first.len() - pruned
            &&& forall|key: Seq<u8>|
                ranges::has_prefix(key, requests(prefix)) && !due_first.contains(key)
                    ==> #[trigger] store::same_at(stores[0], stores.last(), key)
        }),
{
    let n = replies.len() as int;
    lemma_through(prefix, older_than_ms, limit, runs, steps, replies, stores, n);
    assert(runs[n] == runs.last() && stores[n] == stores.last());
}

} // verus!
