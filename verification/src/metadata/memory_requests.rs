//! The request records of the in-memory store, and the index by which they are cleaned up.

use vstd::prelude::*;
use vstd::string::*;

use crate::error::TsoError;
use crate::metadata::entries;
use crate::metadata::keys;
use crate::metadata::maps;
use crate::metadata::maps::{
    get_cleanup_entries, get_requests, insert_cleanup_entries, insert_requests,
    keys_of_cleanup_entries, keys_of_requests, remove_cleanup_entries, remove_requests, sort_texts,
};
use crate::metadata::memory::MemoryMetadataStore;
use crate::metadata::types;
use crate::metadata::types::{
    RequestRecord, RequestRecordState, RequestRecordView, CURRENT_METADATA_SCHEMA_VERSION,
};
use crate::metadata::windows;
use crate::text;
use crate::text::{starts_with, text_less};

verus! {

pub type Requests = Map<Seq<char>, (RequestRecordView, u64)>;

pub type CleanupIndex = Map<Seq<char>, Seq<char>>;

/// Where the store keeps a request.
pub open spec fn request_at(timeline_key: Seq<char>, client_request_id: Seq<char>) -> Seq<char> {
    keys::request_key_text(""@, timeline_key, client_request_id)
}

/// Where the index keeps the entry of a completed request.
pub open spec fn index_at(
    record: RequestRecordView,
    timeline_key: Seq<char>,
    client_request_id: Seq<char>,
) -> Seq<char> {
    keys::request_cleanup_index_key_text(
        ""@,
        record.updated_at_ms,
        timeline_key,
        client_request_id,
    )
}

/// The index once a record is written: completed records are entered.
pub open spec fn index_with(
    index: CleanupIndex,
    record: RequestRecordView,
    timeline_key: Seq<char>,
    client_request_id: Seq<char>,
) -> CleanupIndex {
    if record.state == RequestRecordState::Completed {
        index.insert(
            index_at(record, timeline_key, client_request_id),
            request_at(timeline_key, client_request_id),
        )
    } else {
        index
    }
}

/// The index once a record is gone: the entry of a completed record goes with it.
pub open spec fn index_without(
    index: CleanupIndex,
    record: RequestRecordView,
    timeline_key: Seq<char>,
    client_request_id: Seq<char>,
) -> CleanupIndex {
    if record.state == RequestRecordState::Completed {
        index.remove(index_at(record, timeline_key, client_request_id))
    } else {
        index
    }
}

/// How a missing request is named in errors.
pub open spec fn request_name(timeline_key: Seq<char>, client_request_id: Seq<char>) -> Seq<char> {
    "request:"@ + timeline_key + ":"@ + client_request_id
}

/// The error for a request that has no record.
pub fn request_not_found(timeline_key: &str, client_request_id: &str) -> (error: TsoError)
    ensures
        error.is_not_found(request_name(timeline_key@, client_request_id@)),
{
    let mut name = "request:".to_owned();
    name.append(timeline_key);
    name.append(":");
    name.append(client_request_id);
    TsoError::TimelineNotFound { timeline_key: name }
}

/// A completed record that was last touched before the cutoff.
pub open spec fn prunable(record: RequestRecordView, older_than_ms: u64) -> bool {
    record.state == RequestRecordState::Completed && record.updated_at_ms < older_than_ms
}

/// The index entries that lie before the cutoff.
pub open spec fn due_entries(index: CleanupIndex, older_than_ms: u64) -> Set<Seq<char>> {
    index.dom().filter(
        |key: Seq<char>|
            keys::request_cleanup_index_prefix_text(""@).is_prefix_of(key) && text::text_before(
                key,
                keys::request_cleanup_index_cutoff_text(""@, older_than_ms),
            ),
    )
}

/// What a pruning pass has left and how many records it has removed.
pub struct PruneProgress {
    pub requests: Requests,
    pub index: CleanupIndex,
    pub pruned: int,
}

/// One due index entry: its record goes when it is prunable, the entry goes in any case.
pub open spec fn prune_entry(
    progress: PruneProgress,
    entry: Seq<char>,
    older_than_ms: u64,
) -> PruneProgress {
    let request = progress.index[entry];
    if progress.requests.contains_key(request) && prunable(
        progress.requests[request].0,
        older_than_ms,
    ) {
        PruneProgress {
            requests: progress.requests.remove(request),
            index: progress.index.remove(entry),
            pruned: progress.pruned + 1,
        }
    } else {
        PruneProgress { index: progress.index.remove(entry), ..progress }
    }
}

/// The first `n` due entries, in order, as long as the limit is not reached.
pub open spec fn prune_entries(
    start: PruneProgress,
    entries: Seq<Seq<char>>,
    n: int,
    older_than_ms: u64,
    limit: int,
) -> PruneProgress
    decreases n,
{
    if n <= 0 {
        start
    } else {
        let before = prune_entries(start, entries, n - 1, older_than_ms, limit);
        if before.pruned >= limit {
            before
        } else {
            prune_entry(before, entries[n - 1], older_than_ms)
        }
    }
}

/// The entries that name none of the requests.
pub open spec fn without_requests(index: CleanupIndex, gone: Seq<Seq<char>>) -> CleanupIndex {
    index.restrict(Set::new(|key: Seq<char>| index.contains_key(key) && !gone.contains(index[key])))
}

/// The unindexed pass took `swept`: prunable records, each once, as many as the limit allows.
pub open spec fn sweeps(
    progress: PruneProgress,
    swept: Seq<Seq<char>>,
    older_than_ms: u64,
    limit: int,
) -> bool {
    &&& swept.no_duplicates()
    &&& forall|i: int|
        0 <= i < swept.len() ==> progress.requests.contains_key(#[trigger] swept[i]) && prunable(
            progress.requests[swept[i]].0,
            older_than_ms,
        )
    &&& progress.pruned >= limit ==> swept.len() == 0
    &&& progress.pruned < limit ==> progress.pruned + swept.len() <= limit
    &&& progress.pruned + swept.len() < limit ==> forall|key: Seq<char>|
        progress.requests.contains_key(key) && prunable(
            (#[trigger] progress.requests[key]).0,
            older_than_ms,
        ) ==> swept.contains(key)
}

/// What pruning leaves: the due index entries are worked off in order, then the records that no
/// entry led to are swept.
pub open spec fn prunes(
    before: PruneProgress,
    entries: Seq<Seq<char>>,
    swept: Seq<Seq<char>>,
    older_than_ms: u64,
    limit: int,
    after: PruneProgress,
) -> bool {
    let indexed = prune_entries(before, entries, entries.len() as int, older_than_ms, limit);
    &&& windows::is_order_of(entries, due_entries(before.index, older_than_ms))
    &&& sweeps(indexed, swept, older_than_ms, limit)
    &&& after.requests == indexed.requests.remove_keys(swept.to_set())
    &&& after.index == without_requests(indexed.index, swept)
    &&& after.pruned == indexed.pruned + swept.len()
}

impl MemoryMetadataStore {
    /// Everything but the requests and their index is as before.
    pub open spec fn keeps_all_but_requests(self, before: MemoryMetadataStore) -> bool {
        &&& self.records == before.records
        &&& self.generators == before.generators
        &&& self.sorted_timeline_keys == before.sorted_timeline_keys
        &&& self.route_updates == before.route_updates
    }

    /// The request is not at the last revision with that revision expected.
    pub open spec fn request_can_move_on(self, key: Seq<char>, expected_revision: u64) -> bool {
        expected_revision < u64::MAX || !self.requests().contains_key(key)
            || self.requests()[key].1 != expected_revision
    }

    pub fn request_key(timeline_key: &str, client_request_id: &str) -> (key: String)
        ensures
            key@ == request_at(timeline_key@, client_request_id@),
    {
        keys::request_key("", timeline_key, client_request_id)
    }

    pub fn request_cleanup_index_key(
        record: &RequestRecord,
        timeline_key: &str,
        client_request_id: &str,
    ) -> (key: String)
        ensures
            key@ == index_at(record@, timeline_key@, client_request_id@),
    {
        keys::request_cleanup_index_key("", record.updated_at_ms, timeline_key, client_request_id)
    }

    fn insert_request_cleanup_index(
        &mut self,
        timeline_key: &str,
        client_request_id: &str,
        record: &RequestRecord,
    )
        ensures
            final(self).keeps_all_but_requests(*old(self)),
            final(self).request_records == old(self).request_records,
            final(self).cleanup_index() == index_with(
                old(self).cleanup_index(),
                record@,
                timeline_key@,
                client_request_id@,
            ),
    {
        if record.state == RequestRecordState::Completed {
            insert_cleanup_entries(
                &mut self.request_cleanup_index,
                Self::request_cleanup_index_key(record, timeline_key, client_request_id),
                Self::request_key(timeline_key, client_request_id),
            );
        }
    }

    fn remove_request_cleanup_index(
        &mut self,
        timeline_key: &str,
        client_request_id: &str,
        record: &RequestRecord,
    )
        ensures
            final(self).keeps_all_but_requests(*old(self)),
            final(self).request_records == old(self).request_records,
            final(self).cleanup_index() == index_without(
                old(self).cleanup_index(),
                record@,
                timeline_key@,
                client_request_id@,
            ),
    {
        if record.state == RequestRecordState::Completed {
            let key = Self::request_cleanup_index_key(record, timeline_key, client_request_id);
            remove_cleanup_entries(&mut self.request_cleanup_index, key.as_str());
        }
    }

    pub fn load_request_record(&self, timeline_key: &str, client_request_id: &str) -> (result:
        Result<Option<(RequestRecord, u64)>, TsoError>)
        ensures
            ({
                let key = request_at(timeline_key@, client_request_id@);
                let stored = self.requests()[key].0;
                entries::finds(
                    self.requests(),
                    key,
                    stored.schema_version == CURRENT_METADATA_SCHEMA_VERSION,
                    types::unsupported_schema("request"@, stored.schema_version),
                    result,
                )
            }),
    {
        let key = Self::request_key(timeline_key, client_request_id);
        match get_requests(&self.request_records, key.as_str()) {
            Some(entry) => match entry.0.validate_schema_version() {
                Ok(()) => Ok(Some(entry)),
                Err(error) => Err(error),
            },
            None => Ok(None),
        }
    }

    /// Creates the record of a request that has none; it starts at revision one.
    pub fn create_request_record(
        &mut self,
        timeline_key: &str,
        client_request_id: &str,
        record: &RequestRecord,
    ) -> (result: Result<u64, TsoError>)
        ensures
            final(self).keeps_all_but_requests(*old(self)),
            entries::creates(
                old(self).requests(),
                request_at(timeline_key@, client_request_id@),
                record@,
                record.schema_version == CURRENT_METADATA_SCHEMA_VERSION,
                types::unsupported_schema("request"@, record.schema_version),
                final(self).requests(),
                result,
            ),
            result is Err ==> *final(self) == *old(self),
            result is Ok ==> final(self).cleanup_index() == index_with(
                old(self).cleanup_index(),
                record@,
                timeline_key@,
                client_request_id@,
            ),
    {
        match record.validate_schema_version() {
            Ok(()) => {},
            Err(error) => {
                return Err(error);
            },
        }
        let stamped = record.stamped_for_persistence();
        let key = Self::request_key(timeline_key, client_request_id);
        if get_requests(&self.request_records, key.as_str()).is_some() {
            return Err(TsoError::MetadataAlreadyExists);
        }
        assert(stamped@ == record@);
        insert_requests(&mut self.request_records, key, (stamped.clone(), 1));
        self.insert_request_cleanup_index(timeline_key, client_request_id, &stamped);
        Ok(1)
    }

    /// Replaces the record of a request whose revision is the expected one.
    pub fn compare_exchange_request_record(
        &mut self,
        timeline_key: &str,
        client_request_id: &str,
        expected_revision: u64,
        record: &RequestRecord,
    ) -> (result: Result<u64, TsoError>)
        requires
            old(self).request_can_move_on(
                request_at(timeline_key@, client_request_id@),
                expected_revision,
            ),
        ensures
            final(self).keeps_all_but_requests(*old(self)),
            entries::exchanges(
                old(self).requests(),
                request_at(timeline_key@, client_request_id@),
                expected_revision,
                record@,
                record.schema_version == CURRENT_METADATA_SCHEMA_VERSION,
                types::unsupported_schema("request"@, record.schema_version),
                request_name(timeline_key@, client_request_id@),
                final(self).requests(),
                result,
            ),
            result is Err ==> *final(self) == *old(self),
            result is Ok ==> final(self).cleanup_index() == index_with(
                index_without(
                    old(self).cleanup_index(),
                    old(self).requests()[request_at(timeline_key@, client_request_id@)].0,
                    timeline_key@,
                    client_request_id@,
                ),
                record@,
                timeline_key@,
                client_request_id@,
            ),
    {
        match record.validate_schema_version() {
            Ok(()) => {},
            Err(error) => {
                return Err(error);
            },
        }
        let stamped = record.stamped_for_persistence();
        assert(stamped@ == record@);
        let key = Self::request_key(timeline_key, client_request_id);
        let (old_record, current_revision) = match get_requests(
            &self.request_records,
            key.as_str(),
        ) {
            Some(entry) => entry,
            None => {
                return Err(request_not_found(timeline_key, client_request_id));
            },
        };
        if current_revision != expected_revision {
            return Err(TsoError::CasFailed);
        }
        let new_revision: u64 = current_revision + 1;
        insert_requests(&mut self.request_records, key, (stamped.clone(), new_revision));
        self.remove_request_cleanup_index(timeline_key, client_request_id, &old_record);
        self.insert_request_cleanup_index(timeline_key, client_request_id, &stamped);
        Ok(new_revision)
    }

    /// Deletes the record of a request whose revision is the expected one.
    pub fn compare_delete_request_record(
        &mut self,
        timeline_key: &str,
        client_request_id: &str,
        expected_revision: u64,
    ) -> (result: Result<(), TsoError>)
        ensures
            final(self).keeps_all_but_requests(*old(self)),
            entries::deletes(
                old(self).requests(),
                request_at(timeline_key@, client_request_id@),
                expected_revision,
                request_name(timeline_key@, client_request_id@),
                final(self).requests(),
                result,
            ),
            ({
                let key = request_at(timeline_key@, client_request_id@);
                if !old(self).requests().contains_key(key) {
                    &&& result matches Err(error) && error.is_not_found(
                        request_name(timeline_key@, client_request_id@),
                    )
                    &&& *final(self) == *old(self)
                } else if old(self).requests()[key].1 != expected_revision {
                    &&& result == Err::<(), TsoError>(TsoError::CasFailed)
                    &&& *final(self) == *old(self)
                } else {
                    &&& result is Ok
                    &&& final(self).requests() == old(self).requests().remove(key)
                    &&& final(self).cleanup_index() == index_without(
                        old(self).cleanup_index(),
                        old(self).requests()[key].0,
                        timeline_key@,
                        client_request_id@,
                    )
                }
            }),
    {
        let key = Self::request_key(timeline_key, client_request_id);
        let (record, current_revision) = match get_requests(&self.request_records, key.as_str()) {
            Some(entry) => entry,
            None => {
                return Err(request_not_found(timeline_key, client_request_id));
            },
        };
        if current_revision != expected_revision {
            return Err(TsoError::CasFailed);
        }
        remove_requests(&mut self.request_records, key.as_str());
        self.remove_request_cleanup_index(timeline_key, client_request_id, &record);
        Ok(())
    }
}

/// Once the limit is reached, further entries change nothing.
proof fn lemma_limit_stops_pruning(
    start: PruneProgress,
    entries: Seq<Seq<char>>,
    from: int,
    to: int,
    older_than_ms: u64,
    limit: int,
)
    requires
        0 <= from <= to,
        prune_entries(start, entries, from, older_than_ms, limit).pruned >= limit,
    ensures
        prune_entries(start, entries, to, older_than_ms, limit) == prune_entries(
            start,
            entries,
            from,
            older_than_ms,
            limit,
        ),
    decreases to - from,
{
    if from < to {
        lemma_limit_stops_pruning(start, entries, from, to - 1, older_than_ms, limit);
    }
}

/// Working off index entries only ever removes prunable records, one for each count.
proof fn lemma_entries_remove_prunable_records(
    start: PruneProgress,
    entries: Seq<Seq<char>>,
    n: int,
    older_than_ms: u64,
    limit: int,
)
    requires
        0 <= n,
        start.pruned <= limit,
    ensures
        ({
            let after = prune_entries(start, entries, n, older_than_ms, limit);
            &&& after.requests.submap_of(start.requests)
            &&& start.pruned <= after.pruned <= limit
            &&& forall|key: Seq<char>|
                start.requests.contains_key(key) && !after.requests.contains_key(key) ==> prunable(
                    (#[trigger] start.requests[key]).0,
                    older_than_ms,
                )
        }),
    decreases n,
{
    if n > 0 {
        lemma_entries_remove_prunable_records(start, entries, n - 1, older_than_ms, limit);
        let before = prune_entries(start, entries, n - 1, older_than_ms, limit);
        let after = prune_entries(start, entries, n, older_than_ms, limit);
        let request = before.index[entries[n - 1]];
        assert forall|key: Seq<char>|
            start.requests.contains_key(key) && !after.requests.contains_key(key) implies prunable(
            (#[trigger] start.requests[key]).0,
            older_than_ms,
        ) by {
            if before.requests.contains_key(key) {
                assert(key == request);
                assert(before.requests[key] == start.requests[key]);
            }
        }
        assert forall|key: Seq<char>| #[trigger] after.requests.contains_key(key) implies
            start.requests.contains_key(key) && after.requests[key] == start.requests[key] by {
            assert(before.requests.contains_key(key));
        }
    }
}

impl MemoryMetadataStore {
    pub open spec fn prune_progress(self, pruned: int) -> PruneProgress {
        PruneProgress { requests: self.requests(), index: self.cleanup_index(), pruned }
    }

    /// The index entries before the cutoff, oldest first.
    fn due_index_entries(&self, older_than_ms: u64) -> (entries: Vec<String>)
        ensures
            windows::is_order_of(
                windows::texts_of(entries@),
                due_entries(self.cleanup_index(), older_than_ms),
            ),
    {
        let prefix = keys::request_cleanup_index_prefix("");
        let cutoff = keys::request_cleanup_index_cutoff("", older_than_ms);
        let listed = keys_of_cleanup_entries(&self.request_cleanup_index);
        let ghost due = due_entries(self.cleanup_index(), older_than_ms);
        let mut entries: Vec<String> = Vec::new();
        let mut i: usize = 0;
        while i < listed.len()
            invariant
                i <= listed@.len(),
                prefix@ == keys::request_cleanup_index_prefix_text(""@),
                cutoff@ == keys::request_cleanup_index_cutoff_text(""@, older_than_ms),
                due == due_entries(self.cleanup_index(), older_than_ms),
                maps::lists_texts(listed@, self.cleanup_index().dom()),
                forall|a: int, b: int|
                    0 <= a < b < entries@.len() ==> (#[trigger] entries@[a])@ != (
                    #[trigger] entries@[b])@,
                forall|a: int|
                    0 <= a < entries@.len() ==> due.contains((#[trigger] entries@[a])@),
                forall|a: int|
                    0 <= a < entries@.len() ==> exists|k: int|
                        0 <= k < i && (#[trigger] listed@[k])@ == (#[trigger] entries@[a])@,
                forall|k: int|
                    0 <= k < i && due.contains((#[trigger] listed@[k])@) ==> exists|a: int|
                        0 <= a < entries@.len() && (#[trigger] entries@[a])@ == listed@[k]@,
            decreases listed@.len() - i,
        {
            assert(self.cleanup_index().dom().contains(listed@[i as int]@));
            let ghost before = entries@;
            if starts_with(listed[i].as_str(), prefix.as_str()) && text_less(
                listed[i].as_str(),
                cutoff.as_str(),
            ) {
                entries.push(listed[i].clone());
                proof {
                    assert(due.contains(listed@[i as int]@));
                    assert(entries@[before.len() as int]@ == listed@[i as int]@);
                    assert forall|a: int, b: int| 0 <= a < b < entries@.len() implies (
                    #[trigger] entries@[a])@ != (#[trigger] entries@[b])@ by {
                        if b == before.len() {
                            assert(entries@[a] == before[a]);
                            let k = choose|k: int|
                                0 <= k < i && (#[trigger] listed@[k])@ == before[a]@;
                            assert(listed@[k]@ != listed@[i as int]@);
                        } else {
                            assert(entries@[a] == before[a] && entries@[b] == before[b]);
                        }
                    }
                }
            }
            proof {
                assert forall|a: int| 0 <= a < entries@.len() implies exists|k: int|
                    0 <= k < i + 1 && (#[trigger] listed@[k])@ == (#[trigger] entries@[a])@ by {
                    if a < before.len() {
                        assert(entries@[a] == before[a]);
                        let k = choose|k: int|
                            0 <= k < i && (#[trigger] listed@[k])@ == before[a]@;
                        assert(listed@[k]@ == entries@[a]@);
                    } else {
                        assert(listed@[i as int]@ == entries@[a]@);
                    }
                }
                assert forall|k: int| 0 <= k < i + 1 && due.contains(
                    (#[trigger] listed@[k])@,
                ) implies exists|a: int|
                    0 <= a < entries@.len() && (#[trigger] entries@[a])@ == listed@[k]@ by {
                    if k < i {
                        let a = choose|a: int|
                            0 <= a < before.len() && (#[trigger] before[a])@ == listed@[k]@;
                        assert(entries@[a]@ == listed@[k]@);
                    }
                }
            }
            i = i + 1;
        }
        proof {
            assert forall|member: Seq<char>| #[trigger] due.contains(member) implies exists|a: int|
                0 <= a < entries@.len() && (#[trigger] entries@[a])@ == member by {
                assert(self.cleanup_index().dom().contains(member));
                let k = choose|k: int|
                    0 <= k < listed@.len() && (#[trigger] listed@[k])@ == member;
                assert(due.contains(listed@[k]@));
            }
            assert(maps::lists_texts(entries@, due));
        }
        let ghost unsorted = entries@;
        sort_texts(&mut entries);
        proof {
            windows::lemma_sorted_listing_is_order(unsorted, entries@, due);
        }
        entries
    }

    /// Works off the due index entries in order and says how many records went.
    fn prune_indexed_requests(
        &mut self,
        entries: &Vec<String>,
        older_than_ms: u64,
        limit: usize,
    ) -> (pruned: usize)
        requires
            windows::is_order_of(
                windows::texts_of(entries@),
                due_entries(old(self).cleanup_index(), older_than_ms),
            ),
        ensures
            final(self).keeps_all_but_requests(*old(self)),
            final(self).prune_progress(pruned as int) == prune_entries(
                old(self).prune_progress(0),
                windows::texts_of(entries@),
                entries@.len() as int,
                older_than_ms,
                limit as int,
            ),
            pruned <= limit,
    {
        let ghost start = self.prune_progress(0);
        let ghost names = windows::texts_of(entries@);
        let mut pruned: usize = 0;
        let mut i: usize = 0;
        while i < entries.len() && pruned < limit
            invariant
                i <= entries@.len(),
                pruned <= limit,
                names == windows::texts_of(entries@),
                windows::ascending(names),
                start == old(self).prune_progress(0),
                self.keeps_all_but_requests(*old(self)),
                self.prune_progress(pruned as int) == prune_entries(
                    start,
                    names,
                    i as int,
                    older_than_ms,
                    limit as int,
                ),
                forall|k: int|
                    i <= k < names.len() ==> self.cleanup_index().contains_key(
                        #[trigger] names[k],
                    ),
            decreases entries@.len() - i,
        {
            let ghost index = self.cleanup_index();
            assert(index.contains_key(names[i as int]));
            if let Some(request_key) = get_cleanup_entries(
                &self.request_cleanup_index,
                entries[i].as_str(),
            ) {
                let removable = match get_requests(&self.request_records, request_key.as_str()) {
                    Some(entry) => entry.0.state == RequestRecordState::Completed
                        && entry.0.updated_at_ms < older_than_ms,
                    None => false,
                };
                if removable {
                    remove_requests(&mut self.request_records, request_key.as_str());
                    pruned = pruned + 1;
                }
                remove_cleanup_entries(&mut self.request_cleanup_index, entries[i].as_str());
            }
            assert forall|k: int| i + 1 <= k < names.len() implies self.cleanup_index().contains_key(
                #[trigger] names[k],
            ) by {
                assert(text::text_before(names[i as int], names[k]));
                text::text_order_is_total(names[k], names[k], names[k]);
            }
            i = i + 1;
        }
        proof {
            if i < entries@.len() {
                lemma_limit_stops_pruning(
                    start,
                    names,
                    i as int,
                    names.len() as int,
                    older_than_ms,
                    limit as int,
                );
            }
        }
        pruned
    }

    /// Prunable records that no index entry led to, at most `room` of them.
    fn unindexed_prunable_requests(&self, older_than_ms: u64, room: usize) -> (swept: Vec<String>)
        requires
            room > 0,
        ensures
            swept@.len() <= room,
            windows::texts_of(swept@).no_duplicates(),
            forall|i: int|
                0 <= i < swept@.len() ==> self.requests().contains_key(
                    #[trigger] windows::texts_of(swept@)[i],
                ) && prunable(self.requests()[windows::texts_of(swept@)[i]].0, older_than_ms),
            swept@.len() < room ==> forall|key: Seq<char>|
                self.requests().contains_key(key) && prunable(
                    (#[trigger] self.requests()[key]).0,
                    older_than_ms,
                ) ==> windows::texts_of(swept@).contains(key),
    {
        let listed = keys_of_requests(&self.request_records);
        let mut swept: Vec<String> = Vec::new();
        let mut i: usize = 0;
        while i < listed.len() && swept.len() < room
            invariant
                i <= listed@.len(),
                swept@.len() <= room,
                maps::lists_texts(listed@, self.requests().dom()),
                forall|a: int|
                    0 <= a < swept@.len() ==> exists|k: int|
                        0 <= k < i && (#[trigger] listed@[k])@ == (#[trigger] swept@[a])@,
                forall|a: int, b: int|
                    0 <= a < b < swept@.len() ==> (#[trigger] swept@[a])@ != (
                    #[trigger] swept@[b])@,
                forall|a: int|
                    0 <= a < swept@.len() ==> self.requests().contains_key(
                        (#[trigger] swept@[a])@,
                    ) && prunable(self.requests()[swept@[a]@].0, older_than_ms),
                forall|k: int|
                    0 <= k < i && prunable(
                        self.requests()[(#[trigger] listed@[k])@].0,
                        older_than_ms,
                    ) ==> exists|a: int|
                        0 <= a < swept@.len() && (#[trigger] swept@[a])@ == listed@[k]@,
            decreases listed@.len() - i,
        {
            let ghost before = swept@;
            assert(self.requests().dom().contains(listed@[i as int]@));
            let removable = match get_requests(&self.request_records, listed[i].as_str()) {
                Some(entry) => entry.0.state == RequestRecordState::Completed
                    && entry.0.updated_at_ms < older_than_ms,
                None => false,
            };
            if removable {
                swept.push(listed[i].clone());
                assert(swept@[before.len() as int]@ == listed@[i as int]@);
            }
            proof {
                assert forall|a: int| 0 <= a < swept@.len() implies exists|k: int|
                    0 <= k < i + 1 && (#[trigger] listed@[k])@ == (#[trigger] swept@[a])@ by {
                    if a < before.len() {
                        assert(swept@[a] == before[a]);
                        let k = choose|k: int|
                            0 <= k < i && (#[trigger] listed@[k])@ == before[a]@;
                        assert(listed@[k]@ == swept@[a]@);
                    } else {
                        assert(listed@[i as int]@ == swept@[a]@);
                    }
                }
                assert forall|a: int, b: int| 0 <= a < b < swept@.len() implies (
                #[trigger] swept@[a])@ != (#[trigger] swept@[b])@ by {
                    assert(swept@[a] == before[a]);
                    if b == before.len() {
                        let k = choose|k: int|
                            0 <= k < i && (#[trigger] listed@[k])@ == before[a]@;
                        assert(listed@[k]@ != listed@[i as int]@);
                    } else {
                        assert(swept@[b] == before[b]);
                    }
                }
                assert forall|k: int| 0 <= k < i + 1 && prunable(
                    self.requests()[(#[trigger] listed@[k])@].0,
                    older_than_ms,
                ) implies exists|a: int|
                    0 <= a < swept@.len() && (#[trigger] swept@[a])@ == listed@[k]@ by {
                    if k < i {
                        let a = choose|a: int|
                            0 <= a < before.len() && (#[trigger] before[a])@ == listed@[k]@;
                        assert(swept@[a]@ == listed@[k]@);
                    }
                }
            }
            i = i + 1;
        }
        proof {
            let names = windows::texts_of(swept@);
            assert forall|a: int, b: int| 0 <= a < names.len() && 0 <= b < names.len() && a
                != b implies names[a] != names[b] by {
                if a < b {
                    assert(swept@[a]@ != swept@[b]@);
                } else {
                    assert(swept@[b]@ != swept@[a]@);
                }
            }
            assert forall|a: int| 0 <= a < swept@.len() implies self.requests().contains_key(
                #[trigger] names[a],
            ) && prunable(self.requests()[names[a]].0, older_than_ms) by {
                assert(names[a] == swept@[a]@);
            }
            if swept@.len() < room {
                assert forall|key: Seq<char>|
                    self.requests().contains_key(key) && prunable(
                        (#[trigger] self.requests()[key]).0,
                        older_than_ms,
                    ) implies names.contains(key) by {
                    assert(self.requests().dom().contains(key));
                    let k = choose|k: int|
                        0 <= k < listed@.len() && (#[trigger] listed@[k])@ == key;
                    let a = choose|a: int|
                        0 <= a < swept@.len() && (#[trigger] swept@[a])@ == listed@[k]@;
                    assert(names[a] == key);
                }
            }
        }
        swept
    }

    /// Drops the index entries that name a request.
    fn drop_entries_of(&mut self, request_key: &str)
        ensures
            final(self).keeps_all_but_requests(*old(self)),
            final(self).request_records == old(self).request_records,
            final(self).cleanup_index() == without_requests(
                old(self).cleanup_index(),
                seq![request_key@],
            ),
    {
        let listed = keys_of_cleanup_entries(&self.request_cleanup_index);
        let ghost before = self.cleanup_index();
        let ghost gone = seq![request_key@];
        let mut i: usize = 0;
        while i < listed.len()
            invariant
                i <= listed@.len(),
                gone == seq![request_key@],
                before == old(self).cleanup_index(),
                maps::lists_texts(listed@, before.dom()),
                self.keeps_all_but_requests(*old(self)),
                self.request_records == old(self).request_records,
                self.cleanup_index().submap_of(before),
                forall|key: Seq<char>|
                    before.contains_key(key) && before[key] != request_key@
                        ==> #[trigger] self.cleanup_index().contains_key(key),
                forall|k: int|
                    0 <= k < i ==> (self.cleanup_index().contains_key((#[trigger] listed@[k])@)
                        ==> before[listed@[k]@] != request_key@),
            decreases listed@.len() - i,
        {
            assert(before.dom().contains(listed@[i as int]@));
            let names_request = match get_cleanup_entries(
                &self.request_cleanup_index,
                listed[i].as_str(),
            ) {
                Some(named) => named == request_key.to_owned(),
                None => false,
            };
            if names_request {
                remove_cleanup_entries(&mut self.request_cleanup_index, listed[i].as_str());
            }
            i = i + 1;
        }
        proof {
            let after = without_requests(before, gone);
            assert forall|key: Seq<char>| #[trigger]
                self.cleanup_index().contains_key(key) <==> after.contains_key(key) by {
                assert(gone.contains(before[key]) <==> before[key] == request_key@) by {
                    assert(gone[0] == request_key@);
                }
                if self.cleanup_index().contains_key(key) {
                    assert(before.dom().contains(key));
                    let k = choose|k: int|
                        0 <= k < listed@.len() && (#[trigger] listed@[k])@ == key;
                    assert(before[listed@[k]@] != request_key@);
                }
            }
            assert(self.cleanup_index() =~= after);
        }
    }

    /// Removes records that are known to be prunable, with the index entries that name them.
    fn remove_swept_requests(&mut self, swept: &Vec<String>)
        ensures
            final(self).keeps_all_but_requests(*old(self)),
            final(self).requests() == old(self).requests().remove_keys(
                windows::texts_of(swept@).to_set(),
            ),
            final(self).cleanup_index() == without_requests(
                old(self).cleanup_index(),
                windows::texts_of(swept@),
            ),
    {
        let ghost names = windows::texts_of(swept@);
        let ghost requests = self.requests();
        let ghost index = self.cleanup_index();
        let mut i: usize = 0;
        proof {
            assert(names.take(0) =~= Seq::empty());
            assert(requests =~= requests.remove_keys(names.take(0).to_set()));
            assert(index =~= without_requests(index, names.take(0)));
        }
        while i < swept.len()
            invariant
                i <= swept@.len(),
                names == windows::texts_of(swept@),
                requests == old(self).requests(),
                index == old(self).cleanup_index(),
                self.keeps_all_but_requests(*old(self)),
                self.requests() == requests.remove_keys(names.take(i as int).to_set()),
                self.cleanup_index() == without_requests(index, names.take(i as int)),
            decreases swept@.len() - i,
        {
            remove_requests(&mut self.request_records, swept[i].as_str());
            self.drop_entries_of(swept[i].as_str());
            proof {
                let taken = names.take(i as int);
                let more = names.take(i + 1);
                assert(more =~= taken.push(names[i as int]));
                assert forall|key: Seq<char>| more.contains(key) <==> taken.contains(key) || key
                    == names[i as int] by {
                    if taken.contains(key) {
                        let k = choose|k: int| 0 <= k < taken.len() && taken[k] == key;
                        assert(more[k] == key);
                    }
                    if key == names[i as int] {
                        assert(more[i as int] == key);
                    }
                }
                assert(more.to_set() =~= taken.to_set().insert(names[i as int]));
                assert(self.requests() =~= requests.remove_keys(more.to_set()));
                let last = seq![names[i as int]];
                assert forall|key: Seq<char>| last.contains(key) <==> key == names[i as int] by {
                    assert(last[0] == names[i as int]);
                }
                assert(self.cleanup_index() =~= without_requests(index, more));
            }
            i = i + 1;
        }
        assert(names.take(i as int) =~= names);
    }

    /// Removes completed requests last touched before the cutoff, at most `limit` of them, and
    /// says how many went. Indexed requests go first, oldest first.
    pub fn prune_completed_request_records(&mut self, older_than_ms: u64, limit: usize) -> (result:
        Result<usize, TsoError>)
        ensures
            final(self).keeps_all_but_requests(*old(self)),
            result matches Ok(pruned) && {
                &&& pruned <= limit
                &&& limit == 0 ==> *final(self) == *old(self)
                &&& limit > 0 ==> exists|entries: Seq<Seq<char>>, swept: Seq<Seq<char>>|
                    #[trigger] prunes(
                        old(self).prune_progress(0),
                        entries,
                        swept,
                        older_than_ms,
                        limit as int,
                        final(self).prune_progress(pruned as int),
                    )
                &&& final(self).requests().submap_of(old(self).requests())
                &&& forall|key: Seq<char>|
                    old(self).requests().contains_key(key) && !final(self).requests().contains_key(
                        key,
                    ) ==> prunable((#[trigger] old(self).requests()[key]).0, older_than_ms)
                &&& pruned < limit ==> forall|key: Seq<char>|
                    final(self).requests().contains_key(key) ==> !prunable(
                        (#[trigger] final(self).requests()[key]).0,
                        older_than_ms,
                    )
            },
    {
        if limit == 0 {
            return Ok(0);
        }
        let ghost start = self.prune_progress(0);
        let entries = self.due_index_entries(older_than_ms);
        let ghost names = windows::texts_of(entries@);
        let indexed: usize = self.prune_indexed_requests(&entries, older_than_ms, limit);
        let ghost middle = self.prune_progress(indexed as int);
        proof {
            lemma_entries_remove_prunable_records(
                start,
                names,
                names.len() as int,
                older_than_ms,
                limit as int,
            );
        }
        let swept = if indexed >= limit {
            Vec::new()
        } else {
            self.unindexed_prunable_requests(older_than_ms, limit - indexed)
        };
        let ghost gone = windows::texts_of(swept@);
        self.remove_swept_requests(&swept);
        let pruned: usize = indexed + swept.len();
        proof {
            assert(gone.len() == swept@.len());
            assert forall|i: int| 0 <= i < gone.len() implies middle.requests.contains_key(
                #[trigger] gone[i],
            ) && prunable(middle.requests[gone[i]].0, older_than_ms) by {}
            assert(sweeps(middle, gone, older_than_ms, limit as int));
            assert(prunes(
                start,
                names,
                gone,
                older_than_ms,
                limit as int,
                self.prune_progress(pruned as int),
            ));
            assert forall|key: Seq<char>|
                old(self).requests().contains_key(key) && !self.requests().contains_key(
                    key,
                ) implies prunable((#[trigger] old(self).requests()[key]).0, older_than_ms) by {
                if middle.requests.contains_key(key) {
                    assert(gone.contains(key));
                    let i = choose|i: int| 0 <= i < gone.len() && gone[i] == key;
                    assert(prunable(middle.requests[gone[i]].0, older_than_ms));
                }
            }
        }
        Ok(pruned)
    }
}

} // verus!
