//! The in-memory store: timelines, generators and requests in one process.

use dashmap::DashMap;
use vstd::hash_set::StringHashSet;
use vstd::prelude::*;

use crate::error::{timeline_not_found, TsoError};
use crate::metadata::entries;
use crate::metadata::maps;
use crate::metadata::maps::{
    get_timelines, insert_timelines, keys_of_timelines, new_cleanup_entries, new_generators,
    new_requests, new_timelines, sort_texts,
};
use crate::metadata::types;
use crate::metadata::types::{
    collect_timeline_route_update, GeneratorRecord, GeneratorRecordView, RequestRecord,
    RequestRecordView, RouteUpdateSignal, TimelineBatchOp, TimelineFilterRecord,
    TimelineFilterRecordListPage, TimelineRecord, TimelineRecordListPage, TimelineRecordView,
    TimelineRouteRecord, CURRENT_METADATA_SCHEMA_VERSION,
};
use crate::metadata::windows;
use crate::metadata::windows::cut_window;
use crate::model::{RouteView, TimelineRoute};

verus! {

/// Keeps every record in memory. Route changes are published in the order of the writes; whoever
/// forwards them takes them out with `take_route_updates`.
pub struct MemoryMetadataStore {
    pub records: DashMap<String, (TimelineRecord, u64)>,
    pub generators: DashMap<u32, (GeneratorRecord, u64)>,
    pub request_records: DashMap<String, (RequestRecord, u64)>,
    pub request_cleanup_index: DashMap<String, String>,
    pub sorted_timeline_keys: Option<Vec<String>>,
    pub route_updates: Vec<RouteUpdateSignal>,
}

pub type Timelines = Map<Seq<char>, (TimelineRecordView, u64)>;

/// The record has the schema version that full records must have.
pub open spec fn current_schema(record: TimelineRecordView) -> bool {
    record.schema_version == CURRENT_METADATA_SCHEMA_VERSION
}

/// Why a batch stops at an operation.
pub enum BatchFault {
    Schema(u32),
    Conflict,
    NotFound(Seq<char>),
}

impl BatchFault {
    /// The error that reports the fault.
    pub open spec fn is_reported_by(self, error: TsoError) -> bool {
        match self {
            BatchFault::Schema(version) => error.is_internal(
                types::unsupported_schema("timeline"@, version),
            ),
            BatchFault::Conflict => error == TsoError::CasFailed,
            BatchFault::NotFound(key) => error.is_not_found(key),
        }
    }
}

/// Some earlier operation of the batch names the same timeline.
pub open spec fn named_before(operations: Seq<TimelineBatchOp>, at: int) -> bool {
    exists|i: int|
        0 <= i < at && (#[trigger] operations[i]).timeline_key@ == operations[at].timeline_key@
}

/// What stops the batch at one operation.
pub open spec fn operation_fault(
    timelines: Timelines,
    operations: Seq<TimelineBatchOp>,
    at: int,
) -> Option<BatchFault> {
    let operation = operations[at];
    let key = operation.timeline_key@;
    if operation.record.schema_version != CURRENT_METADATA_SCHEMA_VERSION {
        Some(BatchFault::Schema(operation.record.schema_version))
    } else if named_before(operations, at) {
        Some(BatchFault::Conflict)
    } else if !timelines.contains_key(key) {
        Some(BatchFault::NotFound(key))
    } else if timelines[key].1 != operation.previous_revision {
        Some(BatchFault::Conflict)
    } else {
        None
    }
}

/// What stops the batch first, from an operation on.
pub open spec fn batch_fault(
    timelines: Timelines,
    operations: Seq<TimelineBatchOp>,
    from: int,
) -> Option<BatchFault>
    decreases operations.len() - from,
{
    if from < 0 || from >= operations.len() {
        None
    } else if operation_fault(timelines, operations, from) is Some {
        operation_fault(timelines, operations, from)
    } else {
        batch_fault(timelines, operations, from + 1)
    }
}

/// Some of the first `n` operations names the timeline.
pub open spec fn named_among(operations: Seq<TimelineBatchOp>, key: Seq<char>, n: int) -> bool {
    exists|i: int| 0 <= i < n && (#[trigger] operations[i]).timeline_key@ == key
}

/// The operation finds its timeline at the revision that it expects.
pub open spec fn operation_passes(timelines: Timelines, operation: TimelineBatchOp) -> bool {
    &&& operation.record.schema_version == CURRENT_METADATA_SCHEMA_VERSION
    &&& timelines.contains_key(operation.timeline_key@)
    &&& timelines[operation.timeline_key@].1 == operation.previous_revision
}

/// The revisions after a batch: each one past the expected one.
pub open spec fn new_revisions(operations: Seq<TimelineBatchOp>) -> Seq<u64> {
    operations.map_values(
        |operation: TimelineBatchOp| (operation.previous_revision + 1) as u64,
    )
}

proof fn lemma_no_fault(timelines: Timelines, operations: Seq<TimelineBatchOp>, from: int)
    requires
        0 <= from <= operations.len(),
        forall|k: int|
            0 <= k < operations.len() ==> operation_passes(timelines, #[trigger] operations[k]),
        forall|k: int| 0 <= k < operations.len() ==> !#[trigger] named_before(operations, k),
    ensures
        batch_fault(timelines, operations, from) is None,
    decreases operations.len() - from,
{
    if from < operations.len() {
        assert(operation_passes(timelines, operations[from]));
        assert(!named_before(operations, from));
        lemma_no_fault(timelines, operations, from + 1);
    }
}

/// An operation that names a timeline for the first time finds it as it was.
proof fn lemma_later_keys_untouched(
    timelines: Timelines,
    operations: Seq<TimelineBatchOp>,
    n: int,
    at: int,
)
    requires
        0 <= n <= at < operations.len(),
        !named_before(operations, at),
    ensures
        ({
            let key = operations[at].timeline_key@;
            let now = after_operations(timelines, operations, n);
            now.contains_key(key) == timelines.contains_key(key) && now[key] == timelines[key]
        }),
    decreases n,
{
    if n > 0 {
        lemma_later_keys_untouched(timelines, operations, n - 1, at);
        assert(operations[n - 1].timeline_key@ != operations[at].timeline_key@);
    }
}

/// A batch that passes neither adds nor drops a timeline.
proof fn lemma_batch_keeps_keys(timelines: Timelines, operations: Seq<TimelineBatchOp>, n: int)
    requires
        0 <= n <= operations.len(),
        forall|k: int|
            0 <= k < operations.len() ==> operation_passes(timelines, #[trigger] operations[k]),
    ensures
        after_operations(timelines, operations, n).dom() == timelines.dom(),
    decreases n,
{
    if n > 0 {
        lemma_batch_keeps_keys(timelines, operations, n - 1);
        assert(operation_passes(timelines, operations[n - 1]));
        assert(after_operations(timelines, operations, n).dom() =~= timelines.dom());
    }
}

/// The timelines after the first `n` operations.
pub open spec fn after_operations(
    timelines: Timelines,
    operations: Seq<TimelineBatchOp>,
    n: int,
) -> Timelines
    decreases n,
{
    if n <= 0 {
        timelines
    } else {
        let operation = operations[n - 1];
        after_operations(timelines, operations, n - 1).insert(
            operation.timeline_key@,
            (operation.record@, (operation.previous_revision + 1) as u64),
        )
    }
}

/// The route changes that the first `n` operations publish.
pub open spec fn updates_of_operations(
    timelines: Timelines,
    operations: Seq<TimelineBatchOp>,
    n: int,
) -> Seq<TimelineRoute>
    decreases n,
{
    if n <= 0 {
        Seq::empty()
    } else {
        let before = updates_of_operations(timelines, operations, n - 1);
        let operation = operations[n - 1];
        if timelines[operation.timeline_key@].0.route == operation.record.route@ {
            before
        } else {
            before.push(operation.record.route)
        }
    }
}

/// The signals that announce routes.
pub open spec fn signals_of(routes: Seq<TimelineRoute>) -> Seq<RouteUpdateSignal> {
    routes.map_values(|route: TimelineRoute| RouteUpdateSignal::Route(route))
}

/// What is announced once a route is written: the route, unless it was the same before.
pub open spec fn announces(
    before: Seq<RouteUpdateSignal>,
    was: Option<RouteView>,
    route: TimelineRoute,
    after: Seq<RouteUpdateSignal>,
) -> bool {
    after == if was matches Some(same) && same == route@ {
        before
    } else {
        before.push(RouteUpdateSignal::Route(route))
    }
}

/// A route that is new or another one than before is announced once, after all that was announced
/// before; a route that stays is not.
pub proof fn changed_routes_are_announced_once(
    before: Seq<RouteUpdateSignal>,
    was: Option<RouteView>,
    route: TimelineRoute,
    after: Seq<RouteUpdateSignal>,
)
    requires
        announces(before, was, route, after),
    ensures
        after.take(before.len() as int) == before,
        was is None || was->0 != route@ ==> after.len() == before.len() + 1 && after.last()
            == RouteUpdateSignal::Route(route),
        was matches Some(same) && same == route@ ==> after.len() == before.len(),
{
    assert(after.take(before.len() as int) =~= before);
}

/// What looking the route of a timeline up comes to.
pub open spec fn finds_route(
    timelines: Timelines,
    key: Seq<char>,
    result: Result<Option<(TimelineRouteRecord, u64)>, TsoError>,
) -> bool {
    if !timelines.contains_key(key) {
        result matches Ok(None)
    } else {
        let stored = timelines[key];
        if stored.0.schema_version >= CURRENT_METADATA_SCHEMA_VERSION {
            result matches Ok(Some(loaded)) && loaded.0.schema_version == stored.0.schema_version
                && loaded.0.route@ == stored.0.route && loaded.1 == stored.1
        } else {
            result matches Err(error) && error.is_internal(
                types::unsupported_schema("timeline"@, stored.0.schema_version),
            )
        }
    }
}

/// The route that is found is the one that stands, with its revision, also in a record of a newer
/// schema; an older one is not read.
pub proof fn routes_are_found_as_they_stand(
    timelines: Timelines,
    key: Seq<char>,
    result: Result<Option<(TimelineRouteRecord, u64)>, TsoError>,
)
    requires
        finds_route(timelines, key, result),
    ensures
        result matches Ok(None) <==> !timelines.contains_key(key),
        result matches Ok(Some((found, revision))) ==> found.route@ == timelines[key].0.route
            && revision == timelines[key].1 && found.schema_version
            == timelines[key].0.schema_version,
        result is Err <==> timelines.contains_key(key) && timelines[key].0.schema_version
            < CURRENT_METADATA_SCHEMA_VERSION,
{
}

/// The cursor of a listing as a model value.
pub open spec fn cursor_of(start_after: Option<&str>) -> Option<Seq<char>> {
    match start_after {
        Some(text) => Some(text@),
        None => None,
    }
}

/// What a page of full records shows of a window that reaches one key past the page.
pub open spec fn shows_page(
    timelines: Timelines,
    window: Seq<Seq<char>>,
    limit: usize,
    result: Result<TimelineRecordListPage, TsoError>,
) -> bool {
    match result {
        Ok(page) => {
            let shown = if window.len() > limit {
                limit as int
            } else {
                window.len() as int
            };
            &&& forall|i: int|
                0 <= i < window.len() ==> current_schema(timelines[#[trigger] window[i]].0)
            &&& page.records@.len() == shown
            &&& forall|i: int|
                0 <= i < shown ==> (#[trigger] page.records@[i])@ == timelines[window[i]].0
            &&& match page.next_start_after_timeline_key {
                Some(next) => window.len() > limit && next@
                    == timelines[window[limit - 1]].0.route.timeline_key,
                None => window.len() <= limit,
            }
        },
        Err(error) => exists|i: int|
            {
                &&& 0 <= i < window.len()
                &&& !current_schema(timelines[#[trigger] window[i]].0)
                &&& forall|k: int|
                    0 <= k < i ==> current_schema(timelines[#[trigger] window[k]].0)
                &&& error.is_internal(
                    types::unsupported_schema("timeline"@, timelines[window[i]].0.schema_version),
                )
            },
    }
}

/// A projection of the record may be read: its schema version is not too old.
pub open spec fn readable_schema(record: TimelineRecordView) -> bool {
    record.schema_version >= CURRENT_METADATA_SCHEMA_VERSION
}

/// The filter record is the projection of the stored record.
pub open spec fn is_filter_of(record: TimelineFilterRecord, stored: TimelineRecordView) -> bool {
    &&& record.schema_version == stored.schema_version
    &&& record.route@ == stored.route
    &&& record.state == stored.state
}

/// What a page of filter records shows of a window that reaches one key past the page.
pub open spec fn shows_filter_page(
    timelines: Timelines,
    window: Seq<Seq<char>>,
    limit: usize,
    result: Result<TimelineFilterRecordListPage, TsoError>,
) -> bool {
    match result {
        Ok(page) => {
            let shown = if window.len() > limit {
                limit as int
            } else {
                window.len() as int
            };
            &&& forall|i: int|
                0 <= i < window.len() ==> readable_schema(timelines[#[trigger] window[i]].0)
            &&& page.records@.len() == shown
            &&& forall|i: int|
                0 <= i < shown ==> is_filter_of(
                    #[trigger] page.records@[i],
                    timelines[window[i]].0,
                )
            &&& match page.next_start_after_timeline_key {
                Some(next) => window.len() > limit && next@
                    == timelines[window[limit - 1]].0.route.timeline_key,
                None => window.len() <= limit,
            }
        },
        Err(error) => exists|i: int|
            {
                &&& 0 <= i < window.len()
                &&& !readable_schema(timelines[#[trigger] window[i]].0)
                &&& forall|k: int|
                    0 <= k < i ==> readable_schema(timelines[#[trigger] window[k]].0)
                &&& error.is_internal(
                    types::unsupported_schema("timeline"@, timelines[window[i]].0.schema_version),
                )
            },
    }
}

/// A page result for a cursor and a limit, seen through its window.
pub open spec fn is_page(
    timelines: Timelines,
    cursor: Option<Seq<char>>,
    limit: usize,
    window: Seq<Seq<char>>,
    result: Result<TimelineRecordListPage, TsoError>,
) -> bool {
    &&& windows::is_window(window, timelines.dom(), cursor, limit as nat + 1)
    &&& shows_page(timelines, window, limit, result)
}

/// A filter page result for a cursor and a limit, seen through its window.
pub open spec fn is_filter_page(
    timelines: Timelines,
    cursor: Option<Seq<char>>,
    limit: usize,
    window: Seq<Seq<char>>,
    result: Result<TimelineFilterRecordListPage, TsoError>,
) -> bool {
    &&& windows::is_window(window, timelines.dom(), cursor, limit as nat + 1)
    &&& shows_filter_page(timelines, window, limit, result)
}

impl MemoryMetadataStore {
    pub open spec fn timelines(self) -> Timelines {
        maps::timelines_in(self.records)
    }

    pub open spec fn generator_entries(self) -> Map<u32, (GeneratorRecordView, u64)> {
        maps::generators_in(self.generators)
    }

    pub open spec fn requests(self) -> Map<Seq<char>, (RequestRecordView, u64)> {
        maps::requests_in(self.request_records)
    }

    pub open spec fn cleanup_index(self) -> Map<Seq<char>, Seq<char>> {
        maps::cleanup_entries_in(self.request_cleanup_index)
    }

    /// The cached key order, when there is one, is the order of the timelines.
    pub open spec fn valid(self) -> bool {
        self.sorted_timeline_keys matches Some(keys) ==> windows::is_order_of(
            windows::texts_of(keys@),
            self.timelines().dom(),
        )
    }

    /// The timeline is not at the last revision with that revision expected.
    pub open spec fn revision_can_move_on(self, key: Seq<char>, expected_revision: u64) -> bool {
        expected_revision < u64::MAX || !self.timelines().contains_key(key) || self.timelines()[key].1
            != expected_revision
    }

    /// Everything but the timelines and what they publish is as before.
    pub open spec fn keeps_other_records(self, before: MemoryMetadataStore) -> bool {
        &&& self.generators == before.generators
        &&& self.request_records == before.request_records
        &&& self.request_cleanup_index == before.request_cleanup_index
    }

    pub fn new() -> (store: Self)
        ensures
            store.valid(),
            store.timelines() == Map::<Seq<char>, (TimelineRecordView, u64)>::empty(),
            store.generator_entries() == Map::<u32, (GeneratorRecordView, u64)>::empty(),
            store.requests() == Map::<Seq<char>, (RequestRecordView, u64)>::empty(),
            store.cleanup_index() == Map::<Seq<char>, Seq<char>>::empty(),
            store.route_updates@.len() == 0,
    {
        MemoryMetadataStore {
            records: new_timelines(),
            generators: new_generators(),
            request_records: new_requests(),
            request_cleanup_index: new_cleanup_entries(),
            sorted_timeline_keys: None,
            route_updates: Vec::new(),
        }
    }

    /// Takes the route changes that were published and not yet taken, oldest first.
    pub fn take_route_updates(&mut self) -> (updates: Vec<RouteUpdateSignal>)
        ensures
            updates@ == old(self).route_updates@,
            final(self).route_updates@.len() == 0,
            final(self).records == old(self).records,
            final(self).sorted_timeline_keys == old(self).sorted_timeline_keys,
            final(self).keeps_other_records(*old(self)),
    {
        let mut updates: Vec<RouteUpdateSignal> = Vec::new();
        std::mem::swap(&mut updates, &mut self.route_updates);
        updates
    }

    fn publish_route_update(&mut self, route: &TimelineRoute)
        ensures
            final(self).route_updates@ == old(self).route_updates@.push(
                RouteUpdateSignal::Route(*route),
            ),
            final(self).records == old(self).records,
            final(self).sorted_timeline_keys == old(self).sorted_timeline_keys,
            final(self).keeps_other_records(*old(self)),
    {
        self.route_updates.push(RouteUpdateSignal::Route(route.clone()));
    }

    /// Publishes several route changes in order.
    fn publish_route_updates(&mut self, routes: &Vec<TimelineRoute>)
        ensures
            final(self).route_updates@ == old(self).route_updates@ + signals_of(routes@),
            final(self).records == old(self).records,
            final(self).sorted_timeline_keys == old(self).sorted_timeline_keys,
            final(self).keeps_other_records(*old(self)),
    {
        let mut i: usize = 0;
        assert(self.route_updates@ =~= old(self).route_updates@ + signals_of(routes@.take(0)));
        while i < routes.len()
            invariant
                i <= routes@.len(),
                self.route_updates@ == old(self).route_updates@ + signals_of(
                    routes@.take(i as int),
                ),
                self.records == old(self).records,
                self.sorted_timeline_keys == old(self).sorted_timeline_keys,
                self.keeps_other_records(*old(self)),
            decreases routes@.len() - i,
        {
            self.publish_route_update(&routes[i]);
            assert(self.route_updates@ =~= old(self).route_updates@ + signals_of(
                routes@.take(i + 1),
            ));
            i = i + 1;
        }
        assert(routes@.take(i as int) =~= routes@);
    }

    /// The keys of all timelines in ascending order, from the cache where it holds them.
    pub fn sorted_timeline_keys(&mut self) -> (keys: Vec<String>)
        requires
            old(self).valid(),
        ensures
            final(self).valid(),
            windows::is_order_of(windows::texts_of(keys@), final(self).timelines().dom()),
            final(self).records == old(self).records,
            final(self).route_updates == old(self).route_updates,
            final(self).keeps_other_records(*old(self)),
    {
        if self.sorted_timeline_keys.is_none() {
            let mut listed = keys_of_timelines(&self.records);
            let ghost unsorted = listed@;
            sort_texts(&mut listed);
            proof {
                windows::lemma_sorted_listing_is_order(
                    unsorted,
                    listed@,
                    self.timelines().dom(),
                );
            }
            self.sorted_timeline_keys = Some(listed);
        }
        match &self.sorted_timeline_keys {
            Some(keys) => copy_texts(keys),
            None => Vec::new(),
        }
    }

    fn invalidate_sorted_timeline_keys(&mut self)
        ensures
            final(self).sorted_timeline_keys is None,
            final(self).records == old(self).records,
            final(self).route_updates == old(self).route_updates,
            final(self).keeps_other_records(*old(self)),
    {
        self.sorted_timeline_keys = None;
    }

    pub fn load_timeline(&self, timeline_key: &str) -> (result: Result<
        Option<(TimelineRecord, u64)>,
        TsoError,
    >)
        ensures
            entries::finds(
                self.timelines(),
                timeline_key@,
                current_schema(self.timelines()[timeline_key@].0),
                types::unsupported_schema(
                    "timeline"@,
                    self.timelines()[timeline_key@].0.schema_version,
                ),
                result,
            ),
    {
        match get_timelines(&self.records, timeline_key) {
            Some(entry) => match entry.0.validate_schema_version() {
                Ok(()) => Ok(Some(entry)),
                Err(error) => Err(error),
            },
            None => Ok(None),
        }
    }

    pub fn load_timeline_route(&self, timeline_key: &str) -> (result: Result<
        Option<(TimelineRouteRecord, u64)>,
        TsoError,
    >)
        ensures
            finds_route(self.timelines(), timeline_key@, result),
            if !self.timelines().contains_key(timeline_key@) {
                result matches Ok(None)
            } else {
                let stored = self.timelines()[timeline_key@];
                if stored.0.schema_version >= CURRENT_METADATA_SCHEMA_VERSION {
                    result matches Ok(Some(loaded)) && loaded.0.schema_version
                        == stored.0.schema_version && loaded.0.route@ == stored.0.route && loaded.1
                        == stored.1
                } else {
                    result matches Err(error) && error.is_internal(
                        types::unsupported_schema("timeline"@, stored.0.schema_version),
                    )
                }
            },
    {
        match get_timelines(&self.records, timeline_key) {
            Some(entry) => {
                let route_record = TimelineRouteRecord {
                    schema_version: entry.0.schema_version,
                    route: entry.0.route,
                };
                match route_record.validate_schema_version() {
                    Ok(()) => Ok(Some((route_record, entry.1))),
                    Err(error) => Err(error),
                }
            },
            None => Ok(None),
        }
    }

    /// All timelines, in no particular order.
    pub fn list_timelines(&self) -> (result: Result<Vec<TimelineRecord>, TsoError>)
        ensures
            match result {
                Ok(records) => exists|keys: Seq<String>|
                    {
                        &&& #[trigger] maps::lists_texts(keys, self.timelines().dom())
                        &&& records@.len() == keys.len()
                        &&& forall|i: int|
                            0 <= i < keys.len() ==> (#[trigger] records@[i])@
                                == self.timelines()[keys[i]@].0 && current_schema(records@[i]@)
                    },
                Err(error) => exists|key: Seq<char>|
                    {
                        &&& #[trigger] self.timelines().contains_key(key)
                        &&& !current_schema(self.timelines()[key].0)
                        &&& error.is_internal(
                            types::unsupported_schema(
                                "timeline"@,
                                self.timelines()[key].0.schema_version,
                            ),
                        )
                    },
            },
    {
        let keys = keys_of_timelines(&self.records);
        let mut records: Vec<TimelineRecord> = Vec::new();
        let mut i: usize = 0;
        while i < keys.len()
            invariant
                i <= keys@.len(),
                maps::lists_texts(keys@, self.timelines().dom()),
                records@.len() == i,
                forall|k: int|
                    0 <= k < i ==> (#[trigger] records@[k])@ == self.timelines()[keys@[k]@].0
                        && current_schema(records@[k]@),
            decreases keys@.len() - i,
        {
            assert(self.timelines().dom().contains(keys@[i as int]@));
            if let Some(entry) = get_timelines(&self.records, keys[i].as_str()) {
                match entry.0.validate_schema_version() {
                    Ok(()) => {},
                    Err(error) => {
                        assert(self.timelines().contains_key(keys@[i as int]@));
                        return Err(error);
                    },
                }
                records.push(entry.0);
            }
            i = i + 1;
        }
        Ok(records)
    }

    /// The timelines after a key, in ascending order of their keys, at most `limit` of them.
    pub fn list_timelines_page(
        &mut self,
        start_after_timeline_key: Option<&str>,
        limit: usize,
    ) -> (result: Result<TimelineRecordListPage, TsoError>)
        requires
            old(self).valid(),
            limit < usize::MAX,
        ensures
            final(self).valid(),
            final(self).records == old(self).records,
            final(self).route_updates == old(self).route_updates,
            final(self).keeps_other_records(*old(self)),
            limit == 0 ==> (result matches Ok(page) && page.records@.len() == 0
                && page.next_start_after_timeline_key is None),
            limit > 0 ==> exists|window: Seq<Seq<char>>|
                #[trigger] is_page(
                    old(self).timelines(),
                    cursor_of(start_after_timeline_key),
                    limit,
                    window,
                    result,
                ),
    {
        if limit == 0 {
            return Ok(
                TimelineRecordListPage {
                    records: Vec::new(),
                    next_start_after_timeline_key: None,
                },
            );
        }
        let keys = self.sorted_timeline_keys();
        let ghost timelines = self.timelines();
        assert(timelines == old(self).timelines());
        let (start, end) = cut_window(
            &keys,
            Ghost(timelines.dom()),
            start_after_timeline_key,
            limit + 1,
        );
        let ghost window = windows::texts_of(keys@).subrange(start as int, end as int);
        let mut records = match self.read_records(&keys, start, end) {
            Ok(records) => records,
            Err(error) => {
                let result = Err(error);
                assert(shows_page(timelines, window, limit, result));
                assert(is_page(
                    timelines,
                    cursor_of(start_after_timeline_key),
                    limit,
                    window,
                    result,
                ));
                return result;
            },
        };
        let next_start_after_timeline_key = if records.len() > limit {
            Some(records[limit - 1].route.timeline_key.clone())
        } else {
            None
        };
        records.truncate(limit);
        let result = Ok(TimelineRecordListPage { records, next_start_after_timeline_key });
        assert(shows_page(timelines, window, limit, result));
        assert(is_page(timelines, cursor_of(start_after_timeline_key), limit, window, result));
        result
    }

    /// The records of a run of keys, up to the first that has another schema version.
    fn read_records(&self, keys: &Vec<String>, start: usize, end: usize) -> (result: Result<
        Vec<TimelineRecord>,
        TsoError,
    >)
        requires
            start <= end <= keys@.len(),
            forall|k: int|
                0 <= k < keys@.len() ==> self.timelines().dom().contains(
                    #[trigger] windows::texts_of(keys@)[k],
                ),
        ensures
            ({
                let timelines = self.timelines();
                let window = windows::texts_of(keys@).subrange(start as int, end as int);
                match result {
                    Ok(records) => {
                        &&& records@.len() == window.len()
                        &&& forall|k: int|
                            0 <= k < window.len() ==> (#[trigger] records@[k])@
                                == timelines[window[k]].0
                        &&& forall|k: int|
                            0 <= k < window.len() ==> current_schema(
                                timelines[#[trigger] window[k]].0,
                            )
                    },
                    Err(error) => exists|i: int|
                        {
                            &&& 0 <= i < window.len()
                            &&& !current_schema(timelines[#[trigger] window[i]].0)
                            &&& forall|k: int|
                                0 <= k < i ==> current_schema(timelines[#[trigger] window[k]].0)
                            &&& error.is_internal(
                                types::unsupported_schema(
                                    "timeline"@,
                                    timelines[window[i]].0.schema_version,
                                ),
                            )
                        },
                }
            }),
    {
        let ghost timelines = self.timelines();
        let ghost window = windows::texts_of(keys@).subrange(start as int, end as int);
        let mut records: Vec<TimelineRecord> = Vec::new();
        let mut i: usize = start;
        while i < end
            invariant
                start <= i <= end <= keys@.len(),
                timelines == self.timelines(),
                window == windows::texts_of(keys@).subrange(start as int, end as int),
                forall|k: int|
                    0 <= k < keys@.len() ==> timelines.dom().contains(
                        #[trigger] windows::texts_of(keys@)[k],
                    ),
                records@.len() == i - start,
                forall|k: int|
                    0 <= k < i - start ==> (#[trigger] records@[k])@ == timelines[window[k]].0,
                forall|k: int|
                    0 <= k < i - start ==> current_schema(timelines[#[trigger] window[k]].0),
            decreases end - i,
        {
            let ghost at = i - start;
            assert(window[at] == windows::texts_of(keys@)[i as int]);
            if let Some(entry) = get_timelines(&self.records, keys[i].as_str()) {
                match entry.0.validate_schema_version() {
                    Ok(()) => {},
                    Err(error) => {
                        assert(!current_schema(timelines[window[at]].0));
                        return Err(error);
                    },
                }
                records.push(entry.0);
            }
            i = i + 1;
        }
        Ok(records)
    }

    /// What a filter reads of the timelines after a key, at most `limit` of them.
    pub fn list_timeline_filters_page(
        &mut self,
        start_after_timeline_key: Option<&str>,
        limit: usize,
    ) -> (result: Result<TimelineFilterRecordListPage, TsoError>)
        requires
            old(self).valid(),
            limit < usize::MAX,
        ensures
            final(self).valid(),
            final(self).records == old(self).records,
            final(self).route_updates == old(self).route_updates,
            final(self).keeps_other_records(*old(self)),
            limit == 0 ==> (result matches Ok(page) && page.records@.len() == 0
                && page.next_start_after_timeline_key is None),
            limit > 0 ==> exists|window: Seq<Seq<char>>|
                #[trigger] is_filter_page(
                    old(self).timelines(),
                    cursor_of(start_after_timeline_key),
                    limit,
                    window,
                    result,
                ),
    {
        if limit == 0 {
            return Ok(
                TimelineFilterRecordListPage {
                    records: Vec::new(),
                    next_start_after_timeline_key: None,
                },
            );
        }
        let keys = self.sorted_timeline_keys();
        let ghost timelines = self.timelines();
        assert(timelines == old(self).timelines());
        let (start, end) = cut_window(
            &keys,
            Ghost(timelines.dom()),
            start_after_timeline_key,
            limit + 1,
        );
        let ghost window = windows::texts_of(keys@).subrange(start as int, end as int);
        let mut records = match self.read_filter_records(&keys, start, end) {
            Ok(records) => records,
            Err(error) => {
                let result = Err(error);
                assert(shows_filter_page(timelines, window, limit, result));
                assert(is_filter_page(
                    timelines,
                    cursor_of(start_after_timeline_key),
                    limit,
                    window,
                    result,
                ));
                return result;
            },
        };
        let next_start_after_timeline_key = if records.len() > limit {
            Some(records[limit - 1].route.timeline_key.clone())
        } else {
            None
        };
        records.truncate(limit);
        let result = Ok(TimelineFilterRecordListPage { records, next_start_after_timeline_key });
        assert(shows_filter_page(timelines, window, limit, result));
        assert(is_filter_page(
            timelines,
            cursor_of(start_after_timeline_key),
            limit,
            window,
            result,
        ));
        result
    }

    /// What a filter reads of a run of keys, up to the first record that is too old.
    fn read_filter_records(&self, keys: &Vec<String>, start: usize, end: usize) -> (result: Result<
        Vec<TimelineFilterRecord>,
        TsoError,
    >)
        requires
            start <= end <= keys@.len(),
            forall|k: int|
                0 <= k < keys@.len() ==> self.timelines().dom().contains(
                    #[trigger] windows::texts_of(keys@)[k],
                ),
        ensures
            ({
                let timelines = self.timelines();
                let window = windows::texts_of(keys@).subrange(start as int, end as int);
                match result {
                    Ok(records) => {
                        &&& records@.len() == window.len()
                        &&& forall|k: int|
                            0 <= k < window.len() ==> is_filter_of(
                                #[trigger] records@[k],
                                timelines[window[k]].0,
                            )
                        &&& forall|k: int|
                            0 <= k < window.len() ==> readable_schema(
                                timelines[#[trigger] window[k]].0,
                            )
                    },
                    Err(error) => exists|i: int|
                        {
                            &&& 0 <= i < window.len()
                            &&& !readable_schema(timelines[#[trigger] window[i]].0)
                            &&& forall|k: int|
                                0 <= k < i ==> readable_schema(timelines[#[trigger] window[k]].0)
                            &&& error.is_internal(
                                types::unsupported_schema(
                                    "timeline"@,
                                    timelines[window[i]].0.schema_version,
                                ),
                            )
                        },
                }
            }),
    {
        let ghost timelines = self.timelines();
        let ghost window = windows::texts_of(keys@).subrange(start as int, end as int);
        let mut records: Vec<TimelineFilterRecord> = Vec::new();
        let mut i: usize = start;
        while i < end
            invariant
                start <= i <= end <= keys@.len(),
                timelines == self.timelines(),
                window == windows::texts_of(keys@).subrange(start as int, end as int),
                forall|k: int|
                    0 <= k < keys@.len() ==> timelines.dom().contains(
                        #[trigger] windows::texts_of(keys@)[k],
                    ),
                records@.len() == i - start,
                forall|k: int|
                    0 <= k < i - start ==> is_filter_of(
                        #[trigger] records@[k],
                        timelines[window[k]].0,
                    ),
                forall|k: int|
                    0 <= k < i - start ==> readable_schema(timelines[#[trigger] window[k]].0),
            decreases end - i,
        {
            let ghost at = i - start;
            assert(window[at] == windows::texts_of(keys@)[i as int]);
            if let Some(entry) = get_timelines(&self.records, keys[i].as_str()) {
                let record = TimelineFilterRecord {
                    schema_version: entry.0.schema_version,
                    route: entry.0.route,
                    state: entry.0.state,
                };
                match record.validate_schema_version() {
                    Ok(()) => {},
                    Err(error) => {
                        assert(!readable_schema(timelines[window[at]].0));
                        return Err(error);
                    },
                }
                records.push(record);
            }
            i = i + 1;
        }
        Ok(records)
    }

    /// Creates a timeline under a key that is not taken; it starts at revision one.
    pub fn create_timeline(&mut self, timeline_key: &str, record: &TimelineRecord) -> (result:
        Result<u64, TsoError>)
        requires
            old(self).valid(),
        ensures
            final(self).valid(),
            final(self).keeps_other_records(*old(self)),
            entries::creates(
                old(self).timelines(),
                timeline_key@,
                record@,
                record.schema_version == CURRENT_METADATA_SCHEMA_VERSION,
                types::unsupported_schema("timeline"@, record.schema_version),
                final(self).timelines(),
                result,
            ),
            result is Err ==> *final(self) == *old(self),
            result is Ok ==> announces(
                old(self).route_updates@,
                None,
                record.route,
                final(self).route_updates@,
            ),
            result is Ok ==> final(self).route_updates@ == old(self).route_updates@.push(
                RouteUpdateSignal::Route(record.route),
            ),
    {
        match record.validate_schema_version() {
            Ok(()) => {},
            Err(error) => {
                return Err(error);
            },
        }
        let stamped = record.stamped_for_persistence();
        if get_timelines(&self.records, timeline_key).is_some() {
            return Err(TsoError::MetadataAlreadyExists);
        }
        insert_timelines(&mut self.records, timeline_key.to_owned(), (stamped.clone(), 1));
        self.invalidate_sorted_timeline_keys();
        let mut route_updates: Vec<TimelineRoute> = Vec::new();
        collect_timeline_route_update(None, &stamped, &mut route_updates);
        self.publish_route_updates(&route_updates);
        assert(signals_of(route_updates@) =~= seq![RouteUpdateSignal::Route(record.route)]);
        assert(self.route_updates@ =~= old(self).route_updates@.push(
            RouteUpdateSignal::Route(record.route),
        ));
        Ok(1)
    }

    /// Replaces a timeline whose revision is the expected one, and moves its revision on.
    pub fn compare_exchange_timeline(
        &mut self,
        timeline_key: &str,
        expected_revision: u64,
        record: &TimelineRecord,
    ) -> (result: Result<u64, TsoError>)
        requires
            old(self).valid(),
            old(self).revision_can_move_on(timeline_key@, expected_revision),
        ensures
            final(self).valid(),
            final(self).keeps_other_records(*old(self)),
            entries::exchanges(
                old(self).timelines(),
                timeline_key@,
                expected_revision,
                record@,
                record.schema_version == CURRENT_METADATA_SCHEMA_VERSION,
                types::unsupported_schema("timeline"@, record.schema_version),
                timeline_key@,
                final(self).timelines(),
                result,
            ),
            result is Err ==> *final(self) == *old(self),
            result is Ok ==> announces(
                old(self).route_updates@,
                Some(old(self).timelines()[timeline_key@].0.route),
                record.route,
                final(self).route_updates@,
            ),
            result is Ok ==> final(self).route_updates@ == if old(
                self,
            ).timelines()[timeline_key@].0.route == record.route@ {
                old(self).route_updates@
            } else {
                old(self).route_updates@.push(RouteUpdateSignal::Route(record.route))
            },
    {
        match record.validate_schema_version() {
            Ok(()) => {},
            Err(error) => {
                return Err(error);
            },
        }
        let stamped = record.stamped_for_persistence();
        let (current_record, current_revision) = match get_timelines(&self.records, timeline_key) {
            Some(entry) => entry,
            None => {
                return Err(timeline_not_found(timeline_key));
            },
        };
        if current_revision != expected_revision {
            return Err(TsoError::CasFailed);
        }
        let mut route_updates: Vec<TimelineRoute> = Vec::new();
        collect_timeline_route_update(Some(&current_record), &stamped, &mut route_updates);
        let timeline_key_changed = stamped.route.timeline_key != timeline_key.to_owned();
        let new_revision: u64 = current_revision + 1;
        insert_timelines(
            &mut self.records,
            timeline_key.to_owned(),
            (stamped.clone(), new_revision),
        );
        assert(self.timelines().dom() =~= old(self).timelines().dom());
        if timeline_key_changed {
            self.invalidate_sorted_timeline_keys();
        }
        self.publish_route_updates(&route_updates);
        assert(signals_of(route_updates@) =~= if current_record.route@ == record.route@ {
            Seq::empty()
        } else {
            seq![RouteUpdateSignal::Route(record.route)]
        });
        assert(self.route_updates@ =~= old(self).route_updates@ + signals_of(route_updates@));
        assert(self.route_updates@ =~= if current_record.route@ == record.route@ {
            old(self).route_updates@
        } else {
            old(self).route_updates@.push(RouteUpdateSignal::Route(record.route))
        });
        Ok(new_revision)
    }

    /// Replaces several timelines at once: all of them, or none when any operation is stopped.
    pub fn compare_exchange_timelines(&mut self, operations: &[TimelineBatchOp]) -> (result: Result<
        Vec<u64>,
        TsoError,
    >)
        requires
            old(self).valid(),
            forall|i: int|
                0 <= i < operations@.len() ==> old(self).revision_can_move_on(
                    (#[trigger] operations@[i]).timeline_key@,
                    operations@[i].previous_revision,
                ),
        ensures
            final(self).valid(),
            final(self).keeps_other_records(*old(self)),
            match batch_fault(old(self).timelines(), operations@, 0) {
                Some(fault) => {
                    &&& result matches Err(error) && fault.is_reported_by(error)
                    &&& *final(self) == *old(self)
                },
                None => {
                    &&& result matches Ok(revisions) && revisions@ == new_revisions(operations@)
                    &&& final(self).timelines() == after_operations(
                        old(self).timelines(),
                        operations@,
                        operations@.len() as int,
                    )
                    &&& final(self).route_updates@ == old(self).route_updates@ + signals_of(
                        updates_of_operations(
                            old(self).timelines(),
                            operations@,
                            operations@.len() as int,
                        ),
                    )
                },
            },
    {
        match self.check_operations(operations) {
            Ok(()) => {},
            Err(error) => {
                return Err(error);
            },
        }
        let ghost timelines = self.timelines();
        let mut revisions: Vec<u64> = Vec::new();
        let mut route_updates: Vec<TimelineRoute> = Vec::new();
        let mut timeline_key_changed = false;
        let mut i: usize = 0;
        while i < operations.len()
            invariant
                i <= operations@.len(),
                timelines == old(self).timelines(),
                self.sorted_timeline_keys == old(self).sorted_timeline_keys,
                self.route_updates == old(self).route_updates,
                self.keeps_other_records(*old(self)),
                forall|k: int|
                    0 <= k < operations@.len() ==> operation_passes(
                        timelines,
                        #[trigger] operations@[k],
                    ),
                forall|k: int| 0 <= k < operations@.len() ==> !#[trigger] named_before(
                    operations@,
                    k,
                ),
                forall|k: int|
                    0 <= k < operations@.len() ==> old(self).revision_can_move_on(
                        (#[trigger] operations@[k]).timeline_key@,
                        operations@[k].previous_revision,
                    ),
                revisions@ == new_revisions(operations@.take(i as int)),
                self.timelines() == after_operations(timelines, operations@, i as int),
                route_updates@ == updates_of_operations(timelines, operations@, i as int),
            decreases operations@.len() - i,
        {
            let operation = &operations[i];
            proof {
                lemma_later_keys_untouched(timelines, operations@, i as int, i as int);
                assert(operation_passes(timelines, operations@[i as int]));
                assert(!named_before(operations@, i as int));
            }
            if let Some((current_record, current_revision)) = get_timelines(
                &self.records,
                operation.timeline_key.as_str(),
            ) {
                collect_timeline_route_update(
                    Some(&current_record),
                    &operation.record,
                    &mut route_updates,
                );
                if operation.record.route.timeline_key != operation.timeline_key {
                    timeline_key_changed = true;
                }
                let new_revision: u64 = current_revision + 1;
                insert_timelines(
                    &mut self.records,
                    operation.timeline_key.clone(),
                    (operation.record.clone(), new_revision),
                );
                revisions.push(new_revision);
            }
            assert(new_revisions(operations@.take(i + 1)) =~= new_revisions(
                operations@.take(i as int),
            ).push((operations@[i as int].previous_revision + 1) as u64));
            i = i + 1;
        }
        assert(operations@.take(i as int) =~= operations@);
        proof {
            lemma_batch_keeps_keys(timelines, operations@, operations@.len() as int);
            lemma_no_fault(timelines, operations@, 0);
        }
        if timeline_key_changed {
            self.invalidate_sorted_timeline_keys();
        }
        self.publish_route_updates(&route_updates);
        Ok(revisions)
    }

    /// Checks every operation of a batch before any of them is applied.
    fn check_operations(&self, operations: &[TimelineBatchOp]) -> (result: Result<(), TsoError>)
        ensures
            match batch_fault(self.timelines(), operations@, 0) {
                Some(fault) => result matches Err(error) && fault.is_reported_by(error),
                None => {
                    &&& result is Ok
                    &&& forall|k: int|
                        0 <= k < operations@.len() ==> operation_passes(
                            self.timelines(),
                            #[trigger] operations@[k],
                        )
                    &&& forall|k: int|
                        0 <= k < operations@.len() ==> !#[trigger] named_before(operations@, k)
                },
            },
    {
        let mut seen = StringHashSet::new();
        let mut i: usize = 0;
        while i < operations.len()
            invariant
                i <= operations@.len(),
                forall|key: Seq<char>|
                    seen@.contains(key) <==> #[trigger] named_among(operations@, key, i as int),
                batch_fault(self.timelines(), operations@, 0) == batch_fault(
                    self.timelines(),
                    operations@,
                    i as int,
                ),
                forall|k: int|
                    0 <= k < i ==> operation_passes(self.timelines(), #[trigger] operations@[k]),
                forall|k: int| 0 <= k < i ==> !#[trigger] named_before(operations@, k),
            decreases operations@.len() - i,
        {
            let operation = &operations[i];
            assert(named_before(operations@, i as int) == named_among(
                operations@,
                operation.timeline_key@,
                i as int,
            ));
            match operation.record.validate_schema_version() {
                Ok(()) => {},
                Err(error) => {
                    return Err(error);
                },
            }
            let fresh = seen.insert(operation.timeline_key.clone());
            if !fresh {
                return Err(TsoError::CasFailed);
            }
            match get_timelines(&self.records, operation.timeline_key.as_str()) {
                None => {
                    return Err(timeline_not_found(operation.timeline_key.as_str()));
                },
                Some(entry) => {
                    if entry.1 != operation.previous_revision {
                        return Err(TsoError::CasFailed);
                    }
                },
            }
            assert forall|key: Seq<char>|
                seen@.contains(key) <==> #[trigger] named_among(operations@, key, i + 1) by {
                if named_among(operations@, key, i as int) {
                    let k = choose|k: int|
                        0 <= k < i && (#[trigger] operations@[k]).timeline_key@ == key;
                    assert(operations@[k].timeline_key@ == key);
                }
                if key == operation.timeline_key@ {
                    assert(operations@[i as int].timeline_key@ == key);
                }
            }
            i = i + 1;
        }
        Ok(())
    }
}

/// Copies texts one by one.
pub(crate) fn copy_texts(texts: &Vec<String>) -> (copy: Vec<String>)
    ensures
        copy@ == texts@,
{
    let mut copy: Vec<String> = Vec::new();
    let mut i: usize = 0;
    while i < texts.len()
        invariant
            i <= texts@.len(),
            copy@ == texts@.take(i as int),
        decreases texts@.len() - i,
    {
        copy.push(texts[i].clone());
        assert(copy@ =~= texts@.take(i + 1));
        i = i + 1;
    }
    assert(texts@.take(i as int) =~= texts@);
    copy
}

} // verus!
