//! What a store of timelines does on top of loading, listing and creating them.

use vstd::prelude::*;

use crate::error::TsoError;
use crate::metadata::etcd::listing;
use crate::metadata::etcd::listing::state_is_wanted;
use crate::metadata::pages;
use crate::metadata::pages::{cut_page, sort_by_key, Keyed};
use crate::metadata::types::{
    TimelineFilterRecord, TimelineFilterRecordListPage, TimelineRecord, TimelineRecordListPage,
    TimelineRouteRecord,
};
use crate::model::TimelineLifecycleState;
use crate::text;
use crate::text::{text_less, to_ascii_lower, trim};

verus! {

/// What remains of a loaded timeline when only its route is asked for.
pub fn route_of_timeline(
    loaded: Result<Option<(TimelineRecord, u64)>, TsoError>,
) -> (result: Result<Option<(TimelineRouteRecord, u64)>, TsoError>)
    ensures
        keeps_route(loaded, result),
        match loaded {
            Err(error) => result == Err::<Option<(TimelineRouteRecord, u64)>, TsoError>(error),
            Ok(None) => result matches Ok(None),
            Ok(Some((record, revision))) => result matches Ok(Some((route, kept))) && {
                &&& route.schema_version == record.schema_version
                &&& route.route == record.route
                &&& kept == revision
            },
        },
{
    match loaded {
        Err(error) => Err(error),
        Ok(None) => Ok(None),
        Ok(Some((record, revision))) => Ok(
            Some(
                (
                    TimelineRouteRecord {
                        schema_version: record.schema_version,
                        route: record.route,
                    },
                    revision,
                ),
            ),
        ),
    }
}

/// What remains of a loaded timeline.
pub open spec fn keeps_route(
    loaded: Result<Option<(TimelineRecord, u64)>, TsoError>,
    result: Result<Option<(TimelineRouteRecord, u64)>, TsoError>,
) -> bool {
    match loaded {
        Err(error) => result == Err::<Option<(TimelineRouteRecord, u64)>, TsoError>(error),
        Ok(None) => result matches Ok(None),
        Ok(Some((record, revision))) => result matches Ok(Some((route, kept))) && {
            &&& route.schema_version == record.schema_version
            &&& route.route == record.route
            &&& kept == revision
        },
    }
}

/// The route of a timeline is found exactly where the timeline is, at its revision, and is the one
/// that the timeline has.
pub proof fn routes_are_those_of_their_timelines(
    loaded: Result<Option<(TimelineRecord, u64)>, TsoError>,
    result: Result<Option<(TimelineRouteRecord, u64)>, TsoError>,
)
    requires
        keeps_route(loaded, result),
    ensures
        result is Ok <==> loaded is Ok,
        result is Err ==> result->Err_0 == loaded->Err_0,
        result matches Ok(Some(_)) <==> loaded matches Ok(Some(_)),
        result matches Ok(Some((route, revision))) ==> {
            &&& route.route@ == loaded->Ok_0->Some_0.0.route@
            &&& route.schema_version == loaded->Ok_0->Some_0.0.schema_version
            &&& revision == loaded->Ok_0->Some_0.1
        },
{
}

/// The key comes after the cursor; every key does where there is none.
pub open spec fn past(key: Seq<char>, cursor: Option<Seq<char>>) -> bool {
    cursor matches Some(text) ==> text::text_before(text, key)
}

/// The view of a cursor.
pub open spec fn cursor_view(cursor: Option<&str>) -> Option<Seq<char>> {
    match cursor {
        Some(text) => Some(text@),
        None => None,
    }
}

/// A page of records in order: those past the cursor, as many as it holds.
pub open spec fn pages_records(
    records: Seq<TimelineRecord>,
    cursor: Option<Seq<char>>,
    limit: nat,
    sorted: Seq<TimelineRecord>,
    start: int,
    page: TimelineRecordListPage,
) -> bool {
    &&& pages::in_key_order(sorted)
    &&& sorted.to_multiset() == records.to_multiset()
    &&& 0 <= start <= sorted.len()
    &&& forall|i: int|
        0 <= i < sorted.len() ==> (i >= start <==> past(#[trigger] sorted[i].key_text(), cursor))
    &&& pages::cuts(
        sorted.skip(start),
        limit,
        page.records@,
        page.next_start_after_timeline_key,
    )
}

/// The number of records that do not come after the cursor.
fn records_up_to(records: &Vec<TimelineRecord>, cursor: Option<&str>) -> (start: usize)
    requires
        pages::in_key_order(records@),
    ensures
        start <= records@.len(),
        forall|i: int|
            0 <= i < records@.len() ==> (i >= start <==> past(
                #[trigger] records@[i].key_text(),
                cursor_view(cursor),
            )),
{
    let cursor = match cursor {
        None => {
            return 0;
        },
        Some(text) => text,
    };
    let mut start: usize = 0;
    while start < records.len() && !text_less(cursor, records[start].key().as_str())
        invariant
            start <= records@.len(),
            forall|i: int|
                0 <= i < start ==> !text::text_before(cursor@, #[trigger] records@[i].key_text()),
        decreases records@.len() - start,
    {
        start = start + 1;
    }
    assert forall|i: int| start <= i < records@.len() implies text::text_before(
        cursor@,
        #[trigger] records@[i].key_text(),
    ) by {
        let first = records@[start as int].key_text();
        let here = records@[i].key_text();
        assert(text::text_before(cursor@, first));
        if i > start {
            assert(!text::text_before(here, first));
            text::text_order_is_total(cursor@, first, here);
            text::text_order_is_total(first, here, cursor@);
            text::text_order_is_total(here, cursor@, first);
        }
    }
    start
}

fn tail_of(records: Vec<TimelineRecord>, start: usize) -> (tail: Vec<TimelineRecord>)
    requires
        start <= records@.len(),
    ensures
        tail@ == records@.skip(start as int),
{
    let mut tail: Vec<TimelineRecord> = Vec::new();
    let mut i: usize = start;
    assert(records@.subrange(start as int, start as int) =~= Seq::<TimelineRecord>::empty());
    while i < records.len()
        invariant
            start <= i <= records@.len(),
            tail@ == records@.subrange(start as int, i as int),
        decreases records@.len() - i,
    {
        tail.push(records[i].clone());
        i = i + 1;
        assert(records@.subrange(start as int, i as int) =~= records@.subrange(
            start as int,
            i - 1,
        ).push(records@[i - 1]));
    }
    assert(records@.subrange(start as int, i as int) =~= records@.skip(start as int));
    tail
}

/// A page of all the timelines.
pub fn page_of_timelines(
    records: Vec<TimelineRecord>,
    start_after_timeline_key: Option<&str>,
    limit: usize,
) -> (page: TimelineRecordListPage)
    ensures
        if limit == 0 {
            page.records@.len() == 0 && page.next_start_after_timeline_key is None
        } else {
            exists|sorted: Seq<TimelineRecord>, start: int|
                #[trigger] pages_records(
                    records@,
                    cursor_view(start_after_timeline_key),
                    limit as nat,
                    sorted,
                    start,
                    page,
                )
        },
{
    if limit == 0 {
        return TimelineRecordListPage { records: Vec::new(), next_start_after_timeline_key: None };
    }
    let ghost all = records@;
    let sorted = sort_by_key(records);
    let ghost ordered = sorted@;
    let start = records_up_to(&sorted, start_after_timeline_key);
    let tail = tail_of(sorted, start);
    let (records, next) = cut_page(tail, limit);
    let page = TimelineRecordListPage { records, next_start_after_timeline_key: next };
    assert(pages_records(
        all,
        cursor_view(start_after_timeline_key),
        limit as nat,
        ordered,
        start as int,
        page,
    ));
    page
}

/// A page of routes and states is the page of timelines, seen through them.
pub open spec fn are_filters_of(
    filters: TimelineFilterRecordListPage,
    page: TimelineRecordListPage,
) -> bool {
    &&& filters.next_start_after_timeline_key == page.next_start_after_timeline_key
    &&& filters.records@.len() == page.records@.len()
    &&& forall|i: int|
        0 <= i < page.records@.len() ==> {
            let filter = #[trigger] filters.records@[i];
            let record = page.records@[i];
            filter.schema_version == record.schema_version && filter.route == record.route
                && filter.state == record.state
        }
}

/// A page of routes and states tells of every timeline of the page, in its place, the route and the
/// state that it has, and goes on where the page does.
pub proof fn filter_pages_tell_routes_and_states(
    filters: TimelineFilterRecordListPage,
    page: TimelineRecordListPage,
    i: int,
)
    requires
        are_filters_of(filters, page),
        0 <= i < page.records@.len(),
    ensures
        filters.records@.len() == page.records@.len(),
        filters.records@[i].route@ == page.records@[i].route@,
        filters.records@[i].state == page.records@[i].state,
        filters.records@[i].schema_version == page.records@[i].schema_version,
        filters.next_start_after_timeline_key is Some
            <==> page.next_start_after_timeline_key is Some,
        filters.next_start_after_timeline_key matches Some(key) ==> key@
            == page.next_start_after_timeline_key->0@,
{
}

/// The routes and states of a page of timelines.
pub fn filters_of_page(page: TimelineRecordListPage) -> (filters: TimelineFilterRecordListPage)
    ensures
        are_filters_of(filters, page),
        filters.next_start_after_timeline_key == page.next_start_after_timeline_key,
        filters.records@.len() == page.records@.len(),
        forall|i: int|
            0 <= i < page.records@.len() ==> {
                let filter = #[trigger] filters.records@[i];
                let record = page.records@[i];
                filter.schema_version == record.schema_version && filter.route == record.route
                    && filter.state == record.state
            },
{
    let mut records: Vec<TimelineFilterRecord> = Vec::new();
    let mut i: usize = 0;
    while i < page.records.len()
        invariant
            i <= page.records@.len(),
            records@.len() == i,
            forall|k: int|
                0 <= k < i ==> {
                    let filter = #[trigger] records@[k];
                    let record = page.records@[k];
                    filter.schema_version == record.schema_version && filter.route == record.route
                        && filter.state == record.state
                },
        decreases page.records@.len() - i,
    {
        let record = &page.records[i];
        records.push(
            TimelineFilterRecord {
                schema_version: record.schema_version,
                route: record.route.clone(),
                state: record.state,
            },
        );
        i = i + 1;
    }
    TimelineFilterRecordListPage {
        records,
        next_start_after_timeline_key: page.next_start_after_timeline_key,
    }
}

/// What the limit on timelines says.
pub open spec fn limits(
    page: TimelineRecordListPage,
    max_timelines: usize,
    result: Result<(), TsoError>,
) -> bool {
    result == if page.records@.len() >= max_timelines {
        Err::<(), TsoError>(TsoError::TimelineLimitReached { max: max_timelines })
    } else {
        Ok::<(), TsoError>(())
    }
}

/// One more timeline may be created exactly where there are then no more than the limit allows.
pub proof fn timelines_stay_within_their_limit(
    page: TimelineRecordListPage,
    max_timelines: usize,
    result: Result<(), TsoError>,
)
    requires
        limits(page, max_timelines, result),
    ensures
        result is Ok <==> page.records@.len() + 1 <= max_timelines,
        result matches Err(error) ==> error == (TsoError::TimelineLimitReached {
            max: max_timelines,
        }),
{
}

/// A page holds timelines that come after the cursor, in the order of their keys, and leaves one of
/// those out only where it is full; it then says where to go on.
pub proof fn pages_hold_what_comes_after_the_cursor(
    records: Seq<TimelineRecord>,
    cursor: Option<Seq<char>>,
    limit: nat,
    sorted: Seq<TimelineRecord>,
    start: int,
    page: TimelineRecordListPage,
    k: int,
)
    requires
        limit > 0,
        pages_records(records, cursor, limit, sorted, start, page),
        0 <= k < records.len(),
    ensures
        page.records@.len() <= limit,
        forall|i: int|
            0 <= i < page.records@.len() ==> records.contains(#[trigger] page.records@[i]) && (
            cursor matches Some(key) ==> text::text_before(key, page.records@[i].key_text())),
        forall|i: int, j: int|
            0 <= i < j < page.records@.len() ==> !text::text_before(
                #[trigger] page.records@[j].key_text(),
                #[trigger] page.records@[i].key_text(),
            ),
        (cursor matches Some(key) ==> text::text_before(key, records[k].key_text()))
            && !page.records@.contains(records[k]) ==> page.records@.len() == limit
            && page.next_start_after_timeline_key is Some,
        page.next_start_after_timeline_key matches Some(key) ==> page.records@.len() == limit
            && key@ == page.records@.last().key_text(),
{
    broadcast use vstd::seq_lib::group_to_multiset_ensures;

    let tail = sorted.skip(start);
    assert forall|i: int| 0 <= i < page.records@.len() implies records.contains(
        #[trigger] page.records@[i],
    ) && (cursor matches Some(key) ==> text::text_before(key, page.records@[i].key_text())) by {
        assert(page.records@[i] == sorted[start + i]);
        assert(sorted.contains(sorted[start + i]));
        assert(records.to_multiset().count(sorted[start + i]) > 0);
        assert(past(sorted[start + i].key_text(), cursor));
    }
    assert forall|i: int, j: int| 0 <= i < j < page.records@.len() implies !text::text_before(
        #[trigger] page.records@[j].key_text(),
        #[trigger] page.records@[i].key_text(),
    ) by {
        assert(page.records@[i] == sorted[start + i] && page.records@[j] == sorted[start + j]);
        assert(!text::text_before(sorted[start + j].key_text(), sorted[start + i].key_text()));
    }
    assert(records.contains(records[k]));
    assert(sorted.to_multiset().count(records[k]) > 0);
    let at = choose|at: int| 0 <= at < sorted.len() && sorted[at] == records[k];
    assert(at >= start <==> past(sorted[at].key_text(), cursor));
    if at >= start && page.next_start_after_timeline_key is None {
        assert(page.records@[at - start] == records[k]);
    }
}

/// Whether one more timeline may be created, given a page of the limit's size.
pub fn timeline_limit_check(page: &TimelineRecordListPage, max_timelines: usize) -> (result: Result<
    (),
    TsoError,
>)
    ensures
        limits(*page, max_timelines, result),
        result == if page.records@.len() >= max_timelines {
            Err::<(), TsoError>(TsoError::TimelineLimitReached { max: max_timelines })
        } else {
            Ok::<(), TsoError>(())
        },
{
    if page.records.len() >= max_timelines {
        Err(TsoError::TimelineLimitReached { max: max_timelines })
    } else {
        Ok(())
    }
}

// ---- filtering by state and owner ----

/// An address of the internet, as an endpoint may name it.
#[derive(Debug, Clone, Copy, PartialEq, Eq, Structural)]
pub enum SocketAddress {
    V4 { ip: u32, port: u16 },
    V6 { ip: u128, port: u16, flow_info: u32, scope_id: u32 },
}

/// An endpoint, and the address that it names where it names one.
#[derive(Debug)]
pub struct OwnerEndpoint {
    pub text: String,
    pub address: Option<SocketAddress>,
}

/// Two endpoints are the same: as texts, but for case and the blanks around them, or as addresses.
pub open spec fn same_endpoint(
    left: Seq<char>,
    left_address: Option<SocketAddress>,
    right: Seq<char>,
    right_address: Option<SocketAddress>,
) -> bool {
    ||| text::ascii_lower(text::trimmed(left)) == text::ascii_lower(text::trimmed(right))
    ||| (left_address is Some && left_address == right_address)
}

/// Whether two endpoints are the same.
pub fn owner_endpoint_matches(
    left: &str,
    left_address: Option<SocketAddress>,
    right: &str,
    right_address: Option<SocketAddress>,
) -> (answer: bool)
    ensures
        answer == same_endpoint(left@, left_address, right@, right_address),
{
    if to_ascii_lower(trim(left)) == to_ascii_lower(trim(right)) {
        return true;
    }
    match (left_address, right_address) {
        (Some(left), Some(right)) => left == right,
        _ => false,
    }
}

/// A timeline, and the address that its owner's endpoint names where it names one.
#[derive(Debug)]
pub struct OwnedTimeline {
    pub record: TimelineRecord,
    pub owner_address: Option<SocketAddress>,
}

/// The timeline is asked for.
pub open spec fn passes(
    timeline: OwnedTimeline,
    states: Seq<TimelineLifecycleState>,
    owner: Option<OwnerEndpoint>,
) -> bool {
    &&& listing::wants_state(states, timeline.record.state)
    &&& owner matches Some(endpoint) ==> same_endpoint(
        timeline.record.route.owner_worker_endpoint@,
        timeline.owner_address,
        endpoint.text@,
        endpoint.address,
    )
}

/// Whether a timeline is asked for.
pub fn timeline_matches_status_filter(
    timeline: &OwnedTimeline,
    states: &Vec<TimelineLifecycleState>,
    owner: &Option<OwnerEndpoint>,
) -> (answer: bool)
    ensures
        answer == passes(*timeline, states@, *owner),
        answer <==> (states@.len() == 0 || states@.contains(timeline.record.state)) && (
        *owner matches Some(wanted) ==> (text::ascii_lower(
            text::trimmed(timeline.record.route.owner_worker_endpoint@),
        ) == text::ascii_lower(text::trimmed(wanted.text@)) || (timeline.owner_address is Some
            && timeline.owner_address == wanted.address))),
{
    if !state_is_wanted(states, timeline.record.state) {
        return false;
    }
    match owner {
        None => true,
        Some(endpoint) => owner_endpoint_matches(
            timeline.record.route.owner_worker_endpoint.as_str(),
            timeline.owner_address,
            endpoint.text.as_str(),
            endpoint.address,
        ),
    }
}

/// The timelines that are asked for.
pub open spec fn passing(
    timelines: Seq<OwnedTimeline>,
    states: Seq<TimelineLifecycleState>,
    owner: Option<OwnerEndpoint>,
) -> Seq<TimelineRecord>
    decreases timelines.len(),
{
    if timelines.len() == 0 {
        Seq::empty()
    } else {
        let before = passing(timelines.drop_last(), states, owner);
        if passes(timelines.last(), states, owner) {
            before.push(timelines.last().record)
        } else {
            before
        }
    }
}

/// The first records, as many as are looked for.
pub open spec fn first_of(records: Seq<TimelineRecord>, count: int) -> Seq<TimelineRecord> {
    if records.len() <= count {
        records
    } else {
        records.take(count)
    }
}

/// What a filtered listing asks for.
pub enum FilterScanStep {
    /// A page of all timelines past the cursor, as long as the listing's own page.
    Page { cursor: Option<String> },
    Done { page: TimelineRecordListPage },
}

/// A listing by state and owner that is under way.
pub struct StatusFilterScan {
    pub states: Vec<TimelineLifecycleState>,
    pub owner: Option<OwnerEndpoint>,
    pub limit: usize,
    pub matched: Vec<TimelineRecord>,
}

impl StatusFilterScan {
    pub open spec fn valid(self) -> bool {
        self.limit > 0 && self.matched@.len() <= self.limit
    }

    /// Nothing is filtered out: the listing is a plain page.
    pub open spec fn is_plain(
        states: Seq<TimelineLifecycleState>,
        owner: Option<OwnerEndpoint>,
    ) -> bool {
        states.len() == 0 && owner is None
    }

    /// What a listing begins with.
    pub open spec fn begins(
        states: Vec<TimelineLifecycleState>,
        owner: Option<OwnerEndpoint>,
        start_after_timeline_key: Option<String>,
        limit: usize,
        begun: Option<(Self, FilterScanStep)>,
    ) -> bool {
        &&& begun is None <==> Self::is_plain(states@, owner)
        &&& begun matches Some((scan, step)) ==> {
            &&& scan.states == states && scan.owner == owner && scan.limit == limit
            &&& scan.matched@ == Seq::<TimelineRecord>::empty()
            &&& if limit == 0 {
                step matches FilterScanStep::Done { page } && page.records@.len() == 0
                    && page.next_start_after_timeline_key is None
            } else {
                &&& scan.valid()
                &&& step == (FilterScanStep::Page { cursor: start_after_timeline_key })
            }
        }
    }

    /// Begins a listing. No scan is made where nothing is filtered out.
    pub fn start(
        states: Vec<TimelineLifecycleState>,
        owner: Option<OwnerEndpoint>,
        start_after_timeline_key: Option<String>,
        limit: usize,
    ) -> (begun: Option<(Self, FilterScanStep)>)
        ensures
            Self::begins(states, owner, start_after_timeline_key, limit, begun),
            begun is None <==> Self::is_plain(states@, owner),
            begun matches Some((scan, step)) ==> {
                &&& scan.states == states && scan.owner == owner && scan.limit == limit
                &&& scan.matched@ == Seq::<TimelineRecord>::empty()
                &&& if limit == 0 {
                    step matches FilterScanStep::Done { page } && page.records@.len() == 0
                        && page.next_start_after_timeline_key is None
                } else {
                    &&& scan.valid()
                    &&& step == (FilterScanStep::Page { cursor: start_after_timeline_key })
                }
            },
    {
        if states.len() == 0 && owner.is_none() {
            return None;
        }
        let scan = StatusFilterScan { states, owner, limit, matched: Vec::new() };
        if limit == 0 {
            let page = TimelineRecordListPage {
                records: Vec::new(),
                next_start_after_timeline_key: None,
            };
            return Some((scan, FilterScanStep::Done { page }));
        }
        Some((scan, FilterScanStep::Page { cursor: start_after_timeline_key }))
    }

    /// What has matched once a page is taken: no more than one record more than the page holds.
    pub open spec fn matched_with(self, timelines: Seq<OwnedTimeline>) -> Seq<TimelineRecord> {
        first_of(
            self.matched@ + passing(timelines, self.states@, self.owner),
            self.limit + 1,
        )
    }

    /// The listing ends with a page, is full or has no more to read; else it reads on.
    pub open spec fn advances(
        self,
        before: StatusFilterScan,
        timelines: Seq<OwnedTimeline>,
        next: Option<String>,
        step: FilterScanStep,
    ) -> bool {
        let matched = before.matched_with(timelines);
        if timelines.len() == 0 || next is None || matched.len() > before.limit {
            step matches FilterScanStep::Done { page } && pages::cuts(
                matched,
                before.limit as nat,
                page.records@,
                page.next_start_after_timeline_key,
            )
        } else {
            &&& self.valid()
            &&& self.states == before.states && self.owner == before.owner
            &&& self.limit == before.limit
            &&& self.matched@ == matched
            &&& step == (FilterScanStep::Page { cursor: next })
        }
    }

    /// Takes a page of all timelines and says what to do next.
    pub fn on_page(&mut self, timelines: Vec<OwnedTimeline>, next: Option<String>) -> (step:
        FilterScanStep)
        requires
            old(self).valid(),
        ensures
            final(self).advances(*old(self), timelines@, next, step),
    {
        let mut i: usize = 0;
        proof {
            assert(timelines@.take(0) =~= Seq::<OwnedTimeline>::empty());
            assert(old(self).matched@ + Seq::<TimelineRecord>::empty() =~= old(self).matched@);
        }
        while i < timelines.len() && self.matched.len() <= self.limit
            invariant
                i <= timelines@.len(),
                old(self).valid(),
                self.states == old(self).states,
                self.owner == old(self).owner,
                self.limit == old(self).limit,
                self.matched@.len() <= self.limit + 1,
                self.matched@ == old(self).matched@ + passing(
                    timelines@.take(i as int),
                    self.states@,
                    self.owner,
                ),
            decreases timelines@.len() - i,
        {
            let timeline = &timelines[i];
            let ghost before = passing(timelines@.take(i as int), self.states@, self.owner);
            proof {
                assert(timelines@.take(i + 1).drop_last() =~= timelines@.take(i as int));
                assert(timelines@.take(i + 1).last() == timelines@[i as int]);
            }
            if timeline_matches_status_filter(timeline, &self.states, &self.owner) {
                self.matched.push(timeline.record.clone());
                assert((old(self).matched@ + before).push(timeline.record) =~= old(self).matched@
                    + before.push(timeline.record));
            }
            i = i + 1;
        }
        proof {
            let all = passing(timelines@, self.states@, self.owner);
            let seen = passing(timelines@.take(i as int), self.states@, self.owner);
            lemma_passing_grows(timelines@, i as int, self.states@, self.owner);
            if i == timelines@.len() {
                assert(timelines@.take(i as int) =~= timelines@);
            }
            assert((old(self).matched@ + all).take(self.matched@.len() as int) =~= self.matched@) by {
                assert(all.take(seen.len() as int) == seen);
                assert forall|k: int| 0 <= k < seen.len() implies all[k] == seen[k] by {
                    assert(all.take(seen.len() as int)[k] == seen[k]);
                }
            }
            assert(self.matched@ =~= old(self).matched_with(timelines@));
        }
        if timelines.len() == 0 || next.is_none() || self.matched.len() > self.limit {
            let mut matched: Vec<TimelineRecord> = Vec::new();
            std::mem::swap(&mut matched, &mut self.matched);
            let (records, next) = cut_page(matched, self.limit);
            return FilterScanStep::Done {
                page: TimelineRecordListPage { records, next_start_after_timeline_key: next },
            };
        }
        FilterScanStep::Page { cursor: next }
    }
}

/// What passes among the first timelines comes first among what passes.
proof fn lemma_passing_grows(
    timelines: Seq<OwnedTimeline>,
    count: int,
    states: Seq<TimelineLifecycleState>,
    owner: Option<OwnerEndpoint>,
)
    requires
        0 <= count <= timelines.len(),
    ensures
        passing(timelines.take(count), states, owner).len() <= passing(
            timelines,
            states,
            owner,
        ).len(),
        passing(timelines, states, owner).take(
            passing(timelines.take(count), states, owner).len() as int,
        ) == passing(timelines.take(count), states, owner),
    decreases timelines.len(),
{
    let part = passing(timelines.take(count), states, owner);
    if count == timelines.len() {
        assert(timelines.take(count) =~= timelines);
        assert(part.take(part.len() as int) =~= part);
    } else {
        lemma_passing_grows(timelines.drop_last(), count, states, owner);
        assert(timelines.drop_last().take(count) =~= timelines.take(count));
        let before = passing(timelines.drop_last(), states, owner);
        assert(passing(timelines, states, owner).take(part.len() as int) =~= before.take(
            part.len() as int,
        ));
    }
}

proof fn lemma_passing_splits(
    a: Seq<OwnedTimeline>,
    b: Seq<OwnedTimeline>,
    states: Seq<TimelineLifecycleState>,
    owner: Option<OwnerEndpoint>,
)
    ensures
        passing(a + b, states, owner) == passing(a, states, owner) + passing(b, states, owner),
    decreases b.len(),
{
    if b.len() == 0 {
        assert(a + b =~= a);
        assert(passing(a, states, owner) + passing(b, states, owner) =~= passing(
            a,
            states,
            owner,
        ));
    } else {
        lemma_passing_splits(a, b.drop_last(), states, owner);
        assert((a + b).drop_last() =~= a + b.drop_last());
        assert((a + b).last() == b.last());
        assert(passing(a + b, states, owner) =~= passing(a, states, owner) + passing(
            b,
            states,
            owner,
        ));
    }
}

/// The timelines of pages that were read one after the other.
pub open spec fn joined(read: Seq<Seq<OwnedTimeline>>) -> Seq<OwnedTimeline>
    decreases read.len(),
{
    if read.len() == 0 {
        Seq::empty()
    } else {
        joined(read.drop_last()) + read.last()
    }
}

/// The scan went from one state to the next with every page, up to and with the last one.
pub open spec fn scanned(
    scans: Seq<StatusFilterScan>,
    read: Seq<Seq<OwnedTimeline>>,
    nexts: Seq<Option<String>>,
    steps: Seq<FilterScanStep>,
) -> bool {
    &&& scans.len() == read.len() + 1
    &&& nexts.len() == read.len()
    &&& steps.len() == read.len()
    &&& scans[0].valid() && scans[0].matched@ == Seq::<TimelineRecord>::empty()
    &&& forall|i: int|
        0 <= i < read.len() ==> (#[trigger] scans[i + 1]).advances(
            scans[i],
            read[i],
            nexts[i],
            steps[i],
        )
    &&& forall|i: int| 0 <= i < read.len() - 1 ==> #[trigger] steps[i] is Page
}

proof fn lemma_scanned(
    scans: Seq<StatusFilterScan>,
    read: Seq<Seq<OwnedTimeline>>,
    nexts: Seq<Option<String>>,
    steps: Seq<FilterScanStep>,
    i: int,
)
    requires
        scanned(scans, read, nexts, steps),
        0 <= i < read.len(),
    ensures
        scans[i].states == scans[0].states,
        scans[i].owner == scans[0].owner,
        scans[i].limit == scans[0].limit,
        scans[i].valid(),
        scans[i].matched@ == passing(joined(read.take(i)), scans[0].states@, scans[0].owner),
    decreases i,
{
    if i == 0 {
        assert(read.take(0) =~= Seq::<Seq<OwnedTimeline>>::empty());
    } else {
        lemma_scanned(scans, read, nexts, steps, i - 1);
        assert(scans[(i - 1) + 1].advances(scans[i - 1], read[i - 1], nexts[i - 1], steps[i - 1]));
        assert(steps[i - 1] is Page);
        assert(read.take(i).drop_last() =~= read.take(i - 1));
        lemma_passing_splits(
            joined(read.take(i - 1)),
            read[i - 1],
            scans[0].states@,
            scans[0].owner,
        );
    }
}

/// A listing by state and owner ends with the first of the timelines that are asked for among all
/// the timelines that it read, as many as a page holds. It says where to go on exactly when one
/// more of them was read.
pub proof fn filtered_listings_keep_the_first_matches(
    scans: Seq<StatusFilterScan>,
    read: Seq<Seq<OwnedTimeline>>,
    nexts: Seq<Option<String>>,
    steps: Seq<FilterScanStep>,
)
    requires
        read.len() > 0,
        scanned(scans, read, nexts, steps),
        steps.last() is Done,
    ensures
        steps.last() matches FilterScanStep::Done { page } && {
            let all = passing(joined(read), scans[0].states@, scans[0].owner);
            &&& page.records@ == first_of(all, scans[0].limit as int)
            &&& page.next_start_after_timeline_key is Some <==> all.len() > scans[0].limit
            &&& page.next_start_after_timeline_key matches Some(key) ==> key@
                == page.records@.last().key_text()
        },
{
    let last = read.len() - 1;
    lemma_scanned(scans, read, nexts, steps, last);
    assert(scans[last + 1].advances(scans[last], read[last], nexts[last], steps[last]));
    assert(read.drop_last() =~= read.take(last));
    lemma_passing_splits(
        joined(read.take(last)),
        read[last],
        scans[0].states@,
        scans[0].owner,
    );
    let all = passing(joined(read), scans[0].states@, scans[0].owner);
    let limit = scans[0].limit as int;
    assert(scans[last].matched_with(read[last]) == first_of(all, limit + 1));
    assert(first_of(first_of(all, limit + 1), limit) =~= first_of(all, limit));
    match steps.last() {
        FilterScanStep::Done { page } => {
            assert(page.records@ =~= first_of(all, limit));
        },
        _ => {},
    }
}

proof fn lemma_passing_is_a_selection(
    timelines: Seq<OwnedTimeline>,
    states: Seq<TimelineLifecycleState>,
    owner: Option<OwnerEndpoint>,
)
    ensures
        passing(timelines, states, owner) == timelines.filter(
            |timeline: OwnedTimeline|
                (states.len() == 0 || states.contains(timeline.record.state)) && (
                owner matches Some(wanted) ==> (text::ascii_lower(
                    text::trimmed(timeline.record.route.owner_worker_endpoint@),
                ) == text::ascii_lower(text::trimmed(wanted.text@)) || (
                timeline.owner_address is Some && timeline.owner_address == wanted.address))),
        ).map_values(|timeline: OwnedTimeline| timeline.record),
    decreases timelines.len(),
{
    reveal(Seq::filter);
    let asked = |timeline: OwnedTimeline|
        (states.len() == 0 || states.contains(timeline.record.state)) && (owner matches Some(
            wanted,
        ) ==> (text::ascii_lower(
            text::trimmed(timeline.record.route.owner_worker_endpoint@),
        ) == text::ascii_lower(text::trimmed(wanted.text@)) || (timeline.owner_address is Some
            && timeline.owner_address == wanted.address)));
    let record = |timeline: OwnedTimeline| timeline.record;
    if timelines.len() == 0 {
        assert(passing(timelines, states, owner) =~= timelines.filter(asked).map_values(record));
    } else {
        let less = timelines.drop_last();
        lemma_passing_is_a_selection(less, states, owner);
        assert(passing(timelines, states, owner) =~= timelines.filter(asked).map_values(record));
    }
}

/// A page of a listing by state and owner holds timelines that were read, in the order in which
/// they were read, and just those whose state is among the requested ones, where any is named, and
/// whose owner is the requested one, where one is named: the same text but for case and surrounding
/// blanks, or the same address. Where more of them were read than the page holds, it holds the
/// first of them.
pub proof fn filtered_pages_hold_what_was_asked_for(
    scans: Seq<StatusFilterScan>,
    read: Seq<Seq<OwnedTimeline>>,
    nexts: Seq<Option<String>>,
    steps: Seq<FilterScanStep>,
)
    requires
        read.len() > 0,
        scanned(scans, read, nexts, steps),
        steps.last() is Done,
    ensures
        ({
            let states = scans[0].states@;
            let owner = scans[0].owner;
            let asked = joined(read).filter(
                |timeline: OwnedTimeline|
                    (states.len() == 0 || states.contains(timeline.record.state)) && (
                    owner matches Some(wanted) ==> (text::ascii_lower(
                        text::trimmed(timeline.record.route.owner_worker_endpoint@),
                    ) == text::ascii_lower(text::trimmed(wanted.text@)) || (
                    timeline.owner_address is Some && timeline.owner_address == wanted.address))),
            );
            &&& steps.last() matches FilterScanStep::Done { page }
            &&& page.records@.len() == if asked.len() < scans[0].limit {
                asked.len()
            } else {
                scans[0].limit as nat
            }
            &&& forall|i: int|
                0 <= i < page.records@.len() ==> #[trigger] page.records@[i] == asked[i].record
            &&& page.next_start_after_timeline_key is Some <==> asked.len() > scans[0].limit
        }),
{
    filtered_listings_keep_the_first_matches(scans, read, nexts, steps);
    lemma_passing_is_a_selection(joined(read), scans[0].states@, scans[0].owner);
}

/// The same in single timelines: every record of the page was read and is asked for, and a timeline
/// that was read and is asked for is in the page unless the page is full.
pub proof fn filtered_pages_leave_nothing_out(
    scans: Seq<StatusFilterScan>,
    read: Seq<Seq<OwnedTimeline>>,
    nexts: Seq<Option<String>>,
    steps: Seq<FilterScanStep>,
    j: int,
)
    requires
        read.len() > 0,
        scanned(scans, read, nexts, steps),
        steps.last() is Done,
        0 <= j < joined(read).len(),
        scans[0].states@.len() == 0 || scans[0].states@.contains(joined(read)[j].record.state),
        scans[0].owner matches Some(wanted) ==> (text::ascii_lower(
            text::trimmed(joined(read)[j].record.route.owner_worker_endpoint@),
        ) == text::ascii_lower(text::trimmed(wanted.text@)) || (joined(read)[j].owner_address
            is Some && joined(read)[j].owner_address == wanted.address)),
    ensures
        steps.last() matches FilterScanStep::Done { page } && (page.records@.contains(
            joined(read)[j].record,
        ) || page.records@.len() == scans[0].limit),
{
    let states = scans[0].states@;
    let owner = scans[0].owner;
    let all = joined(read);
    let wanted = |timeline: OwnedTimeline|
        (states.len() == 0 || states.contains(timeline.record.state)) && (owner matches Some(
            wanted,
        ) ==> (text::ascii_lower(
            text::trimmed(timeline.record.route.owner_worker_endpoint@),
        ) == text::ascii_lower(text::trimmed(wanted.text@)) || (timeline.owner_address is Some
            && timeline.owner_address == wanted.address)));
    filtered_pages_hold_what_was_asked_for(scans, read, nexts, steps);
    let asked = all.filter(wanted);
    assert(wanted(all[j]));
    all.lemma_filter_contains(wanted, j);
    assert(asked.contains(all[j]));
    let k = choose|k: int| 0 <= k < asked.len() && asked[k] == all[j];
    match steps.last() {
        FilterScanStep::Done { page } => {
            if k < page.records@.len() {
                assert(page.records@[k] == all[j].record);
            }
        },
        _ => {},
    }
}

/// A scan is made exactly where a state or an owner is named. It begins with nothing found, right
/// after the given key, and keeps to what was asked for; a page that may hold nothing is empty at
/// once.
pub proof fn scans_begin_where_something_is_filtered_out(
    states: Vec<TimelineLifecycleState>,
    owner: Option<OwnerEndpoint>,
    start_after_timeline_key: Option<String>,
    limit: usize,
    begun: Option<(StatusFilterScan, FilterScanStep)>,
)
    requires
        StatusFilterScan::begins(states, owner, start_after_timeline_key, limit, begun),
    ensures
        begun is Some <==> states@.len() > 0 || owner is Some,
        begun matches Some((scan, step)) ==> {
            &&& scan.matched@.len() == 0
            &&& scan.states@ == states@
            &&& scan.owner == owner
            &&& scan.limit == limit
            &&& step is Done <==> limit == 0
            &&& step matches FilterScanStep::Page { cursor } ==> cursor == start_after_timeline_key
            &&& step matches FilterScanStep::Done { page } ==> page.records@.len() == 0
        },
{
}

/// The states and the owner of a filter hold together: a timeline is asked for where both alone ask
/// for it, so that neither switches the other off. A filter that names nothing asks for everything,
/// and one more state never leaves a timeline out that was asked for by its state.
pub proof fn filters_hold_together(
    timeline: OwnedTimeline,
    states: Seq<TimelineLifecycleState>,
    owner: Option<OwnerEndpoint>,
    more: TimelineLifecycleState,
)
    ensures
        passes(timeline, states, owner) <==> passes(timeline, states, None) && passes(
            timeline,
            seq![],
            owner,
        ),
        passes(timeline, seq![], None),
        passes(timeline, states, None) <==> states.len() == 0 || states.contains(
            timeline.record.state,
        ),
        (owner matches Some(wanted) && text::ascii_lower(
            text::trimmed(timeline.record.route.owner_worker_endpoint@),
        ) != text::ascii_lower(text::trimmed(wanted.text@)) && (timeline.owner_address is None
            || timeline.owner_address != wanted.address)) ==> !passes(timeline, states, owner),
        states.len() > 0 && passes(timeline, states, owner) ==> passes(
            timeline,
            states.push(more),
            owner,
        ),
{
    let state = timeline.record.state;
    if states.contains(state) {
        let i = choose|i: int| 0 <= i < states.len() && states[i] == state;
        assert(states.push(more)[i] == state);
    }
}

} // verus!
