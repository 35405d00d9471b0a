//! Which routes a watch still owes its client.

use vstd::hash_map::StringHashMap;
use vstd::hash_set::StringHashSet;
use vstd::prelude::*;

use crate::error::TsoError;
use crate::metadata::windows;
use crate::model::TimelineRoute;
use crate::rpc::proto::{Status, WatchTimelineRoutesRequest};
use crate::rpc::public_mapping;
use crate::rpc::public_mapping::map_tso_error;
use crate::status::TimelineStatusListPage;

verus! {

/// How many statuses a page of a snapshot of everything holds at most.
pub const WATCH_ALL_SNAPSHOT_PAGE_SIZE: usize = 1_000;

/// Which timelines a watch is about.
pub enum WatchRouteScope {
    All,
    Filtered { keys: Vec<String>, index: StringHashSet },
}

impl WatchRouteScope {
    /// The listed keys are distinct, there is one at least, and the index holds just them.
    pub open spec fn valid(self) -> bool {
        match self {
            WatchRouteScope::All => true,
            WatchRouteScope::Filtered { keys, index } => {
                &&& keys@.len() > 0
                &&& windows::texts_of(keys@).no_duplicates()
                &&& index@ == windows::texts_of(keys@).to_set()
            },
        }
    }

    /// The watch is about this timeline.
    pub open spec fn covers(self, timeline_key: Seq<char>) -> bool {
        match self {
            WatchRouteScope::All => true,
            WatchRouteScope::Filtered { index, .. } => index@.contains(timeline_key),
        }
    }

    /// The timelines that are listed, or all where none is.
    pub fn from_timeline_keys(timeline_keys: Vec<String>) -> (scope: Self)
        ensures
            scope.valid(),
            scope is All <==> timeline_keys@.len() == 0,
            forall|key: Seq<char>| #[trigger]
                scope.covers(key) <==> timeline_keys@.len() == 0 || windows::texts_of(
                    timeline_keys@,
                ).contains(key),
    {
        if timeline_keys.len() == 0 {
            return WatchRouteScope::All;
        }
        let mut keys: Vec<String> = Vec::new();
        let mut index = StringHashSet::new();
        let mut i: usize = 0;
        let ghost requested = windows::texts_of(timeline_keys@);
        assert(windows::texts_of(keys@).to_set() =~= index@);
        while i < timeline_keys.len()
            invariant
                i <= timeline_keys@.len(),
                requested == windows::texts_of(timeline_keys@),
                i > 0 ==> keys@.len() > 0,
                windows::texts_of(keys@).no_duplicates(),
                index@ == windows::texts_of(keys@).to_set(),
                forall|key: Seq<char>| #[trigger]
                    index@.contains(key) <==> requested.take(i as int).contains(key),
            decreases timeline_keys@.len() - i,
        {
            let key = timeline_keys[i].clone();
            let ghost before = windows::texts_of(keys@);
            let ghost held = index@;
            let ghost seen = requested.take(i as int);
            let ghost next = requested.take(i + 1);
            assert(next =~= seen.push(key@));
            if !index.contains(key.as_str()) {
                keys.push(key.clone());
                index.insert(key);
                assert(windows::texts_of(keys@) =~= before.push(key@));
                assert(!before.contains(key@));
            } else {
                assert(before.contains(key@));
            }
            assert forall|other: Seq<char>| #[trigger] index@.contains(other) <==> next.contains(
                other,
            ) by {
                if next.contains(other) {
                    let k = choose|k: int| 0 <= k < next.len() && next[k] == other;
                    if k < i {
                        assert(seen[k] == other);
                        assert(held.contains(other));
                    }
                }
                if index@.contains(other) {
                    if held.contains(other) {
                        assert(seen.contains(other));
                        let k = choose|k: int| 0 <= k < seen.len() && seen[k] == other;
                        assert(next[k] == other);
                    } else {
                        assert(next[i as int] == other);
                    }
                }
            }
            assert(index@ =~= windows::texts_of(keys@).to_set()) by {
                let now = windows::texts_of(keys@);
                assert forall|other: Seq<char>| index@.contains(other) <==> now.contains(
                    other,
                ) by {
                    if held.contains(other) {
                        assert(before.contains(other));
                        let k = choose|k: int| 0 <= k < before.len() && before[k] == other;
                        assert(now[k] == other);
                    }
                    if index@.contains(other) && !held.contains(other) {
                        assert(now[before.len() as int] == other);
                    }
                    if now.contains(other) {
                        let k = choose|k: int| 0 <= k < now.len() && now[k] == other;
                        if k < before.len() {
                            assert(before[k] == other);
                            assert(before.contains(other));
                            assert(held.contains(other));
                        }
                    }
                }
            }
            i = i + 1;
        }
        assert(requested.take(i as int) =~= requested);
        WatchRouteScope::Filtered { keys, index }
    }

    pub fn contains(&self, timeline_key: &str) -> (answer: bool)
        ensures
            answer == self.covers(timeline_key@),
    {
        match self {
            WatchRouteScope::All => true,
            WatchRouteScope::Filtered { index, .. } => index.contains(timeline_key),
        }
    }

    /// How many timelines are listed.
    pub fn requested_timeline_key_count(&self) -> (count: usize)
        ensures
            count == match *self {
                WatchRouteScope::All => 0,
                WatchRouteScope::Filtered { keys, .. } => keys@.len(),
            },
    {
        match self {
            WatchRouteScope::All => 0,
            WatchRouteScope::Filtered { keys, .. } => keys.len(),
        }
    }
}

/// The version that the client has of a timeline's route; zero where it has none.
pub open spec fn known_version(delivered: Map<Seq<char>, u64>, key: Seq<char>) -> u64 {
    if delivered.contains_key(key) {
        delivered[key]
    } else {
        0
    }
}

/// The versions that a client says it has, of the timelines that the watch is about.
pub open spec fn known_within(scope: WatchRouteScope, known: Seq<(String, u64)>) -> Map<
    Seq<char>,
    u64,
>
    decreases known.len(),
{
    if known.len() == 0 {
        Map::empty()
    } else {
        let before = known_within(scope, known.drop_last());
        if scope.covers(known.last().0@) {
            before.insert(known.last().0@, known.last().1)
        } else {
            before
        }
    }
}

/// The routes among `incoming` that are newer than what was delivered, each taken in its turn, and
/// what is delivered after them.
pub open spec fn newer_routes(
    delivered: Map<Seq<char>, u64>,
    incoming: Seq<TimelineRoute>,
) -> (Map<Seq<char>, u64>, Seq<TimelineRoute>)
    decreases incoming.len(),
{
    if incoming.len() == 0 {
        (delivered, Seq::empty())
    } else {
        let (before, out) = newer_routes(delivered, incoming.drop_last());
        let route = incoming.last();
        if route.route_version > known_version(before, route.timeline_key@) {
            (before.insert(route.timeline_key@, route.route_version), out.push(route))
        } else {
            (before, out)
        }
    }
}

fn maybe_push_newer_route(
    route: TimelineRoute,
    delivered_versions: &mut StringHashMap<u64>,
    routes: &mut Vec<TimelineRoute>,
)
    ensures
        ({
            let (delivered, newer) = newer_routes(old(delivered_versions)@, seq![route]);
            final(delivered_versions)@ == delivered && final(routes)@ == old(routes)@ + newer
        }),
{
    proof {
        reveal_with_fuel(newer_routes, 2);
        assert(seq![route].drop_last() =~= Seq::<TimelineRoute>::empty());
        assert(routes@ + Seq::<TimelineRoute>::empty() =~= routes@);
        assert(routes@ + Seq::<TimelineRoute>::empty().push(route) =~= routes@.push(route));
    }
    let known: u64 = match delivered_versions.get(route.timeline_key.as_str()) {
        Some(version) => *version,
        None => 0,
    };
    if route.route_version <= known {
        return;
    }
    delivered_versions.insert(route.timeline_key.clone(), route.route_version);
    routes.push(route);
}

/// What to read next for a snapshot.
#[derive(Debug, PartialEq, Eq)]
pub enum SnapshotStep {
    LoadRoute { timeline_key: String },
    ListPage { start_after: Option<String>, page_size: usize },
    Complete,
}

/// A snapshot that is being read.
#[derive(Debug)]
pub struct SnapshotLoad {
    pub next_key: usize,
    pub start_after: Option<String>,
    pub listed: bool,
    pub routes: Vec<TimelineRoute>,
}

/// The routes of a page of statuses.
pub open spec fn routes_of(page: TimelineStatusListPage) -> Seq<TimelineRoute> {
    Seq::new(page.statuses@.len(), |i: int| page.statuses@[i].route)
}

/// What a client has and what it asked for.
pub struct WatchCompletenessTracker {
    pub scope: WatchRouteScope,
    pub delivered_versions: StringHashMap<u64>,
}

impl WatchCompletenessTracker {
    pub open spec fn valid(self) -> bool {
        self.scope.valid()
    }

    pub fn new(request: WatchTimelineRoutesRequest) -> (tracker: Self)
        ensures
            tracker.valid(),
            tracker.scope is All <==> request.timeline_keys@.len() == 0,
            forall|key: Seq<char>| #[trigger]
                tracker.scope.covers(key) <==> request.timeline_keys@.len() == 0
                    || windows::texts_of(request.timeline_keys@).contains(key),
            tracker.delivered_versions@ == known_within(
                tracker.scope,
                request.known_route_versions@,
            ),
    {
        let scope = WatchRouteScope::from_timeline_keys(request.timeline_keys);
        let known = request.known_route_versions;
        let mut delivered_versions: StringHashMap<u64> = StringHashMap::new();
        let mut i: usize = 0;
        while i < known.len()
            invariant
                i <= known@.len(),
                delivered_versions@ == known_within(scope, known@.take(i as int)),
            decreases known@.len() - i,
        {
            let entry = &known[i];
            if scope.contains(entry.0.as_str()) {
                delivered_versions.insert(entry.0.clone(), entry.1);
            }
            assert(known@.take(i + 1).drop_last() =~= known@.take(i as int));
            i = i + 1;
        }
        assert(known@.take(i as int) =~= known@);
        WatchCompletenessTracker { scope, delivered_versions }
    }

    pub fn requested_timeline_key_count(&self) -> (count: usize)
        ensures
            count == match self.scope {
                WatchRouteScope::All => 0,
                WatchRouteScope::Filtered { keys, .. } => keys@.len(),
            },
    {
        self.scope.requested_timeline_key_count()
    }

    /// The route goes to the client: the watch is about it and it is newer than what the client
    /// has.
    pub open spec fn owes(self, route: TimelineRoute) -> bool {
        self.scope.covers(route.timeline_key@) && route.route_version > known_version(
            self.delivered_versions@,
            route.timeline_key@,
        )
    }

    /// Whether a route that changed just now goes to the client; if so it counts as delivered.
    pub fn accept_live_route(&mut self, route: &TimelineRoute) -> (accepted: bool)
        ensures
            accepted == old(self).owes(*route),
            accepted <==> old(self).scope.covers(route.timeline_key@) && route.route_version > 0
                && (old(self).delivered_versions@.contains_key(route.timeline_key@)
                ==> route.route_version > old(self).delivered_versions@[route.timeline_key@]),
            final(self).scope == old(self).scope,
            final(self).delivered_versions@ == if accepted {
                old(self).delivered_versions@.insert(route.timeline_key@, route.route_version)
            } else {
                old(self).delivered_versions@
            },
    {
        if !self.scope.contains(route.timeline_key.as_str()) {
            return false;
        }
        let known: u64 = match self.delivered_versions.get(route.timeline_key.as_str()) {
            Some(version) => *version,
            None => 0,
        };
        if route.route_version <= known {
            return false;
        }
        self.delivered_versions.insert(route.timeline_key.clone(), route.route_version);
        true
    }

    /// A snapshot of which nothing is read yet.
    pub fn begin_snapshot(&self) -> (load: SnapshotLoad)
        ensures
            load.next_key == 0,
            load.start_after is None,
            !load.listed,
            load.routes@.len() == 0,
    {
        SnapshotLoad { next_key: 0, start_after: None, listed: false, routes: Vec::new() }
    }

    /// What is read next for a snapshot.
    pub open spec fn reads_next(self, load: SnapshotLoad, step: SnapshotStep) -> bool {
        match self.scope {
            WatchRouteScope::All => if load.listed {
                step == SnapshotStep::Complete
            } else {
                step == (SnapshotStep::ListPage {
                    start_after: load.start_after,
                    page_size: WATCH_ALL_SNAPSHOT_PAGE_SIZE,
                })
            },
            WatchRouteScope::Filtered { keys, .. } => if load.next_key < keys@.len() {
                step == (SnapshotStep::LoadRoute { timeline_key: keys@[load.next_key as int] })
            } else {
                step == SnapshotStep::Complete
            },
        }
    }

    /// What a route that was read for a snapshot comes to.
    pub open spec fn takes_route(
        self,
        before: WatchCompletenessTracker,
        had: SnapshotLoad,
        has: SnapshotLoad,
        loaded: Result<TimelineRoute, TsoError>,
        taken: Result<(), Status>,
    ) -> bool {
        match loaded {
            Ok(route) => {
                let (delivered, newer) = newer_routes(before.delivered_versions@, seq![route]);
                &&& taken is Ok
                &&& has.next_key == had.next_key + 1
                &&& self.delivered_versions@ == delivered
                &&& has.routes@ == had.routes@ + newer
            },
            Err(error) => {
                &&& self.delivered_versions@ == before.delivered_versions@
                &&& has.routes@ == had.routes@
                &&& match taken {
                    Ok(_) => error is TimelineNotFound && has.next_key == had.next_key + 1,
                    Err(status) => !(error is TimelineNotFound) && public_mapping::reports(
                        status,
                        error,
                    ),
                }
            },
        }
    }

    /// What a page that was read for a snapshot comes to.
    pub open spec fn takes_page(
        self,
        before: WatchCompletenessTracker,
        had: SnapshotLoad,
        has: SnapshotLoad,
        page: Result<TimelineStatusListPage, TsoError>,
        taken: Result<(), Status>,
    ) -> bool {
        match page {
            Ok(listing) => {
                let (delivered, newer) = newer_routes(
                    before.delivered_versions@,
                    routes_of(listing),
                );
                &&& taken is Ok
                &&& self.delivered_versions@ == delivered
                &&& has.routes@ == had.routes@ + newer
                &&& match listing.next_start_after {
                    Some(key) => has.start_after == Some(key) && has.listed == had.listed,
                    None => has.start_after == had.start_after && has.listed,
                }
            },
            Err(error) => {
                &&& taken matches Err(status) && public_mapping::reports(status, error)
                &&& self.delivered_versions@ == before.delivered_versions@
                &&& has == had
            },
        }
    }

    /// What to read next: each listed timeline in turn, or else page after page of all of them.
    pub fn snapshot_step(&self, load: &SnapshotLoad) -> (step: SnapshotStep)
        ensures
            self.reads_next(*load, step),
            match self.scope {
                WatchRouteScope::All => if load.listed {
                    step == SnapshotStep::Complete
                } else {
                    step == (SnapshotStep::ListPage {
                        start_after: load.start_after,
                        page_size: WATCH_ALL_SNAPSHOT_PAGE_SIZE,
                    })
                },
                WatchRouteScope::Filtered { keys, .. } => if load.next_key < keys@.len() {
                    step == (SnapshotStep::LoadRoute {
                        timeline_key: keys@[load.next_key as int],
                    })
                } else {
                    step == SnapshotStep::Complete
                },
            },
    {
        match &self.scope {
            WatchRouteScope::All => {
                if load.listed {
                    SnapshotStep::Complete
                } else {
                    let start_after = match &load.start_after {
                        Some(key) => Some(key.clone()),
                        None => None,
                    };
                    SnapshotStep::ListPage { start_after, page_size: WATCH_ALL_SNAPSHOT_PAGE_SIZE }
                }
            },
            WatchRouteScope::Filtered { keys, .. } => {
                if load.next_key < keys.len() {
                    SnapshotStep::LoadRoute { timeline_key: keys[load.next_key].clone() }
                } else {
                    SnapshotStep::Complete
                }
            },
        }
    }

    /// Takes the answer to a read of one route. A timeline that does not exist is passed over; any
    /// other error ends the snapshot.
    pub fn take_loaded_route(
        &mut self,
        load: &mut SnapshotLoad,
        loaded: Result<TimelineRoute, TsoError>,
    ) -> (taken: Result<(), Status>)
        requires
            old(load).next_key < usize::MAX,
        ensures
            final(self).scope == old(self).scope,
            final(load).start_after == old(load).start_after,
            final(load).listed == old(load).listed,
            final(self).takes_route(*old(self), *old(load), *final(load), loaded, taken),
            match loaded {
                Ok(route) => {
                    let (delivered, newer) = newer_routes(
                        old(self).delivered_versions@,
                        seq![route],
                    );
                    &&& taken is Ok
                    &&& final(load).next_key == old(load).next_key + 1
                    &&& final(self).delivered_versions@ == delivered
                    &&& final(load).routes@ == old(load).routes@ + newer
                },
                Err(error) => {
                    &&& final(self).delivered_versions@ == old(self).delivered_versions@
                    &&& final(load).routes@ == old(load).routes@
                    &&& match taken {
                        Ok(_) => error is TimelineNotFound && final(load).next_key == old(load).next_key + 1,
                        Err(status) => !(error is TimelineNotFound) && public_mapping::reports(
                            status,
                            error,
                        ),
                    }
                },
            },
    {
        match loaded {
            Ok(route) => {
                maybe_push_newer_route(route, &mut self.delivered_versions, &mut load.routes);
            },
            Err(error) => {
                let missing = match &error {
                    TsoError::TimelineNotFound { .. } => true,
                    _ => false,
                };
                if !missing {
                    return Err(map_tso_error(error));
                }
            },
        }
        load.next_key = load.next_key + 1;
        Ok(())
    }

    /// Takes the answer to a read of one page. An error ends the snapshot.
    pub fn take_status_page(
        &mut self,
        load: &mut SnapshotLoad,
        page: Result<TimelineStatusListPage, TsoError>,
    ) -> (taken: Result<(), Status>)
        ensures
            final(self).scope == old(self).scope,
            final(load).next_key == old(load).next_key,
            final(self).takes_page(*old(self), *old(load), *final(load), page, taken),
            match page {
                Ok(listing) => {
                    let (delivered, newer) = newer_routes(
                        old(self).delivered_versions@,
                        routes_of(listing),
                    );
                    &&& taken is Ok
                    &&& final(self).delivered_versions@ == delivered
                    &&& final(load).routes@ == old(load).routes@ + newer
                    &&& match listing.next_start_after {
                        Some(key) => final(load).start_after == Some(key) && final(load).listed
                            == old(load).listed,
                        None => final(load).start_after == old(load).start_after && final(load).listed,
                    }
                },
                Err(error) => {
                    &&& taken matches Err(status) && public_mapping::reports(status, error)
                    &&& final(self).delivered_versions@ == old(self).delivered_versions@
                    &&& *final(load) == *old(load)
                },
            },
    {
        match page {
            Ok(listing) => {
                let mut i: usize = 0;
                let ghost incoming = routes_of(listing);
                let ghost before = self.delivered_versions@;
                let ghost had = load.routes@;
                assert(incoming.take(0) =~= Seq::<TimelineRoute>::empty());
                assert(had + Seq::<TimelineRoute>::empty() =~= had);
                while i < listing.statuses.len()
                    invariant
                        i <= listing.statuses@.len(),
                        incoming == routes_of(listing),
                        before == old(self).delivered_versions@,
                        had == old(load).routes@,
                        self.scope == old(self).scope,
                        load.next_key == old(load).next_key,
                        load.start_after == old(load).start_after,
                        load.listed == old(load).listed,
                        self.delivered_versions@ == newer_routes(
                            before,
                            incoming.take(i as int),
                        ).0,
                        load.routes@ == had + newer_routes(before, incoming.take(i as int)).1,
                    decreases listing.statuses@.len() - i,
                {
                    let route = listing.statuses[i].route.clone();
                    proof {
                        lemma_newer_step(before, incoming.take(i as int), route);
                        assert(incoming.take(i + 1) =~= incoming.take(i as int).push(route));
                        let (delivered, newer) = newer_routes(before, incoming.take(i as int));
                        assert((had + newer) + newer_routes(delivered, seq![route]).1 =~= had + (
                        newer + newer_routes(delivered, seq![route]).1));
                    }
                    maybe_push_newer_route(route, &mut self.delivered_versions, &mut load.routes);
                    i = i + 1;
                }
                assert(incoming.take(i as int) =~= incoming);
                match listing.next_start_after {
                    Some(key) => {
                        load.start_after = Some(key);
                    },
                    None => {
                        load.listed = true;
                    },
                }
                Ok(())
            },
            Err(error) => Err(map_tso_error(error)),
        }
    }
}

proof fn lemma_newer_step(
    delivered: Map<Seq<char>, u64>,
    incoming: Seq<TimelineRoute>,
    route: TimelineRoute,
)
    ensures
        ({
            let (before, out) = newer_routes(delivered, incoming);
            let (after, more) = newer_routes(before, seq![route]);
            newer_routes(delivered, incoming.push(route)) == (after, out + more)
        }),
{
    assert(incoming.push(route).drop_last() =~= incoming);
    reveal_with_fuel(newer_routes, 2);
    assert(seq![route].drop_last() =~= Seq::<TimelineRoute>::empty());
    let (before, out) = newer_routes(delivered, incoming);
    assert(out + Seq::<TimelineRoute>::empty() =~= out);
    assert(out + Seq::<TimelineRoute>::empty().push(route) =~= out.push(route));
}

/// What the client has of any timeline only rises, whatever routes come in.
pub proof fn delivered_versions_only_rise(
    delivered: Map<Seq<char>, u64>,
    incoming: Seq<TimelineRoute>,
    key: Seq<char>,
)
    ensures
        known_version(newer_routes(delivered, incoming).0, key) >= known_version(delivered, key),
    decreases incoming.len(),
{
    if incoming.len() > 0 {
        delivered_versions_only_rise(delivered, incoming.drop_last(), key);
    }
}

/// A snapshot misses nothing: after it the client has, of every timeline that came in, the version
/// that came in or a newer one.
pub proof fn snapshots_miss_nothing(
    delivered: Map<Seq<char>, u64>,
    incoming: Seq<TimelineRoute>,
    i: int,
)
    requires
        0 <= i < incoming.len(),
    ensures
        known_version(newer_routes(delivered, incoming).0, incoming[i].timeline_key@)
            >= incoming[i].route_version,
    decreases incoming.len(),
{
    if i < incoming.len() - 1 {
        snapshots_miss_nothing(delivered, incoming.drop_last(), i);
        let key = incoming[i].timeline_key@;
        assert(incoming.drop_last()[i] == incoming[i]);
        assert(known_version(newer_routes(delivered, incoming).0, key) >= known_version(
            newer_routes(delivered, incoming.drop_last()).0,
            key,
        ));
    }
}

/// What counts as delivered was sent: where the version that a client has of a timeline rises, a
/// route of just that timeline and that version is among those that go out. Where none goes out the
/// version stays what it was.
pub proof fn what_counts_as_delivered_is_sent(
    delivered: Map<Seq<char>, u64>,
    incoming: Seq<TimelineRoute>,
    key: Seq<char>,
)
    ensures
        ({
            let (after, sent) = newer_routes(delivered, incoming);
            let had = delivered.contains_key(key);
            let has = after.contains_key(key);
            &&& had ==> has && after[key] >= delivered[key]
            &&& has && !(had && after[key] == delivered[key]) ==> after[key] > 0 && exists|k: int|
                0 <= k < sent.len() && (#[trigger] sent[k]).timeline_key@ == key
                    && sent[k].route_version == after[key]
        }),
    decreases incoming.len(),
{
    if incoming.len() > 0 {
        what_counts_as_delivered_is_sent(delivered, incoming.drop_last(), key);
        let (before, out) = newer_routes(delivered, incoming.drop_last());
        let (after, sent) = newer_routes(delivered, incoming);
        if incoming.last().timeline_key@ == key && sent != out {
            assert(sent[out.len() as int] == incoming.last());
        } else if after.contains_key(key) && !(delivered.contains_key(key) && after[key]
            == delivered[key]) {
            let k = choose|k: int|
                0 <= k < out.len() && (#[trigger] out[k]).timeline_key@ == key
                    && out[k].route_version == before[key];
            assert(sent[k] == out[k]);
        }
    }
}

/// Every route that goes out came in, is newer than what the client had of its timeline and than
/// every route of that timeline that went out before it, and no newer than what counts as delivered
/// afterwards.
pub proof fn routes_that_go_out_came_in_and_are_newer(
    delivered: Map<Seq<char>, u64>,
    incoming: Seq<TimelineRoute>,
    k: int,
)
    requires
        0 <= k < newer_routes(delivered, incoming).1.len(),
    ensures
        ({
            let (after, sent) = newer_routes(delivered, incoming);
            let route = sent[k];
            let key = route.timeline_key@;
            &&& incoming.contains(route)
            &&& route.route_version > 0
            &&& delivered.contains_key(key) ==> route.route_version > delivered[key]
            &&& after.contains_key(key) && route.route_version <= after[key]
            &&& forall|j: int|
                0 <= j < k && (#[trigger] sent[j]).timeline_key@ == key ==> sent[j].route_version
                    < route.route_version
        }),
    decreases incoming.len(),
{
    let less = incoming.drop_last();
    let (before, out) = newer_routes(delivered, less);
    let (after, sent) = newer_routes(delivered, incoming);
    if k < out.len() {
        routes_that_go_out_came_in_and_are_newer(delivered, less, k);
        assert(sent[k] == out[k]);
        let i = choose|i: int| 0 <= i < less.len() && less[i] == out[k];
        assert(incoming[i] == out[k]);
        assert forall|j: int|
            0 <= j < k && (#[trigger] sent[j]).timeline_key@
                == sent[k].timeline_key@ implies sent[j].route_version
            < sent[k].route_version by {
            assert(sent[j] == out[j]);
        }
    } else {
        assert(incoming[incoming.len() - 1] == sent[k]);
        what_counts_as_delivered_is_sent(delivered, less, sent[k].timeline_key@);
        assert forall|j: int|
            0 <= j < k && (#[trigger] sent[j]).timeline_key@
                == sent[k].timeline_key@ implies sent[j].route_version
            < sent[k].route_version by {
            assert(sent[j] == out[j]);
            routes_that_go_out_came_in_and_are_newer(delivered, less, j);
        }
    }
}

/// A route that came in and is newer than all that the client had and all that came in before it
/// goes out.
pub proof fn newer_routes_go_out(
    delivered: Map<Seq<char>, u64>,
    incoming: Seq<TimelineRoute>,
    i: int,
)
    requires
        0 <= i < incoming.len(),
        incoming[i].route_version > 0,
        delivered.contains_key(incoming[i].timeline_key@) ==> incoming[i].route_version
            > delivered[incoming[i].timeline_key@],
        forall|j: int|
            0 <= j < i && (#[trigger] incoming[j]).timeline_key@ == incoming[i].timeline_key@
                ==> incoming[j].route_version < incoming[i].route_version,
    ensures
        newer_routes(delivered, incoming).1.contains(incoming[i]),
    decreases incoming.len(),
{
    let less = incoming.drop_last();
    let (before, out) = newer_routes(delivered, less);
    let sent = newer_routes(delivered, incoming).1;
    let key = incoming[i].timeline_key@;
    if i < less.len() {
        assert forall|j: int|
            0 <= j < i && (#[trigger] less[j]).timeline_key@
                == less[i].timeline_key@ implies less[j].route_version < less[i].route_version by {
            assert(less[j] == incoming[j]);
        }
        newer_routes_go_out(delivered, less, i);
        let k = choose|k: int| 0 <= k < out.len() && out[k] == incoming[i];
        assert(sent[k] == incoming[i]);
    } else {
        what_counts_as_delivered_is_sent(delivered, less, key);
        if before.contains_key(key) && !(delivered.contains_key(key) && before[key]
            == delivered[key]) {
            let k = choose|k: int|
                0 <= k < out.len() && (#[trigger] out[k]).timeline_key@ == key
                    && out[k].route_version == before[key];
            routes_that_go_out_came_in_and_are_newer(delivered, less, k);
            let j = choose|j: int| 0 <= j < less.len() && less[j] == out[k];
            assert(incoming[j] == out[k]);
        }
        assert(sent[out.len() as int] == incoming[i]);
    }
}

/// What a client says it has of a timeline counts where the watch is about the timeline, and the
/// last that it says of it.
pub proof fn the_last_known_version_counts(
    scope: WatchRouteScope,
    known: Seq<(String, u64)>,
    i: int,
)
    requires
        0 <= i < known.len(),
        forall|j: int| i < j < known.len() ==> (#[trigger] known[j]).0@ != known[i].0@,
    ensures
        known_within(scope, known).contains_key(known[i].0@) == scope.covers(known[i].0@),
        scope.covers(known[i].0@) ==> known_within(scope, known)[known[i].0@] == known[i].1,
    decreases known.len(),
{
    let less = known.drop_last();
    if i < less.len() {
        assert(less[i] == known[i]);
        assert(known[less.len() as int].0@ != known[i].0@);
        assert forall|j: int| i < j < less.len() implies (#[trigger] less[j]).0@ != less[i].0@ by {
            assert(less[j] == known[j]);
        }
        the_last_known_version_counts(scope, less, i);
    } else {
        nothing_else_is_known(scope, less, known[i].0@);
    }
}

/// Of a timeline that the watch is not about, or of which a client says nothing, nothing is known.
pub proof fn nothing_else_is_known(
    scope: WatchRouteScope,
    known: Seq<(String, u64)>,
    key: Seq<char>,
)
    ensures
        known_within(scope, known).contains_key(key) ==> scope.covers(key) && exists|i: int|
            0 <= i < known.len() && (#[trigger] known[i]).0@ == key,
    decreases known.len(),
{
    if known.len() > 0 {
        let less = known.drop_last();
        nothing_else_is_known(scope, less, key);
        if known[known.len() - 1].0@ != key && known_within(scope, less).contains_key(key) {
            let i = choose|i: int| 0 <= i < less.len() && (#[trigger] less[i]).0@ == key;
            assert(known[i].0@ == key);
        }
    }
}

/// Nothing is delivered twice: routes that came in once bring nothing when they come in again.
pub proof fn nothing_is_delivered_twice(
    delivered: Map<Seq<char>, u64>,
    incoming: Seq<TimelineRoute>,
)
    ensures
        newer_routes(newer_routes(delivered, incoming).0, incoming) == (
            newer_routes(delivered, incoming).0,
            Seq::<TimelineRoute>::empty(),
        ),
{
    let after = newer_routes(delivered, incoming).0;
    assert forall|i: int| 0 <= i < incoming.len() implies known_version(
        after,
        (#[trigger] incoming[i]).timeline_key@,
    ) >= incoming[i].route_version by {
        snapshots_miss_nothing(delivered, incoming, i);
    }
    lemma_stale_routes_bring_nothing(after, incoming);
}

proof fn lemma_stale_routes_bring_nothing(
    delivered: Map<Seq<char>, u64>,
    incoming: Seq<TimelineRoute>,
)
    requires
        forall|i: int|
            0 <= i < incoming.len() ==> known_version(
                delivered,
                (#[trigger] incoming[i]).timeline_key@,
            ) >= incoming[i].route_version,
    ensures
        newer_routes(delivered, incoming) == (delivered, Seq::<TimelineRoute>::empty()),
    decreases incoming.len(),
{
    if incoming.len() > 0 {
        let less = incoming.drop_last();
        assert forall|i: int| 0 <= i < less.len() implies known_version(
            delivered,
            (#[trigger] less[i]).timeline_key@,
        ) >= less[i].route_version by {
            assert(less[i] == incoming[i]);
        }
        lemma_stale_routes_bring_nothing(delivered, less);
        assert(incoming.last() == incoming[incoming.len() - 1]);
    }
}

/// A snapshot of chosen timelines reads each of them in turn, and one of everything reads page after
/// page, a thousand statuses each, until there is no next one; it is complete then and not before.
pub proof fn snapshots_read_everything_that_is_asked_for(
    tracker: WatchCompletenessTracker,
    load: SnapshotLoad,
    step: SnapshotStep,
)
    requires
        tracker.reads_next(load, step),
    ensures
        tracker.scope is All ==> {
            &&& step is Complete <==> load.listed
            &&& step matches SnapshotStep::ListPage { start_after, page_size } ==> start_after
                == load.start_after && page_size == 1000
            &&& !(step is LoadRoute)
        },
        tracker.scope matches WatchRouteScope::Filtered { keys, .. } ==> {
            &&& step is Complete <==> load.next_key >= keys@.len()
            &&& step matches SnapshotStep::LoadRoute { timeline_key } ==> timeline_key@
                == keys@[load.next_key as int]@
            &&& !(step is ListPage)
        },
{
}

/// A timeline that does not exist is passed over in a snapshot, and every other failure ends it. A
/// page leads on to where it says, and the last one completes the snapshot.
pub proof fn snapshots_pass_over_missing_timelines_only(
    before: WatchCompletenessTracker,
    had: SnapshotLoad,
    after: WatchCompletenessTracker,
    has: SnapshotLoad,
    loaded: Result<TimelineRoute, TsoError>,
    taken: Result<(), Status>,
    paged: WatchCompletenessTracker,
    next: SnapshotLoad,
    page: Result<TimelineStatusListPage, TsoError>,
    page_taken: Result<(), Status>,
)
    requires
        after.takes_route(before, had, has, loaded, taken),
        paged.takes_page(before, had, next, page, page_taken),
    ensures
        taken is Err <==> loaded is Err && !(loaded->Err_0 is TimelineNotFound),
        taken is Ok ==> has.next_key == had.next_key + 1,
        loaded is Err ==> has.routes@ == had.routes@ && after.delivered_versions@
            == before.delivered_versions@,
        page_taken is Err <==> page is Err,
        page is Err ==> next == had,
        had.routes@.is_prefix_of(has.routes@),
        had.routes@.is_prefix_of(next.routes@),
        !had.listed ==> (next.listed <==> (page matches Ok(listing)
            && listing.next_start_after is None)),
        (page matches Ok(listing) && listing.next_start_after is Some) ==> next.start_after
            == page->Ok_0.next_start_after,
        page is Err ==> paged.delivered_versions@ == before.delivered_versions@,
        loaded matches Ok(route) ==> {
            let key = route.timeline_key@;
            let known = before.delivered_versions@;
            if route.route_version > 0 && (known.contains_key(key) ==> route.route_version
                > known[key]) {
                &&& has.routes@ == had.routes@.push(route)
                &&& after.delivered_versions@ == known.insert(key, route.route_version)
            } else {
                &&& has.routes@ == had.routes@
                &&& after.delivered_versions@ == known
            }
        },
{
    if loaded is Ok {
        let route = loaded->Ok_0;
        reveal_with_fuel(newer_routes, 2);
        assert(seq![route].drop_last() =~= Seq::<TimelineRoute>::empty());
        assert(had.routes@ + Seq::<TimelineRoute>::empty() =~= had.routes@);
        assert(had.routes@ + Seq::<TimelineRoute>::empty().push(route) =~= had.routes@.push(route));
    }
}

} // verus!
