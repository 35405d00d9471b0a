//! The course of a route watch, and the two sides of an allocation request.

use vstd::prelude::*;

use crate::model::{AllocateTimestampsRequest, AllocateTimestampsResponse, TimelineRoute};
use crate::rpc::proto::{
    ProtoAllocateTimestampsRequest, ProtoAllocateTimestampsResponse, ServerTime, Status, StatusCode,
    TimelineRouteEvent,
};
use crate::rpc::route_mapping;
use crate::rpc::route_mapping::{build_keepalive_event, build_route_event, build_timestamp_ranges};
use crate::rpc::status_mapping;
use crate::rpc::watch_completeness::WatchCompletenessTracker;

verus! {

pub const WATCH_KEEPALIVE_INTERVAL_MS: u64 = 30_000;

pub const WATCH_ROUTE_SEND_TIMEOUT_MS: u64 = 250;

pub const WATCH_RESYNC_MIN_INTERVAL_MS: u64 = 200;

/// Keeps snapshots that are read again apart, and lets one stand for all that are asked for before
/// it.
#[derive(Debug, Clone, Copy, PartialEq, Eq, Structural)]
pub struct WatchResyncGate {
    pub next_allowed_at_ms: u64,
    pub pending: bool,
}

/// When the snapshot is due, and whether it was due already.
#[derive(Debug, Clone, Copy, PartialEq, Eq, Structural)]
pub enum WatchResyncLagEffect {
    Scheduled(u64),
    Coalesced(u64),
}

impl WatchResyncGate {
    /// When a snapshot that is asked for now is due.
    pub open spec fn due_at(self, now_ms: u64) -> u64 {
        if self.next_allowed_at_ms > now_ms {
            self.next_allowed_at_ms
        } else {
            now_ms
        }
    }

    /// What asking for a snapshot now comes to.
    pub open spec fn effect(self, now_ms: u64) -> WatchResyncLagEffect {
        if self.pending {
            WatchResyncLagEffect::Coalesced(self.due_at(now_ms))
        } else {
            WatchResyncLagEffect::Scheduled(self.due_at(now_ms))
        }
    }

    pub fn new(now_ms: u64) -> (gate: Self)
        ensures
            gate.next_allowed_at_ms == now_ms,
            !gate.pending,
    {
        WatchResyncGate { next_allowed_at_ms: now_ms, pending: false }
    }

    /// The state after a miss.
    pub open spec fn after_miss(self) -> WatchResyncGate {
        WatchResyncGate { pending: true, ..self }
    }

    /// The state once a snapshot went out.
    pub open spec fn after_snapshot(self, now_ms: u64) -> WatchResyncGate {
        WatchResyncGate {
            pending: false,
            next_allowed_at_ms: (now_ms + WATCH_RESYNC_MIN_INTERVAL_MS) as u64,
        }
    }

    /// Asks for a snapshot because something was missed.
    pub fn lagged(&mut self, now_ms: u64) -> (effect: WatchResyncLagEffect)
        ensures
            effect == old(self).effect(now_ms),
            *final(self) == old(self).after_miss(),
            final(self).pending,
            final(self).next_allowed_at_ms == old(self).next_allowed_at_ms,
    {
        let scheduled_at: u64 = if self.next_allowed_at_ms > now_ms {
            self.next_allowed_at_ms
        } else {
            now_ms
        };
        let already_pending = self.pending;
        self.pending = true;
        if already_pending {
            WatchResyncLagEffect::Coalesced(scheduled_at)
        } else {
            WatchResyncLagEffect::Scheduled(scheduled_at)
        }
    }

    /// The snapshot went out.
    pub fn complete(&mut self, now_ms: u64)
        requires
            now_ms + WATCH_RESYNC_MIN_INTERVAL_MS <= u64::MAX,
        ensures
            *final(self) == old(self).after_snapshot(now_ms),
            !final(self).pending,
            final(self).next_allowed_at_ms == now_ms + WATCH_RESYNC_MIN_INTERVAL_MS,
    {
        self.pending = false;
        self.next_allowed_at_ms = now_ms + WATCH_RESYNC_MIN_INTERVAL_MS;
    }

    pub fn is_pending(&self) -> (pending: bool)
        ensures
            pending == self.pending,
    {
        self.pending
    }
}

/// After a snapshot the next one is due no sooner than the minimal interval later, whenever it is
/// asked for.
pub proof fn snapshots_keep_their_distance(gate: WatchResyncGate, completed_ms: u64, now_ms: u64)
    requires
        gate.next_allowed_at_ms == completed_ms + WATCH_RESYNC_MIN_INTERVAL_MS,
    ensures
        gate.due_at(now_ms) >= completed_ms + 200,
        gate.due_at(now_ms) >= now_ms,
        gate.due_at(now_ms) == now_ms || gate.due_at(now_ms) == completed_ms + 200,
        gate.effect(now_ms) == WatchResyncLagEffect::Coalesced(gate.due_at(now_ms))
            <==> gate.pending,
        gate.effect(now_ms) == WatchResyncLagEffect::Scheduled(gate.due_at(now_ms))
            <==> !gate.pending,
{
}

/// A miss makes a snapshot due and further misses add none, until a snapshot went out; the next one
/// is then due two tenths of a second later at the earliest.
pub proof fn misses_are_answered_together(
    gate: WatchResyncGate,
    now_ms: u64,
    sent_ms: u64,
    later_ms: u64,
)
    requires
        sent_ms + 200 <= u64::MAX,
    ensures
        gate.after_miss().pending,
        gate.after_miss().effect(now_ms) is Coalesced,
        gate.after_miss().due_at(now_ms) == gate.due_at(now_ms),
        gate.after_miss().after_miss() == gate.after_miss(),
        !gate.after_snapshot(sent_ms).pending,
        gate.after_snapshot(sent_ms).effect(later_ms) is Scheduled,
        gate.after_snapshot(sent_ms).due_at(later_ms) >= sent_ms + 200,
        later_ms >= sent_ms + 200 ==> gate.after_snapshot(sent_ms).due_at(later_ms) == later_ms,
{
}

/// A sign of life is due every thirty seconds, and a client that takes no event for a quarter of a
/// second is given up.
pub proof fn watches_keep_their_times()
    ensures
        WATCH_KEEPALIVE_INTERVAL_MS == 30 * 1000,
        4 * WATCH_ROUTE_SEND_TIMEOUT_MS == 1000,
{
}

/// Why a snapshot is read again.
#[derive(Debug, Clone, Copy, PartialEq, Eq, Structural)]
pub enum ResyncReason {
    WatchLagged,
    UpstreamWatchReset,
    ResetSignalLagged,
}

/// What happens to a watch.
pub enum WatchEvent {
    /// The snapshot that was scheduled is due.
    ResyncDue,
    /// The snapshot was read.
    ResyncLoaded { routes: Vec<TimelineRoute> },
    /// The snapshot could not be read.
    ResyncFailed { status: Status },
    /// All routes of the snapshot went out.
    ResyncSent { now_ms: u64 },
    /// A route changed.
    RouteChanged { route: TimelineRoute },
    /// Changes were missed, or the source of changes started anew.
    Missed { now_ms: u64, reason: ResyncReason },
    /// The source of changes is gone.
    SourceClosed,
    /// It is time for a sign of life.
    KeepaliveDue { server_time: ServerTime },
    /// An event could not be handed to the client.
    SendFailed,
}

/// What to do about it.
pub enum WatchAction {
    /// Wait for the next event.
    Wait,
    /// Read a snapshot.
    LoadSnapshot,
    /// Hand these events to the client, in order.
    SendRoutes { events: Vec<TimelineRouteEvent> },
    /// Wait for the next event; a snapshot is due at this time.
    WaitForResync { due_at_ms: u64, coalesced: bool, reason: ResyncReason },
    /// Wait for the next event; no snapshot is due.
    ResyncDone,
    /// Hand a sign of life to the client if there is room for it.
    TrySendKeepalive { event: TimelineRouteEvent },
    /// Hand this refusal to the client and stop.
    SendErrorAndStop { status: Status },
    Stop,
}

/// The events say of the routes what the routes say, in the same order.
pub open spec fn are_route_events(
    events: Seq<TimelineRouteEvent>,
    routes: Seq<TimelineRoute>,
    cache_ttl_ms: u32,
) -> bool {
    events.len() == routes.len() && forall|i: int|
        0 <= i < routes.len() ==> (#[trigger] events[i] matches TimelineRouteEvent::Route(wire)
            && status_mapping::is_wire_route(wire, routes[i], cache_ttl_ms))
}

/// The routes as events for the client.
pub fn route_events(routes: Vec<TimelineRoute>, route_cache_ttl_ms: u32) -> (events: Vec<
    TimelineRouteEvent,
>)
    ensures
        are_route_events(events@, routes@, route_cache_ttl_ms),
{
    let mut events: Vec<TimelineRouteEvent> = Vec::new();
    let mut i: usize = 0;
    while i < routes.len()
        invariant
            i <= routes@.len(),
            are_route_events(events@, routes@.take(i as int), route_cache_ttl_ms),
        decreases routes@.len() - i,
    {
        let ghost before = events@;
        events.push(build_route_event(routes[i].clone(), route_cache_ttl_ms));
        proof {
            let next = routes@.take(i + 1);
            assert forall|k: int| 0 <= k < next.len() implies (#[trigger] events@[k] matches
                TimelineRouteEvent::Route(wire) && status_mapping::is_wire_route(
                wire,
                next[k],
                route_cache_ttl_ms,
            )) by {
                if k < i {
                    assert(events@[k] == before[k]);
                    assert(next[k] == routes@.take(i as int)[k]);
                }
            }
        }
        i = i + 1;
    }
    assert(routes@.take(i as int) =~= routes@);
    events
}

/// A watch that is under way.
pub struct WatchSession {
    pub completeness: WatchCompletenessTracker,
    pub gate: WatchResyncGate,
    pub route_cache_ttl_ms: u32,
}

impl WatchSession {
    pub fn new(
        completeness: WatchCompletenessTracker,
        now_ms: u64,
        route_cache_ttl_ms: u32,
    ) -> (session: Self)
        ensures
            session.completeness == completeness,
            session.gate.next_allowed_at_ms == now_ms,
            !session.gate.pending,
            session.route_cache_ttl_ms == route_cache_ttl_ms,
    {
        WatchSession { completeness, gate: WatchResyncGate::new(now_ms), route_cache_ttl_ms }
    }

    /// What an event comes to.
    pub open spec fn responds(
        self,
        before: WatchSession,
        event: WatchEvent,
        action: WatchAction,
    ) -> bool {
        &&& self.route_cache_ttl_ms == before.route_cache_ttl_ms
        &&& self.completeness.scope == before.completeness.scope
        &&& !(event is RouteChanged) ==> self.completeness == before.completeness
        &&& !(event is Missed) && !(event is ResyncSent) ==> self.gate == before.gate
        &&& match event {
            WatchEvent::ResyncDue => if before.gate.pending {
                action is LoadSnapshot
            } else {
                action is Wait
            },
            WatchEvent::ResyncLoaded { routes } => action matches WatchAction::SendRoutes { events }
                && are_route_events(events@, routes@, before.route_cache_ttl_ms),
            WatchEvent::ResyncFailed { status } => action == (WatchAction::SendErrorAndStop {
                status,
            }),
            WatchEvent::ResyncSent { now_ms } => action is ResyncDone && !self.gate.pending
                && self.gate.next_allowed_at_ms == now_ms + WATCH_RESYNC_MIN_INTERVAL_MS,
            WatchEvent::RouteChanged { route } => if before.completeness.owes(route) {
                &&& action matches WatchAction::SendRoutes { events }
                &&& are_route_events(events@, seq![route], before.route_cache_ttl_ms)
                &&& self.completeness.delivered_versions@
                    == before.completeness.delivered_versions@.insert(
                    route.timeline_key@,
                    route.route_version,
                )
            } else {
                &&& action is Wait
                &&& self.completeness.delivered_versions@
                    == before.completeness.delivered_versions@
            },
            WatchEvent::Missed { now_ms, reason } => action == (WatchAction::WaitForResync {
                due_at_ms: before.gate.due_at(now_ms),
                coalesced: before.gate.pending,
                reason,
            }) && self.gate.pending && self.gate.next_allowed_at_ms
                == before.gate.next_allowed_at_ms,
            WatchEvent::SourceClosed => action is Stop,
            WatchEvent::KeepaliveDue { server_time } => action == (WatchAction::TrySendKeepalive {
                event: TimelineRouteEvent::Keepalive { server_time },
            }),
            WatchEvent::SendFailed => action is Stop,
        }
    }

    /// What the watch does about an event.
    pub fn on_event(&mut self, event: WatchEvent) -> (action: WatchAction)
        requires
            event matches WatchEvent::ResyncSent { now_ms } ==> now_ms
                + WATCH_RESYNC_MIN_INTERVAL_MS <= u64::MAX,
        ensures
            final(self).responds(*old(self), event, action),
            final(self).route_cache_ttl_ms == old(self).route_cache_ttl_ms,
            final(self).completeness.scope == old(self).completeness.scope,
            !(event is RouteChanged) ==> final(self).completeness == old(self).completeness,
            !(event is Missed) && !(event is ResyncSent) ==> final(self).gate == old(self).gate,
            match event {
                WatchEvent::ResyncDue => if old(self).gate.pending {
                    action is LoadSnapshot
                } else {
                    action is Wait
                },
                WatchEvent::ResyncLoaded { routes } => action matches WatchAction::SendRoutes {
                    events,
                } && are_route_events(events@, routes@, old(self).route_cache_ttl_ms),
                WatchEvent::ResyncFailed { status } => action == (WatchAction::SendErrorAndStop {
                    status,
                }),
                WatchEvent::ResyncSent { now_ms } => action is ResyncDone && !final(
                    self).gate.pending && final(self).gate.next_allowed_at_ms == now_ms
                    + WATCH_RESYNC_MIN_INTERVAL_MS,
                WatchEvent::RouteChanged { route } => {
                    if old(self).completeness.owes(route) {
                        &&& action matches WatchAction::SendRoutes { events }
                        &&& are_route_events(
                            events@,
                            seq![route],
                            old(self).route_cache_ttl_ms,
                        )
                        &&& final(self).completeness.delivered_versions@ == old(
                            self).completeness.delivered_versions@.insert(
                            route.timeline_key@,
                            route.route_version,
                        )
                    } else {
                        &&& action is Wait
                        &&& final(self).completeness.delivered_versions@ == old(
                            self).completeness.delivered_versions@
                    }
                },
                WatchEvent::Missed { now_ms, reason } => action == (WatchAction::WaitForResync {
                    due_at_ms: old(self).gate.due_at(now_ms),
                    coalesced: old(self).gate.pending,
                    reason,
                }) && final(self).gate.pending && final(self).gate.next_allowed_at_ms == old(
                    self).gate.next_allowed_at_ms,
                WatchEvent::SourceClosed => action is Stop,
                WatchEvent::KeepaliveDue { server_time } => action
                    == (WatchAction::TrySendKeepalive {
                    event: TimelineRouteEvent::Keepalive { server_time },
                }),
                WatchEvent::SendFailed => action is Stop,
            },
    {
        match event {
            WatchEvent::ResyncDue => {
                if self.gate.is_pending() {
                    WatchAction::LoadSnapshot
                } else {
                    WatchAction::Wait
                }
            },
            WatchEvent::ResyncLoaded { routes } => WatchAction::SendRoutes {
                events: route_events(routes, self.route_cache_ttl_ms),
            },
            WatchEvent::ResyncFailed { status } => WatchAction::SendErrorAndStop { status },
            WatchEvent::ResyncSent { now_ms } => {
                self.gate.complete(now_ms);
                WatchAction::ResyncDone
            },
            WatchEvent::RouteChanged { route } => {
                if self.completeness.accept_live_route(&route) {
                    let mut routes: Vec<TimelineRoute> = Vec::new();
                    routes.push(route);
                    assert(routes@ =~= seq![route]);
                    WatchAction::SendRoutes {
                        events: route_events(routes, self.route_cache_ttl_ms),
                    }
                } else {
                    WatchAction::Wait
                }
            },
            WatchEvent::Missed { now_ms, reason } => {
                match self.gate.lagged(now_ms) {
                    WatchResyncLagEffect::Scheduled(due_at_ms) => WatchAction::WaitForResync {
                        due_at_ms,
                        coalesced: false,
                        reason,
                    },
                    WatchResyncLagEffect::Coalesced(due_at_ms) => WatchAction::WaitForResync {
                        due_at_ms,
                        coalesced: true,
                        reason,
                    },
                }
            },
            WatchEvent::SourceClosed => WatchAction::Stop,
            WatchEvent::KeepaliveDue { server_time } => WatchAction::TrySendKeepalive {
                event: build_keepalive_event(server_time),
            },
            WatchEvent::SendFailed => WatchAction::Stop,
        }
    }
}

/// A route that changes goes to the client exactly where the watch is about its timeline and the
/// client has no version of it as new; it then counts as delivered, and its own event is what goes
/// out. All other versions stay as they are.
pub proof fn changed_routes_go_out_once(
    before: WatchSession,
    route: TimelineRoute,
    after: WatchSession,
    action: WatchAction,
    key: Seq<char>,
)
    requires
        after.responds(before, WatchEvent::RouteChanged { route }, action),
    ensures
        ({
            let had = before.completeness.delivered_versions@;
            let has = after.completeness.delivered_versions@;
            let own = route.timeline_key@;
            let newer = route.route_version > 0 && (had.contains_key(own) ==> route.route_version
                > had[own]);
            &&& action is SendRoutes <==> before.completeness.scope.covers(own) && newer
            &&& action is Wait <==> !(action is SendRoutes)
            &&& action matches WatchAction::SendRoutes { events } ==> {
                &&& has.contains_key(own) && has[own] == route.route_version
                &&& events@.len() == 1
                &&& events@[0] matches TimelineRouteEvent::Route(wire) && wire.timeline_key@ == own
                    && wire.route_version == route.route_version && wire.epoch == route.epoch
                    && wire.owner_worker_endpoint@ == route.owner_worker_endpoint@
            }
            &&& action is Wait || key != own ==> has.contains_key(key) == had.contains_key(key) && (
            had.contains_key(key) ==> has[key] == had[key])
        }),
{
}

/// After changes were missed a snapshot is read as soon as it is due, whatever comes in between but
/// a snapshot that went out; and without such a miss none is read.
pub proof fn missed_changes_lead_to_a_snapshot(
    first: WatchSession,
    now_ms: u64,
    reason: ResyncReason,
    second: WatchSession,
    missed: WatchAction,
    event: WatchEvent,
    third: WatchSession,
    between: WatchAction,
    fourth: WatchSession,
    due: WatchAction,
)
    requires
        second.responds(first, WatchEvent::Missed { now_ms, reason }, missed),
        third.responds(second, event, between),
        fourth.responds(third, WatchEvent::ResyncDue, due),
    ensures
        missed matches WatchAction::WaitForResync { due_at_ms, coalesced, reason: told } && {
            &&& due_at_ms >= now_ms && due_at_ms >= first.gate.next_allowed_at_ms
            &&& due_at_ms == now_ms || due_at_ms == first.gate.next_allowed_at_ms
            &&& coalesced == first.gate.pending
            &&& told == reason
        },
        event !is ResyncSent <==> due is LoadSnapshot,
        event is ResyncSent ==> due is Wait,
        event matches WatchEvent::ResyncSent { now_ms: sent } ==> fourth.gate.next_allowed_at_ms
            == sent + 200,
{
}

/// What became of an event that was handed to the client.
#[derive(Debug, Clone, Copy, PartialEq, Eq, Structural)]
pub enum SendOutcome {
    Delivered,
    Closed,
    TimedOut,
}

/// What handing a route over comes to.
pub open spec fn takes_send(outcome: SendOutcome, effect: (bool, Option<Status>)) -> bool {
    &&& effect.0 == (outcome == SendOutcome::Delivered)
    &&& match effect.1 {
        Some(status) => outcome == SendOutcome::TimedOut && status.code
            == StatusCode::ResourceExhausted && status.message@ == "watch consumer backpressure"@
            && status.details@.len() == 0,
        None => outcome != SendOutcome::TimedOut,
    }
}

/// What handing a sign of life over comes to.
pub open spec fn takes_keepalive(outcome: KeepaliveOutcome, effect: (bool, bool)) -> bool {
    effect.0 == (outcome != KeepaliveOutcome::Closed) && effect.1 == (outcome
        == KeepaliveOutcome::Full)
}

/// A watch goes on only while its routes arrive, and a client that takes none in time is told so. A
/// sign of life may be dropped; only a client that is gone ends the watch then.
pub proof fn watches_go_on_while_routes_arrive(
    outcome: SendOutcome,
    effect: (bool, Option<Status>),
    keepalive: KeepaliveOutcome,
    keepalive_effect: (bool, bool),
)
    requires
        takes_send(outcome, effect),
        takes_keepalive(keepalive, keepalive_effect),
    ensures
        effect.0 <==> outcome is Delivered,
        effect.1 is Some <==> outcome is TimedOut,
        effect.1 matches Some(status) ==> status.code.code() == 8,
        !keepalive_effect.0 <==> keepalive is Closed,
        keepalive_effect.1 <==> keepalive is Full,
{
}

/// Whether the watch goes on after a route was handed over, and what the client is told before it
/// ends for want of room.
pub fn route_send_effect(outcome: SendOutcome) -> (effect: (bool, Option<Status>))
    ensures
        takes_send(outcome, effect),
        effect.0 == (outcome == SendOutcome::Delivered),
        match effect.1 {
            Some(status) => outcome == SendOutcome::TimedOut && status.code
                == StatusCode::ResourceExhausted && status.message@
                == "watch consumer backpressure"@ && status.details@.len() == 0,
            None => outcome != SendOutcome::TimedOut,
        },
{
    match outcome {
        SendOutcome::Delivered => (true, None),
        SendOutcome::Closed => (false, None),
        SendOutcome::TimedOut => (
            false,
            Some(
                Status {
                    code: StatusCode::ResourceExhausted,
                    message: "watch consumer backpressure".to_owned(),
                    details: Vec::new(),
                },
            ),
        ),
    }
}

/// What became of a sign of life.
#[derive(Debug, Clone, Copy, PartialEq, Eq, Structural)]
pub enum KeepaliveOutcome {
    Delivered,
    Full,
    Closed,
}

/// Whether the watch goes on, and whether the sign of life was dropped. A full queue is no reason
/// to stop.
pub fn keepalive_effect(outcome: KeepaliveOutcome) -> (effect: (bool, bool))
    ensures
        takes_keepalive(outcome, effect),
        effect.0 == (outcome != KeepaliveOutcome::Closed),
        effect.1 == (outcome == KeepaliveOutcome::Full),
{
    match outcome {
        KeepaliveOutcome::Delivered => (true, false),
        KeepaliveOutcome::Full => (true, true),
        KeepaliveOutcome::Closed => (false, false),
    }
}

/// The request as the allocator gets it.
pub open spec fn hands_on(
    request: ProtoAllocateTimestampsRequest,
    normalized: (AllocateTimestampsRequest, u32),
) -> bool {
    &&& normalized.0 == (AllocateTimestampsRequest {
        timeline_key: request.timeline_key,
        count: request.count,
        expected_epoch: request.expected_epoch,
        expected_route_version: request.expected_route_version,
        client_request_id: request.client_request_id,
    })
    &&& normalized.1 == request.request_timeout_ms
}

/// The answer as the client gets it.
pub open spec fn hands_back(
    response: AllocateTimestampsResponse,
    wire: ProtoAllocateTimestampsResponse,
) -> bool {
    &&& wire.timeline_key == response.timeline_key
    &&& wire.generator_id == response.generator_id
    &&& wire.epoch == response.epoch
    &&& wire.route_version == response.route_version
    &&& route_mapping::are_wire_ranges(wire.ranges@, response.ranges@)
}

/// A request reaches the allocator, and its answer the client, with every value under its own name.
pub proof fn requests_and_answers_pass_unchanged(
    request: ProtoAllocateTimestampsRequest,
    normalized: (AllocateTimestampsRequest, u32),
    response: AllocateTimestampsResponse,
    wire: ProtoAllocateTimestampsResponse,
    i: int,
)
    requires
        hands_on(request, normalized),
        hands_back(response, wire),
    ensures
        normalized.0.timeline_key@ == request.timeline_key@,
        normalized.0.count == request.count,
        normalized.0.expected_epoch == request.expected_epoch,
        normalized.0.expected_route_version == request.expected_route_version,
        normalized.0.client_request_id@ == request.client_request_id@,
        normalized.1 == request.request_timeout_ms,
        wire.timeline_key@ == response.timeline_key@,
        wire.generator_id == response.generator_id,
        wire.epoch == response.epoch,
        wire.route_version == response.route_version,
        wire.ranges@.len() == response.ranges@.len(),
        0 <= i < wire.ranges@.len() ==> wire.ranges@[i].start_tso == response.ranges@[i].start_tso
            && wire.ranges@[i].end_tso == response.ranges@[i].end_tso,
{
}

/// The request for the allocator, and how long the client waits.
pub fn normalize_allocate_timestamps_request(request: ProtoAllocateTimestampsRequest) -> (
    normalized: (AllocateTimestampsRequest, u32))
    ensures
        hands_on(request, normalized),
        normalized.0 == (AllocateTimestampsRequest {
            timeline_key: request.timeline_key,
            count: request.count,
            expected_epoch: request.expected_epoch,
            expected_route_version: request.expected_route_version,
            client_request_id: request.client_request_id,
        }),
        normalized.1 == request.request_timeout_ms,
{
    let timeout_ms: u32 = request.request_timeout_ms;
    (
        AllocateTimestampsRequest {
            timeline_key: request.timeline_key,
            count: request.count,
            expected_epoch: request.expected_epoch,
            expected_route_version: request.expected_route_version,
            client_request_id: request.client_request_id,
        },
        timeout_ms,
    )
}

pub fn build_allocate_timestamps_response(response: AllocateTimestampsResponse) -> (wire:
    ProtoAllocateTimestampsResponse)
    ensures
        hands_back(response, wire),
        wire.timeline_key == response.timeline_key,
        wire.generator_id == response.generator_id,
        wire.epoch == response.epoch,
        wire.route_version == response.route_version,
        route_mapping::are_wire_ranges(wire.ranges@, response.ranges@),
{
    ProtoAllocateTimestampsResponse {
        timeline_key: response.timeline_key,
        generator_id: response.generator_id,
        epoch: response.epoch,
        route_version: response.route_version,
        ranges: build_timestamp_ranges(response.ranges),
    }
}

} // verus!
