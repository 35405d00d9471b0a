//! What holds of the messages that go over the wire, taken together.

use vstd::prelude::*;

use crate::error::TsoError;
use crate::model::{ResourceTier, TimelineLifecycleState, TimelineRoute, TimestampRange};
use crate::rpc::proto::{
    ErrorCode, ListTimelineStatusesRequest, OperatorActionBlocker, OperatorActionNextStep,
    ProtoTimelineRoute, ProtoTimelineStatus, ProtoTimestampRange, Status, StatusCode,
    TimelineRouteEvent,
};
use crate::rpc::public_mapping;
use crate::rpc::route_mapping;
use crate::rpc::status_mapping;
use crate::rpc::timeline_status_query;
use crate::rpc::timeline_status_query::{
    NormalizedTimelineStatusListRequest, TimelineStatusPageToken,
};
use crate::rpc::watch_allocate_entry;
use crate::status::{
    TimelineFailoverReadiness, TimelineStatusSnapshot, WorkerReadinessReason, WorkerReadinessState,
};

verus! {

/// The states of a timeline have the numbers one to five on the wire, and a filter reads a number
/// as the state that is written with it.
pub proof fn timeline_states_read_back(state: TimelineLifecycleState, number: i32)
    ensures
        status_mapping::wire_timeline_state(state).code() == match state {
            TimelineLifecycleState::Creating => 1i32,
            TimelineLifecycleState::Active => 2,
            TimelineLifecycleState::Draining => 3,
            TimelineLifecycleState::Locked => 4,
            TimelineLifecycleState::Recovering => 5,
        },
        timeline_status_query::state_of(number) == Some(state) <==> number
            == status_mapping::wire_timeline_state(state).code(),
        timeline_status_query::state_of(number) is Some <==> 1 <= number <= 5,
{
}

/// The tiers have the numbers one to three on the wire.
pub proof fn resource_tiers_have_their_numbers(tier: ResourceTier)
    ensures
        status_mapping::wire_resource_tier(tier).code() == match tier {
            ResourceTier::Shared => 1i32,
            ResourceTier::Warm => 2,
            ResourceTier::Dedicated => 3,
        },
{
}

/// What a worker says of its readiness is told apart on the wire.
pub proof fn readiness_is_told_apart(
    a: WorkerReadinessReason,
    b: WorkerReadinessReason,
    state: WorkerReadinessState,
)
    ensures
        status_mapping::wire_readiness_reason(a).code() == status_mapping::wire_readiness_reason(
            b,
        ).code() <==> a == b,
        status_mapping::wire_readiness_reason(a).code() == match a {
            WorkerReadinessReason::Serving => 1i32,
            WorkerReadinessReason::StartupPreflightFailed => 2,
            WorkerReadinessReason::MetadataStartupProbeFailed => 3,
            WorkerReadinessReason::IdentityLeaseAcquireFailed => 4,
            WorkerReadinessReason::IdentityLeaseLost => 5,
            WorkerReadinessReason::ShuttingDown => 6,
            WorkerReadinessReason::Draining => 7,
            WorkerReadinessReason::OwnershipDrift => 8,
        },
        status_mapping::wire_readiness_state(state).code() == match state {
            WorkerReadinessState::Ready => 1i32,
            WorkerReadinessState::Degraded => 2,
        },
{
}

/// Whether a timeline can fail over is told apart on the wire.
pub proof fn failover_readiness_is_told_apart(
    a: TimelineFailoverReadiness,
    b: TimelineFailoverReadiness,
)
    ensures
        status_mapping::wire_failover_readiness(a).code()
            == status_mapping::wire_failover_readiness(b).code() <==> a == b,
        status_mapping::wire_failover_readiness(a).code() == match a {
            TimelineFailoverReadiness::NotApplicable => 1i32,
            TimelineFailoverReadiness::Eligible => 2,
            TimelineFailoverReadiness::WaitingForLeaseExpiry => 3,
            TimelineFailoverReadiness::BlockedMissingRecoveryFloor => 4,
        },
{
}

/// A route message tells the whole route, each part in its own place: two routes with the same
/// message are the same.
pub proof fn route_messages_tell_the_route(
    wire: ProtoTimelineRoute,
    a: TimelineRoute,
    b: TimelineRoute,
    ttl: u32,
    other_ttl: u32,
)
    requires
        status_mapping::is_wire_route(wire, a, ttl),
        status_mapping::is_wire_route(wire, b, other_ttl),
    ensures
        a@ == b@,
        ttl == other_ttl,
        wire.timeline_key@ == a.timeline_key@,
        wire.owner_worker_endpoint@ == a.owner_worker_endpoint@,
        wire.generator_id == a.generator_id,
        wire.epoch == a.epoch,
        wire.route_version == a.route_version,
        wire.cache_ttl_ms == ttl,
        wire.resource_tier == 1 <==> a.resource_tier == ResourceTier::Shared,
        wire.resource_tier == 2 <==> a.resource_tier == ResourceTier::Warm,
        wire.resource_tier == 3 <==> a.resource_tier == ResourceTier::Dedicated,
{
}

/// A status message tells the whole status, each part in its own place.
pub proof fn status_messages_tell_the_status(
    wire: ProtoTimelineStatus,
    status: TimelineStatusSnapshot,
    ttl: u32,
)
    requires
        status_mapping::is_wire_status(wire, status, ttl),
    ensures
        status_mapping::is_wire_route(wire.route, status.route, ttl),
        wire.recovery_floor_tso == status.recovery_floor_tso,
        wire.issued_upper_bound == status.issued_upper_bound,
        wire.last_graceful_issued == status.last_graceful_issued,
        wire.lease_expire_at_ms == status.lease_expire_at_ms,
        wire.owner_instance_id == status.owner_instance_id,
        wire.updated_at_ms == status.updated_at_ms,
        wire.state == 1 <==> status.state == TimelineLifecycleState::Creating,
        wire.state == 2 <==> status.state == TimelineLifecycleState::Active,
        wire.state == 3 <==> status.state == TimelineLifecycleState::Draining,
        wire.state == 4 <==> status.state == TimelineLifecycleState::Locked,
        wire.state == 5 <==> status.state == TimelineLifecycleState::Recovering,
        wire.failover_readiness == 1 <==> status.failover_readiness
            == TimelineFailoverReadiness::NotApplicable,
        wire.failover_readiness == 2 <==> status.failover_readiness
            == TimelineFailoverReadiness::Eligible,
        wire.failover_readiness == 3 <==> status.failover_readiness
            == TimelineFailoverReadiness::WaitingForLeaseExpiry,
        wire.failover_readiness == 4 <==> status.failover_readiness
            == TimelineFailoverReadiness::BlockedMissingRecoveryFloor,
{
}

/// The events of a watch tell its routes one by one: none is missing, none is added, and each has
/// the place of its route.
pub proof fn route_events_tell_the_routes(
    events: Seq<TimelineRouteEvent>,
    routes: Seq<TimelineRoute>,
    ttl: u32,
    i: int,
)
    requires
        watch_allocate_entry::are_route_events(events, routes, ttl),
        0 <= i < routes.len() || 0 <= i < events.len(),
    ensures
        events.len() == routes.len(),
        events[i] matches TimelineRouteEvent::Route(wire) && {
            &&& wire.timeline_key@ == routes[i].timeline_key@
            &&& wire.route_version == routes[i].route_version
            &&& wire.epoch == routes[i].epoch
            &&& wire.generator_id == routes[i].generator_id
            &&& wire.owner_worker_endpoint@ == routes[i].owner_worker_endpoint@
            &&& wire.cache_ttl_ms == ttl
        },
{
}

/// The ranges of a response are the allocated ones: the same numbers in the same places.
pub proof fn range_messages_tell_the_ranges(
    wire: Seq<ProtoTimestampRange>,
    ranges: Seq<TimestampRange>,
    i: int,
)
    requires
        route_mapping::are_wire_ranges(wire, ranges),
        0 <= i < ranges.len() || 0 <= i < wire.len(),
    ensures
        wire.len() == ranges.len(),
        wire[i].start_tso == ranges[i].start_tso,
        wire[i].end_tso == ranges[i].end_tso,
{
}

/// Each kind of answer is given for its errors and for no others.
pub proof fn status_codes_tell_the_kind_of_error(err: TsoError)
    ensures
        ({
            let code = public_mapping::status_code(err);
            &&& code == StatusCode::NotFound <==> err is TimelineNotFound
            &&& code == StatusCode::FailedPrecondition <==> err is RouteVersionMismatch
                || err is EpochMismatch || err is FailoverRequiresExpiredLease
                || err is FailoverMissingRecoveryFloor || err is NotTimelineOwner
                || err is NotGeneratorOwner || err is GeneratorNotOwnedByThisWorker
                || err is GeneratorOwnershipMisconfigured || err is SharedGeneratorJumpAheadTooLarge
            &&& code == StatusCode::Unavailable <==> err is LeaseExpired || err is TimelineNotReady
                || err is TimelineIngressSaturated || err is TimelineRuntimeCacheSaturated
                || err is GeneratorLeaseExpired
            &&& code == StatusCode::InvalidArgument <==> err is BatchTooLarge || err is InvalidCount
                || err is TargetGeneratorIdRequired || err is InvalidResourceTier
                || err is InvalidTargetOwnerEndpoint || err is InvalidTransferReason
            &&& code == StatusCode::ResourceExhausted <==> err is FutureBorrowExceeded
                || err is IssuedUpperBoundExceeded || err is GeneratorPoolExhausted
                || err is TimelineLimitReached
            &&& code == StatusCode::OutOfRange <==> err is GeneratorIdOutOfRange
                || err is TsoOverflow
            &&& code == StatusCode::AlreadyExists <==> err is MetadataAlreadyExists
                || err is InstanceIdentityInUse
            &&& code == StatusCode::Aborted <==> err is CasFailed
            &&& code == StatusCode::DeadlineExceeded <==> err is RequestCancelled
            &&& code == StatusCode::Internal <==> err is ClockBackwards || err is Internal
        }),
{
}

/// Each kind of detail is given for its errors and for no others.
pub proof fn detail_codes_tell_the_kind_of_error(err: TsoError)
    ensures
        ({
            let code = public_mapping::detail_code(err);
            &&& code == ErrorCode::TimelineNotFound <==> err is TimelineNotFound
            &&& code == ErrorCode::RouteVersionMismatch <==> err is RouteVersionMismatch
            &&& code == ErrorCode::EpochMismatch <==> err is EpochMismatch
            &&& code == ErrorCode::LeaseExpired <==> err is LeaseExpired
                || err is GeneratorLeaseExpired
            &&& code == ErrorCode::NotTimelineOwner <==> err is NotTimelineOwner
                || err is NotGeneratorOwner || err is GeneratorNotOwnedByThisWorker
            &&& code == ErrorCode::RateLimited <==> public_mapping::status_code(err)
                == StatusCode::ResourceExhausted
            &&& code == ErrorCode::InvalidArgument <==> public_mapping::status_code(err)
                == StatusCode::InvalidArgument || public_mapping::status_code(err)
                == StatusCode::OutOfRange || err is SharedGeneratorJumpAheadTooLarge
                || err is GeneratorOwnershipMisconfigured
            &&& code == ErrorCode::Internal <==> err is ClockBackwards || err is Internal
                || err is MetadataAlreadyExists
            &&& code == ErrorCode::TemporarilyUnavailable <==> err is FailoverRequiresExpiredLease
                || err is CasFailed || err is InstanceIdentityInUse
                || err is FailoverMissingRecoveryFloor || err is TimelineIngressSaturated
                || err is TimelineRuntimeCacheSaturated || err is RequestCancelled
                || err is TimelineNotReady
        }),
{
}

/// A client can act on a detail: a mismatch tells the current number, an owner that is another one
/// is where to go, and a failover that cannot be made tells what keeps it and what to do. Where none
/// of this is so, the detail says nothing of it.
pub proof fn details_tell_what_a_client_can_act_on(err: TsoError)
    ensures
        ({
            let detail = public_mapping::detail_of(err);
            &&& detail.message == err.words()
            &&& detail.code == public_mapping::detail_code(err).code()
            &&& match err {
                TsoError::EpochMismatch { actual, .. } => detail.current_epoch == actual,
                _ => detail.current_epoch == 0,
            }
            &&& match err {
                TsoError::RouteVersionMismatch { actual, .. } => detail.current_route_version
                    == actual,
                _ => detail.current_route_version == 0,
            }
            &&& match err {
                TsoError::NotTimelineOwner { owner_worker_endpoint } => detail.redirect_endpoint
                    == owner_worker_endpoint@,
                TsoError::NotGeneratorOwner { owner_worker_endpoint, .. } =>
                    detail.redirect_endpoint == owner_worker_endpoint@,
                _ => detail.redirect_endpoint.len() == 0,
            }
            &&& detail.action_blocker == 1 <==> err is FailoverRequiresExpiredLease
            &&& detail.action_blocker == 2 <==> err is FailoverMissingRecoveryFloor
            &&& detail.action_blocker == detail.next_step
            &&& 0 <= detail.action_blocker <= 2
        }),
{
}

/// The numbers of what is told to clients and operators.
pub proof fn details_have_their_numbers(
    code: ErrorCode,
    blocker: OperatorActionBlocker,
    step: OperatorActionNextStep,
)
    ensures
        code.code() == match code {
            ErrorCode::Unspecified => 0i32,
            ErrorCode::TimelineNotFound => 1,
            ErrorCode::RouteVersionMismatch => 2,
            ErrorCode::EpochMismatch => 3,
            ErrorCode::LeaseExpired => 4,
            ErrorCode::NotTimelineOwner => 5,
            ErrorCode::InvalidArgument => 6,
            ErrorCode::RateLimited => 7,
            ErrorCode::TemporarilyUnavailable => 8,
            ErrorCode::Internal => 9,
        },
        blocker.code() == 0 <==> blocker == OperatorActionBlocker::Unspecified,
        blocker.code() == 1 <==> blocker == OperatorActionBlocker::LeaseNotExpired,
        blocker.code() == 2 <==> blocker == OperatorActionBlocker::RecoveryFloorMissing,
        step.code() == 0 <==> step == OperatorActionNextStep::Unspecified,
        step.code() == 1 <==> step == OperatorActionNextStep::WaitForLeaseExpiry,
        step.code() == 2 <==> step == OperatorActionNextStep::PersistRecoveryFloor,
{
}

/// A refused argument is told as such, with its words and nothing else.
pub proof fn refused_arguments_are_told_as_such(message: Seq<char>)
    ensures
        ({
            let detail = public_mapping::invalid_argument_detail(message);
            &&& detail.code == 6
            &&& detail.message == message
            &&& detail.current_epoch == 0 && detail.current_route_version == 0
            &&& detail.redirect_endpoint.len() == 0
            &&& detail.action_blocker == 0 && detail.next_step == 0
        }),
{
}

/// A page of statuses holds a thousand at most and one at least: as many as are asked for within
/// these bounds, and a hundred where nothing is said.
pub proof fn page_sizes_are_bounded(requested: u32)
    ensures
        1 <= timeline_status_query::page_size_of(requested) <= 1000,
        1 <= requested <= 1000 ==> timeline_status_query::page_size_of(requested) == requested,
        requested == 0 ==> timeline_status_query::page_size_of(requested) == 100,
        requested > 1000 ==> timeline_status_query::page_size_of(requested) == 1000,
{
}

/// A settled request asks for the states that the request names by their numbers, each of them
/// once, for the owner that it names, and for what comes after the key of its token.
pub proof fn settled_requests_ask_for_what_was_requested(
    settled: NormalizedTimelineStatusListRequest,
    request: ListTimelineStatusesRequest,
    token: Option<TimelineStatusPageToken>,
    state: TimelineLifecycleState,
)
    requires
        timeline_status_query::list_request_fault(request, token) is None,
        timeline_status_query::is_settled(settled, request, token),
    ensures
        settled.states@.contains(state) <==> request.states@.contains(
            status_mapping::wire_timeline_state(state).code(),
        ),
        settled.states@.no_duplicates(),
        request.states@.len() == 0 <==> settled.states@.len() == 0,
        settled.owner_worker_endpoint == request.owner_worker_endpoint,
        settled.owner_worker_endpoint matches Some(owner) ==> owner@.len() > 0,
        request.page_token@.len() == 0 <==> settled.start_after_timeline_key is None,
        settled.start_after_timeline_key matches Some(key) ==> key@.len() > 0 && (
        token matches Some(found) && key@ == found.last_timeline_key@ && found.version == 1),
        request.page_size == 0 ==> settled.page_size == 100,
        1 <= request.page_size <= 1000 ==> settled.page_size == request.page_size,
        request.page_size > 1000 ==> settled.page_size == 1000,
{
    let code = status_mapping::wire_timeline_state(state).code();
    if settled.states@.contains(state) {
        let i = choose|i: int| 0 <= i < settled.states@.len() && settled.states@[i] == state;
        assert(timeline_status_query::state_of(settled.state_codes@[i]) == Some(
            settled.states@[i],
        ));
        assert(settled.state_codes@[i] == code);
        assert(settled.state_codes@.contains(code));
    }
    if request.states@.contains(code) {
        assert(settled.state_codes@.contains(code));
        let i = choose|i: int|
            0 <= i < settled.state_codes@.len() && settled.state_codes@[i] == code;
        assert(timeline_status_query::state_of(settled.state_codes@[i]) == Some(
            settled.states@[i],
        ));
        assert(settled.states@[i] == state);
    }
    assert forall|i: int, j: int|
        0 <= i < settled.states@.len() && 0 <= j < settled.states@.len() && i
            != j implies settled.states@[i] != settled.states@[j] by {
        assert(timeline_status_query::state_of(settled.state_codes@[i]) == Some(
            settled.states@[i],
        ));
        assert(timeline_status_query::state_of(settled.state_codes@[j]) == Some(
            settled.states@[j],
        ));
        if i < j {
            assert(settled.state_codes@[i] < settled.state_codes@[j]);
        } else {
            assert(settled.state_codes@[j] < settled.state_codes@[i]);
        }
    }
    if request.states@.len() > 0 {
        assert(request.states@.contains(request.states@[0]));
        assert(settled.state_codes@.contains(request.states@[0]));
    }
    if settled.states@.len() > 0 {
        assert(settled.state_codes@.contains(settled.state_codes@[0]));
    }
}

/// A request is refused exactly where it names a number that is no state, an owner without a name,
/// or a token that was not handed out for its filter.
pub proof fn list_requests_are_refused_for_a_fault(
    request: ListTimelineStatusesRequest,
    token: Option<TimelineStatusPageToken>,
)
    ensures
        timeline_status_query::list_request_fault(request, token) is None <==> {
            &&& forall|i: int|
                0 <= i < request.states@.len() ==> 1 <= #[trigger] request.states@[i] <= 5
            &&& request.owner_worker_endpoint matches Some(owner) ==> owner@.len() > 0
            &&& request.page_token@.len() == 0 || (token matches Some(found) && {
                &&& found.version == 1
                &&& found.last_timeline_key@.len() > 0
                &&& timeline_status_query::is_code_set(found.states@, request.states@)
                &&& match (found.owner_worker_endpoint, request.owner_worker_endpoint) {
                    (Some(a), Some(b)) => a@ == b@,
                    (None, None) => true,
                    _ => false,
                }
            })
        },
{
    if exists|i: int|
        0 <= i < request.states@.len() && timeline_status_query::state_of(
            #[trigger] request.states@[i],
        ) is None {
        let i = choose|i: int|
            0 <= i < request.states@.len() && timeline_status_query::state_of(
                #[trigger] request.states@[i],
            ) is None;
        assert(!(1 <= request.states@[i] <= 5));
    } else {
        assert forall|i: int| 0 <= i < request.states@.len() implies 1
            <= #[trigger] request.states@[i] <= 5 by {
            assert(timeline_status_query::state_of(request.states@[i]) is Some);
        }
    }
}

/// A refused argument is answered as such, with the number that means so and with what is wrong.
pub proof fn refusals_say_what_is_wrong(status: Status, message: Seq<char>)
    requires
        public_mapping::is_invalid_argument(status, message)
            || timeline_status_query::is_plain_refusal(status, message),
    ensures
        status.code.code() == 3,
        status.message@ == message,
{
}

/// Every status has the number that gRPC gives it.
pub proof fn statuses_have_their_numbers(code: StatusCode)
    ensures
        code.code() == 0 <==> code == StatusCode::Success,
        code.code() == 1 <==> code == StatusCode::Cancelled,
        code.code() == 2 <==> code == StatusCode::Unknown,
        code.code() == 3 <==> code == StatusCode::InvalidArgument,
        code.code() == 4 <==> code == StatusCode::DeadlineExceeded,
        code.code() == 5 <==> code == StatusCode::NotFound,
        code.code() == 6 <==> code == StatusCode::AlreadyExists,
        code.code() == 7 <==> code == StatusCode::PermissionDenied,
        code.code() == 8 <==> code == StatusCode::ResourceExhausted,
        code.code() == 9 <==> code == StatusCode::FailedPrecondition,
        code.code() == 10 <==> code == StatusCode::Aborted,
        code.code() == 11 <==> code == StatusCode::OutOfRange,
        code.code() == 12 <==> code == StatusCode::Unimplemented,
        code.code() == 13 <==> code == StatusCode::Internal,
        code.code() == 14 <==> code == StatusCode::Unavailable,
        code.code() == 15 <==> code == StatusCode::DataLoss,
        code.code() == 16 <==> code == StatusCode::Unauthenticated,
        0 <= code.code() <= 16,
{
}

} // verus!
