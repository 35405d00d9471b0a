//! Worker and timeline status as wire messages.

use vstd::prelude::*;

use crate::model::{ResourceTier, TimelineLifecycleState, TimelineRoute};
use crate::recovery::{duration_since_unix_epoch_or_zero, RecoveryReason, SinceEpoch};
use crate::rpc::proto::{
    GetTimelineStatusResponse, HealthResponse, ListTimelineStatusesResponse, ProtoResourceTier,
    ProtoTimelineFailoverReadiness, ProtoTimelineRoute, ProtoTimelineState, ProtoTimelineStatus,
    ProtoWorkerReadinessReason, ProtoWorkerReadinessState, ServerTime,
};
use crate::status::{
    TimelineFailoverReadiness, TimelineStatusSnapshot, WorkerReadinessReason, WorkerReadinessState,
    WorkerStatusSnapshot,
};

verus! {

pub open spec fn wire_readiness_state(state: WorkerReadinessState) -> ProtoWorkerReadinessState {
    match state {
        WorkerReadinessState::Ready => ProtoWorkerReadinessState::Ready,
        WorkerReadinessState::Degraded => ProtoWorkerReadinessState::Degraded,
    }
}

pub fn proto_worker_readiness_state(state: WorkerReadinessState) -> (wire:
    ProtoWorkerReadinessState)
    ensures
        wire == wire_readiness_state(state),
{
    match state {
        WorkerReadinessState::Ready => ProtoWorkerReadinessState::Ready,
        WorkerReadinessState::Degraded => ProtoWorkerReadinessState::Degraded,
    }
}

pub open spec fn wire_readiness_reason(
    reason: WorkerReadinessReason,
) -> ProtoWorkerReadinessReason {
    match reason {
        WorkerReadinessReason::Serving => ProtoWorkerReadinessReason::Serving,
        WorkerReadinessReason::StartupPreflightFailed =>
            ProtoWorkerReadinessReason::StartupPreflightFailed,
        WorkerReadinessReason::MetadataStartupProbeFailed =>
            ProtoWorkerReadinessReason::MetadataStartupProbeFailed,
        WorkerReadinessReason::IdentityLeaseAcquireFailed =>
            ProtoWorkerReadinessReason::IdentityLeaseAcquireFailed,
        WorkerReadinessReason::IdentityLeaseLost => ProtoWorkerReadinessReason::IdentityLeaseLost,
        WorkerReadinessReason::ShuttingDown => ProtoWorkerReadinessReason::ShuttingDown,
        WorkerReadinessReason::Draining => ProtoWorkerReadinessReason::Draining,
        WorkerReadinessReason::OwnershipDrift => ProtoWorkerReadinessReason::OwnershipDrift,
    }
}

pub fn proto_worker_readiness_reason(reason: WorkerReadinessReason) -> (wire:
    ProtoWorkerReadinessReason)
    ensures
        wire == wire_readiness_reason(reason),
{
    match reason {
        WorkerReadinessReason::Serving => ProtoWorkerReadinessReason::Serving,
        WorkerReadinessReason::StartupPreflightFailed => {
            ProtoWorkerReadinessReason::StartupPreflightFailed
        },
        WorkerReadinessReason::MetadataStartupProbeFailed => {
            ProtoWorkerReadinessReason::MetadataStartupProbeFailed
        },
        WorkerReadinessReason::IdentityLeaseAcquireFailed => {
            ProtoWorkerReadinessReason::IdentityLeaseAcquireFailed
        },
        WorkerReadinessReason::IdentityLeaseLost => ProtoWorkerReadinessReason::IdentityLeaseLost,
        WorkerReadinessReason::ShuttingDown => ProtoWorkerReadinessReason::ShuttingDown,
        WorkerReadinessReason::Draining => ProtoWorkerReadinessReason::Draining,
        WorkerReadinessReason::OwnershipDrift => ProtoWorkerReadinessReason::OwnershipDrift,
    }
}

pub open spec fn wire_resource_tier(resource_tier: ResourceTier) -> ProtoResourceTier {
    match resource_tier {
        ResourceTier::Shared => ProtoResourceTier::Shared,
        ResourceTier::Warm => ProtoResourceTier::Warm,
        ResourceTier::Dedicated => ProtoResourceTier::Dedicated,
    }
}

pub fn proto_resource_tier(resource_tier: ResourceTier) -> (number: i32)
    ensures
        number == wire_resource_tier(resource_tier).code(),
{
    match resource_tier {
        ResourceTier::Shared => ProtoResourceTier::Shared.number(),
        ResourceTier::Warm => ProtoResourceTier::Warm.number(),
        ResourceTier::Dedicated => ProtoResourceTier::Dedicated.number(),
    }
}

pub open spec fn wire_timeline_state(state: TimelineLifecycleState) -> ProtoTimelineState {
    match state {
        TimelineLifecycleState::Creating => ProtoTimelineState::Creating,
        TimelineLifecycleState::Active => ProtoTimelineState::Active,
        TimelineLifecycleState::Draining => ProtoTimelineState::Draining,
        TimelineLifecycleState::Locked => ProtoTimelineState::Locked,
        TimelineLifecycleState::Recovering => ProtoTimelineState::Recovering,
    }
}

pub fn proto_timeline_state(state: TimelineLifecycleState) -> (number: i32)
    ensures
        number == wire_timeline_state(state).code(),
{
    match state {
        TimelineLifecycleState::Creating => ProtoTimelineState::Creating.number(),
        TimelineLifecycleState::Active => ProtoTimelineState::Active.number(),
        TimelineLifecycleState::Draining => ProtoTimelineState::Draining.number(),
        TimelineLifecycleState::Locked => ProtoTimelineState::Locked.number(),
        TimelineLifecycleState::Recovering => ProtoTimelineState::Recovering.number(),
    }
}

pub open spec fn wire_failover_readiness(readiness: TimelineFailoverReadiness) ->
    ProtoTimelineFailoverReadiness {
    match readiness {
        TimelineFailoverReadiness::NotApplicable => ProtoTimelineFailoverReadiness::NotApplicable,
        TimelineFailoverReadiness::Eligible => ProtoTimelineFailoverReadiness::Eligible,
        TimelineFailoverReadiness::WaitingForLeaseExpiry =>
            ProtoTimelineFailoverReadiness::WaitingForLeaseExpiry,
        TimelineFailoverReadiness::BlockedMissingRecoveryFloor =>
            ProtoTimelineFailoverReadiness::BlockedMissingRecoveryFloor,
    }
}

pub fn proto_timeline_failover_readiness(readiness: TimelineFailoverReadiness) -> (wire:
    ProtoTimelineFailoverReadiness)
    ensures
        wire == wire_failover_readiness(readiness),
{
    match readiness {
        TimelineFailoverReadiness::NotApplicable => ProtoTimelineFailoverReadiness::NotApplicable,
        TimelineFailoverReadiness::Eligible => ProtoTimelineFailoverReadiness::Eligible,
        TimelineFailoverReadiness::WaitingForLeaseExpiry => {
            ProtoTimelineFailoverReadiness::WaitingForLeaseExpiry
        },
        TimelineFailoverReadiness::BlockedMissingRecoveryFloor => {
            ProtoTimelineFailoverReadiness::BlockedMissingRecoveryFloor
        },
    }
}

/// The message says of the route what the route says, and how long it may be cached.
pub open spec fn is_wire_route(
    wire: ProtoTimelineRoute,
    route: TimelineRoute,
    cache_ttl_ms: u32,
) -> bool {
    &&& wire.timeline_key@ == route.timeline_key@
    &&& wire.generator_id == route.generator_id
    &&& wire.owner_worker_endpoint@ == route.owner_worker_endpoint@
    &&& wire.epoch == route.epoch
    &&& wire.route_version == route.route_version
    &&& wire.resource_tier == wire_resource_tier(route.resource_tier).code()
    &&& wire.cache_ttl_ms == cache_ttl_ms
}

pub fn proto_timeline_route(route: TimelineRoute, route_cache_ttl_ms: u32) -> (wire:
    ProtoTimelineRoute)
    ensures
        is_wire_route(wire, route, route_cache_ttl_ms),
{
    ProtoTimelineRoute {
        timeline_key: route.timeline_key,
        generator_id: route.generator_id,
        owner_worker_endpoint: route.owner_worker_endpoint,
        epoch: route.epoch,
        route_version: route.route_version,
        resource_tier: proto_resource_tier(route.resource_tier),
        cache_ttl_ms: route_cache_ttl_ms,
    }
}

/// What clients are told of the time.
pub open spec fn tells_time(
    since_epoch: Option<SinceEpoch>,
    told: (ServerTime, Option<RecoveryReason>),
) -> bool {
    told == match since_epoch {
        Some(elapsed) => (
            ServerTime { seconds: elapsed.seconds as i64, nanos: 0 },
            None::<RecoveryReason>,
        ),
        None => (
            ServerTime { seconds: 0, nanos: 0 },
            Some(RecoveryReason::SystemTimeBeforeUnixEpoch),
        ),
    }
}

/// What a health request is answered.
pub open spec fn tells_health(
    worker_status: WorkerStatusSnapshot,
    server_time: ServerTime,
    build: BuildInfo,
    response: HealthResponse,
) -> bool {
    &&& response.service@ == "chronos"@
    &&& response.instance_id == worker_status.identity.instance_id
    &&& response.server_time == server_time
    &&& response.worker_id == worker_status.identity.worker_id
    &&& response.advertise_endpoint == worker_status.identity.advertise_endpoint
    &&& response.readiness_state == wire_readiness_state(worker_status.readiness_state).code()
    &&& response.readiness_reason == wire_readiness_reason(worker_status.readiness_reason).code()
    &&& response.identity_lease_healthy == worker_status.identity_lease_healthy
    &&& response.build_version == build.build_version
    &&& response.build_commit == build.build_commit
    &&& response.mixed_version_contract_id == build.mixed_version_contract_id
}

/// Clients are told the whole seconds of a clock that stands after the epoch, and the epoch itself
/// otherwise, which is reported.
pub proof fn times_are_told_in_whole_seconds(
    since_epoch: Option<SinceEpoch>,
    told: (ServerTime, Option<RecoveryReason>),
)
    requires
        tells_time(since_epoch, told),
    ensures
        told.0.nanos == 0,
        told.1 is Some <==> since_epoch is None,
        since_epoch is None ==> told.0.seconds == 0,
        since_epoch matches Some(elapsed) ==> (elapsed.seconds <= i64::MAX ==> told.0.seconds
            == elapsed.seconds),
{
}

/// A health report tells who the worker is, how it is and which build it runs, each under its own
/// name.
pub proof fn health_reports_tell_the_worker(
    worker_status: WorkerStatusSnapshot,
    server_time: ServerTime,
    build: BuildInfo,
    response: HealthResponse,
)
    requires
        tells_health(worker_status, server_time, build, response),
    ensures
        response.worker_id@ == worker_status.identity.worker_id@,
        response.instance_id@ == worker_status.identity.instance_id@,
        response.advertise_endpoint@ == worker_status.identity.advertise_endpoint@,
        response.identity_lease_healthy <==> worker_status.identity_lease_healthy,
        response.readiness_state == 1 <==> worker_status.readiness_state
            == WorkerReadinessState::Ready,
        response.readiness_state == 2 <==> worker_status.readiness_state
            == WorkerReadinessState::Degraded,
        response.readiness_reason == wire_readiness_reason(worker_status.readiness_reason).code(),
        response.service@ == "chronos"@,
        response.server_time == server_time,
        response.build_version@ == build.build_version@,
        response.build_commit@ == build.build_commit@,
        response.mixed_version_contract_id@ == build.mixed_version_contract_id@,
{
}

/// The time that is told to clients: whole seconds, and the epoch itself where the clock stands
/// before it, which is reported.
pub fn current_timestamp_from(since_epoch: Option<SinceEpoch>) -> (told: (
    ServerTime,
    Option<RecoveryReason>,
))
    ensures
        tells_time(since_epoch, told),
        told == match since_epoch {
            Some(elapsed) => (
                ServerTime { seconds: elapsed.seconds as i64, nanos: 0 },
                None::<RecoveryReason>,
            ),
            None => (
                ServerTime { seconds: 0, nanos: 0 },
                Some(RecoveryReason::SystemTimeBeforeUnixEpoch),
            ),
        },
{
    let (elapsed, recovery) = duration_since_unix_epoch_or_zero(since_epoch);
    (ServerTime { seconds: #[verifier::truncate] (elapsed.seconds as i64), nanos: 0 }, recovery)
}

/// Which build answers.
pub struct BuildInfo {
    pub build_version: String,
    pub build_commit: String,
    pub mixed_version_contract_id: String,
}

pub fn health_response(
    worker_status: WorkerStatusSnapshot,
    server_time: ServerTime,
    build: BuildInfo,
) -> (response: HealthResponse)
    ensures
        tells_health(worker_status, server_time, build, response),
        response.service@ == "chronos"@,
        response.instance_id == worker_status.identity.instance_id,
        response.server_time == server_time,
        response.worker_id == worker_status.identity.worker_id,
        response.advertise_endpoint == worker_status.identity.advertise_endpoint,
        response.readiness_state == wire_readiness_state(worker_status.readiness_state).code(),
        response.readiness_reason == wire_readiness_reason(worker_status.readiness_reason).code(),
        response.identity_lease_healthy == worker_status.identity_lease_healthy,
        response.build_version == build.build_version,
        response.build_commit == build.build_commit,
        response.mixed_version_contract_id == build.mixed_version_contract_id,
{
    HealthResponse {
        service: "chronos".to_owned(),
        instance_id: worker_status.identity.instance_id,
        server_time,
        worker_id: worker_status.identity.worker_id,
        advertise_endpoint: worker_status.identity.advertise_endpoint,
        readiness_state: proto_worker_readiness_state(worker_status.readiness_state).number(),
        readiness_reason: proto_worker_readiness_reason(worker_status.readiness_reason).number(),
        identity_lease_healthy: worker_status.identity_lease_healthy,
        build_version: build.build_version,
        build_commit: build.build_commit,
        mixed_version_contract_id: build.mixed_version_contract_id,
    }
}

/// The message says of the timeline what the snapshot says.
pub open spec fn is_wire_status(
    wire: ProtoTimelineStatus,
    status: TimelineStatusSnapshot,
    cache_ttl_ms: u32,
) -> bool {
    &&& is_wire_route(wire.route, status.route, cache_ttl_ms)
    &&& wire.state == wire_timeline_state(status.state).code()
    &&& wire.recovery_floor_tso == status.recovery_floor_tso
    &&& wire.issued_upper_bound == status.issued_upper_bound
    &&& wire.last_graceful_issued == status.last_graceful_issued
    &&& wire.lease_expire_at_ms == status.lease_expire_at_ms
    &&& wire.owner_instance_id == status.owner_instance_id
    &&& wire.updated_at_ms == status.updated_at_ms
    &&& wire.failover_readiness == wire_failover_readiness(status.failover_readiness).code()
}

pub fn proto_timeline_status(status: TimelineStatusSnapshot, route_cache_ttl_ms: u32) -> (wire:
    ProtoTimelineStatus)
    ensures
        is_wire_status(wire, status, route_cache_ttl_ms),
{
    ProtoTimelineStatus {
        route: proto_timeline_route(status.route, route_cache_ttl_ms),
        state: proto_timeline_state(status.state),
        recovery_floor_tso: status.recovery_floor_tso,
        issued_upper_bound: status.issued_upper_bound,
        last_graceful_issued: status.last_graceful_issued,
        lease_expire_at_ms: status.lease_expire_at_ms,
        owner_instance_id: status.owner_instance_id,
        updated_at_ms: status.updated_at_ms,
        failover_readiness: proto_timeline_failover_readiness(status.failover_readiness).number(),
    }
}

pub fn get_timeline_status_response(
    status: TimelineStatusSnapshot,
    route_cache_ttl_ms: u32,
) -> (response: GetTimelineStatusResponse)
    ensures
        is_wire_status(response.status, status, route_cache_ttl_ms),
{
    GetTimelineStatusResponse { status: proto_timeline_status(status, route_cache_ttl_ms) }
}

pub fn list_timeline_statuses_response(
    statuses: Vec<TimelineStatusSnapshot>,
    next_page_token: String,
    route_cache_ttl_ms: u32,
) -> (response: ListTimelineStatusesResponse)
    ensures
        response.statuses@.len() == statuses@.len(),
        forall|i: int|
            0 <= i < statuses@.len() ==> is_wire_status(
                #[trigger] response.statuses@[i],
                statuses@[i],
                route_cache_ttl_ms,
            ),
        response.next_page_token == next_page_token,
{
    let ghost all = statuses@;
    let mut rest = statuses;
    let mut reversed: Vec<ProtoTimelineStatus> = Vec::new();
    while rest.len() > 0
        invariant
            rest@.len() + reversed@.len() == all.len(),
            rest@ == all.take(rest@.len() as int),
            forall|k: int|
                0 <= k < reversed@.len() ==> is_wire_status(
                    #[trigger] reversed@[k],
                    all[all.len() - 1 - k],
                    route_cache_ttl_ms,
                ),
        decreases rest@.len(),
    {
        if let Some(status) = rest.pop() {
            assert(rest@ =~= all.take(rest@.len() as int));
            reversed.push(proto_timeline_status(status, route_cache_ttl_ms));
        }
    }
    let mut wire: Vec<ProtoTimelineStatus> = Vec::new();
    let ghost back = reversed@;
    while reversed.len() > 0
        invariant
            back.len() == all.len(),
            reversed@.len() + wire@.len() == back.len(),
            reversed@ == back.take(reversed@.len() as int),
            forall|k: int|
                0 <= k < back.len() ==> is_wire_status(
                    #[trigger] back[k],
                    all[all.len() - 1 - k],
                    route_cache_ttl_ms,
                ),
            forall|k: int|
                0 <= k < wire@.len() ==> is_wire_status(
                    #[trigger] wire@[k],
                    all[k],
                    route_cache_ttl_ms,
                ),
        decreases reversed@.len(),
    {
        let ghost at = reversed@.len() - 1;
        assert(reversed@[at] == back[at]);
        if let Some(status) = reversed.pop() {
            assert(reversed@ =~= back.take(reversed@.len() as int));
            wire.push(status);
        }
    }
    ListTimelineStatusesResponse { statuses: wire, next_page_token }
}

} // verus!
