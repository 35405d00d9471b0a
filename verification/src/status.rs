//! The status of a worker and of its timelines.

use vstd::prelude::*;

use crate::model::{HealthInfo, TimelineLifecycleState, TimelineRoute};

verus! {

#[derive(Debug, Clone, Copy, PartialEq, Eq, Structural)]
pub enum WorkerReadinessState {
    Ready,
    Degraded,
}

#[derive(Debug, Clone, Copy, PartialEq, Eq, Structural)]
pub enum WorkerReadinessReason {
    Serving,
    StartupPreflightFailed,
    MetadataStartupProbeFailed,
    IdentityLeaseAcquireFailed,
    IdentityLeaseLost,
    ShuttingDown,
    Draining,
    OwnershipDrift,
}

#[derive(Debug, PartialEq, Eq)]
pub struct WorkerStatusIdentity {
    pub worker_id: String,
    pub instance_id: String,
    pub advertise_endpoint: String,
}

impl Clone for WorkerStatusIdentity {
    fn clone(&self) -> (copy: Self)
        ensures
            copy == *self,
    {
        WorkerStatusIdentity {
            worker_id: self.worker_id.clone(),
            instance_id: self.instance_id.clone(),
            advertise_endpoint: self.advertise_endpoint.clone(),
        }
    }
}

impl WorkerStatusIdentity {
    /// The identity that a health report names.
    pub fn from_health_info(health_info: &HealthInfo) -> (identity: Self)
        ensures
            identity.worker_id == health_info.worker_id,
            identity.instance_id == health_info.instance_id,
            identity.advertise_endpoint == health_info.advertise_endpoint,
    {
        WorkerStatusIdentity {
            worker_id: health_info.worker_id.clone(),
            instance_id: health_info.instance_id.clone(),
            advertise_endpoint: health_info.advertise_endpoint.clone(),
        }
    }
}

/// What a worker says of itself.
#[derive(Debug, PartialEq, Eq)]
pub struct WorkerStatusSnapshot {
    pub identity: WorkerStatusIdentity,
    pub readiness_state: WorkerReadinessState,
    pub readiness_reason: WorkerReadinessReason,
    pub identity_lease_healthy: bool,
}

impl Clone for WorkerStatusSnapshot {
    fn clone(&self) -> (copy: Self)
        ensures
            copy == *self,
    {
        WorkerStatusSnapshot {
            identity: self.identity.clone(),
            readiness_state: self.readiness_state,
            readiness_reason: self.readiness_reason,
            identity_lease_healthy: self.identity_lease_healthy,
        }
    }
}

impl WorkerStatusSnapshot {
    /// The same worker, degraded for a reason.
    pub open spec fn degraded(self, reason: WorkerReadinessReason) -> WorkerStatusSnapshot {
        WorkerStatusSnapshot {
            readiness_state: WorkerReadinessState::Degraded,
            readiness_reason: reason,
            ..self
        }
    }

    /// The same worker, ready and serving.
    pub open spec fn recovered(self) -> WorkerStatusSnapshot {
        WorkerStatusSnapshot {
            readiness_state: WorkerReadinessState::Ready,
            readiness_reason: WorkerReadinessReason::Serving,
            ..self
        }
    }

    /// The same worker after its identity lease was lost.
    pub open spec fn without_lease(self) -> WorkerStatusSnapshot {
        WorkerStatusSnapshot {
            identity_lease_healthy: false,
            ..self.degraded(WorkerReadinessReason::IdentityLeaseLost)
        }
    }

    /// The same worker once an ownership drift is taken back.
    pub open spec fn without_drift(self) -> WorkerStatusSnapshot {
        if self.readiness_reason == WorkerReadinessReason::OwnershipDrift {
            self.recovered()
        } else {
            self
        }
    }

    pub fn serving(identity: WorkerStatusIdentity) -> (snapshot: Self)
        ensures
            snapshot == (WorkerStatusSnapshot {
                identity,
                readiness_state: WorkerReadinessState::Ready,
                readiness_reason: WorkerReadinessReason::Serving,
                identity_lease_healthy: true,
            }),
    {
        WorkerStatusSnapshot {
            identity,
            readiness_state: WorkerReadinessState::Ready,
            readiness_reason: WorkerReadinessReason::Serving,
            identity_lease_healthy: true,
        }
    }

    pub fn mark_shutting_down(&mut self)
        ensures
            *final(self) == old(self).degraded(WorkerReadinessReason::ShuttingDown),
    {
        self.readiness_state = WorkerReadinessState::Degraded;
        self.readiness_reason = WorkerReadinessReason::ShuttingDown;
    }

    pub fn mark_identity_lease_lost(&mut self)
        ensures
            *final(self) == old(self).without_lease(),
            *final(self) == (WorkerStatusSnapshot {
                identity_lease_healthy: false,
                ..old(self).degraded(WorkerReadinessReason::IdentityLeaseLost)
            }),
    {
        self.readiness_state = WorkerReadinessState::Degraded;
        self.readiness_reason = WorkerReadinessReason::IdentityLeaseLost;
        self.identity_lease_healthy = false;
    }

    pub fn mark_ownership_drift(&mut self)
        ensures
            *final(self) == old(self).degraded(WorkerReadinessReason::OwnershipDrift),
    {
        self.readiness_state = WorkerReadinessState::Degraded;
        self.readiness_reason = WorkerReadinessReason::OwnershipDrift;
    }

    /// Takes an ownership drift back; any other reason stays.
    pub fn clear_ownership_drift(&mut self)
        ensures
            *final(self) == old(self).without_drift(),
            *final(self) == if old(self).readiness_reason == WorkerReadinessReason::OwnershipDrift {
                old(self).recovered()
            } else {
                *old(self)
            },
    {
        if self.readiness_reason == WorkerReadinessReason::OwnershipDrift {
            self.readiness_state = WorkerReadinessState::Ready;
            self.readiness_reason = WorkerReadinessReason::Serving;
        }
    }
}

/// Clearing an ownership drift right after it was marked brings a serving worker back to where it
/// was.
pub proof fn clearing_a_drift_restores_a_serving_worker(snapshot: WorkerStatusSnapshot)
    requires
        snapshot.readiness_state == WorkerReadinessState::Ready,
        snapshot.readiness_reason == WorkerReadinessReason::Serving,
    ensures
        snapshot.degraded(WorkerReadinessReason::OwnershipDrift).recovered() == snapshot,
{
}

/// A drift is the only thing that is taken back: a worker that is degraded for another reason stays
/// so. A worker that lost its lease says so, and does not come back by itself.
pub proof fn only_a_drift_is_taken_back(snapshot: WorkerStatusSnapshot)
    ensures
        snapshot.readiness_reason == WorkerReadinessReason::OwnershipDrift ==> {
            &&& snapshot.without_drift().readiness_state == WorkerReadinessState::Ready
            &&& snapshot.without_drift().readiness_reason == WorkerReadinessReason::Serving
        },
        snapshot.readiness_reason != WorkerReadinessReason::OwnershipDrift
            ==> snapshot.without_drift() == snapshot,
        snapshot.without_drift().identity == snapshot.identity,
        snapshot.without_drift().identity_lease_healthy == snapshot.identity_lease_healthy,
        ({
            let lost = snapshot.without_lease();
            &&& lost.readiness_state == WorkerReadinessState::Degraded
            &&& lost.readiness_reason == WorkerReadinessReason::IdentityLeaseLost
            &&& !lost.identity_lease_healthy
            &&& lost.identity == snapshot.identity
            &&& lost.without_drift() == lost
        }),
{
}

/// A worker that is degraded for a reason says so, and a recovered one serves again. Who the worker
/// is and whether its lease is healthy stay what they were.
pub proof fn readiness_changes_nothing_else(
    snapshot: WorkerStatusSnapshot,
    reason: WorkerReadinessReason,
)
    ensures
        ({
            let worse = snapshot.degraded(reason);
            let better = snapshot.recovered();
            &&& worse.readiness_state == WorkerReadinessState::Degraded
            &&& worse.readiness_reason == reason
            &&& better.readiness_state == WorkerReadinessState::Ready
            &&& better.readiness_reason == WorkerReadinessReason::Serving
            &&& worse.identity == snapshot.identity && better.identity == snapshot.identity
            &&& worse.identity_lease_healthy == snapshot.identity_lease_healthy
            &&& better.identity_lease_healthy == snapshot.identity_lease_healthy
        }),
{
}

#[derive(Debug, Clone, Copy, PartialEq, Eq, Structural)]
pub enum TimelineFailoverReadiness {
    NotApplicable,
    Eligible,
    WaitingForLeaseExpiry,
    BlockedMissingRecoveryFloor,
}

/// What is known of a timeline.
#[derive(Debug, PartialEq, Eq)]
pub struct TimelineStatusSnapshot {
    pub route: TimelineRoute,
    pub state: TimelineLifecycleState,
    pub recovery_floor_tso: Option<u64>,
    pub issued_upper_bound: Option<u64>,
    pub last_graceful_issued: Option<u64>,
    pub lease_expire_at_ms: Option<u64>,
    pub owner_instance_id: Option<String>,
    pub updated_at_ms: u64,
    pub failover_readiness: TimelineFailoverReadiness,
}

/// A page of timeline statuses, and the key to go on from when more follow.
#[derive(Debug, PartialEq, Eq)]
pub struct TimelineStatusListPage {
    pub statuses: Vec<TimelineStatusSnapshot>,
    pub next_start_after: Option<String>,
}

} // verus!
