//! The health that a worker reports and that its lifecycle changes.

use vstd::prelude::*;

use crate::model::HealthInfo;
use crate::rpc::proto::{ProtoWorkerReadinessReason, ProtoWorkerReadinessState};
use crate::rpc::status_mapping;
use crate::status::{WorkerReadinessReason, WorkerReadinessState, WorkerStatusIdentity, WorkerStatusSnapshot};

verus! {

/// Holds the current status of the worker.
pub struct HealthStatusHandle {
    pub inner: WorkerStatusSnapshot,
}

impl HealthStatusHandle {
    pub fn serving(health_info: &HealthInfo) -> (handle: Self)
        ensures
            handle.inner.identity.worker_id == health_info.worker_id,
            handle.inner.identity.instance_id == health_info.instance_id,
            handle.inner.identity.advertise_endpoint == health_info.advertise_endpoint,
            handle.inner.readiness_state == WorkerReadinessState::Ready,
            handle.inner.readiness_reason == WorkerReadinessReason::Serving,
            handle.inner.identity_lease_healthy,
    {
        HealthStatusHandle {
            inner: WorkerStatusSnapshot::serving(
                WorkerStatusIdentity::from_health_info(health_info),
            ),
        }
    }

    pub fn mark_shutting_down(&mut self)
        ensures
            final(self).inner == old(self).inner.degraded(WorkerReadinessReason::ShuttingDown),
    {
        self.inner.mark_shutting_down();
    }

    pub fn mark_identity_lease_lost(&mut self)
        ensures
            final(self).inner == old(self).inner.without_lease(),
            final(self).inner == (WorkerStatusSnapshot {
                identity_lease_healthy: false,
                ..old(self).inner.degraded(WorkerReadinessReason::IdentityLeaseLost)
            }),
    {
        self.inner.mark_identity_lease_lost();
    }

    pub fn mark_ownership_drift(&mut self)
        ensures
            final(self).inner == old(self).inner.degraded(WorkerReadinessReason::OwnershipDrift),
    {
        self.inner.mark_ownership_drift();
    }

    pub fn clear_ownership_drift(&mut self)
        ensures
            final(self).inner == old(self).inner.without_drift(),
            final(self).inner == if old(self).inner.readiness_reason
                == WorkerReadinessReason::OwnershipDrift {
                old(self).inner.recovered()
            } else {
                old(self).inner
            },
    {
        self.inner.clear_ownership_drift();
    }

    pub fn readiness_state(&self) -> (state: ProtoWorkerReadinessState)
        ensures
            state == status_mapping::wire_readiness_state(self.inner.readiness_state),
    {
        status_mapping::proto_worker_readiness_state(self.inner.readiness_state)
    }

    pub fn readiness_reason(&self) -> (reason: ProtoWorkerReadinessReason)
        ensures
            reason == status_mapping::wire_readiness_reason(self.inner.readiness_reason),
    {
        status_mapping::proto_worker_readiness_reason(self.inner.readiness_reason)
    }

    pub fn identity_lease_healthy(&self) -> (healthy: bool)
        ensures
            healthy == self.inner.identity_lease_healthy,
    {
        self.inner.identity_lease_healthy
    }

    pub fn snapshot(&self) -> (snapshot: WorkerStatusSnapshot)
        ensures
            snapshot == self.inner,
    {
        self.inner.clone()
    }
}

} // verus!
