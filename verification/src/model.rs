//! Routes, lifecycle states and the allocation requests of the service.

use vstd::prelude::*;
use vstd::std_specs::cmp::PartialEqSpecImpl;

verus! {

#[derive(Debug, Clone, Copy, PartialEq, Eq, Structural)]
pub enum ResourceTier {
    Shared,
    Warm,
    Dedicated,
}

#[derive(Debug, Clone, Copy, PartialEq, Eq, Structural)]
pub enum TimelineLifecycleState {
    Creating,
    Active,
    Draining,
    Locked,
    Recovering,
}

impl TimelineLifecycleState {
    /// The name of the state.
    pub open spec fn name(self) -> Seq<char> {
        match self {
            TimelineLifecycleState::Creating => "Creating"@,
            TimelineLifecycleState::Active => "Active"@,
            TimelineLifecycleState::Draining => "Draining"@,
            TimelineLifecycleState::Locked => "Locked"@,
            TimelineLifecycleState::Recovering => "Recovering"@,
        }
    }

    pub fn as_str(&self) -> (text: &'static str)
        ensures
            text@ == self.name(),
    {
        match self {
            TimelineLifecycleState::Creating => "Creating",
            TimelineLifecycleState::Active => "Active",
            TimelineLifecycleState::Draining => "Draining",
            TimelineLifecycleState::Locked => "Locked",
            TimelineLifecycleState::Recovering => "Recovering",
        }
    }
}

#[derive(Debug, Clone, Copy, PartialEq, Eq, Structural)]
pub enum TransferReason {
    Rebalance,
    Hotspot,
    Failover,
    Manual,
}

/// Consecutive timestamps, both ends included.
#[derive(Debug, Clone, Copy, PartialEq, Eq, Structural)]
pub struct TimestampRange {
    pub start_tso: u64,
    pub end_tso: u64,
}

/// Where a timeline is served.
#[derive(Debug, Eq)]
pub struct TimelineRoute {
    pub timeline_key: String,
    pub generator_id: u32,
    pub owner_worker_endpoint: String,
    pub epoch: u64,
    pub route_version: u64,
    pub resource_tier: ResourceTier,
}

/// The content of a route.
pub struct RouteView {
    pub timeline_key: Seq<char>,
    pub generator_id: u32,
    pub owner_worker_endpoint: Seq<char>,
    pub epoch: u64,
    pub route_version: u64,
    pub resource_tier: ResourceTier,
}

impl View for TimelineRoute {
    type V = RouteView;

    open spec fn view(&self) -> RouteView {
        RouteView {
            timeline_key: self.timeline_key@,
            generator_id: self.generator_id,
            owner_worker_endpoint: self.owner_worker_endpoint@,
            epoch: self.epoch,
            route_version: self.route_version,
            resource_tier: self.resource_tier,
        }
    }
}

impl Clone for TimelineRoute {
    fn clone(&self) -> (copy: Self)
        ensures
            copy == *self,
    {
        TimelineRoute {
            timeline_key: self.timeline_key.clone(),
            generator_id: self.generator_id,
            owner_worker_endpoint: self.owner_worker_endpoint.clone(),
            epoch: self.epoch,
            route_version: self.route_version,
            resource_tier: self.resource_tier,
        }
    }
}

impl PartialEq for TimelineRoute {
    fn eq(&self, other: &Self) -> (same: bool) {
        self.timeline_key == other.timeline_key && self.generator_id == other.generator_id
            && self.owner_worker_endpoint == other.owner_worker_endpoint && self.epoch
            == other.epoch && self.route_version == other.route_version && self.resource_tier
            == other.resource_tier
    }
}

impl PartialEqSpecImpl for TimelineRoute {
    open spec fn obeys_eq_spec() -> bool {
        true
    }

    open spec fn eq_spec(&self, other: &Self) -> bool {
        self@ == other@
    }
}

/// A request for timestamps of one timeline.
#[derive(Debug, PartialEq, Eq)]
pub struct AllocateTimestampsRequest {
    pub timeline_key: String,
    pub count: u32,
    pub expected_epoch: u64,
    pub expected_route_version: u64,
    pub client_request_id: String,
}

/// The timestamps that answer a request.
#[derive(Debug, PartialEq, Eq)]
pub struct AllocateTimestampsResponse {
    pub timeline_key: String,
    pub generator_id: u32,
    pub epoch: u64,
    pub route_version: u64,
    pub ranges: Vec<TimestampRange>,
}

/// What a worker reports about itself.
#[derive(Debug, PartialEq, Eq)]
pub struct HealthInfo {
    pub generator_count: u32,
    pub timeline_count: usize,
    pub worker_id: String,
    pub instance_id: String,
    pub advertise_endpoint: String,
}

impl Clone for HealthInfo {
    fn clone(&self) -> (copy: Self)
        ensures
            copy == *self,
    {
        HealthInfo {
            generator_count: self.generator_count,
            timeline_count: self.timeline_count,
            worker_id: self.worker_id.clone(),
            instance_id: self.instance_id.clone(),
            advertise_endpoint: self.advertise_endpoint.clone(),
        }
    }
}

} // verus!
