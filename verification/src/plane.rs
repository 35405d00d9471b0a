//! The two faces of the service: control and data.

use std::sync::Arc;

use vstd::prelude::*;

use crate::model::HealthInfo;

verus! {

/// What a running service says of itself.
#[derive(Debug)]
pub struct TsoService {
    pub health_info: HealthInfo,
    pub max_timeline_proxy_lanes: usize,
}

/// The face for managing timelines.
pub struct TsoControlPlane {
    pub inner: Arc<TsoService>,
}

impl TsoControlPlane {
    pub fn new(inner: Arc<TsoService>) -> (plane: Self)
        ensures
            plane.inner == inner,
    {
        TsoControlPlane { inner }
    }

    pub fn advertise_endpoint(&self) -> (endpoint: &str)
        ensures
            endpoint@ == self.inner.health_info.advertise_endpoint@,
    {
        self.inner.health_info.advertise_endpoint.as_str()
    }

    pub fn health(&self) -> (health: HealthInfo)
        ensures
            health == self.inner.health_info,
    {
        self.inner.health_info.clone()
    }
}

/// The face for allocating timestamps.
pub struct TsoDataPlane {
    pub inner: Arc<TsoService>,
}

impl TsoDataPlane {
    pub fn new(inner: Arc<TsoService>) -> (plane: Self)
        ensures
            plane.inner == inner,
    {
        TsoDataPlane { inner }
    }

    pub fn health(&self) -> (health: HealthInfo)
        ensures
            health == self.inner.health_info,
    {
        self.inner.health_info.clone()
    }

    pub fn max_timeline_proxy_lanes(&self) -> (lanes: usize)
        ensures
            lanes == self.inner.max_timeline_proxy_lanes,
    {
        self.inner.max_timeline_proxy_lanes
    }
}

} // verus!
