//! What the route and timestamp services read and write.

use vstd::prelude::*;

use crate::error::TsoError;
use crate::model::{AllocateTimestampsResponse, ResourceTier, TimelineRoute, TimestampRange};
use crate::rpc::proto::{
    ProtoAllocateTimestampsResponse, ProtoResourceTier, ProtoTimelineRoute, ProtoTimestampRange,
    Status,
};
use crate::rpc::public_mapping;
use crate::rpc::public_mapping::map_tso_error;
use crate::rpc::route_mapping;
use crate::rpc::route_mapping::build_timestamp_ranges;
use crate::rpc::status_mapping;
use crate::rpc::status_mapping::proto_timeline_route;
use crate::rpc::translation;
use crate::rpc::translation::{map_timeline_proxy_error, TimelineProxyError};

verus! {

/// The tier that a number on the wire stands for. No tier has the number of another, and zero
/// stands for none.
pub fn decode_resource_tier(resource_tier: i32) -> (decoded: Result<ResourceTier, TsoError>)
    ensures
        match decoded {
            Ok(tier) => status_mapping::wire_resource_tier(tier).code() == resource_tier,
            Err(error) => error == (TsoError::InvalidResourceTier { value: resource_tier }) && (
            forall|tier: ResourceTier| (#[trigger] status_mapping::wire_resource_tier(tier)).code()
                != resource_tier),
        },
{
    match ProtoResourceTier::from_number(resource_tier) {
        Some(ProtoResourceTier::Shared) => Ok(ResourceTier::Shared),
        Some(ProtoResourceTier::Warm) => Ok(ResourceTier::Warm),
        Some(ProtoResourceTier::Dedicated) => Ok(ResourceTier::Dedicated),
        Some(ProtoResourceTier::Unspecified) => {
            Err(TsoError::InvalidResourceTier { value: resource_tier })
        },
        None => Err(TsoError::InvalidResourceTier { value: resource_tier }),
    }
}

/// A tier that is written and read again is the same tier.
pub proof fn resource_tiers_read_back(a: ResourceTier, b: ResourceTier)
    requires
        status_mapping::wire_resource_tier(a).code() == status_mapping::wire_resource_tier(
            b,
        ).code(),
    ensures
        a == b,
{
}

pub fn proto_timestamp_ranges(ranges: Vec<TimestampRange>) -> (wire: Vec<ProtoTimestampRange>)
    ensures
        route_mapping::are_wire_ranges(wire@, ranges@),
{
    build_timestamp_ranges(ranges)
}

/// The tier that a request to make sure of a timeline asks for.
pub fn ensure_timeline_tier(desired_resource_tier: i32) -> (result: Result<ResourceTier, Status>)
    ensures
        match result {
            Ok(tier) => status_mapping::wire_resource_tier(tier).code() == desired_resource_tier,
            Err(status) => public_mapping::reports(
                status,
                TsoError::InvalidResourceTier { value: desired_resource_tier },
            ) && (forall|tier: ResourceTier|
                (#[trigger] status_mapping::wire_resource_tier(tier)).code()
                    != desired_resource_tier),
        },
{
    match decode_resource_tier(desired_resource_tier) {
        Ok(tier) => Ok(tier),
        Err(error) => Err(map_tso_error(error)),
    }
}

/// What a request for a route is answered.
pub open spec fn answers_route(
    route: Result<TimelineRoute, TsoError>,
    route_cache_ttl_ms: u32,
    result: Result<ProtoTimelineRoute, Status>,
) -> bool {
    match (route, result) {
        (Ok(found), Ok(wire)) => status_mapping::is_wire_route(wire, found, route_cache_ttl_ms),
        (Err(error), Err(status)) => public_mapping::reports(status, error),
        _ => false,
    }
}

/// What a request for timestamps is answered.
pub open spec fn answers_allocation(
    timeline_key: String,
    allocated: Result<AllocateTimestampsResponse, TimelineProxyError>,
    result: Result<ProtoAllocateTimestampsResponse, Status>,
) -> bool {
    match (allocated, result) {
        (Ok(found), Ok(wire)) => {
            &&& wire.timeline_key == timeline_key
            &&& wire.generator_id == found.generator_id
            &&& wire.epoch == found.epoch
            &&& wire.route_version == found.route_version
            &&& route_mapping::are_wire_ranges(wire.ranges@, found.ranges@)
        },
        (Err(error), Err(status)) => translation::reports_proxy_error(status, error),
        _ => false,
    }
}

/// A request succeeds exactly where what it asked for was found or allocated, and then the answer
/// tells just that: of timestamps the generator, the epoch, the route version and every range, each
/// under its own name.
pub proof fn requests_are_answered_with_what_was_found(
    route: Result<TimelineRoute, TsoError>,
    route_cache_ttl_ms: u32,
    routed: Result<ProtoTimelineRoute, Status>,
    timeline_key: String,
    allocated: Result<AllocateTimestampsResponse, TimelineProxyError>,
    answered: Result<ProtoAllocateTimestampsResponse, Status>,
    i: int,
)
    requires
        answers_route(route, route_cache_ttl_ms, routed),
        answers_allocation(timeline_key, allocated, answered),
    ensures
        routed is Ok <==> route is Ok,
        routed matches Ok(wire) ==> {
            &&& wire.timeline_key@ == route->Ok_0.timeline_key@
            &&& wire.generator_id == route->Ok_0.generator_id
            &&& wire.owner_worker_endpoint@ == route->Ok_0.owner_worker_endpoint@
            &&& wire.epoch == route->Ok_0.epoch
            &&& wire.route_version == route->Ok_0.route_version
        },
        answered is Ok <==> allocated is Ok,
        answered matches Ok(wire) ==> {
            &&& wire.timeline_key@ == timeline_key@
            &&& wire.generator_id == allocated->Ok_0.generator_id
            &&& wire.epoch == allocated->Ok_0.epoch
            &&& wire.route_version == allocated->Ok_0.route_version
            &&& wire.ranges@.len() == allocated->Ok_0.ranges@.len()
            &&& 0 <= i < wire.ranges@.len() ==> wire.ranges@[i].start_tso
                == allocated->Ok_0.ranges@[i].start_tso && wire.ranges@[i].end_tso
                == allocated->Ok_0.ranges@[i].end_tso
        },
{
}

/// The route that answers a request for it, or how the failure is reported.
pub fn timeline_route_response(
    route: Result<TimelineRoute, TsoError>,
    route_cache_ttl_ms: u32,
) -> (result: Result<ProtoTimelineRoute, Status>)
    ensures
        answers_route(route, route_cache_ttl_ms, result),
        match (route, result) {
            (Ok(found), Ok(wire)) => status_mapping::is_wire_route(
                wire,
                found,
                route_cache_ttl_ms,
            ),
            (Err(error), Err(status)) => public_mapping::reports(status, error),
            _ => false,
        },
{
    match route {
        Ok(found) => Ok(proto_timeline_route(found, route_cache_ttl_ms)),
        Err(error) => Err(map_tso_error(error)),
    }
}

/// The timestamps that answer a request, under the key that it asked for, or how the failure is
/// reported.
pub fn allocate_timestamps_response(
    timeline_key: String,
    allocated: Result<AllocateTimestampsResponse, TimelineProxyError>,
) -> (result: Result<ProtoAllocateTimestampsResponse, Status>)
    ensures
        answers_allocation(timeline_key, allocated, result),
        match (allocated, result) {
            (Ok(found), Ok(wire)) => {
                &&& wire.timeline_key == timeline_key
                &&& wire.generator_id == found.generator_id
                &&& wire.epoch == found.epoch
                &&& wire.route_version == found.route_version
                &&& route_mapping::are_wire_ranges(wire.ranges@, found.ranges@)
            },
            (Err(error), Err(status)) => translation::reports_proxy_error(status, error),
            _ => false,
        },
{
    match allocated {
        Ok(found) => Ok(
            ProtoAllocateTimestampsResponse {
                timeline_key,
                generator_id: found.generator_id,
                epoch: found.epoch,
                route_version: found.route_version,
                ranges: proto_timestamp_ranges(found.ranges),
            },
        ),
        Err(error) => Err(map_timeline_proxy_error(error)),
    }
}

} // verus!
