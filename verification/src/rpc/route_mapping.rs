//! Routes and timestamp ranges as wire messages.

use vstd::prelude::*;

use crate::model::{TimelineRoute, TimestampRange};
use crate::rpc::proto::{ProtoTimestampRange, ServerTime, TimelineRouteEvent};
use crate::rpc::status_mapping;
use crate::rpc::status_mapping::proto_timeline_route;

verus! {

pub fn build_route_event(route: TimelineRoute, route_cache_ttl_ms: u32) -> (event:
    TimelineRouteEvent)
    ensures
        event matches TimelineRouteEvent::Route(wire) && status_mapping::is_wire_route(
            wire,
            route,
            route_cache_ttl_ms,
        ),
{
    TimelineRouteEvent::Route(proto_timeline_route(route, route_cache_ttl_ms))
}

pub fn build_keepalive_event(server_time: ServerTime) -> (event: TimelineRouteEvent)
    ensures
        event == (TimelineRouteEvent::Keepalive { server_time }),
{
    TimelineRouteEvent::Keepalive { server_time }
}

/// The same ranges, in the same order.
pub open spec fn are_wire_ranges(
    wire: Seq<ProtoTimestampRange>,
    ranges: Seq<TimestampRange>,
) -> bool {
    wire.len() == ranges.len() && forall|i: int|
        0 <= i < ranges.len() ==> (#[trigger] wire[i]).start_tso == ranges[i].start_tso
            && wire[i].end_tso == ranges[i].end_tso
}

pub fn build_timestamp_ranges(ranges: Vec<TimestampRange>) -> (wire: Vec<ProtoTimestampRange>)
    ensures
        are_wire_ranges(wire@, ranges@),
{
    let mut wire: Vec<ProtoTimestampRange> = Vec::new();
    let mut i: usize = 0;
    while i < ranges.len()
        invariant
            i <= ranges@.len(),
            are_wire_ranges(wire@, ranges@.take(i as int)),
        decreases ranges@.len() - i,
    {
        wire.push(
            ProtoTimestampRange { start_tso: ranges[i].start_tso, end_tso: ranges[i].end_tso },
        );
        i = i + 1;
    }
    assert(ranges@.take(i as int) =~= ranges@);
    wire
}

} // verus!
