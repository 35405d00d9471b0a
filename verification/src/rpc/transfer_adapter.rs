//! Transfer requests and responses.

use vstd::prelude::*;

use crate::error::TsoError;
use crate::model::{TimelineLifecycleState, TimelineRoute, TransferReason};
use crate::rpc::proto::{TransferTimelineRequest, TransferTimelineResponse};
use crate::rpc::status_mapping;
use crate::rpc::status_mapping::proto_timeline_state;
use crate::text;
use crate::text::trim;

verus! {

/// A transfer request whose target and reason are settled.
#[derive(Debug, PartialEq, Eq)]
pub struct NormalizedTransferTimelineRequest {
    pub timeline_key: String,
    pub target_owner_endpoint: String,
    pub target_generator_id: Option<u32>,
    pub reason: TransferReason,
}

/// The reason that a number stands for.
pub open spec fn reason_of(reason: i32) -> Option<TransferReason> {
    if reason == 1 {
        Some(TransferReason::Rebalance)
    } else if reason == 2 {
        Some(TransferReason::Hotspot)
    } else if reason == 3 {
        Some(TransferReason::Failover)
    } else if reason == 4 {
        Some(TransferReason::Manual)
    } else {
        None
    }
}

pub fn parse_transfer_reason(reason: i32) -> (parsed: Result<TransferReason, TsoError>)
    ensures
        match parsed {
            Ok(value) => reason_of(reason) == Some(value),
            Err(error) => reason_of(reason) is None && error == (TsoError::InvalidTransferReason {
                value: reason,
            }),
        },
        parsed is Ok <==> 1 <= reason <= 4,
        reason == 1 <==> parsed == Ok::<TransferReason, TsoError>(TransferReason::Rebalance),
        reason == 2 <==> parsed == Ok::<TransferReason, TsoError>(TransferReason::Hotspot),
        reason == 3 <==> parsed == Ok::<TransferReason, TsoError>(TransferReason::Failover),
        reason == 4 <==> parsed == Ok::<TransferReason, TsoError>(TransferReason::Manual),
{
    match reason {
        1 => Ok(TransferReason::Rebalance),
        2 => Ok(TransferReason::Hotspot),
        3 => Ok(TransferReason::Failover),
        4 => Ok(TransferReason::Manual),
        _ => Err(TsoError::InvalidTransferReason { value: reason }),
    }
}

/// The number of a reason on the wire.
pub open spec fn reason_code(reason: TransferReason) -> i32 {
    match reason {
        TransferReason::Rebalance => 1,
        TransferReason::Hotspot => 2,
        TransferReason::Failover => 3,
        TransferReason::Manual => 4,
    }
}

/// Every reason is the meaning of one number and of no other, and the numbers outside one to four
/// mean nothing.
pub proof fn every_reason_has_one_number(number: i32, reason: TransferReason)
    ensures
        reason_of(reason_code(reason)) == Some(reason),
        reason_of(number) == Some(reason) <==> number == reason_code(reason),
        reason_of(number) is None <==> number < 1 || number > 4,
        reason_of(1) == Some(TransferReason::Rebalance),
        reason_of(2) == Some(TransferReason::Hotspot),
        reason_of(3) == Some(TransferReason::Failover),
        reason_of(4) == Some(TransferReason::Manual),
{
}

/// The endpoint that a request names, without surrounding whitespace; this worker where it names
/// none.
pub open spec fn target_of(advertise_endpoint: Seq<char>, target: Option<String>) -> Seq<char> {
    match target {
        Some(raw) => text::trimmed(raw@),
        None => advertise_endpoint,
    }
}

pub fn resolve_target_owner_endpoint(
    advertise_endpoint: &str,
    raw_target_owner_endpoint: Option<String>,
) -> (resolved: Result<String, TsoError>)
    ensures
        match resolved {
            Ok(endpoint) => endpoint@ == target_of(advertise_endpoint@, raw_target_owner_endpoint)
                && (raw_target_owner_endpoint is Some ==> endpoint@.len() > 0),
            Err(error) => error == TsoError::InvalidTargetOwnerEndpoint && (
            raw_target_owner_endpoint matches Some(raw) && text::trimmed(raw@).len() == 0),
        },
{
    match raw_target_owner_endpoint {
        Some(raw) => {
            let endpoint = trim(raw.as_str()).to_owned();
            let length: usize = endpoint.as_str().unicode_len();
            if length == 0 {
                return Err(TsoError::InvalidTargetOwnerEndpoint);
            }
            Ok(endpoint)
        },
        None => Ok(advertise_endpoint.to_owned()),
    }
}

/// Why a transfer request is refused.
pub open spec fn transfer_fault(request: TransferTimelineRequest) -> Option<TsoError> {
    if request.target_worker_id is Some && text::trimmed(request.target_worker_id->Some_0@).len()
        == 0 {
        Some(TsoError::InvalidTargetOwnerEndpoint)
    } else if reason_of(request.reason) is None {
        Some(TsoError::InvalidTransferReason { value: request.reason })
    } else {
        None
    }
}

/// Settles the target and the reason of a transfer request.
pub fn normalize_transfer_request(advertise_endpoint: &str, request: TransferTimelineRequest) -> (
    normalized: Result<NormalizedTransferTimelineRequest, TsoError>)
    ensures
        settles(advertise_endpoint@, request, normalized),
        match normalized {
            Ok(settled) => transfer_fault(request) is None && settled.timeline_key
                == request.timeline_key && settled.target_owner_endpoint@ == target_of(
                advertise_endpoint@,
                request.target_worker_id,
            ) && settled.target_generator_id == request.target_generator_id && Some(settled.reason)
                == reason_of(request.reason),
            Err(error) => transfer_fault(request) == Some(error),
        },
        normalized matches Ok(settled) ==> {
            &&& settled.reason == TransferReason::Rebalance <==> request.reason == 1
            &&& settled.reason == TransferReason::Hotspot <==> request.reason == 2
            &&& settled.reason == TransferReason::Failover <==> request.reason == 3
            &&& settled.reason == TransferReason::Manual <==> request.reason == 4
            &&& settled.target_owner_endpoint@ == match request.target_worker_id {
                Some(named) => text::trimmed(named@),
                None => advertise_endpoint@,
            }
        },
        normalized is Ok <==> 1 <= request.reason <= 4 && (request.target_worker_id matches Some(
            named,
        ) ==> text::trimmed(named@).len() > 0),
{
    let target_owner_endpoint = match resolve_target_owner_endpoint(
        advertise_endpoint,
        request.target_worker_id,
    ) {
        Ok(endpoint) => endpoint,
        Err(error) => {
            return Err(error);
        },
    };
    let reason = match parse_transfer_reason(request.reason) {
        Ok(reason) => reason,
        Err(error) => {
            return Err(error);
        },
    };
    Ok(
        NormalizedTransferTimelineRequest {
            timeline_key: request.timeline_key,
            target_owner_endpoint,
            target_generator_id: request.target_generator_id,
            reason,
        },
    )
}

/// What a transfer request comes down to.
pub open spec fn settles(
    advertise_endpoint: Seq<char>,
    request: TransferTimelineRequest,
    normalized: Result<NormalizedTransferTimelineRequest, TsoError>,
) -> bool {
    match normalized {
        Ok(settled) => {
            &&& transfer_fault(request) is None
            &&& settled.timeline_key == request.timeline_key
            &&& settled.target_owner_endpoint@ == target_of(
                advertise_endpoint,
                request.target_worker_id,
            )
            &&& settled.target_generator_id == request.target_generator_id
            &&& Some(settled.reason) == reason_of(request.reason)
        },
        Err(error) => transfer_fault(request) == Some(error),
    }
}

/// A transfer goes to the worker that the request names, without the blanks around it, or to this
/// one where it names none. A request is refused exactly where it names a blank worker, or else a
/// reason that there is not.
pub proof fn transfers_go_where_they_were_sent(
    advertise_endpoint: Seq<char>,
    request: TransferTimelineRequest,
    normalized: Result<NormalizedTransferTimelineRequest, TsoError>,
)
    requires
        settles(advertise_endpoint, request, normalized),
    ensures
        normalized matches Ok(settled) ==> {
            &&& settled.timeline_key@ == request.timeline_key@
            &&& settled.target_generator_id == request.target_generator_id
            &&& request.target_worker_id is None ==> settled.target_owner_endpoint@
                == advertise_endpoint
            &&& request.target_worker_id matches Some(named) ==> settled.target_owner_endpoint@
                == text::trimmed(named@) && text::trimmed(named@).len() > 0
            &&& reason_code(settled.reason) == request.reason
        },
        normalized == Err::<NormalizedTransferTimelineRequest, TsoError>(
            TsoError::InvalidTargetOwnerEndpoint,
        ) <==> (request.target_worker_id matches Some(named) && text::trimmed(named@).len() == 0),
        normalized is Ok ==> 1 <= request.reason <= 4,
        !(1 <= request.reason <= 4) && !(request.target_worker_id matches Some(named)
            && text::trimmed(named@).len() == 0) ==> normalized == Err::<
            NormalizedTransferTimelineRequest,
            TsoError,
        >(TsoError::InvalidTransferReason { value: request.reason }),
        1 <= request.reason <= 4 && request.target_worker_id is None ==> normalized is Ok,
{
}

/// What a transfer is answered.
pub open spec fn answers_transfer(
    route: TimelineRoute,
    old_generator_id: u32,
    state: TimelineLifecycleState,
    response: TransferTimelineResponse,
) -> bool {
    response == (TransferTimelineResponse {
        timeline_key: route.timeline_key,
        old_generator_id,
        new_generator_id: route.generator_id,
        new_epoch: route.epoch,
        route_version: route.route_version,
        state: status_mapping::wire_timeline_state(state).code(),
    })
}

/// The answer to a transfer tells the generator that the timeline left and where its route leads
/// now, each under its own name.
pub proof fn transfers_are_answered_with_the_new_route(
    route: TimelineRoute,
    old_generator_id: u32,
    state: TimelineLifecycleState,
    response: TransferTimelineResponse,
)
    requires
        answers_transfer(route, old_generator_id, state, response),
    ensures
        response.timeline_key@ == route.timeline_key@,
        response.old_generator_id == old_generator_id,
        response.new_generator_id == route.generator_id,
        response.new_epoch == route.epoch,
        response.route_version == route.route_version,
        response.state == match state {
            TimelineLifecycleState::Creating => 1i32,
            TimelineLifecycleState::Active => 2i32,
            TimelineLifecycleState::Draining => 3i32,
            TimelineLifecycleState::Locked => 4i32,
            TimelineLifecycleState::Recovering => 5i32,
        },
{
}

pub fn build_transfer_timeline_response(
    route: TimelineRoute,
    old_generator_id: u32,
    state: TimelineLifecycleState,
) -> (response: TransferTimelineResponse)
    ensures
        answers_transfer(route, old_generator_id, state, response),
        response == (TransferTimelineResponse {
            timeline_key: route.timeline_key,
            old_generator_id,
            new_generator_id: route.generator_id,
            new_epoch: route.epoch,
            route_version: route.route_version,
            state: status_mapping::wire_timeline_state(state).code(),
        }),
{
    TransferTimelineResponse {
        timeline_key: route.timeline_key,
        old_generator_id,
        new_generator_id: route.generator_id,
        new_epoch: route.epoch,
        route_version: route.route_version,
        state: proto_timeline_state(state),
    }
}

} // verus!
