//! The error type of every fallible operation.

use vstd::prelude::*;

use crate::model::TimelineLifecycleState;
use crate::text;
use crate::text::{decimal_text, join2, join3, join4, join5, signed_decimal_text};

verus! {

#[derive(Debug, PartialEq, Eq)]
pub enum TsoError {
    TimelineNotFound { timeline_key: String },
    RouteVersionMismatch { expected: u64, actual: u64 },
    EpochMismatch { expected: u64, actual: u64 },
    LeaseExpired { timeline_key: String },
    TimelineNotReady { timeline_key: String, state: TimelineLifecycleState },
    TimelineIngressSaturated { timeline_key: String, max_lanes: usize },
    TimelineRuntimeCacheSaturated { timeline_key: String, max_entries: usize },
    FailoverRequiresExpiredLease { timeline_key: String, lease_expire_at_ms: u64 },
    FailoverMissingRecoveryFloor { timeline_key: String, generator_id: u32 },
    NotTimelineOwner { owner_worker_endpoint: String },
    GeneratorLeaseExpired { generator_id: u32 },
    NotGeneratorOwner { generator_id: u32, owner_worker_endpoint: String },
    GeneratorNotOwnedByThisWorker { generator_id: u32 },
    GeneratorOwnershipMisconfigured { modulo: u32, remainder: u32 },
    ClockBackwards { delta_ms: u64 },
    BatchTooLarge { requested: u32, max_batch: u32 },
    InvalidCount,
    TargetGeneratorIdRequired { timeline_key: String },
    SharedGeneratorJumpAheadTooLarge { generator_id: u32, jump_ms: u64, max_jump_ms: u64 },
    FutureBorrowExceeded { requested_physical_ms: u64, allowed_physical_ms: u64 },
    IssuedUpperBoundExceeded { requested_end_tso: u64, issued_upper_bound: u64 },
    GeneratorPoolExhausted,
    GeneratorIdOutOfRange { generator_id: u32 },
    TsoOverflow,
    MetadataAlreadyExists,
    CasFailed,
    RequestCancelled,
    InstanceIdentityInUse { instance_id: String },
    TimelineLimitReached { max: usize },
    InvalidResourceTier { value: i32 },
    InvalidTargetOwnerEndpoint,
    InvalidTransferReason { value: i32 },
    Internal(String),
}

impl TsoError {
    /// The error is `Internal` with exactly this message.
    pub open spec fn is_internal(self, message: Seq<char>) -> bool {
        self matches TsoError::Internal(text) && text@ == message
    }

    /// The error is `TimelineNotFound` for exactly this key.
    pub open spec fn is_not_found(self, key: Seq<char>) -> bool {
        self matches TsoError::TimelineNotFound { timeline_key } && timeline_key@ == key
    }

    /// The error in words.
    pub open spec fn words(self) -> Seq<char> {
        match self {
            TsoError::TimelineNotFound { timeline_key } => "timeline not found: "@ + timeline_key@,
            TsoError::RouteVersionMismatch { expected, actual } => {
                "route version mismatch: expected "@ + text::decimal(expected as nat)
                    + ", actual "@ + text::decimal(actual as nat)
            },
            TsoError::EpochMismatch { expected, actual } => {
                "epoch mismatch: expected "@ + text::decimal(expected as nat) + ", actual "@
                    + text::decimal(actual as nat)
            },
            TsoError::LeaseExpired { timeline_key } => {
                "lease expired for timeline "@ + timeline_key@
            },
            TsoError::TimelineNotReady { timeline_key, state } => {
                "timeline "@ + timeline_key@ + " is not ready: "@ + state.name()
            },
            TsoError::TimelineIngressSaturated { timeline_key, max_lanes } => {
                "ingress for timeline "@ + timeline_key@ + " is saturated: max lanes "@
                    + text::decimal(max_lanes as nat)
            },
            TsoError::TimelineRuntimeCacheSaturated { timeline_key, max_entries } => {
                "runtime cache is saturated for timeline "@ + timeline_key@ + ": max entries "@
                    + text::decimal(max_entries as nat)
            },
            TsoError::FailoverRequiresExpiredLease { timeline_key, lease_expire_at_ms } => {
                "failover of timeline "@ + timeline_key@
                    + " requires an expired lease: expires at "@
                    + text::decimal(lease_expire_at_ms as nat)
            },
            TsoError::FailoverMissingRecoveryFloor { timeline_key, generator_id } => {
                "failover of timeline "@ + timeline_key@ + " misses a recovery floor: generator "@
                    + text::decimal(generator_id as nat)
            },
            TsoError::NotTimelineOwner { owner_worker_endpoint } => {
                "not timeline owner: owner is "@ + owner_worker_endpoint@
            },
            TsoError::GeneratorLeaseExpired { generator_id } => {
                "lease expired for generator "@ + text::decimal(generator_id as nat)
            },
            TsoError::NotGeneratorOwner { generator_id, owner_worker_endpoint } => {
                "not owner of generator "@ + text::decimal(generator_id as nat) + ": owner is "@
                    + owner_worker_endpoint@
            },
            TsoError::GeneratorNotOwnedByThisWorker { generator_id } => {
                "generator "@ + text::decimal(generator_id as nat)
                    + " is not owned by this worker"@
            },
            TsoError::GeneratorOwnershipMisconfigured { modulo, remainder } => {
                "generator ownership is misconfigured: modulo "@ + text::decimal(modulo as nat)
                    + ", remainder "@ + text::decimal(remainder as nat)
            },
            TsoError::ClockBackwards { delta_ms } => {
                "clock moved backwards by "@ + text::decimal(delta_ms as nat) + " ms"@
            },
            TsoError::BatchTooLarge { requested, max_batch } => {
                "batch too large: requested "@ + text::decimal(requested as nat) + ", max "@
                    + text::decimal(max_batch as nat)
            },
            TsoError::InvalidCount => "count must be greater than zero"@,
            TsoError::TargetGeneratorIdRequired { timeline_key } => {
                "target generator id is required for timeline "@ + timeline_key@
            },
            TsoError::FutureBorrowExceeded { requested_physical_ms, allowed_physical_ms } => {
                "future borrow exceeded: requested "@
                    + text::decimal(requested_physical_ms as nat) + " ms, allowed "@
                    + text::decimal(allowed_physical_ms as nat) + " ms"@
            },
            TsoError::IssuedUpperBoundExceeded { requested_end_tso, issued_upper_bound } => {
                "issued upper bound exceeded: requested "@
                    + text::decimal(requested_end_tso as nat) + ", bound "@
                    + text::decimal(issued_upper_bound as nat)
            },
            TsoError::GeneratorPoolExhausted => "generator pool exhausted"@,
            TsoError::GeneratorIdOutOfRange { generator_id } => {
                "generator id out of range: "@ + text::decimal(generator_id as nat)
            },
            TsoError::TsoOverflow => "timestamp overflow"@,
            TsoError::MetadataAlreadyExists => "metadata already exists"@,
            TsoError::CasFailed => "compare and swap failed"@,
            TsoError::RequestCancelled => "request cancelled"@,
            TsoError::InstanceIdentityInUse { instance_id } => {
                "instance identity in use: "@ + instance_id@
            },
            TsoError::TimelineLimitReached { max } => {
                "timeline limit reached: max "@ + text::decimal(max as nat)
            },
            TsoError::InvalidResourceTier { value } => {
                "invalid resource tier: "@ + text::signed_decimal(value as int)
            },
            TsoError::InvalidTargetOwnerEndpoint => "target owner endpoint must not be empty"@,
            TsoError::InvalidTransferReason { value } => {
                "invalid transfer reason: "@ + text::signed_decimal(value as int)
            },
            TsoError::Internal(message) => "internal error: "@ + message@,
            TsoError::SharedGeneratorJumpAheadTooLarge { generator_id, jump_ms, max_jump_ms } => {
                "shared generator "@ + text::decimal(generator_id as nat)
                    + " would jump ahead by "@ + text::decimal(jump_ms as nat) + " ms: max "@
                    + text::decimal(max_jump_ms as nat) + " ms"@
            },
        }
    }

    /// The error in words.
    pub fn message(&self) -> (message: String)
        ensures
            message@ == self.words(),
    {
        match self {
            TsoError::TimelineNotFound { timeline_key } => {
                join2("timeline not found: ", timeline_key.as_str())
            },
            TsoError::RouteVersionMismatch { expected, actual } => join4(
                "route version mismatch: expected ",
                &decimal_text(*expected),
                ", actual ",
                &decimal_text(*actual),
            ),
            TsoError::EpochMismatch { expected, actual } => join4(
                "epoch mismatch: expected ",
                &decimal_text(*expected),
                ", actual ",
                &decimal_text(*actual),
            ),
            TsoError::LeaseExpired { timeline_key } => {
                join2("lease expired for timeline ", timeline_key.as_str())
            },
            TsoError::TimelineNotReady { timeline_key, state } => {
                join4("timeline ", timeline_key.as_str(), " is not ready: ", state.as_str())
            },
            TsoError::TimelineIngressSaturated { timeline_key, max_lanes } => join4(
                "ingress for timeline ",
                timeline_key.as_str(),
                " is saturated: max lanes ",
                &decimal_text(*max_lanes as u64),
            ),
            TsoError::TimelineRuntimeCacheSaturated { timeline_key, max_entries } => join4(
                "runtime cache is saturated for timeline ",
                timeline_key.as_str(),
                ": max entries ",
                &decimal_text(*max_entries as u64),
            ),
            TsoError::FailoverRequiresExpiredLease { timeline_key, lease_expire_at_ms } => join4(
                "failover of timeline ",
                timeline_key.as_str(),
                " requires an expired lease: expires at ",
                &decimal_text(*lease_expire_at_ms),
            ),
            TsoError::FailoverMissingRecoveryFloor { timeline_key, generator_id } => join4(
                "failover of timeline ",
                timeline_key.as_str(),
                " misses a recovery floor: generator ",
                &decimal_text(*generator_id as u64),
            ),
            TsoError::NotTimelineOwner { owner_worker_endpoint } => {
                join2("not timeline owner: owner is ", owner_worker_endpoint.as_str())
            },
            TsoError::GeneratorLeaseExpired { generator_id } => {
                join2("lease expired for generator ", &decimal_text(*generator_id as u64))
            },
            TsoError::NotGeneratorOwner { generator_id, owner_worker_endpoint } => join4(
                "not owner of generator ",
                &decimal_text(*generator_id as u64),
                ": owner is ",
                owner_worker_endpoint.as_str(),
            ),
            TsoError::GeneratorNotOwnedByThisWorker { generator_id } => join3(
                "generator ",
                &decimal_text(*generator_id as u64),
                " is not owned by this worker",
            ),
            TsoError::GeneratorOwnershipMisconfigured { modulo, remainder } => join4(
                "generator ownership is misconfigured: modulo ",
                &decimal_text(*modulo as u64),
                ", remainder ",
                &decimal_text(*remainder as u64),
            ),
            TsoError::ClockBackwards { delta_ms } => {
                join3("clock moved backwards by ", &decimal_text(*delta_ms), " ms")
            },
            TsoError::BatchTooLarge { requested, max_batch } => join4(
                "batch too large: requested ",
                &decimal_text(*requested as u64),
                ", max ",
                &decimal_text(*max_batch as u64),
            ),
            TsoError::InvalidCount => "count must be greater than zero".to_owned(),
            TsoError::TargetGeneratorIdRequired { timeline_key } => {
                join2("target generator id is required for timeline ", timeline_key.as_str())
            },
            TsoError::FutureBorrowExceeded { requested_physical_ms, allowed_physical_ms } => join5(
                "future borrow exceeded: requested ",
                &decimal_text(*requested_physical_ms),
                " ms, allowed ",
                &decimal_text(*allowed_physical_ms),
                " ms",
            ),
            TsoError::IssuedUpperBoundExceeded { requested_end_tso, issued_upper_bound } => join4(
                "issued upper bound exceeded: requested ",
                &decimal_text(*requested_end_tso),
                ", bound ",
                &decimal_text(*issued_upper_bound),
            ),
            TsoError::GeneratorPoolExhausted => "generator pool exhausted".to_owned(),
            TsoError::GeneratorIdOutOfRange { generator_id } => {
                join2("generator id out of range: ", &decimal_text(*generator_id as u64))
            },
            TsoError::TsoOverflow => "timestamp overflow".to_owned(),
            TsoError::MetadataAlreadyExists => "metadata already exists".to_owned(),
            TsoError::CasFailed => "compare and swap failed".to_owned(),
            TsoError::RequestCancelled => "request cancelled".to_owned(),
            TsoError::InstanceIdentityInUse { instance_id } => {
                join2("instance identity in use: ", instance_id.as_str())
            },
            TsoError::TimelineLimitReached { max } => {
                join2("timeline limit reached: max ", &decimal_text(*max as u64))
            },
            TsoError::InvalidResourceTier { value } => {
                join2("invalid resource tier: ", &signed_decimal_text(*value as i64))
            },
            TsoError::InvalidTargetOwnerEndpoint => "target owner endpoint must not be empty".to_owned(),
            TsoError::InvalidTransferReason { value } => {
                join2("invalid transfer reason: ", &signed_decimal_text(*value as i64))
            },
            TsoError::Internal(message) => join2("internal error: ", message.as_str()),
            TsoError::SharedGeneratorJumpAheadTooLarge { generator_id, jump_ms, max_jump_ms } => join3(
                &join5(
                    "shared generator ",
                    &decimal_text(*generator_id as u64),
                    " would jump ahead by ",
                    &decimal_text(*jump_ms),
                    " ms: max ",
                ),
                &decimal_text(*max_jump_ms),
                " ms",
            ),
        }
    }
}

/// An `Internal` error with a fixed message.
pub fn internal(message: &str) -> (error: TsoError)
    ensures
        error.is_internal(message@),
{
    TsoError::Internal(message.to_owned())
}

/// A `TimelineNotFound` error for a key.
pub fn timeline_not_found(timeline_key: &str) -> (error: TsoError)
    ensures
        error.is_not_found(timeline_key@),
{
    TsoError::TimelineNotFound { timeline_key: timeline_key.to_owned() }
}

} // verus!
