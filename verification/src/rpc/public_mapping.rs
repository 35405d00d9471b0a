//! Errors as clients see them.

use vstd::prelude::*;

use crate::error::TsoError;
use crate::model::TimelineLifecycleState;
use crate::rpc::error_details;
use crate::rpc::error_details::encode_error_detail;
use crate::rpc::proto::{
    ErrorCode, ErrorDetail, ErrorDetailView, OperatorActionBlocker, OperatorActionNextStep, Status,
    StatusCode,
};

verus! {

/// How a timeline that is not ready is reported.
#[derive(Debug, Clone, Copy, PartialEq, Eq, Structural)]
pub struct TimelineNotReadyPublicMapping {
    pub grpc_code: StatusCode,
    pub detail_code: ErrorCode,
}

/// A timeline that is not ready is unavailable for a while, in whatever state it is.
pub fn timeline_not_ready_public_mapping(_state: TimelineLifecycleState) -> (mapping:
    TimelineNotReadyPublicMapping)
    ensures
        mapping.grpc_code == StatusCode::Unavailable,
        mapping.detail_code == ErrorCode::TemporarilyUnavailable,
{
    TimelineNotReadyPublicMapping {
        grpc_code: StatusCode::Unavailable,
        detail_code: ErrorCode::TemporarilyUnavailable,
    }
}

/// The status code of an error.
pub open spec fn status_code(err: TsoError) -> StatusCode {
    match err {
        TsoError::TimelineNotFound { .. } => StatusCode::NotFound,
        TsoError::RouteVersionMismatch { .. }
        | TsoError::EpochMismatch { .. }
        | TsoError::FailoverRequiresExpiredLease { .. }
        | TsoError::FailoverMissingRecoveryFloor { .. }
        | TsoError::NotTimelineOwner { .. }
        | TsoError::NotGeneratorOwner { .. }
        | TsoError::GeneratorNotOwnedByThisWorker { .. }
        | TsoError::GeneratorOwnershipMisconfigured { .. }
        | TsoError::SharedGeneratorJumpAheadTooLarge { .. } => StatusCode::FailedPrecondition,
        TsoError::LeaseExpired { .. }
        | TsoError::TimelineNotReady { .. }
        | TsoError::TimelineIngressSaturated { .. }
        | TsoError::TimelineRuntimeCacheSaturated { .. }
        | TsoError::GeneratorLeaseExpired { .. } => StatusCode::Unavailable,
        TsoError::BatchTooLarge { .. }
        | TsoError::InvalidCount
        | TsoError::TargetGeneratorIdRequired { .. }
        | TsoError::InvalidResourceTier { .. }
        | TsoError::InvalidTargetOwnerEndpoint
        | TsoError::InvalidTransferReason { .. } => StatusCode::InvalidArgument,
        TsoError::FutureBorrowExceeded { .. }
        | TsoError::IssuedUpperBoundExceeded { .. }
        | TsoError::GeneratorPoolExhausted
        | TsoError::TimelineLimitReached { .. } => StatusCode::ResourceExhausted,
        TsoError::GeneratorIdOutOfRange { .. }
        | TsoError::TsoOverflow => StatusCode::OutOfRange,
        TsoError::MetadataAlreadyExists
        | TsoError::InstanceIdentityInUse { .. } => StatusCode::AlreadyExists,
        TsoError::CasFailed => StatusCode::Aborted,
        TsoError::RequestCancelled => StatusCode::DeadlineExceeded,
        TsoError::ClockBackwards { .. }
        | TsoError::Internal(_) => StatusCode::Internal,
    }
}

/// The error code in the detail of an error.
pub open spec fn detail_code(err: TsoError) -> ErrorCode {
    match err {
        TsoError::TimelineNotFound { .. } => ErrorCode::TimelineNotFound,
        TsoError::RouteVersionMismatch { .. } => ErrorCode::RouteVersionMismatch,
        TsoError::EpochMismatch { .. } => ErrorCode::EpochMismatch,
        TsoError::LeaseExpired { .. }
        | TsoError::GeneratorLeaseExpired { .. } => ErrorCode::LeaseExpired,
        TsoError::NotTimelineOwner { .. }
        | TsoError::NotGeneratorOwner { .. }
        | TsoError::GeneratorNotOwnedByThisWorker { .. } => ErrorCode::NotTimelineOwner,
        TsoError::BatchTooLarge { .. }
        | TsoError::InvalidCount
        | TsoError::TargetGeneratorIdRequired { .. }
        | TsoError::SharedGeneratorJumpAheadTooLarge { .. }
        | TsoError::GeneratorOwnershipMisconfigured { .. }
        | TsoError::GeneratorIdOutOfRange { .. }
        | TsoError::TsoOverflow
        | TsoError::InvalidResourceTier { .. }
        | TsoError::InvalidTargetOwnerEndpoint
        | TsoError::InvalidTransferReason { .. } => ErrorCode::InvalidArgument,
        TsoError::FutureBorrowExceeded { .. }
        | TsoError::IssuedUpperBoundExceeded { .. }
        | TsoError::GeneratorPoolExhausted
        | TsoError::TimelineLimitReached { .. } => ErrorCode::RateLimited,
        TsoError::FailoverRequiresExpiredLease { .. }
        | TsoError::CasFailed
        | TsoError::InstanceIdentityInUse { .. }
        | TsoError::FailoverMissingRecoveryFloor { .. }
        | TsoError::TimelineIngressSaturated { .. }
        | TsoError::TimelineRuntimeCacheSaturated { .. }
        | TsoError::RequestCancelled
        | TsoError::TimelineNotReady { .. } => ErrorCode::TemporarilyUnavailable,
        TsoError::ClockBackwards { .. }
        | TsoError::MetadataAlreadyExists
        | TsoError::Internal(_) => ErrorCode::Internal,
    }
}

/// The detail of an error: its code and words, and what a client can act on.
pub open spec fn detail_of(err: TsoError) -> ErrorDetailView {
    ErrorDetailView {
        code: detail_code(err).code(),
        message: err.words(),
        current_epoch: match err {
            TsoError::EpochMismatch { actual, .. } => actual,
            _ => 0,
        },
        current_route_version: match err {
            TsoError::RouteVersionMismatch { actual, .. } => actual,
            _ => 0,
        },
        redirect_endpoint: match err {
            TsoError::NotTimelineOwner { owner_worker_endpoint } => owner_worker_endpoint@,
            TsoError::NotGeneratorOwner { owner_worker_endpoint, .. } => owner_worker_endpoint@,
            _ => Seq::empty(),
        },
        action_blocker: match err {
            TsoError::FailoverRequiresExpiredLease { .. } =>
                OperatorActionBlocker::LeaseNotExpired.code(),
            TsoError::FailoverMissingRecoveryFloor { .. } =>
                OperatorActionBlocker::RecoveryFloorMissing.code(),
            _ => OperatorActionBlocker::Unspecified.code(),
        },
        next_step: match err {
            TsoError::FailoverRequiresExpiredLease { .. } =>
                OperatorActionNextStep::WaitForLeaseExpiry.code(),
            TsoError::FailoverMissingRecoveryFloor { .. } =>
                OperatorActionNextStep::PersistRecoveryFloor.code(),
            _ => OperatorActionNextStep::Unspecified.code(),
        },
    }
}

fn error_detail_code(err: &TsoError) -> (code: ErrorCode)
    ensures
        code == detail_code(*err),
{
    match err {
        TsoError::TimelineNotFound { .. } => ErrorCode::TimelineNotFound,
        TsoError::RouteVersionMismatch { .. } => ErrorCode::RouteVersionMismatch,
        TsoError::EpochMismatch { .. } => ErrorCode::EpochMismatch,
        TsoError::LeaseExpired { .. }
        | TsoError::GeneratorLeaseExpired { .. } => ErrorCode::LeaseExpired,
        TsoError::NotTimelineOwner { .. }
        | TsoError::NotGeneratorOwner { .. }
        | TsoError::GeneratorNotOwnedByThisWorker { .. } => ErrorCode::NotTimelineOwner,
        TsoError::BatchTooLarge { .. }
        | TsoError::InvalidCount
        | TsoError::TargetGeneratorIdRequired { .. }
        | TsoError::SharedGeneratorJumpAheadTooLarge { .. }
        | TsoError::GeneratorOwnershipMisconfigured { .. }
        | TsoError::GeneratorIdOutOfRange { .. }
        | TsoError::TsoOverflow
        | TsoError::InvalidResourceTier { .. }
        | TsoError::InvalidTargetOwnerEndpoint
        | TsoError::InvalidTransferReason { .. } => ErrorCode::InvalidArgument,
        TsoError::FutureBorrowExceeded { .. }
        | TsoError::IssuedUpperBoundExceeded { .. }
        | TsoError::GeneratorPoolExhausted
        | TsoError::TimelineLimitReached { .. } => ErrorCode::RateLimited,
        TsoError::FailoverRequiresExpiredLease { .. }
        | TsoError::CasFailed
        | TsoError::InstanceIdentityInUse { .. }
        | TsoError::FailoverMissingRecoveryFloor { .. }
        | TsoError::TimelineIngressSaturated { .. }
        | TsoError::TimelineRuntimeCacheSaturated { .. }
        | TsoError::RequestCancelled => ErrorCode::TemporarilyUnavailable,
        TsoError::ClockBackwards { .. }
        | TsoError::MetadataAlreadyExists
        | TsoError::Internal(_) => ErrorCode::Internal,
        TsoError::TimelineNotReady { state, .. } => timeline_not_ready_public_mapping(*state).detail_code,
    }
}

fn build_error_detail(err: &TsoError) -> (detail: ErrorDetail)
    ensures
        detail@ == detail_of(*err),
{
    let mut detail = ErrorDetail {
        code: error_detail_code(err).number(),
        message: err.message(),
        current_epoch: 0,
        current_route_version: 0,
        redirect_endpoint: String::new(),
        action_blocker: OperatorActionBlocker::Unspecified.number(),
        next_step: OperatorActionNextStep::Unspecified.number(),
    };
    match err {
        TsoError::RouteVersionMismatch { actual, .. } => {
            detail.current_route_version = *actual;
        },
        TsoError::EpochMismatch { actual, .. } => {
            detail.current_epoch = *actual;
        },
        TsoError::NotTimelineOwner { owner_worker_endpoint } => {
            detail.redirect_endpoint = owner_worker_endpoint.clone();
        },
        TsoError::NotGeneratorOwner { owner_worker_endpoint, .. } => {
            detail.redirect_endpoint = owner_worker_endpoint.clone();
        },
        TsoError::FailoverRequiresExpiredLease { .. } => {
            detail.action_blocker = OperatorActionBlocker::LeaseNotExpired.number();
            detail.next_step = OperatorActionNextStep::WaitForLeaseExpiry.number();
        },
        TsoError::FailoverMissingRecoveryFloor { .. } => {
            detail.action_blocker = OperatorActionBlocker::RecoveryFloorMissing.number();
            detail.next_step = OperatorActionNextStep::PersistRecoveryFloor.number();
        },
        _ => {},
    }
    assert(detail@.redirect_endpoint =~= detail_of(*err).redirect_endpoint);
    detail
}

/// A status with this code for an error, with its detail.
pub fn status_with_error_detail(code: StatusCode, err: TsoError) -> (status: Status)
    ensures
        status.code == code,
        status.message@ == err.words(),
        status.details@ == error_details::error_detail_bytes(detail_of(err)),
{
    let detail = build_error_detail(&err);
    let details = encode_error_detail(&detail);
    Status { code, message: err.message(), details }
}

/// The detail of an argument that is refused.
pub open spec fn invalid_argument_detail(message: Seq<char>) -> ErrorDetailView {
    ErrorDetailView {
        code: ErrorCode::InvalidArgument.code(),
        message,
        current_epoch: 0,
        current_route_version: 0,
        redirect_endpoint: Seq::empty(),
        action_blocker: OperatorActionBlocker::Unspecified.code(),
        next_step: OperatorActionNextStep::Unspecified.code(),
    }
}

/// The status says that an argument is refused, and why.
pub open spec fn is_invalid_argument(status: Status, message: Seq<char>) -> bool {
    &&& status.code == StatusCode::InvalidArgument
    &&& status.message@ == message
    &&& status.details@ == error_details::error_detail_bytes(invalid_argument_detail(message))
}

pub fn invalid_argument_status_with_detail(message: &str) -> (status: Status)
    ensures
        is_invalid_argument(status, message@),
{
    let detail = ErrorDetail {
        code: ErrorCode::InvalidArgument.number(),
        message: message.to_owned(),
        current_epoch: 0,
        current_route_version: 0,
        redirect_endpoint: String::new(),
        action_blocker: OperatorActionBlocker::Unspecified.number(),
        next_step: OperatorActionNextStep::Unspecified.number(),
    };
    assert(detail@.redirect_endpoint =~= Seq::<char>::empty());
    let details = encode_error_detail(&detail);
    Status { code: StatusCode::InvalidArgument, message: message.to_owned(), details }
}

fn code_for(err: &TsoError) -> (code: StatusCode)
    ensures
        code == status_code(*err),
{
    match err {
        TsoError::TimelineNotFound { .. } => StatusCode::NotFound,
        TsoError::RouteVersionMismatch { .. }
        | TsoError::EpochMismatch { .. }
        | TsoError::FailoverRequiresExpiredLease { .. }
        | TsoError::FailoverMissingRecoveryFloor { .. }
        | TsoError::NotTimelineOwner { .. }
        | TsoError::NotGeneratorOwner { .. }
        | TsoError::GeneratorNotOwnedByThisWorker { .. }
        | TsoError::GeneratorOwnershipMisconfigured { .. }
        | TsoError::SharedGeneratorJumpAheadTooLarge { .. } => StatusCode::FailedPrecondition,
        TsoError::LeaseExpired { .. }
        | TsoError::TimelineIngressSaturated { .. }
        | TsoError::TimelineRuntimeCacheSaturated { .. }
        | TsoError::GeneratorLeaseExpired { .. } => StatusCode::Unavailable,
        TsoError::BatchTooLarge { .. }
        | TsoError::InvalidCount
        | TsoError::TargetGeneratorIdRequired { .. }
        | TsoError::InvalidResourceTier { .. }
        | TsoError::InvalidTargetOwnerEndpoint
        | TsoError::InvalidTransferReason { .. } => StatusCode::InvalidArgument,
        TsoError::FutureBorrowExceeded { .. }
        | TsoError::IssuedUpperBoundExceeded { .. }
        | TsoError::GeneratorPoolExhausted
        | TsoError::TimelineLimitReached { .. } => StatusCode::ResourceExhausted,
        TsoError::GeneratorIdOutOfRange { .. }
        | TsoError::TsoOverflow => StatusCode::OutOfRange,
        TsoError::MetadataAlreadyExists
        | TsoError::InstanceIdentityInUse { .. } => StatusCode::AlreadyExists,
        TsoError::CasFailed => StatusCode::Aborted,
        TsoError::RequestCancelled => StatusCode::DeadlineExceeded,
        TsoError::ClockBackwards { .. }
        | TsoError::Internal(_) => StatusCode::Internal,
        TsoError::TimelineNotReady { state, .. } => timeline_not_ready_public_mapping(*state).grpc_code,
    }
}

/// The status reports this error.
pub open spec fn reports(status: Status, err: TsoError) -> bool {
    &&& status.code == status_code(err)
    &&& status.message@ == err.words()
    &&& status.details@ == error_details::error_detail_bytes(detail_of(err))
}

/// How an error is reported to clients.
pub fn map_tso_error(err: TsoError) -> (status: Status)
    ensures
        reports(status, err),
{
    let code = code_for(&err);
    status_with_error_detail(code, err)
}

/// A client that reads the details of a reported error gets its code, its words and what it can
/// act on.
pub proof fn reported_errors_are_readable(status: Status, err: TsoError)
    requires
        reports(status, err),
    ensures
        error_details::detail_in(status.details@) == Some(detail_of(err)),
{
    assert(status.details@.len() == status.details.len());
    error_details::bare_error_details_read_back(detail_of(err));
}

} // verus!
