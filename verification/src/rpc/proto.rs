//! The messages of the service as they go over the wire.

use vstd::prelude::*;

verus! {

/// What kind of failure an error detail reports.
#[derive(Debug, Clone, Copy, PartialEq, Eq, Structural)]
pub enum ErrorCode {
    Unspecified,
    TimelineNotFound,
    RouteVersionMismatch,
    EpochMismatch,
    LeaseExpired,
    NotTimelineOwner,
    InvalidArgument,
    RateLimited,
    TemporarilyUnavailable,
    Internal,
}

impl ErrorCode {
    /// The number of the value on the wire.
    pub open spec fn code(self) -> i32 {
        match self {
            ErrorCode::Unspecified => 0,
            ErrorCode::TimelineNotFound => 1,
            ErrorCode::RouteVersionMismatch => 2,
            ErrorCode::EpochMismatch => 3,
            ErrorCode::LeaseExpired => 4,
            ErrorCode::NotTimelineOwner => 5,
            ErrorCode::InvalidArgument => 6,
            ErrorCode::RateLimited => 7,
            ErrorCode::TemporarilyUnavailable => 8,
            ErrorCode::Internal => 9,
        }
    }

    pub fn number(self) -> (number: i32)
        ensures
            number == self.code(),
    {
        match self {
            ErrorCode::Unspecified => 0,
            ErrorCode::TimelineNotFound => 1,
            ErrorCode::RouteVersionMismatch => 2,
            ErrorCode::EpochMismatch => 3,
            ErrorCode::LeaseExpired => 4,
            ErrorCode::NotTimelineOwner => 5,
            ErrorCode::InvalidArgument => 6,
            ErrorCode::RateLimited => 7,
            ErrorCode::TemporarilyUnavailable => 8,
            ErrorCode::Internal => 9,
        }
    }

    /// The value with a number, if there is one.
    pub fn from_number(number: i32) -> (value: Option<ErrorCode>)
        ensures
            match value {
                Some(found) => found.code() == number,
                None => forall|other: ErrorCode| (#[trigger] other.code()) != number,
            },
    {
        match number {
            0 => Some(ErrorCode::Unspecified),
            1 => Some(ErrorCode::TimelineNotFound),
            2 => Some(ErrorCode::RouteVersionMismatch),
            3 => Some(ErrorCode::EpochMismatch),
            4 => Some(ErrorCode::LeaseExpired),
            5 => Some(ErrorCode::NotTimelineOwner),
            6 => Some(ErrorCode::InvalidArgument),
            7 => Some(ErrorCode::RateLimited),
            8 => Some(ErrorCode::TemporarilyUnavailable),
            9 => Some(ErrorCode::Internal),
            _ => None,
        }
    }
}

/// What keeps an operator action from going ahead.
#[derive(Debug, Clone, Copy, PartialEq, Eq, Structural)]
pub enum OperatorActionBlocker {
    Unspecified,
    LeaseNotExpired,
    RecoveryFloorMissing,
}

impl OperatorActionBlocker {
    /// The number of the value on the wire.
    pub open spec fn code(self) -> i32 {
        match self {
            OperatorActionBlocker::Unspecified => 0,
            OperatorActionBlocker::LeaseNotExpired => 1,
            OperatorActionBlocker::RecoveryFloorMissing => 2,
        }
    }

    pub fn number(self) -> (number: i32)
        ensures
            number == self.code(),
    {
        match self {
            OperatorActionBlocker::Unspecified => 0,
            OperatorActionBlocker::LeaseNotExpired => 1,
            OperatorActionBlocker::RecoveryFloorMissing => 2,
        }
    }

    /// The value with a number, if there is one.
    pub fn from_number(number: i32) -> (value: Option<OperatorActionBlocker>)
        ensures
            match value {
                Some(found) => found.code() == number,
                None => forall|other: OperatorActionBlocker| (#[trigger] other.code()) != number,
            },
    {
        match number {
            0 => Some(OperatorActionBlocker::Unspecified),
            1 => Some(OperatorActionBlocker::LeaseNotExpired),
            2 => Some(OperatorActionBlocker::RecoveryFloorMissing),
            _ => None,
        }
    }
}

/// What an operator can do about it.
#[derive(Debug, Clone, Copy, PartialEq, Eq, Structural)]
pub enum OperatorActionNextStep {
    Unspecified,
    WaitForLeaseExpiry,
    PersistRecoveryFloor,
}

impl OperatorActionNextStep {
    /// The number of the value on the wire.
    pub open spec fn code(self) -> i32 {
        match self {
            OperatorActionNextStep::Unspecified => 0,
            OperatorActionNextStep::WaitForLeaseExpiry => 1,
            OperatorActionNextStep::PersistRecoveryFloor => 2,
        }
    }

    pub fn number(self) -> (number: i32)
        ensures
            number == self.code(),
    {
        match self {
            OperatorActionNextStep::Unspecified => 0,
            OperatorActionNextStep::WaitForLeaseExpiry => 1,
            OperatorActionNextStep::PersistRecoveryFloor => 2,
        }
    }

    /// The value with a number, if there is one.
    pub fn from_number(number: i32) -> (value: Option<OperatorActionNextStep>)
        ensures
            match value {
                Some(found) => found.code() == number,
                None => forall|other: OperatorActionNextStep| (#[trigger] other.code()) != number,
            },
    {
        match number {
            0 => Some(OperatorActionNextStep::Unspecified),
            1 => Some(OperatorActionNextStep::WaitForLeaseExpiry),
            2 => Some(OperatorActionNextStep::PersistRecoveryFloor),
            _ => None,
        }
    }
}

/// The resource tier of a route.
#[derive(Debug, Clone, Copy, PartialEq, Eq, Structural)]
pub enum ProtoResourceTier {
    Unspecified,
    Shared,
    Warm,
    Dedicated,
}

impl ProtoResourceTier {
    /// The number of the value on the wire.
    pub open spec fn code(self) -> i32 {
        match self {
            ProtoResourceTier::Unspecified => 0,
            ProtoResourceTier::Shared => 1,
            ProtoResourceTier::Warm => 2,
            ProtoResourceTier::Dedicated => 3,
        }
    }

    pub fn number(self) -> (number: i32)
        ensures
            number == self.code(),
    {
        match self {
            ProtoResourceTier::Unspecified => 0,
            ProtoResourceTier::Shared => 1,
            ProtoResourceTier::Warm => 2,
            ProtoResourceTier::Dedicated => 3,
        }
    }

    /// The value with a number, if there is one.
    pub fn from_number(number: i32) -> (value: Option<ProtoResourceTier>)
        ensures
            match value {
                Some(found) => found.code() == number,
                None => forall|other: ProtoResourceTier| (#[trigger] other.code()) != number,
            },
    {
        match number {
            0 => Some(ProtoResourceTier::Unspecified),
            1 => Some(ProtoResourceTier::Shared),
            2 => Some(ProtoResourceTier::Warm),
            3 => Some(ProtoResourceTier::Dedicated),
            _ => None,
        }
    }
}

/// The lifecycle state of a timeline.
#[derive(Debug, Clone, Copy, PartialEq, Eq, Structural)]
pub enum ProtoTimelineState {
    Unspecified,
    Creating,
    Active,
    Draining,
    Locked,
    Recovering,
}

impl ProtoTimelineState {
    /// The number of the value on the wire.
    pub open spec fn code(self) -> i32 {
        match self {
            ProtoTimelineState::Unspecified => 0,
            ProtoTimelineState::Creating => 1,
            ProtoTimelineState::Active => 2,
            ProtoTimelineState::Draining => 3,
            ProtoTimelineState::Locked => 4,
            ProtoTimelineState::Recovering => 5,
        }
    }

    pub fn number(self) -> (number: i32)
        ensures
            number == self.code(),
    {
        match self {
            ProtoTimelineState::Unspecified => 0,
            ProtoTimelineState::Creating => 1,
            ProtoTimelineState::Active => 2,
            ProtoTimelineState::Draining => 3,
            ProtoTimelineState::Locked => 4,
            ProtoTimelineState::Recovering => 5,
        }
    }

    /// The value with a number, if there is one.
    pub fn from_number(number: i32) -> (value: Option<ProtoTimelineState>)
        ensures
            match value {
                Some(found) => found.code() == number,
                None => forall|other: ProtoTimelineState| (#[trigger] other.code()) != number,
            },
    {
        match number {
            0 => Some(ProtoTimelineState::Unspecified),
            1 => Some(ProtoTimelineState::Creating),
            2 => Some(ProtoTimelineState::Active),
            3 => Some(ProtoTimelineState::Draining),
            4 => Some(ProtoTimelineState::Locked),
            5 => Some(ProtoTimelineState::Recovering),
            _ => None,
        }
    }
}

/// Whether a timeline can fail over.
#[derive(Debug, Clone, Copy, PartialEq, Eq, Structural)]
pub enum ProtoTimelineFailoverReadiness {
    Unspecified,
    NotApplicable,
    Eligible,
    WaitingForLeaseExpiry,
    BlockedMissingRecoveryFloor,
}

impl ProtoTimelineFailoverReadiness {
    /// The number of the value on the wire.
    pub open spec fn code(self) -> i32 {
        match self {
            ProtoTimelineFailoverReadiness::Unspecified => 0,
            ProtoTimelineFailoverReadiness::NotApplicable => 1,
            ProtoTimelineFailoverReadiness::Eligible => 2,
            ProtoTimelineFailoverReadiness::WaitingForLeaseExpiry => 3,
            ProtoTimelineFailoverReadiness::BlockedMissingRecoveryFloor => 4,
        }
    }

    pub fn number(self) -> (number: i32)
        ensures
            number == self.code(),
    {
        match self {
            ProtoTimelineFailoverReadiness::Unspecified => 0,
            ProtoTimelineFailoverReadiness::NotApplicable => 1,
            ProtoTimelineFailoverReadiness::Eligible => 2,
            ProtoTimelineFailoverReadiness::WaitingForLeaseExpiry => 3,
            ProtoTimelineFailoverReadiness::BlockedMissingRecoveryFloor => 4,
        }
    }

    /// The value with a number, if there is one.
    pub fn from_number(number: i32) -> (value: Option<ProtoTimelineFailoverReadiness>)
        ensures
            match value {
                Some(found) => found.code() == number,
                None => forall|other: ProtoTimelineFailoverReadiness| (#[trigger] other.code()) != number,
            },
    {
        match number {
            0 => Some(ProtoTimelineFailoverReadiness::Unspecified),
            1 => Some(ProtoTimelineFailoverReadiness::NotApplicable),
            2 => Some(ProtoTimelineFailoverReadiness::Eligible),
            3 => Some(ProtoTimelineFailoverReadiness::WaitingForLeaseExpiry),
            4 => Some(ProtoTimelineFailoverReadiness::BlockedMissingRecoveryFloor),
            _ => None,
        }
    }
}

/// Whether a worker serves.
#[derive(Debug, Clone, Copy, PartialEq, Eq, Structural)]
pub enum ProtoWorkerReadinessState {
    Unspecified,
    Ready,
    Degraded,
}

impl ProtoWorkerReadinessState {
    /// The number of the value on the wire.
    pub open spec fn code(self) -> i32 {
        match self {
            ProtoWorkerReadinessState::Unspecified => 0,
            ProtoWorkerReadinessState::Ready => 1,
            ProtoWorkerReadinessState::Degraded => 2,
        }
    }

    pub fn number(self) -> (number: i32)
        ensures
            number == self.code(),
    {
        match self {
            ProtoWorkerReadinessState::Unspecified => 0,
            ProtoWorkerReadinessState::Ready => 1,
            ProtoWorkerReadinessState::Degraded => 2,
        }
    }

    /// The value with a number, if there is one.
    pub fn from_number(number: i32) -> (value: Option<ProtoWorkerReadinessState>)
        ensures
            match value {
                Some(found) => found.code() == number,
                None => forall|other: ProtoWorkerReadinessState| (#[trigger] other.code()) != number,
            },
    {
        match number {
            0 => Some(ProtoWorkerReadinessState::Unspecified),
            1 => Some(ProtoWorkerReadinessState::Ready),
            2 => Some(ProtoWorkerReadinessState::Degraded),
            _ => None,
        }
    }
}

/// Why a worker is in its readiness state.
#[derive(Debug, Clone, Copy, PartialEq, Eq, Structural)]
pub enum ProtoWorkerReadinessReason {
    Unspecified,
    Serving,
    StartupPreflightFailed,
    MetadataStartupProbeFailed,
    IdentityLeaseAcquireFailed,
    IdentityLeaseLost,
    ShuttingDown,
    Draining,
    OwnershipDrift,
}

impl ProtoWorkerReadinessReason {
    /// The number of the value on the wire.
    pub open spec fn code(self) -> i32 {
        match self {
            ProtoWorkerReadinessReason::Unspecified => 0,
            ProtoWorkerReadinessReason::Serving => 1,
            ProtoWorkerReadinessReason::StartupPreflightFailed => 2,
            ProtoWorkerReadinessReason::MetadataStartupProbeFailed => 3,
            ProtoWorkerReadinessReason::IdentityLeaseAcquireFailed => 4,
            ProtoWorkerReadinessReason::IdentityLeaseLost => 5,
            ProtoWorkerReadinessReason::ShuttingDown => 6,
            ProtoWorkerReadinessReason::Draining => 7,
            ProtoWorkerReadinessReason::OwnershipDrift => 8,
        }
    }

    pub fn number(self) -> (number: i32)
        ensures
            number == self.code(),
    {
        match self {
            ProtoWorkerReadinessReason::Unspecified => 0,
            ProtoWorkerReadinessReason::Serving => 1,
            ProtoWorkerReadinessReason::StartupPreflightFailed => 2,
            ProtoWorkerReadinessReason::MetadataStartupProbeFailed => 3,
            ProtoWorkerReadinessReason::IdentityLeaseAcquireFailed => 4,
            ProtoWorkerReadinessReason::IdentityLeaseLost => 5,
            ProtoWorkerReadinessReason::ShuttingDown => 6,
            ProtoWorkerReadinessReason::Draining => 7,
            ProtoWorkerReadinessReason::OwnershipDrift => 8,
        }
    }

    /// The value with a number, if there is one.
    pub fn from_number(number: i32) -> (value: Option<ProtoWorkerReadinessReason>)
        ensures
            match value {
                Some(found) => found.code() == number,
                None => forall|other: ProtoWorkerReadinessReason| (#[trigger] other.code()) != number,
            },
    {
        match number {
            0 => Some(ProtoWorkerReadinessReason::Unspecified),
            1 => Some(ProtoWorkerReadinessReason::Serving),
            2 => Some(ProtoWorkerReadinessReason::StartupPreflightFailed),
            3 => Some(ProtoWorkerReadinessReason::MetadataStartupProbeFailed),
            4 => Some(ProtoWorkerReadinessReason::IdentityLeaseAcquireFailed),
            5 => Some(ProtoWorkerReadinessReason::IdentityLeaseLost),
            6 => Some(ProtoWorkerReadinessReason::ShuttingDown),
            7 => Some(ProtoWorkerReadinessReason::Draining),
            8 => Some(ProtoWorkerReadinessReason::OwnershipDrift),
            _ => None,
        }
    }
}

/// The status codes of the transport.
#[derive(Debug, Clone, Copy, PartialEq, Eq, Structural)]
pub enum StatusCode {
    Success,
    Cancelled,
    Unknown,
    InvalidArgument,
    DeadlineExceeded,
    NotFound,
    AlreadyExists,
    PermissionDenied,
    ResourceExhausted,
    FailedPrecondition,
    Aborted,
    OutOfRange,
    Unimplemented,
    Internal,
    Unavailable,
    DataLoss,
    Unauthenticated,
}

impl StatusCode {
    /// The number of the value on the wire.
    pub open spec fn code(self) -> i32 {
        match self {
            StatusCode::Success => 0,
            StatusCode::Cancelled => 1,
            StatusCode::Unknown => 2,
            StatusCode::InvalidArgument => 3,
            StatusCode::DeadlineExceeded => 4,
            StatusCode::NotFound => 5,
            StatusCode::AlreadyExists => 6,
            StatusCode::PermissionDenied => 7,
            StatusCode::ResourceExhausted => 8,
            StatusCode::FailedPrecondition => 9,
            StatusCode::Aborted => 10,
            StatusCode::OutOfRange => 11,
            StatusCode::Unimplemented => 12,
            StatusCode::Internal => 13,
            StatusCode::Unavailable => 14,
            StatusCode::DataLoss => 15,
            StatusCode::Unauthenticated => 16,
        }
    }

    pub fn number(self) -> (number: i32)
        ensures
            number == self.code(),
    {
        match self {
            StatusCode::Success => 0,
            StatusCode::Cancelled => 1,
            StatusCode::Unknown => 2,
            StatusCode::InvalidArgument => 3,
            StatusCode::DeadlineExceeded => 4,
            StatusCode::NotFound => 5,
            StatusCode::AlreadyExists => 6,
            StatusCode::PermissionDenied => 7,
            StatusCode::ResourceExhausted => 8,
            StatusCode::FailedPrecondition => 9,
            StatusCode::Aborted => 10,
            StatusCode::OutOfRange => 11,
            StatusCode::Unimplemented => 12,
            StatusCode::Internal => 13,
            StatusCode::Unavailable => 14,
            StatusCode::DataLoss => 15,
            StatusCode::Unauthenticated => 16,
        }
    }

    /// The value with a number, if there is one.
    pub fn from_number(number: i32) -> (value: Option<StatusCode>)
        ensures
            match value {
                Some(found) => found.code() == number,
                None => forall|other: StatusCode| (#[trigger] other.code()) != number,
            },
    {
        match number {
            0 => Some(StatusCode::Success),
            1 => Some(StatusCode::Cancelled),
            2 => Some(StatusCode::Unknown),
            3 => Some(StatusCode::InvalidArgument),
            4 => Some(StatusCode::DeadlineExceeded),
            5 => Some(StatusCode::NotFound),
            6 => Some(StatusCode::AlreadyExists),
            7 => Some(StatusCode::PermissionDenied),
            8 => Some(StatusCode::ResourceExhausted),
            9 => Some(StatusCode::FailedPrecondition),
            10 => Some(StatusCode::Aborted),
            11 => Some(StatusCode::OutOfRange),
            12 => Some(StatusCode::Unimplemented),
            13 => Some(StatusCode::Internal),
            14 => Some(StatusCode::Unavailable),
            15 => Some(StatusCode::DataLoss),
            16 => Some(StatusCode::Unauthenticated),
            _ => None,
        }
    }
}

/// The structured part of an error.
#[derive(Debug, PartialEq, Eq)]
pub struct ErrorDetail {
    pub code: i32,
    pub message: String,
    pub current_epoch: u64,
    pub current_route_version: u64,
    pub redirect_endpoint: String,
    pub action_blocker: i32,
    pub next_step: i32,
}

/// The content of an error detail.
pub struct ErrorDetailView {
    pub code: i32,
    pub message: Seq<char>,
    pub current_epoch: u64,
    pub current_route_version: u64,
    pub redirect_endpoint: Seq<char>,
    pub action_blocker: i32,
    pub next_step: i32,
}

impl View for ErrorDetail {
    type V = ErrorDetailView;

    open spec fn view(&self) -> ErrorDetailView {
        ErrorDetailView {
            code: self.code,
            message: self.message@,
            current_epoch: self.current_epoch,
            current_route_version: self.current_route_version,
            redirect_endpoint: self.redirect_endpoint@,
            action_blocker: self.action_blocker,
            next_step: self.next_step,
        }
    }
}

/// A route as it is sent to clients.
#[derive(Debug, PartialEq, Eq)]
pub struct ProtoTimelineRoute {
    pub timeline_key: String,
    pub generator_id: u32,
    pub owner_worker_endpoint: String,
    pub epoch: u64,
    pub route_version: u64,
    pub resource_tier: i32,
    pub cache_ttl_ms: u32,
}

#[derive(Debug, Clone, Copy, PartialEq, Eq, Structural)]
pub struct ProtoTimestampRange {
    pub start_tso: u64,
    pub end_tso: u64,
}

/// A point in time: seconds since the epoch and the nanoseconds after them.
#[derive(Debug, Clone, Copy, PartialEq, Eq, Structural)]
pub struct ServerTime {
    pub seconds: i64,
    pub nanos: i32,
}

/// What a route watch sends.
#[derive(Debug, PartialEq, Eq)]
pub enum TimelineRouteEvent {
    Route(ProtoTimelineRoute),
    Keepalive { server_time: ServerTime },
}

#[derive(Debug, PartialEq, Eq)]
pub struct ProtoTimelineStatus {
    pub route: ProtoTimelineRoute,
    pub state: i32,
    pub recovery_floor_tso: Option<u64>,
    pub issued_upper_bound: Option<u64>,
    pub last_graceful_issued: Option<u64>,
    pub lease_expire_at_ms: Option<u64>,
    pub owner_instance_id: Option<String>,
    pub updated_at_ms: u64,
    pub failover_readiness: i32,
}

#[derive(Debug, PartialEq, Eq)]
pub struct HealthResponse {
    pub service: String,
    pub instance_id: String,
    pub server_time: ServerTime,
    pub worker_id: String,
    pub advertise_endpoint: String,
    pub readiness_state: i32,
    pub readiness_reason: i32,
    pub identity_lease_healthy: bool,
    pub build_version: String,
    pub build_commit: String,
    pub mixed_version_contract_id: String,
}

#[derive(Debug, PartialEq, Eq)]
pub struct GetTimelineStatusResponse {
    pub status: ProtoTimelineStatus,
}

#[derive(Debug, PartialEq, Eq)]
pub struct ListTimelineStatusesResponse {
    pub statuses: Vec<ProtoTimelineStatus>,
    pub next_page_token: String,
}

#[derive(Debug, PartialEq, Eq)]
pub struct ListTimelineStatusesRequest {
    pub states: Vec<i32>,
    pub owner_worker_endpoint: Option<String>,
    pub page_size: u32,
    pub page_token: String,
}

#[derive(Debug, PartialEq, Eq)]
pub struct TransferTimelineRequest {
    pub timeline_key: String,
    pub target_generator_id: Option<u32>,
    pub target_worker_id: Option<String>,
    pub reason: i32,
}

#[derive(Debug, PartialEq, Eq)]
pub struct TransferTimelineResponse {
    pub timeline_key: String,
    pub old_generator_id: u32,
    pub new_generator_id: u32,
    pub new_epoch: u64,
    pub route_version: u64,
    pub state: i32,
}

/// An allocation request as clients send it.
#[derive(Debug, PartialEq, Eq)]
pub struct ProtoAllocateTimestampsRequest {
    pub timeline_key: String,
    pub count: u32,
    pub expected_epoch: u64,
    pub expected_route_version: u64,
    pub client_request_id: String,
    pub request_timeout_ms: u32,
}

/// An allocation response as clients receive it.
#[derive(Debug, PartialEq, Eq)]
pub struct ProtoAllocateTimestampsResponse {
    pub timeline_key: String,
    pub generator_id: u32,
    pub epoch: u64,
    pub route_version: u64,
    pub ranges: Vec<ProtoTimestampRange>,
}

/// Which routes a client watches and which versions it knows.
#[derive(Debug)]
pub struct WatchTimelineRoutesRequest {
    pub timeline_keys: Vec<String>,
    pub known_route_versions: Vec<(String, u64)>,
    pub sdk_instance_id: String,
}

/// How a request that failed is answered.
#[derive(Debug, PartialEq, Eq)]
pub struct Status {
    pub code: StatusCode,
    pub message: String,
    pub details: Vec<u8>,
}

} // verus!
