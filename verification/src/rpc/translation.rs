//! Errors of the request path: how they are answered and how often they are logged.

use vstd::prelude::*;

use crate::error::TsoError;
use crate::rpc::proto::{Status, StatusCode};
use crate::rpc::public_mapping;
use crate::rpc::public_mapping::map_tso_error;

verus! {

/// How long one lease warning silences the next ones.
pub const LEASE_WARNING_INTERVAL_MS: u64 = 10_000;

/// When a warning was last emitted, and how many were held back since.
#[derive(Debug)]
pub struct WarningRateLimitState {
    pub last_emitted_at_ms: Option<u64>,
    pub suppressed: u64,
}

impl Default for WarningRateLimitState {
    fn default() -> (state: Self)
        ensures
            state.last_emitted_at_ms is None,
            state.suppressed == 0,
    {
        WarningRateLimitState { last_emitted_at_ms: None, suppressed: 0 }
    }
}

impl WarningRateLimitState {
    /// A warning went out less than the interval ago. A clock that went back counts as no time.
    pub open spec fn silenced(self, now_ms: u64) -> bool {
        self.last_emitted_at_ms matches Some(last) && now_ms - last
            < LEASE_WARNING_INTERVAL_MS
    }

    /// What asking whether a warning may go out comes to.
    pub open spec fn takes(self, before: Self, now_ms: u64, taken: Option<u64>) -> bool {
        if before.silenced(now_ms) {
            &&& taken is None
            &&& self.last_emitted_at_ms == before.last_emitted_at_ms
            &&& self.suppressed == if before.suppressed < u64::MAX {
                before.suppressed + 1
            } else {
                u64::MAX as int
            }
        } else {
            &&& taken == Some(before.suppressed)
            &&& self.last_emitted_at_ms == Some(now_ms)
            &&& self.suppressed == 0
        }
    }

    /// Whether a warning may go out now, and if so how many were held back since the last one.
    pub fn take_suppressed_at(&mut self, now_ms: u64) -> (taken: Option<u64>)
        ensures
            final(self).takes(*old(self), now_ms, taken),
            old(self).silenced(now_ms) ==> taken is None && final(self).last_emitted_at_ms
                == old(self).last_emitted_at_ms && final(self).suppressed == if old(self).suppressed < u64::MAX {
                old(self).suppressed + 1
            } else {
                u64::MAX as int
            },
            !old(self).silenced(now_ms) ==> taken == Some(old(self).suppressed)
                && final(self).last_emitted_at_ms == Some(now_ms) && final(self).suppressed == 0,
    {
        if let Some(last) = self.last_emitted_at_ms {
            if now_ms < last || now_ms - last < LEASE_WARNING_INTERVAL_MS {
                if self.suppressed < u64::MAX {
                    self.suppressed = self.suppressed + 1;
                }
                return None;
            }
        }
        self.last_emitted_at_ms = Some(now_ms);
        let suppressed: u64 = self.suppressed;
        self.suppressed = 0;
        Some(suppressed)
    }
}

/// Warnings keep ten seconds apart, the first goes out at once, and each that is held back is
/// counted with the next that goes out.
pub proof fn warnings_keep_their_distance(
    before: WarningRateLimitState,
    after: WarningRateLimitState,
    now_ms: u64,
    taken: Option<u64>,
)
    requires
        after.takes(before, now_ms, taken),
    ensures
        taken is Some <==> (before.last_emitted_at_ms matches Some(last) ==> now_ms >= last
            + 10_000),
        taken matches Some(count) ==> count == before.suppressed && after.suppressed == 0
            && after.last_emitted_at_ms == Some(now_ms),
        taken is None ==> after.last_emitted_at_ms == before.last_emitted_at_ms && (
        before.suppressed < u64::MAX ==> after.suppressed == before.suppressed + 1) && (
        before.suppressed == u64::MAX ==> after.suppressed == u64::MAX),
{
}

/// Why a request that was handed to a lane of its timeline failed.
#[derive(Debug, PartialEq, Eq)]
pub enum TimelineProxyError {
    Tso(TsoError),
    TimedOut,
}

/// A status that tells why an allocation failed.
pub open spec fn reports_proxy_error(status: Status, err: TimelineProxyError) -> bool {
    match err {
        TimelineProxyError::Tso(inner) => public_mapping::reports(status, inner),
        TimelineProxyError::TimedOut => status.code == StatusCode::DeadlineExceeded
            && status.message@ == "AllocateTimestamps timed out"@ && status.details@.len() == 0,
    }
}

pub fn map_timeline_proxy_error(err: TimelineProxyError) -> (status: Status)
    ensures
        reports_proxy_error(status, err),
{
    match err {
        TimelineProxyError::Tso(inner) => map_tso_error(inner),
        TimelineProxyError::TimedOut => Status {
            code: StatusCode::DeadlineExceeded,
            message: "AllocateTimestamps timed out".to_owned(),
            details: Vec::new(),
        },
    }
}

/// What is logged of an error that the runtime's protection raises.
#[derive(Debug, Clone, Copy, PartialEq, Eq, Structural)]
pub enum ProtectionEvent {
    TimelineLeaseExpired,
    GeneratorLeaseExpired,
    TimelineProxySaturated,
    TimelineRuntimeCacheSaturated,
    ClockBackwards,
}

impl ProtectionEvent {
    /// The event is one of a lease that expired.
    pub open spec fn is_of_a_lease(self) -> bool {
        self == ProtectionEvent::TimelineLeaseExpired || self
            == ProtectionEvent::GeneratorLeaseExpired
    }

    /// Lease warnings are the ones whose rate is limited.
    pub fn is_rate_limited(self) -> (limited: bool)
        ensures
            limited == self.is_of_a_lease(),
            limited == (self == ProtectionEvent::TimelineLeaseExpired || self
                == ProtectionEvent::GeneratorLeaseExpired),
    {
        match self {
            ProtectionEvent::TimelineLeaseExpired | ProtectionEvent::GeneratorLeaseExpired => true,
            _ => false,
        }
    }
}

/// The event that an error is logged as.
pub open spec fn logged_as(err: TsoError) -> Option<ProtectionEvent> {
    match err {
        TsoError::LeaseExpired { .. } => Some(ProtectionEvent::TimelineLeaseExpired),
        TsoError::GeneratorLeaseExpired { .. } => Some(ProtectionEvent::GeneratorLeaseExpired),
        TsoError::TimelineIngressSaturated { .. } => Some(ProtectionEvent::TimelineProxySaturated),
        TsoError::TimelineRuntimeCacheSaturated { .. } => Some(
            ProtectionEvent::TimelineRuntimeCacheSaturated,
        ),
        TsoError::ClockBackwards { .. } => Some(ProtectionEvent::ClockBackwards),
        _ => None,
    }
}

/// Each event is logged for one kind of error, and nothing is logged for any other.
pub proof fn events_are_logged_for_their_errors(err: TsoError)
    ensures
        logged_as(err) == Some(ProtectionEvent::TimelineLeaseExpired) <==> err is LeaseExpired,
        logged_as(err) == Some(ProtectionEvent::GeneratorLeaseExpired) <==> err
            is GeneratorLeaseExpired,
        logged_as(err) == Some(ProtectionEvent::TimelineProxySaturated) <==> err
            is TimelineIngressSaturated,
        logged_as(err) == Some(ProtectionEvent::TimelineRuntimeCacheSaturated) <==> err
            is TimelineRuntimeCacheSaturated,
        logged_as(err) == Some(ProtectionEvent::ClockBackwards) <==> err is ClockBackwards,
{
}

/// Just the warnings of leases that expired are held back.
pub proof fn lease_warnings_are_held_back(err: TsoError)
    ensures
        logged_as(err) matches Some(event) ==> (event.is_of_a_lease() <==> err is LeaseExpired
            || err is GeneratorLeaseExpired),
{
}

/// A request that timed out is answered so; any other failure as what it is.
pub proof fn failed_requests_are_answered_as_what_they_are(status: Status, err: TimelineProxyError)
    requires
        reports_proxy_error(status, err),
    ensures
        err is TimedOut ==> status.code == StatusCode::DeadlineExceeded && status.details@.len()
            == 0,
        err matches TimelineProxyError::Tso(inner) ==> status.code
            == public_mapping::status_code(inner) && status.message@ == inner.words(),
{
}

/// Which event an error is logged as, if any.
pub fn protection_event(err: &TsoError) -> (event: Option<ProtectionEvent>)
    ensures
        event == logged_as(*err),
        event == match *err {
            TsoError::LeaseExpired { .. } => Some(ProtectionEvent::TimelineLeaseExpired),
            TsoError::GeneratorLeaseExpired { .. } => Some(ProtectionEvent::GeneratorLeaseExpired),
            TsoError::TimelineIngressSaturated { .. } => Some(
                ProtectionEvent::TimelineProxySaturated,
            ),
            TsoError::TimelineRuntimeCacheSaturated { .. } => Some(
                ProtectionEvent::TimelineRuntimeCacheSaturated,
            ),
            TsoError::ClockBackwards { .. } => Some(ProtectionEvent::ClockBackwards),
            _ => None,
        },
{
    match err {
        TsoError::LeaseExpired { .. } => Some(ProtectionEvent::TimelineLeaseExpired),
        TsoError::GeneratorLeaseExpired { .. } => Some(ProtectionEvent::GeneratorLeaseExpired),
        TsoError::TimelineIngressSaturated { .. } => Some(ProtectionEvent::TimelineProxySaturated),
        TsoError::TimelineRuntimeCacheSaturated { .. } => {
            Some(ProtectionEvent::TimelineRuntimeCacheSaturated)
        },
        TsoError::ClockBackwards { .. } => Some(ProtectionEvent::ClockBackwards),
        _ => None,
    }
}

} // verus!
