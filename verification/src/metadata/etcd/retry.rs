//! When a request to the store is made again, and after how long.

use vstd::prelude::*;

use crate::rpc::proto::StatusCode;

verus! {

pub const DEFAULT_ETCD_REQUEST_RETRY_BUDGET_MS: u64 = 1_000;

pub const ETCD_REQUEST_MAX_ATTEMPTS: u32 = 4;

pub const ETCD_REQUEST_RETRY_MIN_BACKOFF_MS: u64 = 25;

pub const ETCD_REQUEST_RETRY_MAX_BACKOFF_MS: u64 = 250;

pub const ETCD_REQUEST_RETRY_JITTER_MAX_MS: u64 = 25;

pub const IDENTITY_KEEPALIVE_RECONNECT_MIN_BACKOFF_MS: u64 = 100;

pub const IDENTITY_KEEPALIVE_RECONNECT_MAX_BACKOFF_MS: u64 = 500;

pub const ROUTE_WATCH_MIN_RECONNECT_BACKOFF_MS: u64 = 100;

pub const ROUTE_WATCH_MAX_RECONNECT_BACKOFF_MS: u64 = 5_000;

/// `base` doubled `times` times.
pub open spec fn doubled(base: nat, times: nat) -> nat
    decreases times,
{
    if times == 0 {
        base
    } else {
        2 * doubled(base, (times - 1) as nat)
    }
}

pub open spec fn smaller(a: int, b: int) -> int {
    if a <= b {
        a
    } else {
        b
    }
}

/// How often the backoff has doubled by the given failure: not at all by the first, and no more
/// often than `most`.
pub open spec fn doublings(failures: u32, most: nat) -> nat {
    if failures == 0 {
        0
    } else if failures - 1 <= most {
        (failures - 1) as nat
    } else {
        most
    }
}

/// A backoff that doubles up to a bound, with some jitter on top, and stays within that bound.
pub open spec fn backoff(base: nat, failures: u32, most: nat, jitter: nat, bound: nat) -> int {
    smaller(smaller(doubled(base, doublings(failures, most)) as int, bound as int) + jitter,
        bound as int)
}

fn backoff_ms(base: u64, failures: u32, most: u32, jitter: u64, bound: u64) -> (wait: u64)
    requires
        base <= 1_000,
        most <= 6,
        jitter <= 1_000,
        bound <= 10_000,
    ensures
        wait == backoff(base as nat, failures, most as nat, jitter as nat, bound as nat),
{
    let shift: u32 = if failures == 0 {
        0
    } else if failures - 1 <= most {
        failures - 1
    } else {
        most
    };
    let mut delay: u64 = base;
    let mut i: u32 = 0;
    while i < shift
        invariant
            i <= shift <= 6,
            base <= 1_000,
            delay == doubled(base as nat, i as nat),
            i == 0 ==> delay <= 1_000,
            i == 1 ==> delay <= 2_000,
            i == 2 ==> delay <= 4_000,
            i == 3 ==> delay <= 8_000,
            i == 4 ==> delay <= 16_000,
            i == 5 ==> delay <= 32_000,
            i == 6 ==> delay <= 64_000,
        decreases shift - i,
    {
        delay = 2 * delay;
        i = i + 1;
    }
    let bounded: u64 = if delay <= bound {
        delay
    } else {
        bound
    };
    if bounded + jitter <= bound {
        bounded + jitter
    } else {
        bound
    }
}

/// The jitter of the wait before a watch is opened again.
pub open spec fn route_watch_jitter(failures: u32, process_id: u32) -> nat {
    ((process_id as nat + 97 * failures as nat) % 100) as nat
}

/// The wait before a watch is opened again.
pub open spec fn route_watch_wait(failures: u32, process_id: u32) -> int {
    backoff(
        ROUTE_WATCH_MIN_RECONNECT_BACKOFF_MS as nat,
        failures,
        6,
        route_watch_jitter(failures, process_id),
        ROUTE_WATCH_MAX_RECONNECT_BACKOFF_MS as nat,
    )
}

/// The wait before a keepalive stream is opened again.
pub open spec fn keepalive_wait(failures: u32, process_id: u32) -> int {
    backoff(
        IDENTITY_KEEPALIVE_RECONNECT_MIN_BACKOFF_MS as nat,
        failures,
        3,
        keepalive_jitter(failures, process_id),
        IDENTITY_KEEPALIVE_RECONNECT_MAX_BACKOFF_MS as nat,
    )
}

/// The wait before a request is made again.
pub open spec fn request_wait(attempt: u32, jitter_ms: u64) -> int {
    backoff(
        ETCD_REQUEST_RETRY_MIN_BACKOFF_MS as nat,
        attempt,
        4,
        jitter_ms as nat,
        ETCD_REQUEST_RETRY_MAX_BACKOFF_MS as nat,
    )
}

/// A watch waits a tenth of a second after its first failure and twice as long after each further
/// one, up to five seconds; a keepalive stream likewise up to half a second; and a request from 25
/// milliseconds up to 250. Jitter that depends on the process comes on top, within the same bounds.
pub proof fn waits_double_up_to_their_bounds(failures: u32, process_id: u32, jitter_ms: u64)
    requires
        jitter_ms <= 25,
    ensures
        route_watch_wait(failures, process_id) == if failures <= 1 {
            100 + (process_id + 97 * failures) % 100
        } else if failures == 2 {
            200 + (process_id + 97 * failures) % 100
        } else if failures == 3 {
            400 + (process_id + 97 * failures) % 100
        } else if failures == 4 {
            800 + (process_id + 97 * failures) % 100
        } else if failures == 5 {
            1600 + (process_id + 97 * failures) % 100
        } else if failures == 6 {
            3200 + (process_id + 97 * failures) % 100
        } else {
            5000
        },
        keepalive_wait(failures, process_id) == if failures <= 1 {
            100 + (process_id + 53 * failures) % 50
        } else if failures == 2 {
            200 + (process_id + 53 * failures) % 50
        } else if failures == 3 {
            400 + (process_id + 53 * failures) % 50
        } else {
            500
        },
        request_wait(failures, jitter_ms) == if failures <= 1 {
            25 + jitter_ms
        } else if failures == 2 {
            50 + jitter_ms
        } else if failures == 3 {
            100 + jitter_ms
        } else if failures == 4 {
            200 + jitter_ms
        } else {
            250
        },
{
    reveal_with_fuel(doubled, 8);
}

/// How long to wait before a watch is opened again, in milliseconds.
pub fn route_watch_reconnect_backoff(consecutive_failures: u32, process_id: u32) -> (wait: u64)
    ensures
        wait == route_watch_wait(consecutive_failures, process_id),
        wait == backoff(
            ROUTE_WATCH_MIN_RECONNECT_BACKOFF_MS as nat,
            consecutive_failures,
            6,
            route_watch_jitter(consecutive_failures, process_id),
            ROUTE_WATCH_MAX_RECONNECT_BACKOFF_MS as nat,
        ),
{
    let jitter: u64 = (process_id as u64 + 97 * (consecutive_failures as u64)) % 100;
    backoff_ms(
        ROUTE_WATCH_MIN_RECONNECT_BACKOFF_MS,
        consecutive_failures,
        6,
        jitter,
        ROUTE_WATCH_MAX_RECONNECT_BACKOFF_MS,
    )
}

/// The jitter of the wait before a keepalive stream is opened again.
pub open spec fn keepalive_jitter(failures: u32, process_id: u32) -> nat {
    ((process_id as nat + 53 * failures as nat) % 50) as nat
}

/// How long to wait before a keepalive stream is opened again, in milliseconds.
pub fn identity_keepalive_reconnect_backoff(consecutive_failures: u32, process_id: u32) -> (wait:
    u64)
    ensures
        wait == keepalive_wait(consecutive_failures, process_id),
        wait == backoff(
            IDENTITY_KEEPALIVE_RECONNECT_MIN_BACKOFF_MS as nat,
            consecutive_failures,
            3,
            keepalive_jitter(consecutive_failures, process_id),
            IDENTITY_KEEPALIVE_RECONNECT_MAX_BACKOFF_MS as nat,
        ),
{
    let jitter: u64 = (process_id as u64 + 53 * (consecutive_failures as u64)) % 50;
    backoff_ms(
        IDENTITY_KEEPALIVE_RECONNECT_MIN_BACKOFF_MS,
        consecutive_failures,
        3,
        jitter,
        IDENTITY_KEEPALIVE_RECONNECT_MAX_BACKOFF_MS,
    )
}

/// How long to wait before a request is made again, in milliseconds.
pub fn etcd_request_retry_backoff(attempt: u32, jitter_ms: u64) -> (wait: u64)
    requires
        jitter_ms <= ETCD_REQUEST_RETRY_JITTER_MAX_MS,
    ensures
        wait == request_wait(attempt, jitter_ms),
        wait == backoff(
            ETCD_REQUEST_RETRY_MIN_BACKOFF_MS as nat,
            attempt,
            4,
            jitter_ms as nat,
            ETCD_REQUEST_RETRY_MAX_BACKOFF_MS as nat,
        ),
{
    backoff_ms(
        ETCD_REQUEST_RETRY_MIN_BACKOFF_MS,
        attempt,
        4,
        jitter_ms,
        ETCD_REQUEST_RETRY_MAX_BACKOFF_MS,
    )
}

proof fn lemma_doubled_grows(base: nat, times: nat)
    ensures
        doubled(base, times) >= base,
    decreases times,
{
    if times > 0 {
        lemma_doubled_grows(base, (times - 1) as nat);
    }
}

/// However many failures there were, and whatever the jitter, a wait is at least the base and at
/// most the bound.
pub proof fn backoffs_are_bounded(base: nat, failures: u32, most: nat, jitter: nat, bound: nat)
    requires
        base <= bound,
    ensures
        base <= backoff(base, failures, most, jitter, bound) <= bound,
{
    lemma_doubled_grows(base, doublings(failures, most));
}

/// With the same jitter, one more failure never shortens the wait.
pub proof fn backoffs_never_shrink(base: nat, failures: u32, most: nat, jitter: nat, bound: nat)
    requires
        failures < u32::MAX,
    ensures
        backoff(base, failures, most, jitter, bound) <= backoff(
            base,
            (failures + 1) as u32,
            most,
            jitter,
            bound,
        ),
{
    let now = doublings(failures, most);
    let next = doublings((failures + 1) as u32, most);
    assert(next == now || next == now + 1);
}

/// The wait doubles with every failure after the first, up to so many doublings and up to the bound,
/// and the jitter comes on top as long as the bound allows.
pub proof fn backoffs_double(base: nat, failures: u32, most: nat, jitter: nat, bound: nat)
    ensures
        failures <= 1 ==> doubled(base, doublings(failures, most)) == base,
        1 <= failures <= most && failures < u32::MAX ==> doubled(
            base,
            doublings((failures + 1) as u32, most),
        ) == 2 * doubled(base, doublings(failures, most)),
        failures > most ==> doublings(failures, most) == most,
        ({
            let plain = doubled(base, doublings(failures, most)) as int;
            &&& plain + jitter <= bound ==> backoff(base, failures, most, jitter, bound) == plain
                + jitter
            &&& plain >= bound ==> backoff(base, failures, most, jitter, bound) == bound
        }),
{
}

/// The jitter stays below a tenth of a second for a watch, and below half of that for a keepalive.
pub proof fn jitters_are_small(failures: u32, process_id: u32)
    ensures
        route_watch_jitter(failures, process_id) < 100,
        keepalive_jitter(failures, process_id) < 50,
{
}

/// One step of the generator behind the jitter of request retries: the next state, and a jitter of
/// at most `max_ms`.
pub fn next_etcd_request_retry_jitter_ms(state: u64, process_id: u32, max_ms: u64) -> (step: (
    u64,
    u64,
))
    requires
        max_ms < u64::MAX,
    ensures
        max_ms == 0 ==> step == (state, 0u64),
        max_ms > 0 ==> step.0 == state.wrapping_mul(6_364_136_223_846_793_005u64).wrapping_add(
            1,
        ).wrapping_add(process_id as u64),
        max_ms > 0 ==> step.1 == step.0 as int % (max_ms + 1),
        step.1 <= max_ms,
{
    if max_ms == 0 {
        return (state, 0);
    }
    let next: u64 = state.wrapping_mul(6_364_136_223_846_793_005u64).wrapping_add(1).wrapping_add(
        process_id as u64,
    );
    (next, next % (max_ms + 1))
}

/// The time that all attempts of one request may take together.
pub open spec fn is_budget(
    grpc_request_timeout_ms: Option<u64>,
    etcd_timeout_ms: Option<u64>,
    budget: u64,
) -> bool {
    &&& budget >= DEFAULT_ETCD_REQUEST_RETRY_BUDGET_MS
    &&& grpc_request_timeout_ms matches Some(timeout) ==> budget >= timeout
    &&& etcd_timeout_ms matches Some(timeout) ==> budget >= timeout
    &&& budget == DEFAULT_ETCD_REQUEST_RETRY_BUDGET_MS || Some(budget) == grpc_request_timeout_ms
        || Some(budget) == etcd_timeout_ms
}

/// A request may take a second, or as long as the longest timeout that is configured where that is
/// longer.
pub proof fn requests_may_take_the_longest_timeout(
    grpc_request_timeout_ms: Option<u64>,
    etcd_timeout_ms: Option<u64>,
    budget: u64,
)
    requires
        is_budget(grpc_request_timeout_ms, etcd_timeout_ms, budget),
    ensures
        grpc_request_timeout_ms is None && etcd_timeout_ms is None ==> budget == 1000,
        budget >= 1000,
        grpc_request_timeout_ms is Some ==> budget >= grpc_request_timeout_ms->0,
        etcd_timeout_ms is Some ==> budget >= etcd_timeout_ms->0,
        budget > 1000 ==> grpc_request_timeout_ms == Some(budget) || etcd_timeout_ms == Some(
            budget,
        ),
{
}

/// How long all attempts of one request may take: the default, or a longer timeout that is
/// configured.
pub fn etcd_request_retry_budget(
    grpc_request_timeout_ms: Option<u64>,
    etcd_timeout_ms: Option<u64>,
) -> (budget: u64)
    ensures
        is_budget(grpc_request_timeout_ms, etcd_timeout_ms, budget),
        budget >= DEFAULT_ETCD_REQUEST_RETRY_BUDGET_MS,
        grpc_request_timeout_ms matches Some(timeout) ==> budget >= timeout,
        etcd_timeout_ms matches Some(timeout) ==> budget >= timeout,
        budget == DEFAULT_ETCD_REQUEST_RETRY_BUDGET_MS || Some(budget) == grpc_request_timeout_ms
            || Some(budget) == etcd_timeout_ms,
{
    let mut budget: u64 = DEFAULT_ETCD_REQUEST_RETRY_BUDGET_MS;
    if let Some(timeout) = grpc_request_timeout_ms {
        if timeout > budget {
            budget = timeout;
        }
    }
    if let Some(timeout) = etcd_timeout_ms {
        if timeout > budget {
            budget = timeout;
        }
    }
    budget
}

/// How a request to the store can fail.
#[derive(Debug, Clone, Copy, PartialEq, Eq, Structural)]
pub enum EtcdErrorKind {
    GrpcStatus(StatusCode),
    IoError,
    TransportError,
    WatchError,
    LeaseKeepAliveError,
    EndpointError,
    InvalidArgs,
    InvalidUri,
    Utf8Error,
    InvalidHeaderValue,
    ElectError,
    EndpointsNotManaged,
}

/// The status codes after which a request is made again.
pub open spec fn retryable_code(code: StatusCode) -> bool {
    code == StatusCode::Unknown || code == StatusCode::DeadlineExceeded || code
        == StatusCode::ResourceExhausted || code == StatusCode::Aborted || code
        == StatusCode::Internal || code == StatusCode::Unavailable
}

/// The failures after which a request is made again.
pub open spec fn retryable(error: EtcdErrorKind) -> bool {
    match error {
        EtcdErrorKind::GrpcStatus(code) => retryable_code(code),
        EtcdErrorKind::IoError
        | EtcdErrorKind::TransportError
        | EtcdErrorKind::WatchError
        | EtcdErrorKind::LeaseKeepAliveError
        | EtcdErrorKind::EndpointError => true,
        _ => false,
    }
}

pub fn etcd_error_is_retryable(error: EtcdErrorKind) -> (answer: bool)
    ensures
        answer == retryable(error),
{
    match error {
        EtcdErrorKind::GrpcStatus(code) => match code {
            StatusCode::Unknown
            | StatusCode::DeadlineExceeded
            | StatusCode::ResourceExhausted
            | StatusCode::Aborted
            | StatusCode::Internal
            | StatusCode::Unavailable => true,
            _ => false,
        },
        EtcdErrorKind::IoError
        | EtcdErrorKind::TransportError
        | EtcdErrorKind::WatchError
        | EtcdErrorKind::LeaseKeepAliveError
        | EtcdErrorKind::EndpointError => true,
        _ => false,
    }
}

/// A request is made again after the failures that may pass by themselves: those of the connection,
/// and the statuses with these numbers. All others are final.
pub proof fn passing_failures_are_retried(error: EtcdErrorKind, code: StatusCode)
    ensures
        retryable(EtcdErrorKind::GrpcStatus(code)) <==> code.code() == 2 || code.code() == 4
            || code.code() == 8 || code.code() == 10 || code.code() == 13 || code.code() == 14,
        error !is GrpcStatus ==> (retryable(error) <==> error is IoError || error is TransportError
            || error is WatchError || error is LeaseKeepAliveError || error is EndpointError),
{
}

/// Under which reason a retry is counted.
pub open spec fn reason_of(error: EtcdErrorKind) -> Seq<char> {
    match error {
        EtcdErrorKind::GrpcStatus(code) => match code {
            StatusCode::Unknown => "grpc_unknown"@,
            StatusCode::DeadlineExceeded => "grpc_deadline_exceeded"@,
            StatusCode::ResourceExhausted => "grpc_resource_exhausted"@,
            StatusCode::Aborted => "grpc_aborted"@,
            StatusCode::Internal => "grpc_internal"@,
            StatusCode::Unavailable => "grpc_unavailable"@,
            _ => "grpc_non_retryable"@,
        },
        EtcdErrorKind::IoError => "io"@,
        EtcdErrorKind::TransportError => "transport"@,
        EtcdErrorKind::WatchError => "watch"@,
        EtcdErrorKind::LeaseKeepAliveError => "lease_keepalive"@,
        EtcdErrorKind::EndpointError => "endpoint"@,
        _ => "non_retryable"@,
    }
}

pub fn etcd_retry_reason(error: EtcdErrorKind) -> (reason: &'static str)
    ensures
        reason@ == reason_of(error),
{
    match error {
        EtcdErrorKind::GrpcStatus(code) => match code {
            StatusCode::Unknown => "grpc_unknown",
            StatusCode::DeadlineExceeded => "grpc_deadline_exceeded",
            StatusCode::ResourceExhausted => "grpc_resource_exhausted",
            StatusCode::Aborted => "grpc_aborted",
            StatusCode::Internal => "grpc_internal",
            StatusCode::Unavailable => "grpc_unavailable",
            _ => "grpc_non_retryable",
        },
        EtcdErrorKind::IoError => "io",
        EtcdErrorKind::TransportError => "transport",
        EtcdErrorKind::WatchError => "watch",
        EtcdErrorKind::LeaseKeepAliveError => "lease_keepalive",
        EtcdErrorKind::EndpointError => "endpoint",
        _ => "non_retryable",
    }
}

/// What a request does next.
#[derive(Debug, Clone, Copy, PartialEq, Eq, Structural)]
pub enum RetryStep {
    /// Try, for this long at most.
    Attempt { remaining_ms: u64 },
    /// Wait, then ask again what to do.
    Sleep { wait_ms: u64 },
    /// Give up with the error at hand.
    Fail,
    /// Give up because the time is up.
    DeadlineExceeded,
}

/// A request and its attempts.
#[derive(Debug, Clone, Copy, PartialEq, Eq, Structural)]
pub struct EtcdRetry {
    pub attempt: u32,
    pub deadline_ms: u64,
}

impl EtcdRetry {
    pub open spec fn valid(self) -> bool {
        1 <= self.attempt <= ETCD_REQUEST_MAX_ATTEMPTS
    }

    /// A request begins that has so much time.
    pub open spec fn begins(self, now_ms: u64, budget_ms: u64) -> bool {
        &&& self.attempt == 1
        &&& self.deadline_ms == now_ms + if budget_ms == 0 {
            1
        } else {
            budget_ms as int
        }
    }

    /// The first attempt of a request that has so much time.
    pub fn new(now_ms: u64, budget_ms: u64) -> (retry: Self)
        requires
            now_ms + budget_ms < u64::MAX,
        ensures
            retry.valid(),
            retry.begins(now_ms, budget_ms),
            retry.attempt == 1,
            retry.deadline_ms == now_ms + if budget_ms == 0 {
                1
            } else {
                budget_ms as int
            },
    {
        let budget: u64 = if budget_ms == 0 {
            1
        } else {
            budget_ms
        };
        EtcdRetry { attempt: 1, deadline_ms: now_ms + budget }
    }

    /// What comes before an attempt.
    pub open spec fn attempts(self, now_ms: u64, step: RetryStep) -> bool {
        step == if now_ms < self.deadline_ms {
            RetryStep::Attempt { remaining_ms: (self.deadline_ms - now_ms) as u64 }
        } else {
            RetryStep::DeadlineExceeded
        }
    }

    /// What comes after an attempt that failed.
    pub open spec fn fails(
        self,
        before: Self,
        now_ms: u64,
        error: EtcdErrorKind,
        jitter_ms: u64,
        step: RetryStep,
    ) -> bool {
        &&& self.deadline_ms == before.deadline_ms
        &&& if before.attempt < ETCD_REQUEST_MAX_ATTEMPTS && retryable(error) && now_ms
            < before.deadline_ms {
            &&& step == (RetryStep::Sleep {
                wait_ms: smaller(
                    backoff(
                        ETCD_REQUEST_RETRY_MIN_BACKOFF_MS as nat,
                        before.attempt,
                        4,
                        jitter_ms as nat,
                        ETCD_REQUEST_RETRY_MAX_BACKOFF_MS as nat,
                    ),
                    before.deadline_ms - now_ms,
                ) as u64,
            })
            &&& self.attempt == before.attempt + 1
        } else {
            step == RetryStep::Fail && self.attempt == before.attempt
        }
    }

    /// Before an attempt: it may take what is left of the time.
    pub fn before_attempt(&self, now_ms: u64) -> (step: RetryStep)
        ensures
            self.attempts(now_ms, step),
            step == if now_ms < self.deadline_ms {
                RetryStep::Attempt { remaining_ms: (self.deadline_ms - now_ms) as u64 }
            } else {
                RetryStep::DeadlineExceeded
            },
    {
        if now_ms < self.deadline_ms {
            RetryStep::Attempt { remaining_ms: self.deadline_ms - now_ms }
        } else {
            RetryStep::DeadlineExceeded
        }
    }

    /// After an attempt that failed: another one follows where the failure allows it, attempts are
    /// left and so is time.
    pub fn after_failure(&mut self, now_ms: u64, error: EtcdErrorKind, jitter_ms: u64) -> (step:
        RetryStep)
        requires
            old(self).valid(),
            jitter_ms <= ETCD_REQUEST_RETRY_JITTER_MAX_MS,
        ensures
            final(self).valid(),
            final(self).fails(*old(self), now_ms, error, jitter_ms, step),
            final(self).deadline_ms == old(self).deadline_ms,
            old(self).attempt < ETCD_REQUEST_MAX_ATTEMPTS && retryable(error) && now_ms < old(
                self).deadline_ms ==> step == (RetryStep::Sleep {
                wait_ms: smaller(
                    backoff(
                        ETCD_REQUEST_RETRY_MIN_BACKOFF_MS as nat,
                        old(self).attempt,
                        4,
                        jitter_ms as nat,
                        ETCD_REQUEST_RETRY_MAX_BACKOFF_MS as nat,
                    ),
                    old(self).deadline_ms - now_ms,
                ) as u64,
            }) && final(self).attempt == old(self).attempt + 1,
            !(old(self).attempt < ETCD_REQUEST_MAX_ATTEMPTS && retryable(error) && now_ms < old(
                self).deadline_ms) ==> step == RetryStep::Fail && final(self).attempt == old(
                self).attempt,
    {
        if self.attempt >= ETCD_REQUEST_MAX_ATTEMPTS || !etcd_error_is_retryable(error) {
            return RetryStep::Fail;
        }
        let wait: u64 = etcd_request_retry_backoff(self.attempt, jitter_ms);
        if now_ms >= self.deadline_ms {
            return RetryStep::Fail;
        }
        let remaining: u64 = self.deadline_ms - now_ms;
        self.attempt = self.attempt + 1;
        let wait_ms: u64 = if wait <= remaining {
            wait
        } else {
            remaining
        };
        RetryStep::Sleep { wait_ms }
    }
}

/// A request begins with its first attempt and has all the time that it is given, and never none.
pub proof fn requests_begin_with_all_their_time(
    retry: EtcdRetry,
    now_ms: u64,
    budget_ms: u64,
    step: RetryStep,
)
    requires
        retry.begins(now_ms, budget_ms),
        retry.attempts(now_ms, step),
    ensures
        retry.attempt == 1,
        step matches RetryStep::Attempt { remaining_ms } && remaining_ms >= 1 && (budget_ms >= 1
            ==> remaining_ms == budget_ms),
{
}

/// A request is tried four times at most, within its time: an attempt gets what is left of it, and a
/// pause never lasts longer than that. After a failure that is final, or once attempts or time are
/// used up, it fails.
pub proof fn requests_are_retried_within_their_time(
    before: EtcdRetry,
    now_ms: u64,
    error: EtcdErrorKind,
    jitter_ms: u64,
    step: RetryStep,
    after: EtcdRetry,
    later_ms: u64,
    next: RetryStep,
)
    requires
        before.valid(),
        jitter_ms <= 25,
        after.fails(before, now_ms, error, jitter_ms, step),
        after.attempts(later_ms, next),
    ensures
        step is Sleep <==> retryable(error) && before.attempt < 4 && now_ms < before.deadline_ms,
        step is Sleep || step is Fail,
        step matches RetryStep::Sleep { wait_ms } ==> now_ms + wait_ms <= before.deadline_ms
            && wait_ms <= 250 && (wait_ms >= 25 || now_ms + wait_ms == before.deadline_ms)
            && after.attempt == before.attempt + 1,
        after.attempt <= 4,
        after.deadline_ms == before.deadline_ms,
        next matches RetryStep::Attempt { remaining_ms } ==> remaining_ms > 0 && later_ms
            + remaining_ms == before.deadline_ms,
        next is DeadlineExceeded <==> later_ms >= before.deadline_ms,
{
    backoffs_are_bounded(25, before.attempt, 4, jitter_ms as nat, 250);
}

/// A failure is retried exactly when it is not counted as one that cannot be.
pub proof fn reasons_tell_retryable_failures(error: EtcdErrorKind)
    ensures
        retryable(error) <==> reason_of(error) != "grpc_non_retryable"@ && reason_of(error)
            != "non_retryable"@,
{
    reveal_strlit("grpc_non_retryable");
    reveal_strlit("non_retryable");
    reveal_strlit("grpc_unknown");
    reveal_strlit("grpc_deadline_exceeded");
    reveal_strlit("grpc_resource_exhausted");
    reveal_strlit("grpc_aborted");
    reveal_strlit("grpc_internal");
    reveal_strlit("grpc_unavailable");
    reveal_strlit("io");
    reveal_strlit("transport");
    reveal_strlit("watch");
    reveal_strlit("lease_keepalive");
    reveal_strlit("endpoint");
    assert("grpc_non_retryable"@.len() == 18);
    assert("non_retryable"@.len() == 13);
    assert("grpc_unknown"@.len() == 12);
    assert("grpc_deadline_exceeded"@.len() == 22);
    assert("grpc_resource_exhausted"@.len() == 23);
    assert("grpc_aborted"@.len() == 12);
    assert("grpc_unavailable"@.len() == 16);
    assert("grpc_internal"@.len() == 13);
    assert("io"@.len() == 2);
    assert("transport"@.len() == 9);
    assert("watch"@.len() == 5);
    assert("lease_keepalive"@.len() == 15);
    assert("endpoint"@.len() == 8);
    assert("grpc_internal"@[0] == 'g');
    assert("non_retryable"@[0] == 'n');
}

} // verus!
