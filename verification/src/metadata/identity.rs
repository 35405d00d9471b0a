//! Identities of instances, and the leases that keep them.

use vstd::prelude::*;
use vstd::utf8::*;

use crate::error::{internal, TsoError};
use crate::metadata::etcd::retry;
use crate::metadata::etcd::retry::identity_keepalive_reconnect_backoff;
use crate::metadata::etcd::txn;
use crate::metadata::etcd::txn::{
    guarded, key_bytes, reported, Condition, ConditionView, IdentityView,
    InstanceIdentityLeaseRecord, Operation, OperationView, Payload, PayloadView, Transaction,
};
use crate::metadata::keys;
use crate::metadata::keys::instance_identity_key;
use crate::text;
use crate::text::{decimal_text, join2, join3, join5, signed_decimal_text};

verus! {

/// How long giving a lease back may take.
pub const IDENTITY_LEASE_REVOKE_TIMEOUT_MS: u64 = 2_000;

/// Nanoseconds in a second.
pub const NANOS_PER_SECOND: u128 = 1_000_000_000;

/// The last moment that the clock can show, in nanoseconds.
pub const CLOCK_RANGE_NANOS: u128 = 9_223_372_036_854_775_807_999_999_999;

/// The whole seconds that a lease is asked for: the duration, rounded up, and one at least.
pub open spec fn requested_seconds(whole_seconds: u64, subsec_nanos: u32) -> int {
    let rounded = whole_seconds + if subsec_nanos != 0 {
        1int
    } else {
        0int
    };
    if rounded < 1 {
        1
    } else {
        rounded
    }
}

/// Why a lease cannot be asked for so long.
pub open spec fn request_fault(whole_seconds: u64, subsec_nanos: u32) -> Option<Seq<char>> {
    let seconds = requested_seconds(whole_seconds, subsec_nanos);
    if seconds > u64::MAX {
        Some("identity lease grant request TTL seconds overflowed u64"@)
    } else if seconds > i64::MAX {
        Some(
            "identity lease grant request TTL "@ + text::decimal(seconds as nat)
                + "s exceeds etcd i64 seconds"@,
        )
    } else {
        None
    }
}

/// The whole seconds to ask a lease for, given a duration in seconds and nanoseconds.
pub fn identity_lease_grant_request_ttl_seconds(whole_seconds: u64, subsec_nanos: u32) -> (result:
    Result<i64, TsoError>)
    ensures
        match request_fault(whole_seconds, subsec_nanos) {
            None => result matches Ok(seconds) && seconds == requested_seconds(
                whole_seconds,
                subsec_nanos,
            ),
            Some(message) => result matches Err(error) && error.is_internal(message),
        },
{
    let extra: u64 = if subsec_nanos != 0 {
        1
    } else {
        0
    };
    if whole_seconds == u64::MAX && extra == 1 {
        return Err(internal("identity lease grant request TTL seconds overflowed u64"));
    }
    let rounded: u64 = whole_seconds + extra;
    let seconds: u64 = if rounded < 1 {
        1
    } else {
        rounded
    };
    if seconds > i64::MAX as u64 {
        return Err(
            TsoError::Internal(
                join3(
                    "identity lease grant request TTL ",
                    decimal_text(seconds).as_str(),
                    "s exceeds etcd i64 seconds",
                ),
            ),
        );
    }
    Ok(seconds as i64)
}

/// A lease is asked for whole seconds, one at least, and refused where the store cannot count them.
pub proof fn lease_requests_are_whole_seconds(whole_seconds: u64, subsec_nanos: u32)
    ensures
        requested_seconds(whole_seconds, subsec_nanos) >= 1,
        requested_seconds(whole_seconds, subsec_nanos) >= whole_seconds,
        requested_seconds(whole_seconds, subsec_nanos) <= whole_seconds + 1,
        subsec_nanos == 0 && whole_seconds > 0 ==> requested_seconds(whole_seconds, subsec_nanos)
            == whole_seconds,
        subsec_nanos > 0 ==> requested_seconds(whole_seconds, subsec_nanos) == whole_seconds + 1,
        request_fault(whole_seconds, subsec_nanos) is None <==> requested_seconds(
            whole_seconds,
            subsec_nanos,
        ) <= i64::MAX,
{
}

/// A lease is never asked for less time than the duration, and for less than a second more.
pub proof fn requests_round_up(whole_seconds: u64, subsec_nanos: u32)
    requires
        subsec_nanos < 1_000_000_000,
        whole_seconds > 0 || subsec_nanos > 0,
    ensures
        requested_seconds(whole_seconds, subsec_nanos) * 1_000_000_000 >= whole_seconds
            * 1_000_000_000 + subsec_nanos,
        requested_seconds(whole_seconds, subsec_nanos) * 1_000_000_000 < whole_seconds
            * 1_000_000_000 + subsec_nanos + 1_000_000_000,
{
}

/// How long a lease is known to live, and how often it is renewed. Times are in nanoseconds.
#[derive(Clone, Copy, Debug, PartialEq, Eq, Structural)]
pub struct IdentityLeaseConfirmedWindow {
    pub deadline: u128,
    pub heartbeat_interval: u128,
}

/// When a lease runs out that was confirmed for so many seconds: counted from when it was asked
/// for, since it may have begun then.
pub open spec fn lease_end(request_started_at: u128, confirmed_ttl_seconds: i64) -> int {
    request_started_at + confirmed_ttl_seconds * NANOS_PER_SECOND
}

/// Why a confirmation is worth nothing.
pub open spec fn window_fault(
    request_started_at: u128,
    response_observed_at: u128,
    confirmed_ttl_seconds: i64,
) -> Option<Seq<char>> {
    let seconds = text::decimal(confirmed_ttl_seconds as nat);
    let end = lease_end(request_started_at, confirmed_ttl_seconds);
    if confirmed_ttl_seconds <= 0 {
        Some(
            "Etcd identity lease response returned non-positive TTL: "@ + text::signed_decimal(
                confirmed_ttl_seconds as int,
            ),
        )
    } else if end > CLOCK_RANGE_NANOS {
        Some(
            "Etcd identity lease response TTL "@ + seconds
                + "s exceeds the local monotonic clock range"@,
        )
    } else if end <= response_observed_at {
        Some(
            "Etcd identity lease response TTL "@ + seconds
                + "s was already exhausted before confirmation"@,
        )
    } else {
        None
    }
}

/// What a confirmation comes to.
pub open spec fn confirms(
    request_started_at: u128,
    response_observed_at: u128,
    confirmed_ttl_seconds: i64,
    result: Result<IdentityLeaseConfirmedWindow, TsoError>,
) -> bool {
    match result {
        Ok(window) => {
            &&& window_fault(
                request_started_at,
                response_observed_at,
                confirmed_ttl_seconds,
            ) is None
            &&& window.deadline == lease_end(request_started_at, confirmed_ttl_seconds)
            &&& window.heartbeat_interval == (window.deadline - response_observed_at) / 3
        },
        Err(error) => window_fault(
            request_started_at,
            response_observed_at,
            confirmed_ttl_seconds,
        ) matches Some(message) && error.is_internal(message),
    }
}

/// A lease is trusted for as long as it was confirmed, counted from when it was asked for, and not
/// where that is over already. What is left then holds three heartbeats, and no fourth fits.
pub proof fn leases_are_trusted_from_the_request_on(
    request_started_at: u128,
    response_observed_at: u128,
    ttl_seconds: i64,
    result: Result<IdentityLeaseConfirmedWindow, TsoError>,
)
    requires
        confirms(request_started_at, response_observed_at, ttl_seconds, result),
    ensures
        result is Ok <==> {
            let end = request_started_at + ttl_seconds * 1_000_000_000;
            ttl_seconds > 0 && response_observed_at < end <= CLOCK_RANGE_NANOS
        },
        result matches Ok(window) ==> {
            &&& window.deadline == request_started_at + ttl_seconds * 1_000_000_000
            &&& window.deadline > response_observed_at
            &&& 3 * window.heartbeat_interval <= window.deadline - response_observed_at
            &&& 3 * (window.heartbeat_interval + 1) > window.deadline - response_observed_at
        },
{
}

/// How long a confirmed lease is known to live.
pub fn identity_lease_confirmed_window(
    request_started_at: u128,
    response_observed_at: u128,
    confirmed_ttl_seconds: i64,
) -> (result: Result<IdentityLeaseConfirmedWindow, TsoError>)
    requires
        request_started_at <= CLOCK_RANGE_NANOS,
    ensures
        confirms(request_started_at, response_observed_at, confirmed_ttl_seconds, result),
        match result {
            Ok(window) => {
                &&& window_fault(
                    request_started_at,
                    response_observed_at,
                    confirmed_ttl_seconds,
                ) is None
                &&& window.deadline == lease_end(request_started_at, confirmed_ttl_seconds)
                &&& window.heartbeat_interval == (window.deadline - response_observed_at) / 3
            },
            Err(error) => window_fault(
                request_started_at,
                response_observed_at,
                confirmed_ttl_seconds,
            ) matches Some(message) && error.is_internal(message),
        },
{
    if confirmed_ttl_seconds <= 0 {
        return Err(
            TsoError::Internal(
                join2(
                    "Etcd identity lease response returned non-positive TTL: ",
                    signed_decimal_text(confirmed_ttl_seconds).as_str(),
                ),
            ),
        );
    }
    let ttl: u128 = (confirmed_ttl_seconds as u128) * NANOS_PER_SECOND;
    let deadline: u128 = request_started_at + ttl;
    if deadline > CLOCK_RANGE_NANOS {
        return Err(
            TsoError::Internal(
                join3(
                    "Etcd identity lease response TTL ",
                    decimal_text(confirmed_ttl_seconds as u64).as_str(),
                    "s exceeds the local monotonic clock range",
                ),
            ),
        );
    }
    if deadline <= response_observed_at {
        return Err(
            TsoError::Internal(
                join3(
                    "Etcd identity lease response TTL ",
                    decimal_text(confirmed_ttl_seconds as u64).as_str(),
                    "s was already exhausted before confirmation",
                ),
            ),
        );
    }
    Ok(
        IdentityLeaseConfirmedWindow {
            deadline,
            heartbeat_interval: (deadline - response_observed_at) / 3,
        },
    )
}

/// Three heartbeats fit into what is left of a confirmed lease.
pub proof fn heartbeats_fit_the_lease(
    request_started_at: u128,
    response_observed_at: u128,
    confirmed_ttl_seconds: i64,
)
    requires
        window_fault(request_started_at, response_observed_at, confirmed_ttl_seconds) is None,
    ensures
        ({
            let end = lease_end(request_started_at, confirmed_ttl_seconds);
            let heartbeat = (end - response_observed_at) / 3;
            response_observed_at + 3 * heartbeat <= end
        }),
{
}

/// What stands under the key of an identity.
#[derive(Debug)]
pub struct IdentityEntry {
    pub lease: i64,
    pub record: Result<InstanceIdentityLeaseRecord, String>,
}

/// Why what stands under the key of an identity is not the one that is expected.
pub open spec fn identity_fault(
    expected_lease_id: i64,
    entry: IdentityEntry,
    expected: InstanceIdentityLeaseRecord,
    error: TsoError,
) -> bool {
    if entry.lease != expected_lease_id {
        error.is_internal(
            "Etcd identity lease startup probe observed lease "@ + text::signed_decimal(
                entry.lease as int,
            ) + " but expected "@ + text::signed_decimal(expected_lease_id as int)
                + " for instance "@ + expected.instance_id@,
        )
    } else {
        match entry.record {
            Err(report) => txn::is_reported(
                error,
                "Etcd identity lease startup probe decode failed"@,
                report@,
            ),
            Ok(record) => record@ != expected@ && error.is_internal(
                "Etcd identity lease startup probe observed mismatched identity record for instance "@
                    + expected.instance_id@,
            ),
        }
    }
}

/// Exactly the expected identity stands there, under exactly the expected lease.
pub open spec fn is_expected_identity(
    expected_lease_id: i64,
    entry: IdentityEntry,
    expected: InstanceIdentityLeaseRecord,
) -> bool {
    entry.lease == expected_lease_id && (entry.record matches Ok(record) && record@ == expected@)
}

pub fn verify_instance_identity_lease_record(
    expected_lease_id: i64,
    entry: &IdentityEntry,
    expected_record: &InstanceIdentityLeaseRecord,
) -> (result: Result<(), TsoError>)
    ensures
        match result {
            Ok(()) => is_expected_identity(expected_lease_id, *entry, *expected_record),
            Err(error) => identity_fault(expected_lease_id, *entry, *expected_record, error)
                && !is_expected_identity(expected_lease_id, *entry, *expected_record),
        },
{
    if entry.lease != expected_lease_id {
        let seen = join2(
            "Etcd identity lease startup probe observed lease ",
            signed_decimal_text(entry.lease).as_str(),
        );
        return Err(
            TsoError::Internal(
                join5(
                    seen.as_str(),
                    " but expected ",
                    signed_decimal_text(expected_lease_id).as_str(),
                    " for instance ",
                    expected_record.instance_id.as_str(),
                ),
            ),
        );
    }
    match &entry.record {
        Err(report) => Err(
            reported("Etcd identity lease startup probe decode failed", report.as_str()),
        ),
        Ok(record) => {
            if *record == *expected_record {
                Ok(())
            } else {
                Err(
                    TsoError::Internal(
                        join2(
                            "Etcd identity lease startup probe observed mismatched identity record for instance ",
                            expected_record.instance_id.as_str(),
                        ),
                    ),
                )
            }
        },
    }
}

/// Whether a claim is the one that was made: another lease means no, whatever stands there.
pub fn identity_claim_matches_record(
    expected_lease_id: i64,
    entry: &IdentityEntry,
    expected_record: &InstanceIdentityLeaseRecord,
) -> (result: Result<bool, TsoError>)
    ensures
        if entry.lease != expected_lease_id {
            result == Ok::<bool, TsoError>(false)
        } else {
            match entry.record {
                Err(report) => result matches Err(error) && txn::is_reported(
                    error,
                    "Etcd identity lease claim verification decode failed"@,
                    report@,
                ),
                Ok(record) => result == Ok::<bool, TsoError>(record@ == expected_record@),
            }
        },
{
    if entry.lease != expected_lease_id {
        return Ok(false);
    }
    match &entry.record {
        Err(report) => Err(
            reported("Etcd identity lease claim verification decode failed", report.as_str()),
        ),
        Ok(record) => Ok(*record == *expected_record),
    }
}

/// Whether an identity counts as active for an ownership plan. One that names no plan counts for
/// any, so that a plan is not replaced underneath it.
pub fn identity_record_belongs_to_ownership_plan(
    identity: &InstanceIdentityLeaseRecord,
    plan_id: &str,
    modulo: u32,
) -> (answer: bool)
    ensures
        answer == belongs_to_plan(identity@, plan_id@, modulo),
{
    let length: usize = identity.ownership_plan_id.as_str().unicode_len();
    if length == 0 {
        return true;
    }
    identity.ownership_plan_id == plan_id.to_owned() && identity.ownership_modulo == modulo
}

pub open spec fn belongs_to_plan(identity: IdentityView, plan_id: Seq<char>, modulo: u32) -> bool {
    identity.ownership_plan_id.len() == 0 || (identity.ownership_plan_id == plan_id
        && identity.ownership_modulo == modulo)
}

/// The identities among the entries that a lease keeps, in their order.
pub open spec fn kept_identities(entries: Seq<IdentityEntry>) -> Seq<InstanceIdentityLeaseRecord>
    decreases entries.len(),
{
    if entries.len() == 0 {
        Seq::empty()
    } else {
        let before = kept_identities(entries.drop_last());
        if entries.last().lease != 0 && entries.last().record is Ok {
            before.push(entries.last().record->Ok_0)
        } else {
            before
        }
    }
}

/// The entry is kept by a lease but cannot be read.
pub open spec fn unreadable_identity(entry: IdentityEntry) -> bool {
    entry.lease != 0 && entry.record is Err
}

/// The entry is the first that cannot be read, and the error says so.
pub open spec fn stops_at(entries: Seq<IdentityEntry>, i: int, error: TsoError) -> bool {
    &&& 0 <= i < entries.len()
    &&& unreadable_identity(entries[i])
    &&& txn::is_reported(
        error,
        "Identity lease record deserialization failed"@,
        entries[i].record->Err_0@,
    )
    &&& forall|k: int| 0 <= k < i ==> !unreadable_identity(#[trigger] entries[k])
}

/// The identities that are read are those that a lease keeps, in the order in which they stand.
pub proof fn identities_without_a_lease_do_not_count(entries: Seq<IdentityEntry>)
    ensures
        kept_identities(entries) == entries.filter(
            |entry: IdentityEntry| entry.lease != 0 && entry.record is Ok,
        ).map_values(|entry: IdentityEntry| entry.record->Ok_0),
    decreases entries.len(),
{
    reveal(Seq::filter);
    let kept = |entry: IdentityEntry| entry.lease != 0 && entry.record is Ok;
    let record = |entry: IdentityEntry| entry.record->Ok_0;
    if entries.len() > 0 {
        identities_without_a_lease_do_not_count(entries.drop_last());
    }
    assert(kept_identities(entries) =~= entries.filter(kept).map_values(record));
}

/// An identity is the expected one only under the expected lease and with the expected content, and
/// it counts for a plan exactly where it names that plan with its modulo, or none.
pub proof fn identities_are_told_apart(
    lease_id: i64,
    entry: IdentityEntry,
    expected: InstanceIdentityLeaseRecord,
    identity: IdentityView,
    plan_id: Seq<char>,
    modulo: u32,
)
    ensures
        is_expected_identity(lease_id, entry, expected) <==> entry.lease == lease_id && (
        entry.record matches Ok(record) && record@ == expected@),
        belongs_to_plan(identity, plan_id, modulo) <==> identity.ownership_plan_id.len() == 0 || (
        identity.ownership_plan_id == plan_id && identity.ownership_modulo == modulo),
{
}

/// What reading identities comes to.
pub open spec fn reads_identities(
    entries: Seq<IdentityEntry>,
    result: Result<Vec<InstanceIdentityLeaseRecord>, TsoError>,
) -> bool {
    match result {
        Ok(records) => {
            &&& forall|i: int|
                0 <= i < entries.len() ==> !unreadable_identity(#[trigger] entries[i])
            &&& records@ == kept_identities(entries)
        },
        Err(error) => exists|i: int| #[trigger] stops_at(entries, i, error),
    }
}

/// The identities can be read exactly where every entry that a lease keeps can; entries without a
/// lease are not even looked at.
pub proof fn identities_under_a_lease_must_be_readable(
    entries: Seq<IdentityEntry>,
    result: Result<Vec<InstanceIdentityLeaseRecord>, TsoError>,
)
    requires
        reads_identities(entries, result),
    ensures
        result is Err <==> exists|i: int|
            0 <= i < entries.len() && (#[trigger] entries[i]).lease != 0 && entries[i].record is Err,
        result matches Ok(records) ==> records@ == kept_identities(entries),
        result is Err ==> result->Err_0 is Internal,
{
    if result is Err {
        let error = result->Err_0;
        let i = choose|i: int| #[trigger] stops_at(entries, i, error);
        assert(entries[i].lease != 0 && entries[i].record is Err);
    } else {
        assert forall|i: int| 0 <= i < entries.len() implies !((#[trigger] entries[i]).lease != 0
            && entries[i].record is Err) by {
            assert(!unreadable_identity(entries[i]));
        }
    }
}

/// Giving a lease back may take two seconds, and a second has a thousand million nanoseconds.
pub proof fn leases_keep_their_times()
    ensures
        IDENTITY_LEASE_REVOKE_TIMEOUT_MS == 2 * 1000,
        NANOS_PER_SECOND == 1000 * 1000 * 1000,
{
}

fn read_identities(entries: &Vec<IdentityEntry>) -> (result: Result<
    Vec<InstanceIdentityLeaseRecord>,
    TsoError,
>)
    ensures
        reads_identities(entries@, result),
{
    let mut records: Vec<InstanceIdentityLeaseRecord> = Vec::new();
    let mut i: usize = 0;
    assert(entries@.take(0) =~= Seq::<IdentityEntry>::empty());
    while i < entries.len()
        invariant
            i <= entries@.len(),
            forall|k: int| 0 <= k < i ==> !unreadable_identity(#[trigger] entries@[k]),
            records@ == kept_identities(entries@.take(i as int)),
        decreases entries@.len() - i,
    {
        assert(entries@.take(i + 1).drop_last() =~= entries@.take(i as int));
        assert(entries@.take(i + 1).last() == entries@[i as int]);
        if entries[i].lease != 0 {
            match &entries[i].record {
                Err(report) => {
                    let error = reported(
                        "Identity lease record deserialization failed",
                        report.as_str(),
                    );
                    assert(stops_at(entries@, i as int, error));
                    return Err(error);
                },
                Ok(record) => records.push(record.clone()),
            }
        }
        i = i + 1;
    }
    assert(entries@.take(i as int) =~= entries@);
    Ok(records)
}

/// The identities that leases keep.
pub fn active_identity_records(listed: Result<Vec<IdentityEntry>, String>) -> (result: Result<
    Vec<InstanceIdentityLeaseRecord>,
    TsoError,
>)
    ensures
        match listed {
            Err(report) => result matches Err(error) && txn::is_reported(
                error,
                "Etcd list_identity_leases failed"@,
                report@,
            ),
            Ok(entries) => reads_identities(entries@, result),
        },
{
    match listed {
        Err(report) => Err(reported("Etcd list_identity_leases failed", report.as_str())),
        Ok(entries) => read_identities(&entries),
    }
}

/// What the probe at startup finds: the identity of this instance must stand in the store, under the
/// lease that it was claimed with.
pub fn verify_instance_identity_write_path(
    read: Result<Option<IdentityEntry>, String>,
    expected_lease_id: i64,
    expected_record: &InstanceIdentityLeaseRecord,
) -> (result: Result<(), TsoError>)
    ensures
        match read {
            Err(report) => result matches Err(error) && txn::is_reported(
                error,
                "Etcd identity lease startup probe lookup failed"@,
                report@,
            ),
            Ok(None) => result matches Err(error) && error.is_internal(
                "Etcd identity lease startup probe missing record for instance "@
                    + expected_record.instance_id@,
            ),
            Ok(Some(entry)) => if entry.lease == 0 {
                result matches Err(error) && error.is_internal(
                    "Etcd identity lease startup probe found record without an attached lease for instance "@
                        + expected_record.instance_id@,
                )
            } else {
                match result {
                    Ok(()) => is_expected_identity(expected_lease_id, entry, *expected_record),
                    Err(error) => identity_fault(
                        expected_lease_id,
                        entry,
                        *expected_record,
                        error,
                    ) && !is_expected_identity(expected_lease_id, entry, *expected_record),
                }
            },
        },
{
    match read {
        Err(report) => Err(
            reported("Etcd identity lease startup probe lookup failed", report.as_str()),
        ),
        Ok(None) => Err(
            TsoError::Internal(
                join2(
                    "Etcd identity lease startup probe missing record for instance ",
                    expected_record.instance_id.as_str(),
                ),
            ),
        ),
        Ok(Some(entry)) => {
            if entry.lease == 0 {
                return Err(
                    TsoError::Internal(
                        join2(
                            "Etcd identity lease startup probe found record without an attached lease for instance ",
                            expected_record.instance_id.as_str(),
                        ),
                    ),
                );
            }
            verify_instance_identity_lease_record(expected_lease_id, &entry, expected_record)
        },
    }
}

/// What follows from a plain attempt to claim an identity.
#[derive(Debug, PartialEq, Eq)]
pub enum ClaimVerdict {
    Claimed,
    /// Give the lease back, then fail.
    RevokeAndFail { lease_id: i64, error: TsoError },
    Fail { error: TsoError },
}

/// What a plain attempt comes to.
pub open spec fn judges_claim(
    put_if_absent: Result<bool, TsoError>,
    lease_id: i64,
    instance_id: Seq<char>,
    verdict: ClaimVerdict,
) -> bool {
    match put_if_absent {
        Err(error) => verdict == (ClaimVerdict::Fail { error }),
        Ok(true) => verdict == ClaimVerdict::Claimed,
        Ok(false) => verdict matches ClaimVerdict::RevokeAndFail { lease_id: lease, error }
            && lease == lease_id && (error matches TsoError::InstanceIdentityInUse {
            instance_id: taken,
        } && taken@ == instance_id),
    }
}

/// An identity counts as claimed only where the claim was written; where another holds it the lease
/// goes back and the identity is reported as in use.
pub proof fn claims_count_only_when_written(
    put_if_absent: Result<bool, TsoError>,
    lease_id: i64,
    instance_id: Seq<char>,
    verdict: ClaimVerdict,
)
    requires
        judges_claim(put_if_absent, lease_id, instance_id, verdict),
    ensures
        verdict is Claimed <==> put_if_absent == Ok::<bool, TsoError>(true),
        verdict is RevokeAndFail <==> put_if_absent == Ok::<bool, TsoError>(false),
        verdict matches ClaimVerdict::RevokeAndFail { lease_id: back, error } ==> back == lease_id
            && error is InstanceIdentityInUse,
{
}

/// An identity is claimed where nobody has it; otherwise the lease is given back.
pub fn claim_instance_identity(
    put_if_absent: Result<bool, TsoError>,
    lease_id: i64,
    instance_id: &str,
) -> (verdict: ClaimVerdict)
    ensures
        judges_claim(put_if_absent, lease_id, instance_id@, verdict),
        match put_if_absent {
            Err(error) => verdict == (ClaimVerdict::Fail { error }),
            Ok(true) => verdict == ClaimVerdict::Claimed,
            Ok(false) => verdict matches ClaimVerdict::RevokeAndFail { lease_id: lease, error }
                && lease == lease_id && (error matches TsoError::InstanceIdentityInUse {
                instance_id: taken,
            } && taken@ == instance_id@),
        },
{
    match put_if_absent {
        Err(error) => ClaimVerdict::Fail { error },
        Ok(succeeded) => {
            if succeeded {
                ClaimVerdict::Claimed
            } else {
                ClaimVerdict::RevokeAndFail {
                    lease_id,
                    error: TsoError::InstanceIdentityInUse { instance_id: instance_id.to_owned() },
                }
            }
        },
    }
}

// ---- acquiring an identity ----

/// What the acquisition waits for.
#[derive(Debug)]
pub enum AcquireWait {
    Granted { started_at: u128 },
    Claimed,
    /// A look at who holds the identity, after a claim that was refused or went unanswered.
    Verified { unanswered: Option<String> },
    /// The lease is given back.
    Revoked { error: TsoError },
    KeepaliveOpened,
    Nothing,
}

/// What it asks for.
pub enum AcquireStep {
    GrantLease { ttl_seconds: i64 },
    Claim { txn: Transaction },
    ReadIdentity { key: Vec<u8> },
    RevokeLease { lease_id: i64 },
    OpenKeepalive { lease_id: i64 },
    Acquired { lease_id: i64, window: IdentityLeaseConfirmedWindow },
    Failed { error: TsoError },
}

/// What it is answered.
pub enum AcquireReply {
    /// The lease and the seconds it was granted for.
    Granted { observed_at: u128, lease: Result<(i64, i64), String> },
    Claimed(Result<bool, String>),
    Identity(Result<Option<IdentityEntry>, String>),
    Revoked,
    KeepaliveOpened(Result<(), String>),
}

/// An instance on its way to its identity.
pub struct AcquireRun {
    pub prefix: String,
    pub record: InstanceIdentityLeaseRecord,
    pub lease_id: i64,
    pub window: IdentityLeaseConfirmedWindow,
    pub wait: AcquireWait,
}

impl AcquireRun {
    pub open spec fn identity_key(self) -> Seq<u8> {
        encode_utf8(keys::instance_identity_key_text(self.prefix@, self.record.instance_id@))
    }

    /// The identity is claimed where nobody has it, under the lease.
    pub open spec fn claims(self, txn: Transaction) -> bool {
        &&& txn@.conditions == seq![
            ConditionView::CreateRevision { key: self.identity_key(), revision: 0 },
        ]
        &&& txn@.operations == seq![
            OperationView::Put {
                key: self.identity_key(),
                value: PayloadView::Identity(self.record@),
                lease: Some(self.lease_id),
            },
        ]
    }

    pub open spec fn awaits(self, reply: AcquireReply) -> bool {
        match self.wait {
            AcquireWait::Granted { started_at } => reply is Granted && started_at
                <= CLOCK_RANGE_NANOS,
            AcquireWait::Claimed => reply is Claimed,
            AcquireWait::Verified { .. } => reply is Identity,
            AcquireWait::Revoked { .. } => reply is Revoked,
            AcquireWait::KeepaliveOpened => reply is KeepaliveOpened,
            AcquireWait::Nothing => false,
        }
    }

    pub open spec fn is_failed(self, step: AcquireStep) -> bool {
        step is Failed && self.wait is Nothing
    }

    /// The lease is given back before the error is returned.
    pub open spec fn revokes(self, step: AcquireStep) -> bool {
        self.wait is Revoked && step == (AcquireStep::RevokeLease { lease_id: self.lease_id })
    }

    pub open spec fn opens_keepalive(self, step: AcquireStep) -> bool {
        self.wait is KeepaliveOpened && step == (AcquireStep::OpenKeepalive {
            lease_id: self.lease_id,
        })
    }

    /// Begins to acquire an identity.
    pub fn start(
        prefix: &str,
        record: InstanceIdentityLeaseRecord,
        whole_seconds: u64,
        subsec_nanos: u32,
        started_at: u128,
    ) -> (begun: (Self, AcquireStep))
        ensures
            begun.0.prefix@ == prefix@,
            begun.0.record == record,
            match request_fault(whole_seconds, subsec_nanos) {
                Some(message) => begun.0.is_failed(begun.1) && begun.1->error.is_internal(message),
                None => {
                    &&& begun.0.wait == (AcquireWait::Granted { started_at })
                    &&& begun.1 matches AcquireStep::GrantLease { ttl_seconds }
                    &&& ttl_seconds == requested_seconds(whole_seconds, subsec_nanos)
                },
            },
    {
        let mut run = AcquireRun {
            prefix: prefix.to_owned(),
            record,
            lease_id: 0,
            window: IdentityLeaseConfirmedWindow { deadline: 0, heartbeat_interval: 0 },
            wait: AcquireWait::Nothing,
        };
        match identity_lease_grant_request_ttl_seconds(whole_seconds, subsec_nanos) {
            Err(error) => (run, AcquireStep::Failed { error }),
            Ok(ttl_seconds) => {
                run.wait = AcquireWait::Granted { started_at };
                (run, AcquireStep::GrantLease { ttl_seconds })
            },
        }
    }

    /// What a look at the holder comes to: only the very claim that was made counts as ours.
    pub open spec fn settles_claim(
        self,
        before: AcquireRun,
        read: Result<Option<IdentityEntry>, String>,
        step: AcquireStep,
    ) -> bool {
        let unanswered = before.wait->unanswered;
        match read {
            Err(report) => self.is_failed(step) && txn::is_reported(
                step->error,
                "Etcd identity lease claim verification lookup failed"@,
                report@,
            ),
            Ok(found) => if found matches Some(entry) && entry.lease == before.lease_id
                && entry.record is Err {
                self.is_failed(step) && txn::is_reported(
                    step->error,
                    "Etcd identity lease claim verification decode failed"@,
                    found->Some_0.record->Err_0@,
                )
            } else if found matches Some(entry) && is_expected_identity(
                before.lease_id,
                entry,
                before.record,
            ) {
                self.opens_keepalive(step)
            } else {
                &&& self.revokes(step)
                &&& match unanswered {
                    Some(report) => txn::is_reported(
                        self.wait->Revoked_error,
                        "Etcd identity lease txn failed"@,
                        report@,
                    ),
                    None => self.wait->Revoked_error matches TsoError::InstanceIdentityInUse {
                        instance_id,
                    } && instance_id@ == before.record.instance_id@,
                }
            },
        }
    }

    /// What a reply comes to.
    pub open spec fn advances(
        self,
        before: AcquireRun,
        reply: AcquireReply,
        step: AcquireStep,
    ) -> bool {
        match reply {
            AcquireReply::Granted { observed_at, lease } => match lease {
                Err(report) => self.is_failed(step) && txn::is_reported(
                    step->error,
                    "Etcd lease grant failed"@,
                    report@,
                ),
                Ok((lease_id, ttl)) => {
                    let started_at = before.wait->started_at;
                    &&& self.lease_id == lease_id
                    &&& match window_fault(started_at, observed_at, ttl) {
                        Some(message) => self.revokes(step)
                            && self.wait->Revoked_error.is_internal(message),
                        None => {
                            &&& self.window.deadline == lease_end(started_at, ttl)
                            &&& self.window.heartbeat_interval == (self.window.deadline
                                - observed_at) / 3
                            &&& self.wait is Claimed
                            &&& step matches AcquireStep::Claim { txn }
                            &&& self.claims(txn)
                        },
                    }
                },
            },
            AcquireReply::Claimed(claimed) => {
                &&& self.lease_id == before.lease_id
                &&& self.window == before.window
                &&& match claimed {
                    Ok(true) => self.opens_keepalive(step),
                    Ok(false) => {
                        &&& self.wait == (AcquireWait::Verified { unanswered: None })
                        &&& step matches AcquireStep::ReadIdentity { key }
                        &&& key@ == self.identity_key()
                    },
                    Err(report) => {
                        &&& self.wait == (AcquireWait::Verified { unanswered: Some(report) })
                        &&& step matches AcquireStep::ReadIdentity { key }
                        &&& key@ == self.identity_key()
                    },
                }
            },
            AcquireReply::Identity(read) => {
                &&& self.lease_id == before.lease_id
                &&& self.window == before.window
                &&& self.settles_claim(before, read, step)
            },
            AcquireReply::Revoked => self.wait is Nothing && step == (AcquireStep::Failed {
                error: before.wait->Revoked_error,
            }),
            AcquireReply::KeepaliveOpened(opened) => match opened {
                Err(report) => self.is_failed(step) && txn::is_reported(
                    step->error,
                    "Etcd identity lease keepalive failed"@,
                    report@,
                ),
                Ok(()) => self.wait is Nothing && step == (AcquireStep::Acquired {
                    lease_id: before.lease_id,
                    window: before.window,
                }),
            },
        }
    }

    fn revoke(&mut self, error: TsoError) -> (step: AcquireStep)
        ensures
            final(self).prefix == old(self).prefix,
            final(self).record == old(self).record,
            final(self).lease_id == old(self).lease_id,
            final(self).window == old(self).window,
            final(self).revokes(step),
            final(self).wait == (AcquireWait::Revoked { error }),
    {
        self.wait = AcquireWait::Revoked { error };
        AcquireStep::RevokeLease { lease_id: self.lease_id }
    }

    fn claim(&mut self) -> (step: AcquireStep)
        ensures
            final(self).prefix == old(self).prefix,
            final(self).record == old(self).record,
            final(self).lease_id == old(self).lease_id,
            final(self).window == old(self).window,
            final(self).wait is Claimed,
            step matches AcquireStep::Claim { txn } && final(self).claims(txn),
    {
        self.wait = AcquireWait::Claimed;
        let key = instance_identity_key(self.prefix.as_str(), self.record.instance_id.as_str());
        let txn = guarded(
            Condition::CreateRevision { key: key_bytes(key.as_str()), revision: 0 },
            Operation::Put {
                key: key_bytes(key.as_str()),
                value: Payload::Identity(self.record.clone()),
                lease: Some(self.lease_id),
            },
        );
        AcquireStep::Claim { txn }
    }

    /// Takes a reply and says what to ask for next.
    pub fn on_reply(&mut self, reply: AcquireReply) -> (step: AcquireStep)
        requires
            old(self).awaits(reply),
        ensures
            final(self).prefix == old(self).prefix,
            final(self).record == old(self).record,
            final(self).advances(*old(self), reply, step),
    {
        let mut wait = AcquireWait::Nothing;
        std::mem::swap(&mut wait, &mut self.wait);
        match reply {
            AcquireReply::Granted { observed_at, lease } => match lease {
                Err(report) => AcquireStep::Failed {
                    error: reported("Etcd lease grant failed", report.as_str()),
                },
                Ok((lease_id, ttl)) => {
                    self.lease_id = lease_id;
                    let started_at: u128 = match wait {
                        AcquireWait::Granted { started_at } => started_at,
                        _ => 0,
                    };
                    match identity_lease_confirmed_window(started_at, observed_at, ttl) {
                        Err(error) => self.revoke(error),
                        Ok(window) => {
                            self.window = window;
                            self.claim()
                        },
                    }
                },
            },
            AcquireReply::Claimed(claimed) => {
                let unanswered = match claimed {
                    Ok(succeeded) => {
                        if succeeded {
                            self.wait = AcquireWait::KeepaliveOpened;
                            return AcquireStep::OpenKeepalive { lease_id: self.lease_id };
                        }
                        None
                    },
                    Err(report) => Some(report),
                };
                self.wait = AcquireWait::Verified { unanswered };
                let key = instance_identity_key(
                    self.prefix.as_str(),
                    self.record.instance_id.as_str(),
                );
                AcquireStep::ReadIdentity { key: key_bytes(key.as_str()) }
            },
            AcquireReply::Identity(read) => {
                let unanswered = match wait {
                    AcquireWait::Verified { unanswered } => unanswered,
                    _ => None,
                };
                let matched = match read {
                    Err(report) => {
                        return AcquireStep::Failed {
                            error: reported(
                                "Etcd identity lease claim verification lookup failed",
                                report.as_str(),
                            ),
                        };
                    },
                    Ok(None) => false,
                    Ok(Some(entry)) => match identity_claim_matches_record(
                        self.lease_id,
                        &entry,
                        &self.record,
                    ) {
                        Err(error) => {
                            return AcquireStep::Failed { error };
                        },
                        Ok(matched) => matched,
                    },
                };
                if matched {
                    self.wait = AcquireWait::KeepaliveOpened;
                    return AcquireStep::OpenKeepalive { lease_id: self.lease_id };
                }
                let error = match unanswered {
                    Some(report) => reported("Etcd identity lease txn failed", report.as_str()),
                    None => TsoError::InstanceIdentityInUse {
                        instance_id: self.record.instance_id.clone(),
                    },
                };
                self.revoke(error)
            },
            AcquireReply::Revoked => match wait {
                AcquireWait::Revoked { error } => AcquireStep::Failed { error },
                _ => AcquireStep::Failed { error: TsoError::CasFailed },
            },
            AcquireReply::KeepaliveOpened(opened) => match opened {
                Err(report) => AcquireStep::Failed {
                    error: reported("Etcd identity lease keepalive failed", report.as_str()),
                },
                Ok(()) => AcquireStep::Acquired { lease_id: self.lease_id, window: self.window },
            },
        }
    }
}

/// An instance holds an identity only after its claim was written, or after just that claim was
/// found to stand; where it was not, the lease is given back before the failure is told.
pub proof fn identities_are_held_after_a_written_claim(
    before: AcquireRun,
    reply: AcquireReply,
    after: AcquireRun,
    step: AcquireStep,
)
    requires
        after.advances(before, reply, step),
        before.awaits(reply),
    ensures
        step is OpenKeepalive ==> (reply matches AcquireReply::Claimed(Ok(true))) || (
        reply matches AcquireReply::Identity(Ok(Some(entry))) && entry.lease == before.lease_id && (
        entry.record matches Ok(record) && record@ == before.record@)),
        step matches AcquireStep::OpenKeepalive { lease_id } ==> lease_id == before.lease_id,
        step matches AcquireStep::Acquired { lease_id, window } ==> (
        reply matches AcquireReply::KeepaliveOpened(Ok(()))) && lease_id == before.lease_id
            && window == before.window,
        step matches AcquireStep::RevokeLease { lease_id } ==> lease_id == after.lease_id
            && after.wait is Revoked,
        reply matches AcquireReply::Claimed(Ok(false)) ==> step is ReadIdentity,
        reply matches AcquireReply::Identity(Ok(None)) ==> step is RevokeLease,
        reply is Revoked ==> step is Failed,
{
}

// ---- keeping an identity alive ----

/// What the renewal waits for.
#[derive(Debug, Clone, Copy, PartialEq, Eq, Structural)]
pub enum KeepaliveWait {
    Heartbeat,
    Sent { started_at: u128 },
    Response { started_at: u128 },
    Reconnected,
    Nothing,
}

/// What it does next. Nothing takes longer than the lease is known to live.
pub enum KeepaliveStep {
    Sleep { interval: u128, until: u128 },
    Send { until: u128 },
    AwaitResponse { until: u128 },
    Reconnect { backoff_ms: u64, until: u128 },
    /// The lease is lost.
    Lost { reason: String },
}

/// What came of it. `now` is when it came.
pub enum KeepaliveReply {
    /// The pause is over; or the lease ran out first.
    Rested { now: u128, in_time: bool },
    /// The request went out; an error; or nothing in time.
    Sent { now: u128, sent: Option<Result<(), String>> },
    /// The granted seconds, nothing where the stream ended; an error; or nothing in time.
    Response { now: u128, response: Option<Result<Option<i64>, String>> },
    /// A new stream is open; an error; or nothing in time.
    Reconnected { now: u128, opened: Option<Result<(), String>> },
}

impl KeepaliveReply {
    pub open spec fn now(self) -> u128 {
        match self {
            KeepaliveReply::Rested { now, .. } => now,
            KeepaliveReply::Sent { now, .. } => now,
            KeepaliveReply::Response { now, .. } => now,
            KeepaliveReply::Reconnected { now, .. } => now,
        }
    }
}

/// The renewal of a lease.
pub struct KeepaliveRun {
    pub lease_alive_until: u128,
    pub heartbeat_interval: u128,
    pub reconnect_failures: u32,
    pub process_id: u32,
    pub wait: KeepaliveWait,
}

impl KeepaliveRun {
    pub open spec fn awaits(self, reply: KeepaliveReply) -> bool {
        match self.wait {
            KeepaliveWait::Heartbeat => reply is Rested && reply.now() <= CLOCK_RANGE_NANOS,
            KeepaliveWait::Sent { started_at } => reply is Sent && started_at <= CLOCK_RANGE_NANOS,
            KeepaliveWait::Response { started_at } => reply is Response && started_at
                <= CLOCK_RANGE_NANOS,
            KeepaliveWait::Reconnected => reply is Reconnected,
            KeepaliveWait::Nothing => false,
        }
    }

    pub open spec fn rests(self, step: KeepaliveStep) -> bool {
        self.wait == KeepaliveWait::Heartbeat && step == (KeepaliveStep::Sleep {
            interval: self.heartbeat_interval,
            until: self.lease_alive_until,
        })
    }

    /// After a failure a new stream is opened, for as long as the lease lives; then it is lost.
    pub open spec fn reconnects_or_loses(
        self,
        now: u128,
        reason: Seq<char>,
        step: KeepaliveStep,
    ) -> bool {
        if now >= self.lease_alive_until {
            &&& self.wait == KeepaliveWait::Nothing
            &&& step matches KeepaliveStep::Lost { reason: why }
            &&& why@ == reason
        } else {
            let attempt = if self.reconnect_failures < u32::MAX {
                (self.reconnect_failures + 1) as u32
            } else {
                u32::MAX
            };
            &&& self.wait == KeepaliveWait::Reconnected
            &&& step matches KeepaliveStep::Reconnect { backoff_ms, until }
            &&& until == self.lease_alive_until
            &&& backoff_ms == retry::backoff(
                retry::IDENTITY_KEEPALIVE_RECONNECT_MIN_BACKOFF_MS as nat,
                attempt,
                3,
                retry::keepalive_jitter(attempt, self.process_id),
                retry::IDENTITY_KEEPALIVE_RECONNECT_MAX_BACKOFF_MS as nat,
            )
        }
    }

    fn rest(&mut self) -> (step: KeepaliveStep)
        ensures
            final(self).lease_alive_until == old(self).lease_alive_until,
            final(self).heartbeat_interval == old(self).heartbeat_interval,
            final(self).process_id == old(self).process_id,
            final(self).reconnect_failures == old(self).reconnect_failures,
            final(self).rests(step),
    {
        self.wait = KeepaliveWait::Heartbeat;
        KeepaliveStep::Sleep {
            interval: self.heartbeat_interval,
            until: self.lease_alive_until,
        }
    }

    fn reconnect_or_lose(&mut self, now: u128, reason: String) -> (step: KeepaliveStep)
        ensures
            final(self).lease_alive_until == old(self).lease_alive_until,
            final(self).heartbeat_interval == old(self).heartbeat_interval,
            final(self).process_id == old(self).process_id,
            final(self).reconnect_failures == old(self).reconnect_failures,
            final(self).reconnects_or_loses(now, reason@, step),
    {
        if now >= self.lease_alive_until {
            self.wait = KeepaliveWait::Nothing;
            return KeepaliveStep::Lost { reason };
        }
        let attempt: u32 = if self.reconnect_failures < u32::MAX {
            self.reconnect_failures + 1
        } else {
            u32::MAX
        };
        self.wait = KeepaliveWait::Reconnected;
        KeepaliveStep::Reconnect {
            backoff_ms: identity_keepalive_reconnect_backoff(attempt, self.process_id),
            until: self.lease_alive_until,
        }
    }

    /// The stream failed: the count of failed attempts to open a new one starts anew.
    fn stream_failed(&mut self, now: u128, reason: String) -> (step: KeepaliveStep)
        ensures
            final(self).lease_alive_until == old(self).lease_alive_until,
            final(self).heartbeat_interval == old(self).heartbeat_interval,
            final(self).process_id == old(self).process_id,
            final(self).reconnect_failures == 0,
            final(self).reconnects_or_loses(now, reason@, step),
    {
        self.reconnect_failures = 0;
        self.reconnect_or_lose(now, reason)
    }

    pub fn start(window: IdentityLeaseConfirmedWindow, process_id: u32) -> (begun: (
        Self,
        KeepaliveStep,
    ))
        ensures
            begun.0.lease_alive_until == window.deadline,
            begun.0.heartbeat_interval == window.heartbeat_interval,
            begun.0.process_id == process_id,
            begun.0.rests(begun.1),
    {
        let mut run = KeepaliveRun {
            lease_alive_until: window.deadline,
            heartbeat_interval: window.heartbeat_interval,
            reconnect_failures: 0,
            process_id,
            wait: KeepaliveWait::Nothing,
        };
        let step = run.rest();
        (run, step)
    }

    /// The lease and its renewal are as before.
    pub open spec fn same_lease(self, other: KeepaliveRun) -> bool {
        &&& self.lease_alive_until == other.lease_alive_until
        &&& self.heartbeat_interval == other.heartbeat_interval
    }

    /// The stream failed for a reason.
    pub open spec fn fails_with(
        self,
        before: KeepaliveRun,
        now: u128,
        reason: Seq<char>,
        step: KeepaliveStep,
    ) -> bool {
        &&& self.same_lease(before)
        &&& self.reconnect_failures == 0
        &&& self.reconnects_or_loses(now, reason, step)
    }

    /// What a reply comes to.
    pub open spec fn advances(
        self,
        before: KeepaliveRun,
        reply: KeepaliveReply,
        step: KeepaliveStep,
    ) -> bool {
        match reply {
            KeepaliveReply::Rested { now, in_time } => if in_time {
                &&& self.same_lease(before)
                &&& self.wait == (KeepaliveWait::Sent { started_at: now })
                &&& step == (KeepaliveStep::Send { until: before.lease_alive_until })
            } else {
                self.fails_with(before, now, "keepalive_heartbeat_deadline_elapsed"@, step)
            },
            KeepaliveReply::Sent { now, sent } => match sent {
                None => self.fails_with(before, now, "keepalive_send_deadline_elapsed"@, step),
                Some(Err(report)) => self.fails_with(
                    before,
                    now,
                    "keepalive_send_failed: "@ + report@,
                    step,
                ),
                Some(Ok(())) => {
                    &&& self.same_lease(before)
                    &&& self.wait == (KeepaliveWait::Response {
                        started_at: before.wait->Sent_started_at,
                    })
                    &&& step == (KeepaliveStep::AwaitResponse { until: before.lease_alive_until })
                },
            },
            KeepaliveReply::Response { now, response } => match response {
                None => self.fails_with(before, now, "keepalive_response_deadline_elapsed"@, step),
                Some(Err(report)) => self.fails_with(
                    before,
                    now,
                    "keepalive_stream_error: "@ + report@,
                    step,
                ),
                Some(Ok(None)) => self.fails_with(before, now, "keepalive_stream_closed"@, step),
                Some(Ok(Some(ttl))) => {
                    let started_at = before.wait->Response_started_at;
                    match window_fault(started_at, now, ttl) {
                        Some(message) => self.fails_with(
                            before,
                            now,
                            "keepalive_response_invalid: "@ + ("internal error: "@ + message),
                            step,
                        ),
                        None => {
                            &&& self.lease_alive_until == lease_end(started_at, ttl)
                            &&& self.heartbeat_interval == (self.lease_alive_until - now) / 3
                            &&& self.rests(step)
                        },
                    }
                },
            },
            KeepaliveReply::Reconnected { now, opened } => match opened {
                Some(Ok(())) => self.same_lease(before) && self.rests(step),
                Some(Err(report)) => {
                    &&& self.same_lease(before)
                    &&& self.reconnect_failures == if before.reconnect_failures < u32::MAX {
                        before.reconnect_failures + 1
                    } else {
                        u32::MAX as int
                    }
                    &&& self.reconnects_or_loses(
                        now,
                        "keepalive_reconnect_failed: "@ + report@,
                        step,
                    )
                },
                None => {
                    &&& self.same_lease(before)
                    &&& self.reconnect_failures == before.reconnect_failures
                    &&& self.reconnects_or_loses(
                        now,
                        "keepalive_reconnect_deadline_elapsed"@,
                        step,
                    )
                },
            },
        }
    }

    /// Takes what came of the last step and says what to do next.
    pub fn on_reply(&mut self, reply: KeepaliveReply) -> (step: KeepaliveStep)
        requires
            old(self).awaits(reply),
        ensures
            final(self).process_id == old(self).process_id,
            final(self).advances(*old(self), reply, step),
    {
        match reply {
            KeepaliveReply::Rested { now, in_time } => {
                if in_time {
                    self.wait = KeepaliveWait::Sent { started_at: now };
                    return KeepaliveStep::Send { until: self.lease_alive_until };
                }
                self.stream_failed(now, "keepalive_heartbeat_deadline_elapsed".to_owned())
            },
            KeepaliveReply::Sent { now, sent } => match sent {
                None => self.stream_failed(now, "keepalive_send_deadline_elapsed".to_owned()),
                Some(Err(report)) => self.stream_failed(
                    now,
                    join2("keepalive_send_failed: ", report.as_str()),
                ),
                Some(Ok(())) => {
                    let started_at: u128 = match self.wait {
                        KeepaliveWait::Sent { started_at } => started_at,
                        _ => 0,
                    };
                    self.wait = KeepaliveWait::Response { started_at };
                    KeepaliveStep::AwaitResponse { until: self.lease_alive_until }
                },
            },
            KeepaliveReply::Response { now, response } => match response {
                None => self.stream_failed(now, "keepalive_response_deadline_elapsed".to_owned()),
                Some(Err(report)) => self.stream_failed(
                    now,
                    join2("keepalive_stream_error: ", report.as_str()),
                ),
                Some(Ok(None)) => self.stream_failed(now, "keepalive_stream_closed".to_owned()),
                Some(Ok(Some(ttl))) => {
                    let started_at: u128 = match self.wait {
                        KeepaliveWait::Response { started_at } => started_at,
                        _ => 0,
                    };
                    match identity_lease_confirmed_window(started_at, now, ttl) {
                        Err(error) => {
                            let reason = join2(
                                "keepalive_response_invalid: ",
                                error.message().as_str(),
                            );
                            self.stream_failed(now, reason)
                        },
                        Ok(window) => {
                            self.lease_alive_until = window.deadline;
                            self.heartbeat_interval = window.heartbeat_interval;
                            self.rest()
                        },
                    }
                },
            },
            KeepaliveReply::Reconnected { now, opened } => match opened {
                Some(Ok(())) => self.rest(),
                Some(Err(report)) => {
                    if self.reconnect_failures < u32::MAX {
                        self.reconnect_failures = self.reconnect_failures + 1;
                    }
                    self.reconnect_or_lose(
                        now,
                        join2("keepalive_reconnect_failed: ", report.as_str()),
                    )
                },
                None => self.reconnect_or_lose(
                    now,
                    "keepalive_reconnect_deadline_elapsed".to_owned(),
                ),
            },
        }
    }
}

/// A lease is declared lost only once it has run out.
pub proof fn leases_are_lost_only_when_they_ran_out(
    before: KeepaliveRun,
    after: KeepaliveRun,
    reply: KeepaliveReply,
    step: KeepaliveStep,
)
    requires
        after.advances(before, reply, step),
        step is Lost,
    ensures
        reply.now() >= before.lease_alive_until,
{
}

/// A lease is trusted longer only once the store confirmed it, and then until so many seconds after
/// the renewal was begun. Nothing that is done takes longer than the lease is trusted, and a failure
/// ends it exactly where it has run out.
pub proof fn leases_live_on_by_confirmation_only(
    before: KeepaliveRun,
    after: KeepaliveRun,
    reply: KeepaliveReply,
    step: KeepaliveStep,
)
    requires
        before.awaits(reply),
        after.advances(before, reply, step),
    ensures
        after.lease_alive_until != before.lease_alive_until ==> (
        reply matches KeepaliveReply::Response { now, response: Some(Ok(Some(ttl))) } && ttl > 0
            && (before.wait matches KeepaliveWait::Response { started_at }
            && after.lease_alive_until == started_at + ttl * 1_000_000_000
            && after.lease_alive_until > now)),
        match step {
            KeepaliveStep::Sleep { interval, until } => until == after.lease_alive_until
                && interval == after.heartbeat_interval,
            KeepaliveStep::Send { until } => until == before.lease_alive_until && (
            reply matches KeepaliveReply::Rested { in_time: true, .. }),
            KeepaliveStep::AwaitResponse { until } => until == before.lease_alive_until && (
            reply matches KeepaliveReply::Sent { sent: Some(Ok(())), .. }),
            KeepaliveStep::Reconnect { until, backoff_ms } => until == before.lease_alive_until
                && reply.now() < before.lease_alive_until && 100 <= backoff_ms <= 500,
            KeepaliveStep::Lost { .. } => reply.now() >= before.lease_alive_until,
        },
{
    let failures = if after.reconnect_failures < u32::MAX {
        (after.reconnect_failures + 1) as u32
    } else {
        u32::MAX
    };
    retry::backoffs_are_bounded(
        100,
        failures,
        3,
        retry::keepalive_jitter(failures, after.process_id),
        500,
    );
}

// ---- giving an identity back ----

/// What is done next to give an identity back.
#[derive(Debug, Clone, Copy, PartialEq, Eq, Structural)]
pub enum ReleaseStep {
    /// Stop the renewal and wait for it, within the timeout.
    StopKeepalive,
    /// Give the lease back, within the timeout.
    RevokeLease { lease_id: i64 },
    Finished,
}

/// An identity that is held, as far as it takes giving it back.
#[derive(Debug, Clone, Copy, PartialEq, Eq, Structural)]
pub struct IdentityRelease {
    pub keepalive_running: bool,
    pub revocable: bool,
    pub lease_id: i64,
    pub released: bool,
}

impl IdentityRelease {
    /// What giving an identity back does next.
    pub open spec fn goes_on(self, before: Self, step: ReleaseStep) -> bool {
        if before.released {
            step == ReleaseStep::Finished && self == before
        } else if before.keepalive_running {
            step == ReleaseStep::StopKeepalive && self == (IdentityRelease {
                keepalive_running: false,
                ..before
            })
        } else if before.revocable {
            step == (ReleaseStep::RevokeLease { lease_id: before.lease_id }) && self == (
            IdentityRelease { revocable: false, ..before })
        } else {
            step == ReleaseStep::Finished && self == (IdentityRelease { released: true, ..before })
        }
    }

    /// The next step: the renewal is stopped first, then the lease is given back, each once and
    /// whatever comes of it.
    pub fn next_step(&mut self) -> (step: ReleaseStep)
        ensures
            final(self).lease_id == old(self).lease_id,
            final(self).goes_on(*old(self), step),
            if old(self).released {
                step == ReleaseStep::Finished && *final(self) == *old(self)
            } else if old(self).keepalive_running {
                step == ReleaseStep::StopKeepalive && *final(self) == (IdentityRelease {
                    keepalive_running: false,
                    ..*old(self)
                })
            } else if old(self).revocable {
                step == (ReleaseStep::RevokeLease { lease_id: old(self).lease_id }) && *final(self)
                    == (IdentityRelease { revocable: false, ..*old(self) })
            } else {
                step == ReleaseStep::Finished && *final(self) == (IdentityRelease {
                    released: true,
                    ..*old(self)
                })
            },
    {
        if self.released {
            return ReleaseStep::Finished;
        }
        if self.keepalive_running {
            self.keepalive_running = false;
            return ReleaseStep::StopKeepalive;
        }
        if self.revocable {
            self.revocable = false;
            return ReleaseStep::RevokeLease { lease_id: self.lease_id };
        }
        self.released = true;
        ReleaseStep::Finished
    }
}

/// The renewal is stopped before the lease goes back, each is done once, and what was done is over.
pub proof fn identities_are_given_back_in_order(
    first: IdentityRelease,
    one: ReleaseStep,
    second: IdentityRelease,
    two: ReleaseStep,
    third: IdentityRelease,
    three: ReleaseStep,
    last: IdentityRelease,
)
    requires
        second.goes_on(first, one),
        third.goes_on(second, two),
        last.goes_on(third, three),
        !first.released,
    ensures
        first.keepalive_running && first.revocable ==> one == ReleaseStep::StopKeepalive && two == (
        ReleaseStep::RevokeLease { lease_id: first.lease_id }) && three == ReleaseStep::Finished,
        first.keepalive_running && !first.revocable ==> one == ReleaseStep::StopKeepalive && two
            == ReleaseStep::Finished,
        !first.keepalive_running && first.revocable ==> one == (ReleaseStep::RevokeLease {
            lease_id: first.lease_id,
        }) && two == ReleaseStep::Finished,
        three == ReleaseStep::Finished,
{
}

} // verus!
