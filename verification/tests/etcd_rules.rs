use chronos::error::TsoError;
use chronos::metadata::etcd::cluster_format::active_identity_formats_are_compatible;
use chronos::metadata::etcd::ranges::{
    fetch_limit_for_page, next_etcd_key_after, prefix_range_end, request_record_prune_fetch_limit,
    REQUEST_RECORD_PRUNE_MAX_FETCH_LIMIT, REQUEST_RECORD_PRUNE_MIN_FETCH_LIMIT,
};
use chronos::metadata::etcd::request_index::request_record_is_prunable;
use chronos::metadata::etcd::retry::{
    etcd_error_is_retryable, etcd_request_retry_backoff, etcd_request_retry_budget,
    etcd_retry_reason, route_watch_reconnect_backoff, EtcdErrorKind, EtcdRetry, RetryStep,
    DEFAULT_ETCD_REQUEST_RETRY_BUDGET_MS, ROUTE_WATCH_MAX_RECONNECT_BACKOFF_MS,
    ROUTE_WATCH_MIN_RECONNECT_BACKOFF_MS,
};
use chronos::metadata::etcd::route_watch::{
    route_update_for_watch_event, RestartReason, RouteWatchState, WatchChange, WatchMessage,
};
use chronos::metadata::etcd::txn::InstanceIdentityLeaseRecord;
use chronos::metadata::identity::{
    active_identity_records, claim_instance_identity, identity_claim_matches_record,
    identity_lease_confirmed_window, identity_lease_grant_request_ttl_seconds,
    identity_record_belongs_to_ownership_plan, verify_instance_identity_lease_record,
    ClaimVerdict, IdentityEntry, IdentityRelease, ReleaseStep,
};
use chronos::metadata::types::{
    AllocationRequestFingerprint, RequestRecord, RequestRecordState, RouteUpdateSignal,
    CURRENT_CLUSTER_FORMAT_VERSION,
};
use chronos::model::{ResourceTier, TimelineRoute};
use chronos::rpc::proto::StatusCode;
use std::time::Duration;

fn sample_route(generator_id: u32, route_version: u64) -> TimelineRoute {
    TimelineRoute {
        timeline_key: "timeline-a".into(),
        generator_id,
        epoch: 1,
        route_version,
        resource_tier: ResourceTier::Shared,
        owner_worker_endpoint: "worker-a:50051".into(),
    }
}

fn sample_request_record(state: RequestRecordState, updated_at_ms: u64) -> RequestRecord {
    RequestRecord {
        schema_version: 1,
        fingerprint: AllocationRequestFingerprint {
            timeline_key: "timeline".into(),
            count: 1,
        },
        state,
        response: None,
        updated_at_ms,
    }
}

fn test_instance_identity_record() -> InstanceIdentityLeaseRecord {
    InstanceIdentityLeaseRecord {
        instance_id: "instance-a".into(),
        worker_id: "worker-a".into(),
        advertise_endpoint: "worker-a:50051".into(),
        ownership_plan_id: "plan-a".into(),
        ownership_modulo: 2,
        cluster_format_version: CURRENT_CLUSTER_FORMAT_VERSION,
    }
}

fn entry(lease: i64, record: InstanceIdentityLeaseRecord) -> IdentityEntry {
    IdentityEntry { lease, record: Ok(record) }
}

fn unreadable(lease: i64) -> IdentityEntry {
    IdentityEntry {
        lease,
        record: Err("key must be a string at line 1 column 2".into()),
    }
}

#[test]
fn request_record_prune_predicate_only_matches_old_completed_records() {
    assert!(request_record_is_prunable(
        &sample_request_record(RequestRecordState::Completed, 99),
        100
    ));
    assert!(!request_record_is_prunable(
        &sample_request_record(RequestRecordState::Completed, 100),
        100
    ));
    assert!(!request_record_is_prunable(
        &sample_request_record(RequestRecordState::Pending, 50),
        100
    ));
}

#[test]
fn next_etcd_key_after_advances_without_leaving_prefix_range() {
    let prefix = "/chronos/requests/";
    let key = b"/chronos/requests/timeline/request";
    let next = next_etcd_key_after(key);

    assert!(next.as_slice() > key.as_slice());
    assert!(next.as_slice() < prefix_range_end(prefix).as_slice());
}

#[test]
fn a_prefix_range_ends_behind_the_last_key() {
    assert_eq!(prefix_range_end("routes/"), b"routes0".to_vec());
    assert_eq!(prefix_range_end(""), vec![0]);
}

#[test]
fn request_record_prune_fetch_limit_is_bounded() {
    assert_eq!(
        request_record_prune_fetch_limit(1),
        REQUEST_RECORD_PRUNE_MIN_FETCH_LIMIT as i64
    );
    assert_eq!(
        request_record_prune_fetch_limit(usize::MAX),
        REQUEST_RECORD_PRUNE_MAX_FETCH_LIMIT as i64
    );
}

#[test]
fn a_page_that_continues_reads_one_row_more() {
    assert_eq!(fetch_limit_for_page(10, false), 11);
    assert_eq!(fetch_limit_for_page(10, true), 12);
}

#[test]
fn route_update_for_watch_event_skips_same_route_when_prev_route_is_known() {
    let route = sample_route(7, 1);
    let next = route.clone();

    assert_eq!(route_update_for_watch_event(Some(&route), &next), None);
}

#[test]
fn route_update_for_watch_event_preserves_unknown_prev_as_changed() {
    let next = sample_route(7, 1);

    assert_eq!(route_update_for_watch_event(None, &next), Some(next));
}

#[test]
fn route_watch_reconnect_backoff_is_bounded() {
    let first = route_watch_reconnect_backoff(1, 4242);
    let later = route_watch_reconnect_backoff(64, 4242);

    assert!(
        Duration::from_millis(first)
            >= Duration::from_millis(ROUTE_WATCH_MIN_RECONNECT_BACKOFF_MS)
    );
    assert!(
        Duration::from_millis(later)
            <= Duration::from_millis(ROUTE_WATCH_MAX_RECONNECT_BACKOFF_MS)
    );
}

#[test]
fn retry_etcd_request_retries_retryable_errors_until_success() {
    let mut retry = EtcdRetry::new(0, 1_000);
    let mut attempts: usize = 0;
    let mut now_ms: u64 = 0;
    let result: u32 = loop {
        match retry.before_attempt(now_ms) {
            RetryStep::Attempt { .. } => {}
            step => panic!("{step:?}"),
        }
        let attempt = attempts;
        attempts += 1;
        if attempt == 0 {
            match retry.after_failure(now_ms, EtcdErrorKind::EndpointError, 0) {
                RetryStep::Sleep { wait_ms } => now_ms += wait_ms,
                step => panic!("retryable error should be retried: {step:?}"),
            }
        } else {
            break 7u32;
        }
    };

    assert_eq!(result, 7);
    assert_eq!(attempts, 2);
}

#[test]
fn retry_etcd_request_respects_total_budget() {
    let retry = EtcdRetry::new(0, 1);

    assert_eq!(retry.before_attempt(0), RetryStep::Attempt { remaining_ms: 1 });
    assert_eq!(retry.before_attempt(25), RetryStep::DeadlineExceeded);
}

#[test]
fn failures_that_cannot_pass_are_not_retried() {
    let mut retry = EtcdRetry::new(0, 1_000);

    assert_eq!(
        retry.after_failure(0, EtcdErrorKind::GrpcStatus(StatusCode::InvalidArgument), 0),
        RetryStep::Fail
    );
    assert!(!etcd_error_is_retryable(EtcdErrorKind::InvalidArgs));
    assert_eq!(etcd_retry_reason(EtcdErrorKind::InvalidArgs), "non_retryable");
    assert_eq!(
        etcd_retry_reason(EtcdErrorKind::GrpcStatus(StatusCode::Unavailable)),
        "grpc_unavailable"
    );
    assert!(etcd_request_retry_backoff(2, 0) >= etcd_request_retry_backoff(1, 0));
}

#[test]
fn etcd_request_retry_budget_covers_configured_etcd_attempt_timeout() {
    assert_eq!(etcd_request_retry_budget(Some(100), Some(1_500)), 1_500);
}

#[test]
fn etcd_request_retry_budget_uses_default_when_etcd_timeout_is_lower() {
    assert_eq!(
        etcd_request_retry_budget(None, Some(100)),
        DEFAULT_ETCD_REQUEST_RETRY_BUDGET_MS
    );
}

#[test]
fn etcd_request_retry_budget_uses_default_when_grpc_timeout_is_lower() {
    assert_eq!(
        etcd_request_retry_budget(Some(100), None),
        DEFAULT_ETCD_REQUEST_RETRY_BUDGET_MS
    );
}

#[test]
fn route_watch_reset_once_suppresses_duplicate_outage_resets() {
    let mut watch = RouteWatchState::new();

    let first = watch.on_lost(RestartReason::StreamError, 1);
    let second = watch.on_lost(RestartReason::ConnectFailed, 1);

    assert_eq!(first.signals.len(), 1);
    assert!(matches!(first.signals[0], RouteUpdateSignal::Reset));
    assert!(second.signals.is_empty());

    watch.on_connected();
    assert_eq!(watch.on_lost(RestartReason::StreamClosed, 1).signals.len(), 1);
}

#[test]
fn a_watch_passes_on_changed_routes_and_resumes_behind_them() {
    let mut watch = RouteWatchState::new();

    let reaction = watch.on_message(
        WatchMessage {
            header_revision: Some(41),
            compact_revision: 0,
            canceled: false,
            changes: vec![
                WatchChange::Route { previous: Some(sample_route(7, 1)), next: sample_route(7, 1) },
                WatchChange::NotAPut,
                WatchChange::Route { previous: Some(sample_route(7, 1)), next: sample_route(8, 2) },
            ],
        },
        1,
    );

    assert!(reaction.restart.is_none());
    assert_eq!(reaction.signals.len(), 1);
    assert!(matches!(&reaction.signals[0], RouteUpdateSignal::Route(route) if *route == sample_route(8, 2)));
    assert_eq!(watch.start_revision(), Some(42));
}

#[test]
fn a_compacted_watch_forgets_where_it_stood() {
    let mut watch = RouteWatchState::new();
    watch.next_watch_revision = Some(9);

    let reaction = watch.on_message(
        WatchMessage {
            header_revision: None,
            compact_revision: 12,
            canceled: false,
            changes: Vec::new(),
        },
        1,
    );

    assert!(matches!(reaction.restart, Some((RestartReason::Compacted, _))));
    assert_eq!(watch.start_revision(), None);
    assert_eq!(RestartReason::Compacted.label(), "watch_compacted");
}

#[test]
fn an_unreadable_change_restarts_the_watch() {
    let mut watch = RouteWatchState::new();

    let reaction = watch.on_message(
        WatchMessage {
            header_revision: Some(3),
            compact_revision: 0,
            canceled: false,
            changes: vec![
                WatchChange::Route { previous: None, next: sample_route(7, 1) },
                WatchChange::Undecodable,
                WatchChange::Route { previous: None, next: sample_route(9, 1) },
            ],
        },
        1,
    );

    assert!(matches!(reaction.restart, Some((RestartReason::EventDecodeFailed, _))));
    assert_eq!(reaction.signals.len(), 2);
    assert!(matches!(reaction.signals[1], RouteUpdateSignal::Reset));
}

#[test]
fn verify_instance_identity_lease_record_accepts_exact_matching_lease_and_payload() {
    verify_instance_identity_lease_record(
        17,
        &entry(17, test_instance_identity_record()),
        &test_instance_identity_record(),
    )
    .expect("matching lease record should verify");
}

#[test]
fn verify_instance_identity_lease_record_rejects_wrong_lease_id() {
    let error = verify_instance_identity_lease_record(
        17,
        &entry(18, test_instance_identity_record()),
        &test_instance_identity_record(),
    )
    .expect_err("wrong lease id should fail verification");

    assert!(error.message().contains("expected 17"));
}

#[test]
fn verify_instance_identity_lease_record_rejects_invalid_payload() {
    let error = verify_instance_identity_lease_record(
        17,
        &unreadable(17),
        &test_instance_identity_record(),
    )
    .expect_err("invalid payload should fail verification");

    assert!(error.message().contains("decode failed"));
}

#[test]
fn verify_instance_identity_lease_record_rejects_mismatched_identity_fields() {
    let error = verify_instance_identity_lease_record(
        17,
        &entry(
            17,
            InstanceIdentityLeaseRecord {
                worker_id: "worker-b".into(),
                ..test_instance_identity_record()
            },
        ),
        &test_instance_identity_record(),
    )
    .expect_err("mismatched payload should fail verification");

    assert!(error.message().contains("mismatched identity record"));
}

#[test]
fn identity_claim_matches_record_accepts_matching_claim() {
    let expected = test_instance_identity_record();

    assert!(
        identity_claim_matches_record(17, &entry(17, test_instance_identity_record()), &expected)
            .expect("matching claim should parse")
    );
}

#[test]
fn identity_claim_matches_record_rejects_other_lease_without_error() {
    let expected = test_instance_identity_record();

    assert!(
        !identity_claim_matches_record(17, &entry(18, test_instance_identity_record()), &expected)
            .expect("other lease should not require payload parsing")
    );
    assert!(!identity_claim_matches_record(17, &unreadable(18), &expected)
        .expect("other lease should not require payload parsing"));
}

#[test]
fn identity_claim_matches_record_rejects_mismatched_payload() {
    let expected = test_instance_identity_record();
    let claim = InstanceIdentityLeaseRecord {
        worker_id: "worker-b".into(),
        ..test_instance_identity_record()
    };

    assert!(!identity_claim_matches_record(17, &entry(17, claim), &expected)
        .expect("mismatched claim payload should parse"));
}

#[test]
fn identity_claim_matches_record_rejects_invalid_own_payload() {
    let expected = test_instance_identity_record();

    let error = identity_claim_matches_record(17, &unreadable(17), &expected)
        .expect_err("invalid payload on the expected lease should fail verification");

    assert!(error
        .message()
        .contains("claim verification decode failed"));
}

#[test]
fn ownership_plan_membership_uses_identity_plan_and_treats_legacy_as_blocking() {
    let current = InstanceIdentityLeaseRecord {
        instance_id: "instance-a".into(),
        worker_id: "worker-a".into(),
        advertise_endpoint: "worker-a:50051".into(),
        ownership_plan_id: "plan-b".into(),
        ownership_modulo: 4,
        cluster_format_version: CURRENT_CLUSTER_FORMAT_VERSION,
    };
    assert!(identity_record_belongs_to_ownership_plan(
        &current, "plan-b", 4
    ));
    assert!(!identity_record_belongs_to_ownership_plan(
        &current, "plan-a", 2
    ));

    let legacy = InstanceIdentityLeaseRecord {
        ownership_plan_id: String::new(),
        ownership_modulo: 0,
        ..current
    };
    assert!(identity_record_belongs_to_ownership_plan(
        &legacy, "plan-a", 2
    ));
}

#[test]
fn active_identity_cluster_format_rejects_legacy_workers() {
    let current = test_instance_identity_record();
    active_identity_formats_are_compatible(std::slice::from_ref(&current)).unwrap();

    let legacy = InstanceIdentityLeaseRecord {
        cluster_format_version: 0,
        ..current
    };
    let error = active_identity_formats_are_compatible(&[legacy]).unwrap_err();
    assert!(error.message().contains("stop every old worker"));
}

#[test]
fn etcd_cluster_format_initialization_rejects_active_legacy_identity() {
    let legacy = InstanceIdentityLeaseRecord {
        instance_id: "legacy-instance".into(),
        worker_id: "legacy-worker".into(),
        advertise_endpoint: "legacy-worker:50051".into(),
        ownership_plan_id: String::new(),
        ownership_modulo: 0,
        cluster_format_version: 0,
    };
    let active = active_identity_records(Ok(vec![IdentityEntry { lease: 30, record: Ok(legacy) }]));

    let error = active_identity_formats_are_compatible(&active.unwrap()).unwrap_err();

    assert!(error.message().contains("incompatible cluster format"));
}

#[test]
fn claim_instance_identity_succeeds_when_key_is_absent() {
    assert_eq!(
        claim_instance_identity(Ok(true), 42, "instance-a"),
        ClaimVerdict::Claimed
    );
}

#[test]
fn claim_instance_identity_rejects_duplicate_and_revokes_lease() {
    match claim_instance_identity(Ok(false), 7, "instance-a") {
        ClaimVerdict::RevokeAndFail { lease_id, error } => {
            assert_eq!(lease_id, 7);
            assert!(matches!(
                error,
                TsoError::InstanceIdentityInUse { ref instance_id } if instance_id == "instance-a"
            ));
        }
        other => panic!("identity claim should fail when key already exists: {other:?}"),
    }
}

fn release_steps(lease: &mut IdentityRelease) -> Vec<ReleaseStep> {
    let mut steps = Vec::new();
    loop {
        let step = lease.next_step();
        if step == ReleaseStep::Finished {
            return steps;
        }
        steps.push(step);
    }
}

#[test]
fn instance_identity_lease_shutdown_is_idempotent_without_revoke_client() {
    let mut lease = IdentityRelease {
        keepalive_running: true,
        revocable: false,
        lease_id: 0,
        released: false,
    };

    assert_eq!(release_steps(&mut lease), vec![ReleaseStep::StopKeepalive]);
    assert_eq!(release_steps(&mut lease), Vec::new());
    assert!(lease.released);
}

#[test]
fn instance_identity_lease_shutdown_revokes_active_lease() {
    let mut lease = IdentityRelease {
        keepalive_running: false,
        revocable: true,
        lease_id: 17,
        released: false,
    };

    assert_eq!(
        release_steps(&mut lease),
        vec![ReleaseStep::RevokeLease { lease_id: 17 }]
    );
    assert!(lease.released);
}

fn grant_request(ttl: Duration) -> Result<i64, TsoError> {
    identity_lease_grant_request_ttl_seconds(ttl.as_secs(), ttl.subsec_nanos())
}

#[test]
fn identity_lease_grant_request_rounds_fractional_seconds_up() {
    for (configured_ms, expected_seconds) in [(500, 1), (1_500, 2), (3_000, 3)] {
        let ttl = Duration::from_millis(configured_ms);
        assert_eq!(grant_request(ttl).unwrap(), expected_seconds);
    }
}

#[test]
fn identity_lease_grant_request_preserves_direct_zero_duration_compatibility() {
    assert_eq!(grant_request(Duration::ZERO).unwrap(), 1);
}

#[test]
fn identity_lease_grant_request_rejects_seconds_above_etcd_i64_limit() {
    let ttl = Duration::from_secs(i64::MAX as u64 + 1);
    let error = grant_request(ttl).unwrap_err();

    assert!(error.message().contains("exceeds etcd i64 seconds"));
}

#[test]
fn a_confirmed_window_leaves_room_for_the_heartbeat() {
    let second: u128 = 1_000_000_000;
    let window = identity_lease_confirmed_window(0, 0, 3).unwrap();

    assert!(window.heartbeat_interval > 0);
    assert!(window.heartbeat_interval < window.deadline);
    assert!(window.deadline <= 3 * second);
    assert!(identity_lease_confirmed_window(0, 0, 0).is_err());
}
