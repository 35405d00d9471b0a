use chronos::error::TsoError;
use chronos::model::{
    AllocateTimestampsResponse, HealthInfo, ResourceTier, TimelineLifecycleState, TimelineRoute,
    TimestampRange, TransferReason,
};
use chronos::recovery::RecoveryReason;
use chronos::rpc::error_details::{
    decode_error_detail, decode_error_detail_from_status_details, encode_error_detail,
    encode_error_detail_status, is_error_detail_type_url, ERROR_DETAIL_TYPE_URL,
};
use chronos::rpc::health_handle::HealthStatusHandle;
use chronos::rpc::proto::{
    ErrorCode, ErrorDetail, ListTimelineStatusesRequest, OperatorActionBlocker,
    OperatorActionNextStep, ProtoAllocateTimestampsRequest, ProtoResourceTier,
    ProtoTimelineFailoverReadiness, ProtoTimelineRoute, ProtoTimelineState,
    ProtoWorkerReadinessReason, ProtoWorkerReadinessState, ServerTime, StatusCode,
    TimelineRouteEvent, TransferTimelineRequest, WatchTimelineRoutesRequest,
};
use chronos::rpc::public_mapping::{
    invalid_argument_status_with_detail, map_tso_error, status_with_error_detail,
    timeline_not_ready_public_mapping,
};
use chronos::rpc::route_mapping::{
    build_keepalive_event, build_route_event, build_timestamp_ranges,
};
use chronos::rpc::route_timestamp_service_facade::{
    allocate_timestamps_response, decode_resource_tier, ensure_timeline_tier,
    proto_timestamp_ranges, timeline_route_response,
};
use chronos::rpc::status_mapping::{
    current_timestamp_from, get_timeline_status_response, health_response,
    list_timeline_statuses_response, BuildInfo,
};
use chronos::rpc::timeline_status_query::{
    normalize_timeline_status_list_request, timeline_status_page_token, TimelineStatusPageToken,
    DEFAULT_TIMELINE_STATUS_PAGE_SIZE, MAX_TIMELINE_STATUS_PAGE_SIZE,
};
use chronos::rpc::transfer_adapter::{
    build_transfer_timeline_response, normalize_transfer_request,
};
use chronos::rpc::translation::{
    map_timeline_proxy_error, protection_event, ProtectionEvent, TimelineProxyError,
    WarningRateLimitState, LEASE_WARNING_INTERVAL_MS,
};
use chronos::rpc::watch_allocate_entry::{
    build_allocate_timestamps_response, keepalive_effect, normalize_allocate_timestamps_request,
    route_send_effect, KeepaliveOutcome, ResyncReason, SendOutcome, WatchAction, WatchEvent,
    WatchResyncGate, WatchResyncLagEffect, WatchSession,
};
use chronos::rpc::watch_completeness::{SnapshotStep, WatchCompletenessTracker};
use chronos::status::{
    TimelineFailoverReadiness, TimelineStatusListPage, TimelineStatusSnapshot,
    WorkerReadinessReason, WorkerReadinessState, WorkerStatusIdentity, WorkerStatusSnapshot,
};

#[test]
fn rich_error_status_round_trips_error_detail() {
    let encoded = encode_error_detail_status(
        StatusCode::FailedPrecondition,
        "stale route",
        &ErrorDetail {
            code: ErrorCode::RouteVersionMismatch.number(),
            message: "stale route".into(),
            current_epoch: 0,
            current_route_version: 42,
            redirect_endpoint: "worker-b:50051".into(),
            action_blocker: 0,
            next_step: 0,
        },
    );

    let detail = decode_error_detail_from_status_details(&encoded).expect("detail decodes");

    assert_eq!(detail.code, ErrorCode::RouteVersionMismatch.number());
    assert_eq!(detail.current_route_version, 42);
    assert_eq!(detail.redirect_endpoint, "worker-b:50051");
}

#[test]
fn legacy_raw_error_detail_still_decodes() {
    let legacy = encode_error_detail(&ErrorDetail {
        code: ErrorCode::NotTimelineOwner.number(),
        message: String::new(),
        current_epoch: 0,
        current_route_version: 0,
        redirect_endpoint: "worker-c:50051".into(),
        action_blocker: 0,
        next_step: 0,
    });

    let detail = decode_error_detail_from_status_details(&legacy).expect("detail decodes");

    assert_eq!(detail.code, ErrorCode::NotTimelineOwner.number());
    assert_eq!(detail.redirect_endpoint, "worker-c:50051");
}

#[test]
fn error_details_are_written_as_fields_on_the_wire() {
    let detail = ErrorDetail {
        code: -1,
        message: "é".into(),
        current_epoch: 300,
        current_route_version: 0,
        redirect_endpoint: String::new(),
        action_blocker: 0,
        next_step: 0,
    };
    let bytes = encode_error_detail(&detail);

    assert_eq!(
        bytes,
        vec![
            8, 255, 255, 255, 255, 255, 255, 255, 255, 255, 1, 18, 2, 0xc3, 0xa9, 24, 0xac, 2
        ]
    );
    assert_eq!(decode_error_detail(&bytes), Some(detail));
}

#[test]
fn fields_that_nobody_knows_are_skipped() {
    let mut bytes = encode_error_detail(&ErrorDetail {
        code: 5,
        message: "x".into(),
        current_epoch: 0,
        current_route_version: 0,
        redirect_endpoint: String::new(),
        action_blocker: 0,
        next_step: 0,
    });
    // Field 15 as a varint, as eight bytes, as four bytes, as a string and as a group.
    bytes.extend_from_slice(&[120, 1]);
    bytes.extend_from_slice(&[121, 1, 2, 3, 4, 5, 6, 7, 8]);
    bytes.extend_from_slice(&[125, 1, 2, 3, 4]);
    bytes.extend_from_slice(&[122, 2, 1, 1]);
    bytes.extend_from_slice(&[123, 8, 1, 124]);

    assert_eq!(decode_error_detail(&bytes).unwrap().code, 5);
    assert_eq!(decode_error_detail(&[8]), None);
    assert_eq!(decode_error_detail(&[18, 5, 1]), None);
    assert_eq!(decode_error_detail(&[18, 1, 0xff]), None);
    assert_eq!(decode_error_detail(&[124]), None);
}

fn with_length(key: u8, content: &[u8]) -> Vec<u8> {
    let mut bytes = vec![key];
    let mut length = content.len();
    while length >= 128 {
        bytes.push((length % 128) as u8 | 128);
        length /= 128;
    }
    bytes.push(length as u8);
    bytes.extend_from_slice(content);
    bytes
}

/// Groups of field 15, each but the first inside another one.
fn nested_groups(depth: usize) -> Vec<u8> {
    [vec![123; depth], vec![124; depth]].concat()
}

#[test]
fn groups_are_skipped_up_to_the_depth_that_is_allowed() {
    let detail = ErrorDetail {
        code: 5,
        message: "x".into(),
        current_epoch: 0,
        current_route_version: 0,
        redirect_endpoint: String::new(),
        action_blocker: 0,
        next_step: 0,
    };
    let encoded = encode_error_detail(&detail);
    let status = |in_status: usize, in_typed: usize| {
        let typed = [
            with_length(10, ERROR_DETAIL_TYPE_URL.as_bytes()),
            with_length(18, &encoded),
            nested_groups(in_typed),
        ]
        .concat();
        [with_length(26, &typed), nested_groups(in_status)].concat()
    };

    let known = Some(5);
    let code = |bytes: Vec<u8>| decode_error_detail_from_status_details(&bytes).map(|d| d.code);
    assert_eq!(code(status(0, 0)), known);
    assert_eq!(code(status(100, 99)), known);
    assert_eq!(code(status(101, 0)), None);
    assert_eq!(code(status(0, 100)), None);

    let raw = |depth: usize| [encoded.clone(), nested_groups(depth)].concat();
    assert_eq!(decode_error_detail(&raw(100)), Some(detail));
    assert_eq!(decode_error_detail(&raw(101)), None);
}

#[test]
fn the_type_of_a_detail_is_told_by_its_url() {
    assert!(is_error_detail_type_url(ERROR_DETAIL_TYPE_URL));
    assert!(!is_error_detail_type_url("type.googleapis.com/google.rpc.RetryInfo"));
}

fn sample_health_info() -> HealthInfo {
    HealthInfo {
        generator_count: 1,
        timeline_count: 1,
        worker_id: "worker-a".into(),
        instance_id: "instance-a".into(),
        advertise_endpoint: "worker-a:50051".into(),
    }
}

#[test]
fn health_status_handle_emits_ownership_drift_reason() {
    let mut handle = HealthStatusHandle::serving(&sample_health_info());

    handle.mark_ownership_drift();

    assert_eq!(
        handle.readiness_state(),
        ProtoWorkerReadinessState::Degraded
    );
    assert_eq!(
        handle.readiness_reason(),
        ProtoWorkerReadinessReason::OwnershipDrift
    );

    handle.clear_ownership_drift();

    assert_eq!(handle.readiness_state(), ProtoWorkerReadinessState::Ready);
    assert_eq!(
        handle.readiness_reason(),
        ProtoWorkerReadinessReason::Serving
    );
}

#[test]
fn a_cleared_drift_does_not_hide_another_trouble() {
    let mut handle = HealthStatusHandle::serving(&sample_health_info());
    assert!(handle.identity_lease_healthy());

    handle.mark_identity_lease_lost();
    handle.clear_ownership_drift();
    assert_eq!(
        handle.readiness_reason(),
        ProtoWorkerReadinessReason::IdentityLeaseLost
    );
    assert!(!handle.identity_lease_healthy());

    handle.mark_shutting_down();
    assert_eq!(
        handle.readiness_reason(),
        ProtoWorkerReadinessReason::ShuttingDown
    );
    assert_eq!(handle.snapshot().identity.worker_id, "worker-a");
}

#[test]
fn status_with_error_detail_encodes_expected_payload() {
    let status = status_with_error_detail(
        StatusCode::FailedPrecondition,
        TsoError::NotTimelineOwner {
            owner_worker_endpoint: "worker-b:50051".into(),
        },
    );
    let detail = decode_error_detail(&status.details).expect("error detail should decode");

    assert_eq!(status.code, StatusCode::FailedPrecondition);
    assert_eq!(detail.code, ErrorCode::NotTimelineOwner.number());
    assert_eq!(detail.redirect_endpoint, "worker-b:50051");
}

#[test]
fn invalid_argument_status_with_detail_uses_structured_payload() {
    let status = invalid_argument_status_with_detail("page_token is malformed");
    let detail = decode_error_detail(&status.details).expect("error detail should decode");

    assert_eq!(status.code, StatusCode::InvalidArgument);
    assert_eq!(detail.code, ErrorCode::InvalidArgument.number());
    assert_eq!(detail.message, "page_token is malformed");
}

#[test]
fn timeline_not_ready_public_mapping_follows_lifecycle_contract() {
    for state in [
        TimelineLifecycleState::Creating,
        TimelineLifecycleState::Draining,
        TimelineLifecycleState::Locked,
    ] {
        let mapping = timeline_not_ready_public_mapping(state);
        assert_eq!(mapping.grpc_code, StatusCode::Unavailable);
        assert_eq!(mapping.detail_code, ErrorCode::TemporarilyUnavailable);
    }
}

#[test]
fn failover_error_detail_maps_operator_blocker_and_next_step() {
    let cases = [
        (
            TsoError::FailoverRequiresExpiredLease {
                timeline_key: "timeline-a".into(),
                lease_expire_at_ms: 42,
            },
            OperatorActionBlocker::LeaseNotExpired,
            OperatorActionNextStep::WaitForLeaseExpiry,
        ),
        (
            TsoError::FailoverMissingRecoveryFloor {
                timeline_key: "timeline-b".into(),
                generator_id: 7,
            },
            OperatorActionBlocker::RecoveryFloorMissing,
            OperatorActionNextStep::PersistRecoveryFloor,
        ),
    ];

    for (error, blocker, next_step) in cases {
        let status = map_tso_error(error);
        let detail = decode_error_detail(&status.details).expect("error detail should decode");
        assert_eq!(status.code, StatusCode::FailedPrecondition);
        assert_eq!(detail.code, ErrorCode::TemporarilyUnavailable.number());
        assert_eq!(detail.action_blocker, blocker.number());
        assert_eq!(detail.next_step, next_step.number());
    }
}

#[test]
fn public_error_mapping_table_stays_stable_for_key_variants() {
    let cases = [
        (
            TsoError::TimelineNotFound {
                timeline_key: "timeline-a".into(),
            },
            StatusCode::NotFound,
            ErrorCode::TimelineNotFound,
        ),
        (
            TsoError::LeaseExpired {
                timeline_key: "timeline-a".into(),
            },
            StatusCode::Unavailable,
            ErrorCode::LeaseExpired,
        ),
        (
            TsoError::TimelineIngressSaturated {
                timeline_key: "timeline-a".into(),
                max_lanes: 4,
            },
            StatusCode::Unavailable,
            ErrorCode::TemporarilyUnavailable,
        ),
        (
            TsoError::TimelineRuntimeCacheSaturated {
                timeline_key: "timeline-a".into(),
                max_entries: 1,
            },
            StatusCode::Unavailable,
            ErrorCode::TemporarilyUnavailable,
        ),
        (
            TsoError::NotGeneratorOwner {
                generator_id: 7,
                owner_worker_endpoint: "worker-b:50051".into(),
            },
            StatusCode::FailedPrecondition,
            ErrorCode::NotTimelineOwner,
        ),
        (
            TsoError::FutureBorrowExceeded {
                requested_physical_ms: 42,
                allowed_physical_ms: 41,
            },
            StatusCode::ResourceExhausted,
            ErrorCode::RateLimited,
        ),
        (
            TsoError::MetadataAlreadyExists,
            StatusCode::AlreadyExists,
            ErrorCode::Internal,
        ),
        (
            TsoError::RequestCancelled,
            StatusCode::DeadlineExceeded,
            ErrorCode::TemporarilyUnavailable,
        ),
        (
            TsoError::InstanceIdentityInUse {
                instance_id: "instance-a".into(),
            },
            StatusCode::AlreadyExists,
            ErrorCode::TemporarilyUnavailable,
        ),
    ];

    for (error, expected_grpc_code, expected_detail_code) in cases {
        let status = map_tso_error(error);
        let detail = decode_error_detail(&status.details).expect("error detail should decode");
        assert_eq!(status.code, expected_grpc_code);
        assert_eq!(detail.code, expected_detail_code.number());
    }
}

#[test]
fn a_reported_error_keeps_its_words_and_its_route_version() {
    let status = map_tso_error(TsoError::RouteVersionMismatch { expected: 3, actual: 9 });
    let detail = decode_error_detail_from_status_details(&status.details).unwrap();

    assert_eq!(detail.current_route_version, 9);
    assert_eq!(detail.message, status.message);
}

fn warm_route() -> TimelineRoute {
    TimelineRoute {
        timeline_key: "timeline-a".into(),
        generator_id: 7,
        owner_worker_endpoint: "worker-a:50051".into(),
        epoch: 4,
        route_version: 9,
        resource_tier: ResourceTier::Warm,
    }
}

#[test]
fn route_event_keeps_route_fields_and_cache_ttl() {
    let event = build_route_event(warm_route(), 54_321);

    let TimelineRouteEvent::Route(route) = event else {
        panic!("expected route event");
    };
    assert_eq!(
        route,
        ProtoTimelineRoute {
            timeline_key: "timeline-a".into(),
            generator_id: 7,
            owner_worker_endpoint: "worker-a:50051".into(),
            epoch: 4,
            route_version: 9,
            resource_tier: ProtoResourceTier::Warm.number(),
            cache_ttl_ms: 54_321,
        }
    );
}

#[test]
fn keepalive_event_keeps_supplied_server_time() {
    let event = build_keepalive_event(ServerTime {
        seconds: 12,
        nanos: 34,
    });

    let TimelineRouteEvent::Keepalive { server_time } = event else {
        panic!("expected keepalive event");
    };
    assert_eq!(server_time.seconds, 12);
    assert_eq!(server_time.nanos, 34);
}

fn two_ranges() -> Vec<TimestampRange> {
    vec![
        TimestampRange {
            start_tso: 10,
            end_tso: 19,
        },
        TimestampRange {
            start_tso: 20,
            end_tso: 29,
        },
    ]
}

#[test]
fn timestamp_ranges_keep_start_and_end_bounds() {
    let ranges = build_timestamp_ranges(two_ranges());

    assert_eq!(ranges.len(), 2);
    assert_eq!(ranges[0].start_tso, 10);
    assert_eq!(ranges[0].end_tso, 19);
    assert_eq!(ranges[1].start_tso, 20);
    assert_eq!(ranges[1].end_tso, 29);
}

#[test]
fn decode_resource_tier_rejects_invalid_values() {
    assert!(decode_resource_tier(-1).is_err());
    assert!(decode_resource_tier(ProtoResourceTier::Unspecified.number()).is_err());
    assert_eq!(
        decode_resource_tier(ProtoResourceTier::Warm.number()).unwrap(),
        ResourceTier::Warm
    );
    assert_eq!(
        decode_resource_tier(ProtoResourceTier::Dedicated.number()).unwrap(),
        ResourceTier::Dedicated
    );
}

#[test]
fn an_allocation_is_answered_under_the_key_that_was_asked_for() {
    let allocated = AllocateTimestampsResponse {
        timeline_key: "canonical".into(),
        generator_id: 7,
        epoch: 2,
        route_version: 3,
        ranges: two_ranges(),
    };
    let response = allocate_timestamps_response("asked".into(), Ok(allocated)).unwrap();
    assert_eq!(response.timeline_key, "asked");
    assert_eq!(response.generator_id, 7);
    assert_eq!(response.epoch, 2);
    assert_eq!(response.route_version, 3);
    assert_eq!(response.ranges.len(), 2);

    let status = allocate_timestamps_response("asked".into(), Err(TimelineProxyError::TimedOut))
        .unwrap_err();
    assert_eq!(status.code, StatusCode::DeadlineExceeded);
}

#[test]
fn proto_timestamp_ranges_keep_start_and_end_bounds() {
    let ranges = proto_timestamp_ranges(two_ranges());

    assert_eq!(ranges.len(), 2);
    assert_eq!(ranges[0].start_tso, 10);
    assert_eq!(ranges[0].end_tso, 19);
    assert_eq!(ranges[1].start_tso, 20);
    assert_eq!(ranges[1].end_tso, 29);
}

#[test]
fn route_requests_are_answered_with_a_route_or_a_status() {
    assert_eq!(
        timeline_route_response(Ok(warm_route()), 30).unwrap().cache_ttl_ms,
        30
    );
    let refused = timeline_route_response(
        Err(TsoError::TimelineNotFound { timeline_key: "timeline-a".into() }),
        30,
    )
    .unwrap_err();
    assert_eq!(refused.code, StatusCode::NotFound);

    assert_eq!(
        ensure_timeline_tier(ProtoResourceTier::Shared.number()).unwrap(),
        ResourceTier::Shared
    );
    assert_eq!(ensure_timeline_tier(99).unwrap_err().code, StatusCode::InvalidArgument);
}

#[test]
fn current_timestamp_before_unix_epoch_records_recovery_metric() {
    let (timestamp, recovery) = current_timestamp_from(None);

    assert_eq!(timestamp.seconds, 0);
    assert_eq!(timestamp.nanos, 0);
    assert_eq!(recovery, Some(RecoveryReason::SystemTimeBeforeUnixEpoch));
}

#[test]
fn health_response_maps_worker_identity_and_readiness() {
    let response = health_response(
        WorkerStatusSnapshot {
            identity: WorkerStatusIdentity {
                worker_id: "worker-a".into(),
                instance_id: "instance-a".into(),
                advertise_endpoint: "worker-a:50051".into(),
            },
            readiness_state: WorkerReadinessState::Degraded,
            readiness_reason: WorkerReadinessReason::IdentityLeaseLost,
            identity_lease_healthy: false,
        },
        ServerTime {
            seconds: 12,
            nanos: 0,
        },
        BuildInfo {
            build_version: "1.2.3".into(),
            build_commit: "abcdef".into(),
            mixed_version_contract_id: "contract-1".into(),
        },
    );

    assert_eq!(response.service, "chronos");
    assert_eq!(response.instance_id, "instance-a");
    assert_eq!(response.worker_id, "worker-a");
    assert_eq!(response.advertise_endpoint, "worker-a:50051");
    assert_eq!(
        response.readiness_state,
        ProtoWorkerReadinessState::Degraded.number()
    );
    assert_eq!(
        response.readiness_reason,
        ProtoWorkerReadinessReason::IdentityLeaseLost.number()
    );
    assert!(!response.identity_lease_healthy);
    assert_eq!(response.server_time.seconds, 12);
    assert_eq!(response.build_version, "1.2.3");
    assert_eq!(response.build_commit, "abcdef");
    assert_eq!(response.mixed_version_contract_id, "contract-1");
}

fn recovering_status() -> TimelineStatusSnapshot {
    TimelineStatusSnapshot {
        route: warm_route(),
        state: TimelineLifecycleState::Recovering,
        recovery_floor_tso: Some(42),
        issued_upper_bound: Some(88),
        last_graceful_issued: Some(77),
        lease_expire_at_ms: Some(100),
        owner_instance_id: Some("instance-a".into()),
        updated_at_ms: 12,
        failover_readiness: TimelineFailoverReadiness::Eligible,
    }
}

#[test]
fn timeline_status_responses_keep_route_ttl_and_failover_mapping() {
    let point_read = get_timeline_status_response(recovering_status(), 0);
    let list = list_timeline_statuses_response(vec![recovering_status()], "next".into(), 0);

    let mapped = point_read.status;
    assert_eq!(mapped.route.timeline_key, "timeline-a");
    assert_eq!(mapped.route.cache_ttl_ms, 0);
    assert_eq!(mapped.state, ProtoTimelineState::Recovering.number());
    assert_eq!(
        mapped.failover_readiness,
        ProtoTimelineFailoverReadiness::Eligible.number()
    );
    assert_eq!(list.statuses.len(), 1);
    assert_eq!(list.next_page_token, "next");
}

fn transfer_request(target_worker_id: Option<&str>, reason: i32) -> TransferTimelineRequest {
    TransferTimelineRequest {
        timeline_key: "timeline-a".into(),
        target_generator_id: Some(7),
        target_worker_id: target_worker_id.map(str::to_owned),
        reason,
    }
}

#[test]
fn normalize_transfer_request_defaults_target_owner_and_manual_reason() {
    let normalized =
        normalize_transfer_request("worker-a:50051", transfer_request(None, 4)).unwrap();

    assert_eq!(normalized.timeline_key, "timeline-a");
    assert_eq!(normalized.target_owner_endpoint, "worker-a:50051");
    assert_eq!(normalized.target_generator_id, Some(7));
    assert_eq!(normalized.reason, TransferReason::Manual);
}

#[test]
fn normalize_transfer_request_rejects_blank_target_owner_endpoint() {
    let error =
        normalize_transfer_request("worker-a:50051", transfer_request(Some("   "), 4)).unwrap_err();

    assert!(matches!(error, TsoError::InvalidTargetOwnerEndpoint));
}

#[test]
fn normalize_transfer_request_rejects_invalid_transfer_reason() {
    let error =
        normalize_transfer_request("worker-a:50051", transfer_request(None, 0)).unwrap_err();

    assert!(matches!(
        error,
        TsoError::InvalidTransferReason { value: 0 }
    ));
}

#[test]
fn transfer_response_keeps_route_epoch_and_state_surface() {
    let response = build_transfer_timeline_response(
        TimelineRoute {
            timeline_key: "timeline-a".into(),
            generator_id: 9,
            owner_worker_endpoint: "worker-b:50051".into(),
            epoch: 4,
            route_version: 12,
            resource_tier: ResourceTier::Warm,
        },
        7,
        TimelineLifecycleState::Draining,
    );

    assert_eq!(response.timeline_key, "timeline-a");
    assert_eq!(response.old_generator_id, 7);
    assert_eq!(response.new_generator_id, 9);
    assert_eq!(response.new_epoch, 4);
    assert_eq!(response.route_version, 12);
    assert_eq!(response.state, ProtoTimelineState::Draining.number());
}

#[test]
fn timeline_proxy_timeout_maps_to_deadline_exceeded_status() {
    let status = map_timeline_proxy_error(TimelineProxyError::TimedOut);

    assert_eq!(status.code, StatusCode::DeadlineExceeded);
    assert_eq!(status.message, "AllocateTimestamps timed out");
}

#[test]
fn timeline_proxy_tso_variant_preserves_public_error_detail_mapping() {
    let status = map_timeline_proxy_error(TimelineProxyError::Tso(TsoError::TimelineNotFound {
        timeline_key: "timeline-a".into(),
    }));

    let detail = decode_error_detail_from_status_details(&status.details)
        .expect("error detail should decode");

    assert_eq!(status.code, StatusCode::NotFound);
    assert_eq!(detail.code, ErrorCode::TimelineNotFound.number());
}

#[test]
fn lease_warning_limiter_reports_suppressed_count_per_window() {
    let mut limiter = WarningRateLimitState::default();
    let started_at: u64 = 5_000;

    assert_eq!(limiter.take_suppressed_at(started_at), Some(0));
    assert_eq!(limiter.take_suppressed_at(started_at + 1_000), None);
    assert_eq!(
        limiter.take_suppressed_at(started_at + LEASE_WARNING_INTERVAL_MS),
        Some(1)
    );
}

#[test]
fn only_protection_errors_are_traced() {
    let expired = TsoError::LeaseExpired { timeline_key: "timeline-a".into() };
    assert_eq!(protection_event(&expired), Some(ProtectionEvent::TimelineLeaseExpired));
    assert!(ProtectionEvent::TimelineLeaseExpired.is_rate_limited());
    assert!(!ProtectionEvent::ClockBackwards.is_rate_limited());
    assert_eq!(protection_event(&TsoError::CasFailed), None);
}

#[test]
fn normalize_list_request_dedups_states_and_applies_default_page_size() {
    let request = normalize_timeline_status_list_request(
        ListTimelineStatusesRequest {
            states: vec![
                ProtoTimelineState::Recovering.number(),
                ProtoTimelineState::Draining.number(),
                ProtoTimelineState::Recovering.number(),
            ],
            owner_worker_endpoint: Some("worker-a:50051".into()),
            page_size: 0,
            page_token: String::new(),
        },
        None,
    )
    .expect("request should normalize");

    assert_eq!(
        request.states,
        vec![
            TimelineLifecycleState::Draining,
            TimelineLifecycleState::Recovering,
        ]
    );
    assert_eq!(
        request.state_codes,
        vec![
            ProtoTimelineState::Draining.number(),
            ProtoTimelineState::Recovering.number(),
        ]
    );
    assert_eq!(request.page_size, DEFAULT_TIMELINE_STATUS_PAGE_SIZE);
    assert_eq!(
        request.owner_worker_endpoint.as_deref(),
        Some("worker-a:50051")
    );
}

#[test]
fn normalize_list_request_rejects_filter_mismatched_page_token() {
    let token = TimelineStatusPageToken {
        version: 1,
        states: vec![ProtoTimelineState::Active.number()],
        owner_worker_endpoint: Some("worker-a:50051".into()),
        last_timeline_key: "timeline-a".into(),
    };

    let error = normalize_timeline_status_list_request(
        ListTimelineStatusesRequest {
            states: vec![ProtoTimelineState::Active.number()],
            owner_worker_endpoint: Some("worker-b:50051".into()),
            page_size: 1,
            page_token: "{\"version\":1}".into(),
        },
        Some(token),
    )
    .expect_err("request should be rejected");

    assert_eq!(error.code, StatusCode::InvalidArgument);
    assert_eq!(
        error.message,
        "page_token is stale or does not match the current filter shape"
    );
}

#[test]
fn list_timeline_statuses_rejects_unspecified_state_filter() {
    let error = normalize_timeline_status_list_request(
        ListTimelineStatusesRequest {
            states: vec![ProtoTimelineState::Unspecified.number()],
            owner_worker_endpoint: None,
            page_size: 0,
            page_token: String::new(),
        },
        None,
    )
    .unwrap_err();

    assert_eq!(error.code, StatusCode::InvalidArgument);
    assert_eq!(
        error.message,
        "states must not contain TIMELINE_STATE_UNSPECIFIED"
    );
}

#[test]
fn list_timeline_statuses_rejects_filter_mismatched_page_token() {
    let token = TimelineStatusPageToken {
        version: 1,
        states: vec![ProtoTimelineState::Active.number()],
        owner_worker_endpoint: Some("worker-a:50051".into()),
        last_timeline_key: "timeline-a".into(),
    };
    let page_token = format!("{token:?}");

    let error = normalize_timeline_status_list_request(
        ListTimelineStatusesRequest {
            states: vec![ProtoTimelineState::Active.number()],
            owner_worker_endpoint: Some("worker-b:50051".into()),
            page_size: 1,
            page_token,
        },
        Some(token),
    )
    .unwrap_err();

    assert_eq!(error.code, StatusCode::InvalidArgument);
}

#[test]
fn an_issued_token_continues_the_same_listing() {
    let token = timeline_status_page_token(
        vec![ProtoTimelineState::Active.number()],
        None,
        "timeline-k".into(),
    );
    let request = normalize_timeline_status_list_request(
        ListTimelineStatusesRequest {
            states: vec![
                ProtoTimelineState::Active.number(),
                ProtoTimelineState::Active.number(),
            ],
            owner_worker_endpoint: None,
            page_size: 100_000,
            page_token: "token".into(),
        },
        Some(token),
    )
    .unwrap();

    assert_eq!(request.start_after_timeline_key.as_deref(), Some("timeline-k"));
    assert_eq!(request.page_size, MAX_TIMELINE_STATUS_PAGE_SIZE);
}

#[test]
fn list_requests_with_unknown_states_or_malformed_tokens_are_refused() {
    let unspecified = normalize_timeline_status_list_request(
        ListTimelineStatusesRequest {
            states: vec![ProtoTimelineState::Unspecified.number()],
            owner_worker_endpoint: None,
            page_size: 0,
            page_token: String::new(),
        },
        None,
    )
    .unwrap_err();
    assert_eq!(unspecified.code, StatusCode::InvalidArgument);

    let malformed = normalize_timeline_status_list_request(
        ListTimelineStatusesRequest {
            states: Vec::new(),
            owner_worker_endpoint: None,
            page_size: 0,
            page_token: "not a token".into(),
        },
        None,
    )
    .unwrap_err();
    assert_eq!(malformed.code, StatusCode::InvalidArgument);
}

#[test]
fn keepalive_is_dropped_when_watch_queue_is_full() {
    let (keep_running, dropped) = keepalive_effect(KeepaliveOutcome::Full);

    assert!(keep_running);
    assert!(dropped);
}

#[test]
fn keepalive_success_does_not_increment_drop_metric() {
    let (keep_running, dropped) = keepalive_effect(KeepaliveOutcome::Delivered);

    assert!(keep_running);
    assert!(!dropped);
}

#[test]
fn keepalive_returns_false_when_watch_queue_is_closed() {
    assert!(!keepalive_effect(KeepaliveOutcome::Closed).0);
}

#[test]
fn route_event_send_times_out_when_watch_queue_is_full() {
    let (delivered, status) = route_send_effect(SendOutcome::TimedOut);

    assert!(!delivered);
    let status = status.expect("the client is told");
    assert_eq!(status.code, StatusCode::ResourceExhausted);
    assert!(status.message.contains("backpressure"));
    assert_eq!(route_send_effect(SendOutcome::Delivered), (true, None));
    assert_eq!(route_send_effect(SendOutcome::Closed), (false, None));
}

#[test]
fn watch_resync_gate_coalesces_lagged_signals_until_completion() {
    let now: u64 = 1_000;
    let mut gate = WatchResyncGate::new(now);

    let first = gate.lagged(now);
    let second = gate.lagged(now + 50);

    assert!(gate.is_pending());
    assert!(matches!(first, WatchResyncLagEffect::Scheduled(when) if when == now));
    assert!(matches!(
        second,
        WatchResyncLagEffect::Coalesced(when) if when == now + 50
    ));

    gate.complete(now + 50);
    assert!(!gate.is_pending());

    let scheduled = gate.lagged(now + 100);
    assert!(matches!(
        scheduled,
        WatchResyncLagEffect::Scheduled(when) if when == now + 250
    ));
}

#[test]
fn watch_resync_metrics_distinguish_scheduled_from_coalesced() {
    let now: u64 = 1_000;
    let mut gate = WatchResyncGate::new(now);
    let first = gate.lagged(now);
    let second = gate.lagged(now + 10);

    assert!(matches!(first, WatchResyncLagEffect::Scheduled(_)));
    assert!(matches!(second, WatchResyncLagEffect::Coalesced(_)));
}

#[test]
fn normalize_allocate_request_preserves_rpc_fields_and_timeout() {
    let (request, timeout_ms) =
        normalize_allocate_timestamps_request(ProtoAllocateTimestampsRequest {
            timeline_key: "timeline-a".into(),
            count: 8,
            expected_epoch: 4,
            expected_route_version: 12,
            client_request_id: "req-1".into(),
            request_timeout_ms: 150,
        });

    assert_eq!(request.timeline_key, "timeline-a");
    assert_eq!(request.count, 8);
    assert_eq!(request.expected_epoch, 4);
    assert_eq!(request.expected_route_version, 12);
    assert_eq!(request.client_request_id, "req-1");
    assert_eq!(timeout_ms, 150);
}

#[test]
fn allocate_response_keeps_epoch_route_version_and_ranges() {
    let response = build_allocate_timestamps_response(AllocateTimestampsResponse {
        timeline_key: "timeline-a".into(),
        generator_id: 7,
        epoch: 4,
        route_version: 12,
        ranges: vec![
            TimestampRange {
                start_tso: 100,
                end_tso: 109,
            },
            TimestampRange {
                start_tso: 110,
                end_tso: 119,
            },
        ],
    });

    assert_eq!(response.timeline_key, "timeline-a");
    assert_eq!(response.generator_id, 7);
    assert_eq!(response.epoch, 4);
    assert_eq!(response.route_version, 12);
    assert_eq!(response.ranges.len(), 2);
    assert_eq!(response.ranges[0].start_tso, 100);
    assert_eq!(response.ranges[0].end_tso, 109);
    assert_eq!(response.ranges[1].start_tso, 110);
    assert_eq!(response.ranges[1].end_tso, 119);
}

fn watch(timeline_keys: Vec<String>, known: Vec<(String, u64)>) -> WatchCompletenessTracker {
    WatchCompletenessTracker::new(WatchTimelineRoutesRequest {
        timeline_keys,
        known_route_versions: known,
        sdk_instance_id: "sdk-filtered".into(),
    })
}

fn shared_route(timeline_key: &str, route_version: u64) -> TimelineRoute {
    TimelineRoute {
        timeline_key: timeline_key.into(),
        generator_id: 1,
        owner_worker_endpoint: "worker-a:50051".into(),
        epoch: 1,
        route_version,
        resource_tier: ResourceTier::Shared,
    }
}

#[test]
fn filtered_watch_discards_request_external_known_versions() {
    let tracker = watch(
        vec!["timeline-a".into()],
        vec![("timeline-a".into(), 3), ("timeline-b".into(), 9)],
    );

    assert_eq!(tracker.delivered_versions.len(), 1);
    assert_eq!(tracker.delivered_versions.get("timeline-a"), Some(&3));
    assert!(!tracker.delivered_versions.contains_key("timeline-b"));
}

#[test]
fn live_route_acceptance_respects_scope_and_monotonic_versions() {
    let mut tracker = watch(vec!["timeline-a".into()], vec![("timeline-a".into(), 3)]);

    assert!(!tracker.accept_live_route(&shared_route("timeline-b", 1)));
    assert!(!tracker.accept_live_route(&shared_route("timeline-a", 3)));
    assert!(tracker.accept_live_route(&shared_route("timeline-a", 4)));
}

fn listed(routes: Vec<TimelineRoute>, next: Option<&str>) -> TimelineStatusListPage {
    TimelineStatusListPage {
        statuses: routes
            .into_iter()
            .map(|route| TimelineStatusSnapshot { route, ..recovering_status() })
            .collect(),
        next_start_after: next.map(str::to_owned),
    }
}

fn snapshot_of_all(
    tracker: &mut WatchCompletenessTracker,
    mut pages: Vec<TimelineStatusListPage>,
) -> Vec<TimelineRoute> {
    let mut load = tracker.begin_snapshot();
    loop {
        match tracker.snapshot_step(&load) {
            SnapshotStep::ListPage { .. } => {
                tracker.take_status_page(&mut load, Ok(pages.remove(0))).unwrap();
            }
            SnapshotStep::Complete => return load.routes,
            step => panic!("{step:?}"),
        }
    }
}

#[test]
fn watch_all_snapshot_reads_authoritative_inventory() {
    let mut tracker = watch(Vec::new(), Vec::new());

    let routes = snapshot_of_all(
        &mut tracker,
        vec![
            listed(vec![shared_route("watch.all.snapshot.alpha", 1)], Some("watch.all.snapshot.alpha")),
            listed(vec![shared_route("watch.all.snapshot.beta", 1)], None),
        ],
    );

    let timeline_keys: Vec<_> = routes.into_iter().map(|route| route.timeline_key).collect();
    assert_eq!(
        timeline_keys,
        vec!["watch.all.snapshot.alpha", "watch.all.snapshot.beta"]
    );
}

#[test]
fn watch_all_resync_discovers_timelines_outside_known_versions() {
    let mut tracker = watch(Vec::new(), vec![("watch.all.resync.known".into(), 1)]);

    let initial_routes = snapshot_of_all(
        &mut tracker,
        vec![listed(vec![shared_route("watch.all.resync.known", 1)], None)],
    );
    assert!(
        initial_routes.is_empty(),
        "known-version watch-all snapshot should not replay unchanged routes"
    );

    let routes = snapshot_of_all(
        &mut tracker,
        vec![listed(
            vec![
                shared_route("watch.all.resync.known", 1),
                shared_route("watch.all.resync.late", 1),
            ],
            None,
        )],
    );

    assert_eq!(routes.len(), 1);
    assert_eq!(routes[0].timeline_key, "watch.all.resync.late");
    assert_eq!(routes[0].route_version, 1);
}

#[test]
fn a_filtered_snapshot_passes_over_missing_timelines() {
    let mut tracker = watch(vec!["timeline-a".into(), "timeline-b".into()], Vec::new());
    let mut load = tracker.begin_snapshot();
    let mut asked = Vec::new();
    while let SnapshotStep::LoadRoute { timeline_key } = tracker.snapshot_step(&load) {
        let answer = if timeline_key == "timeline-a" {
            Err(TsoError::TimelineNotFound { timeline_key: timeline_key.clone() })
        } else {
            Ok(shared_route(&timeline_key, 5))
        };
        asked.push(timeline_key);
        tracker.take_loaded_route(&mut load, answer).unwrap();
    }
    asked.sort();

    assert_eq!(asked, vec!["timeline-a", "timeline-b"]);
    assert_eq!(load.routes, vec![shared_route("timeline-b", 5)]);

    let mut failing = tracker.begin_snapshot();
    let status = tracker
        .take_loaded_route(&mut failing, Err(TsoError::CasFailed))
        .unwrap_err();
    assert_ne!(status.code, StatusCode::NotFound);
}

#[test]
fn a_watch_session_sends_what_is_owed_and_reads_again_when_it_missed_something() {
    let mut session = WatchSession::new(watch(Vec::new(), Vec::new()), 1_000, 25);

    match session.on_event(WatchEvent::RouteChanged { route: shared_route("timeline-a", 2) }) {
        WatchAction::SendRoutes { events } => assert_eq!(
            events,
            vec![build_route_event(shared_route("timeline-a", 2), 25)]
        ),
        _ => panic!("a newer route is owed"),
    }
    assert!(matches!(
        session.on_event(WatchEvent::RouteChanged { route: shared_route("timeline-a", 2) }),
        WatchAction::Wait
    ));
    assert!(matches!(session.on_event(WatchEvent::ResyncDue), WatchAction::Wait));
    assert!(matches!(
        session.on_event(WatchEvent::Missed { now_ms: 1_010, reason: ResyncReason::WatchLagged }),
        WatchAction::WaitForResync { due_at_ms: 1_010, coalesced: false, .. }
    ));
    assert!(matches!(session.on_event(WatchEvent::ResyncDue), WatchAction::LoadSnapshot));
    assert!(matches!(
        session.on_event(WatchEvent::ResyncSent { now_ms: 1_020 }),
        WatchAction::ResyncDone
    ));
    assert!(matches!(session.on_event(WatchEvent::SourceClosed), WatchAction::Stop));
}
