use chronos::error::TsoError;
use chronos::metadata::ownership::{OwnershipPlanMember, OwnershipPlanRecord};
use chronos::metadata::types::{
    timeline_route_changed, timeline_route_update_from_routes, AllocationRequestFingerprint,
    AllocationResponseRecord, RequestRecord, RequestRecordState, TimelineFilterRecord,
    TimelineRecord, TimelineRouteRecord, CURRENT_METADATA_SCHEMA_VERSION,
};
use chronos::model::{ResourceTier, TimelineLifecycleState, TimelineRoute, TimestampRange};

fn sample_route(generator_id: u32, route_version: u64) -> TimelineRoute {
    TimelineRoute {
        timeline_key: "timeline-a".into(),
        generator_id,
        epoch: 1,
        route_version,
        resource_tier: ResourceTier::Shared,
        owner_worker_endpoint: "worker-a:50051".into(),
    }
}

fn sample_record(route: TimelineRoute) -> TimelineRecord {
    TimelineRecord {
        schema_version: 1,
        route,
        state: TimelineLifecycleState::Active,
        recovery_floor_tso: None,
        issued_upper_bound: Some(10),
        last_graceful_issued: Some(9),
        lease_expire_at_ms: Some(100),
        updated_at_ms: 1,
    }
}

fn plan_member(remainder: u32, worker_id: &str, endpoint: &str) -> OwnershipPlanMember {
    OwnershipPlanMember {
        remainder,
        worker_id: worker_id.into(),
        advertise_endpoint: endpoint.into(),
    }
}

#[test]
fn ownership_plan_accepts_unique_members_and_rejects_mixed_modulo() {
    let mut plan = OwnershipPlanRecord::new(
        "plan-a".into(),
        2,
        plan_member(0, "worker-a", "worker-a:50051"),
        1,
    );

    assert_eq!(
        plan.admit_member("plan-a", 2, plan_member(1, "worker-b", "worker-b:50051"), 2),
        Ok(true)
    );
    assert_eq!(
        plan.admit_member("plan-a", 2, plan_member(1, "worker-b", "worker-b:50051"), 3),
        Ok(false)
    );
    assert!(matches!(
        plan.admit_member("plan-a", 4, plan_member(2, "worker-c", "worker-c:50051"), 4),
        Err(TsoError::Internal(_))
    ));
}

#[test]
fn ownership_plan_rejects_duplicate_remainder_and_allows_multi_shard_worker() {
    let mut plan = OwnershipPlanRecord::new(
        "plan-a".into(),
        3,
        plan_member(0, "worker-a", "worker-a:50051"),
        1,
    );

    assert!(matches!(
        plan.admit_member("plan-a", 3, plan_member(0, "worker-b", "worker-b:50051"), 2),
        Err(TsoError::Internal(_))
    ));
    assert!(plan
        .admit_member("plan-a", 3, plan_member(1, "worker-a", "worker-a:50051"), 2)
        .expect("same worker should be allowed to own multiple remainders"));
    assert_eq!(plan.members.len(), 2);
}

#[test]
fn ownership_plan_prunes_inactive_members_before_replacement() {
    let mut plan = OwnershipPlanRecord::new(
        "plan-a".into(),
        2,
        plan_member(0, "worker-a", "worker-a:50051"),
        1,
    );
    let active_members = vec![("worker-b".to_string(), "worker-b:50051".to_string())];

    let pruned = plan
        .prune_inactive_members(&active_members, 2)
        .expect("inactive ownership member should prune");
    assert_eq!(pruned, 1);
    assert!(plan.members.is_empty());
    assert_eq!(plan.updated_at_ms, 2);

    assert!(plan
        .admit_member("plan-a", 2, plan_member(0, "worker-b", "worker-b:50051"), 3)
        .expect("replacement member should be admitted after stale member pruning"));
}

#[test]
fn ownership_plan_can_change_identity_only_after_all_old_members_are_inactive() {
    let mut plan = OwnershipPlanRecord::new(
        "plan-a".into(),
        2,
        plan_member(0, "worker-a", "worker-a:50051"),
        1,
    );
    assert!(!plan.replace_if_empty("plan-b", 4, 2).unwrap());

    plan.prune_inactive_members(&Vec::new(), 3).unwrap();
    assert!(plan.replace_if_empty("plan-b", 4, 4).unwrap());
    assert_eq!(plan.plan_id, "plan-b");
    assert_eq!(plan.modulo, 4);
    assert!(plan.members.is_empty());
}

#[test]
fn an_ownership_plan_without_a_modulo_is_refused() {
    let plan = OwnershipPlanRecord::new(
        "plan-a".into(),
        0,
        plan_member(0, "worker-a", "worker-a:50051"),
        1,
    );

    assert_eq!(
        plan.validate_integrity(),
        Err(TsoError::Internal(
            "ownership plan metadata modulo must be greater than 0".into()
        ))
    );
}

#[test]
fn timeline_route_update_from_routes_returns_none_for_same_route() {
    let route = sample_route(7, 1);

    assert_eq!(
        timeline_route_update_from_routes(Some(&route), &route),
        None
    );
}

#[test]
fn timeline_route_update_from_routes_returns_next_route_for_changes() {
    let previous = sample_route(7, 1);
    let next = sample_route(8, 2);

    assert_eq!(
        timeline_route_update_from_routes(Some(&previous), &next),
        Some(next)
    );
}

#[test]
fn timeline_route_update_from_routes_treats_unknown_previous_as_changed() {
    let next = sample_route(7, 1);

    assert_eq!(timeline_route_update_from_routes(None, &next), Some(next));
}

#[test]
fn timeline_route_changed_still_tracks_record_routes() {
    let previous = sample_record(sample_route(7, 1));
    let next = sample_record(sample_route(8, 2));

    assert!(timeline_route_changed(Some(&previous), &next));
    assert!(!timeline_route_changed(Some(&next), &next));
}

#[test]
fn timeline_record_rejects_unknown_schema_version() {
    let mut record = sample_record(sample_route(7, 1));
    record.schema_version = CURRENT_METADATA_SCHEMA_VERSION + 1;

    assert!(matches!(
        record.validate_schema_version(),
        Err(TsoError::Internal(_))
    ));
}

#[test]
fn timeline_filter_record_rejects_unknown_schema_version() {
    let mut record = TimelineFilterRecord {
        schema_version: CURRENT_METADATA_SCHEMA_VERSION.saturating_sub(1),
        route: sample_route(7, 1),
        state: TimelineLifecycleState::Active,
    };

    assert!(matches!(
        record.validate_schema_version(),
        Err(TsoError::Internal(_))
    ));

    record.schema_version = CURRENT_METADATA_SCHEMA_VERSION;
    assert!(record.validate_schema_version().is_ok());

    record.schema_version = CURRENT_METADATA_SCHEMA_VERSION + 1;
    assert!(record.validate_schema_version().is_ok());
}

#[test]
fn timeline_route_record_accepts_newer_schema_version() {
    let record = TimelineRouteRecord {
        schema_version: CURRENT_METADATA_SCHEMA_VERSION + 1,
        route: sample_route(7, 1),
    };

    assert!(record.validate_schema_version().is_ok());
}

#[test]
fn timeline_route_record_rejects_older_schema_version() {
    let record = TimelineRouteRecord {
        schema_version: CURRENT_METADATA_SCHEMA_VERSION.saturating_sub(1),
        route: sample_route(7, 1),
    };

    assert!(matches!(
        record.validate_schema_version(),
        Err(TsoError::Internal(_))
    ));
}

fn request_record(
    state: RequestRecordState,
    response: Option<AllocationResponseRecord>,
) -> RequestRecord {
    RequestRecord {
        schema_version: CURRENT_METADATA_SCHEMA_VERSION,
        fingerprint: AllocationRequestFingerprint {
            timeline_key: "timeline-a".into(),
            count: 2,
        },
        state,
        response,
        updated_at_ms: 5,
    }
}

fn stored_response(timeline_key: &str) -> AllocationResponseRecord {
    AllocationResponseRecord {
        timeline_key: timeline_key.into(),
        generator_id: 7,
        epoch: 3,
        route_version: 4,
        ranges: vec![TimestampRange { start_tso: 10, end_tso: 11 }],
    }
}

#[test]
fn a_completed_request_answers_its_own_timeline_only() {
    assert_eq!(
        request_record(RequestRecordState::Pending, None).completed_response("timeline-a"),
        Ok(None)
    );

    let answer = request_record(
        RequestRecordState::Completed,
        Some(stored_response("timeline-a")),
    )
    .completed_response("timeline-a")
    .unwrap()
    .expect("a completed request has an answer");
    assert_eq!(answer.generator_id, 7);
    assert_eq!(answer.ranges, vec![TimestampRange { start_tso: 10, end_tso: 11 }]);

    assert_eq!(
        request_record(
            RequestRecordState::Completed,
            Some(stored_response("timeline-b"))
        )
        .completed_response("timeline-a"),
        Err(TsoError::Internal(
            "request response timeline mismatch: stored=timeline-b requested=timeline-a".into()
        ))
    );
    assert_eq!(
        request_record(RequestRecordState::Completed, None).completed_response("timeline-a"),
        Err(TsoError::Internal(
            "completed request record missing response for timeline timeline-a".into()
        ))
    );
}
