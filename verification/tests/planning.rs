use chronos::error::TsoError;
use chronos::metadata::types::{GeneratorRecord, TimelineRecord};
use chronos::model::{ResourceTier, TimelineLifecycleState, TimelineRoute, TransferReason};
use chronos::planning::{
    generator_recovery_floor_tso, pick_owned_generator, pick_owned_generator_by_hash,
    recovered_timeline_floor_tso, resource_tier_for_generator_id, safe_floor_for_transfer_reason,
    should_release_claimed_dedicated_generator,
    should_release_previous_dedicated_generator_after_route_change,
};
use chronos::process_runtime::{configured_worker_threads, parse_number};
use chronos::recovery::{duration_since_unix_epoch_or_zero, RecoveryReason, SinceEpoch};
use chronos::tso::MAX_GENERATORS;

#[test]
fn safe_floor_prefers_previous_floor_for_failover() {
    assert_eq!(
        safe_floor_for_transfer_reason(TransferReason::Failover, Some(10), Some(20)),
        Some(20)
    );
}

#[test]
fn safe_floor_uses_max_for_non_failover_transfers() {
    assert_eq!(
        safe_floor_for_transfer_reason(TransferReason::Manual, Some(10), Some(20)),
        Some(20)
    );
}

#[test]
fn safe_floor_preserves_single_available_floor() {
    assert_eq!(
        safe_floor_for_transfer_reason(TransferReason::Rebalance, None, Some(20)),
        Some(20)
    );
    assert_eq!(
        safe_floor_for_transfer_reason(TransferReason::Hotspot, Some(10), None),
        Some(10)
    );
}

#[test]
fn generator_recovery_floor_prefers_upper_bound_max() {
    let record = GeneratorRecord {
        schema_version: 1,
        generator_id: 7,
        owner_worker_endpoint: "worker".into(),
        owner_instance_id: "instance".into(),
        generator_lease_token: 1,
        lease_expire_at_ms: Some(10),
        last_issued_tso: Some(100),
        issued_upper_bound: Some(200),
        updated_at_ms: 20,
    };
    assert_eq!(generator_recovery_floor_tso(&record), Some(200));
}

#[test]
fn recovered_timeline_floor_prefers_max_of_graceful_and_recovery() {
    let record = TimelineRecord {
        schema_version: 1,
        route: TimelineRoute {
            timeline_key: "t".into(),
            generator_id: 7,
            epoch: 1,
            route_version: 1,
            resource_tier: ResourceTier::Shared,
            owner_worker_endpoint: "worker".into(),
        },
        state: TimelineLifecycleState::Active,
        recovery_floor_tso: Some(200),
        issued_upper_bound: None,
        last_graceful_issued: Some(100),
        lease_expire_at_ms: None,
        updated_at_ms: 20,
    };
    assert_eq!(recovered_timeline_floor_tso(&record), Some(200));
}

#[test]
fn a_failover_ignores_what_the_old_owner_says_it_issued() {
    assert_eq!(
        safe_floor_for_transfer_reason(TransferReason::Failover, Some(30), Some(20)),
        Some(20)
    );
    assert_eq!(
        safe_floor_for_transfer_reason(TransferReason::Failover, Some(30), None),
        None
    );
    assert_eq!(
        safe_floor_for_transfer_reason(TransferReason::Manual, None, None),
        None
    );
}

#[test]
fn tiers_follow_the_order_of_the_generators() {
    assert_eq!(resource_tier_for_generator_id(3, 4, 2), Ok(ResourceTier::Shared));
    assert_eq!(resource_tier_for_generator_id(4, 4, 2), Ok(ResourceTier::Warm));
    assert_eq!(resource_tier_for_generator_id(6, 4, 2), Ok(ResourceTier::Dedicated));
    assert_eq!(
        resource_tier_for_generator_id(MAX_GENERATORS, 4, 2),
        Err(TsoError::GeneratorIdOutOfRange { generator_id: MAX_GENERATORS })
    );
}

#[test]
fn a_hash_picks_among_the_owned_generators() {
    assert_eq!(pick_owned_generator(0, 10, 6, |id| id % 2 == 0), Ok(10));
    assert_eq!(pick_owned_generator(4, 10, 6, |id| id % 2 == 0), Ok(12));
    assert_eq!(
        pick_owned_generator(4, 10, 0, |_| true),
        Err(TsoError::GeneratorPoolExhausted)
    );
    assert_eq!(
        pick_owned_generator(4, 10, 6, |_| false),
        Err(TsoError::GeneratorPoolExhausted)
    );
}

#[test]
fn a_timeline_always_hashes_to_the_same_generator() {
    let first = pick_owned_generator_by_hash("timeline-a", 100, 50, |id| id >= 120).unwrap();
    let again = pick_owned_generator_by_hash("timeline-a", 100, 50, |id| id >= 120).unwrap();

    assert_eq!(first, again);
    assert!((120..150).contains(&first));

    let picked: std::collections::HashSet<u32> = (0..64)
        .map(|i| {
            pick_owned_generator_by_hash(&format!("timeline-{i}"), 0, 1000, |_| true).unwrap()
        })
        .collect();
    assert!(picked.len() > 1, "different timelines hash differently");
}

#[test]
fn dedicated_generators_are_released_unless_they_stay_in_use() {
    assert!(should_release_claimed_dedicated_generator(true, ResourceTier::Shared, 6, 6));
    assert!(should_release_claimed_dedicated_generator(true, ResourceTier::Dedicated, 5, 6));
    assert!(!should_release_claimed_dedicated_generator(true, ResourceTier::Dedicated, 6, 6));
    assert!(!should_release_claimed_dedicated_generator(false, ResourceTier::Shared, 5, 6));

    assert!(should_release_previous_dedicated_generator_after_route_change(
        ResourceTier::Dedicated,
        6,
        ResourceTier::Shared,
        6
    ));
    assert!(!should_release_previous_dedicated_generator_after_route_change(
        ResourceTier::Dedicated,
        6,
        ResourceTier::Dedicated,
        6
    ));
    assert!(!should_release_previous_dedicated_generator_after_route_change(
        ResourceTier::Warm,
        6,
        ResourceTier::Dedicated,
        7
    ));
}

#[test]
fn configured_worker_threads_accepts_positive_value() {
    assert_eq!(
        configured_worker_threads("CHRONOS_TEST_RUNTIME_WORKER_THREADS_ACCEPTS", Some("2"))
            .unwrap(),
        Some(2)
    );
}

#[test]
fn configured_worker_threads_treats_empty_as_default() {
    assert_eq!(
        configured_worker_threads("CHRONOS_TEST_RUNTIME_WORKER_THREADS_EMPTY", Some(" ")).unwrap(),
        None
    );
}

#[test]
fn configured_worker_threads_rejects_zero() {
    assert!(
        configured_worker_threads("CHRONOS_TEST_RUNTIME_WORKER_THREADS_ZERO", Some("0")).is_err()
    );
}

#[test]
fn worker_threads_are_read_as_integers_are() {
    assert_eq!(configured_worker_threads("THREADS", None), Ok(None));
    assert_eq!(configured_worker_threads("THREADS", Some(" +8\n")), Ok(Some(8)));
    assert_eq!(
        configured_worker_threads("THREADS", Some(" many ")),
        Err("THREADS must be a positive integer when set, got: many".to_string())
    );
    for text in ["", "+", "-1", "1.5", "0x10", "007", "18446744073709551615", "18446744073709551616"]
    {
        assert_eq!(parse_number(text), text.parse::<usize>().ok(), "{text}");
    }
}

#[test]
fn a_clock_before_the_epoch_counts_as_the_epoch() {
    let elapsed = SinceEpoch { seconds: 7, nanos: 999_999_999 };
    assert_eq!(duration_since_unix_epoch_or_zero(Some(elapsed)), (elapsed, None));
    assert_eq!(
        duration_since_unix_epoch_or_zero(None),
        (
            SinceEpoch { seconds: 0, nanos: 0 },
            Some(RecoveryReason::SystemTimeBeforeUnixEpoch)
        )
    );
    assert_eq!(
        RecoveryReason::SystemTimeBeforeUnixEpoch.as_str(),
        "system_time_before_unix_epoch"
    );
}
