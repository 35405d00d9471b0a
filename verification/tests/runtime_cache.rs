use std::cell::Cell;
use std::collections::{HashMap, HashSet};
use std::rc::Rc;

use chronos::error::TsoError;
use chronos::runtime::cache_eviction::TimelineCacheStore;
use chronos::runtime::generator_lease::{GeneratorLeaseState, GeneratorRuntimeState};
use chronos::runtime::timeline_facade::TimelineRuntimeState;

/// A cache together with the handles that it gives out. A timeline is busy while anyone but the
/// cache holds its handle.
struct Runtime {
    cache: TimelineCacheStore,
    held: HashMap<u64, Rc<u64>>,
    next: Cell<u64>,
}

impl Runtime {
    fn new(max_entries: usize) -> Self {
        Runtime {
            cache: TimelineCacheStore::new(max_entries),
            held: HashMap::new(),
            next: Cell::new(1),
        }
    }

    fn test_timeline(&self) -> Rc<u64> {
        let id = self.next.get();
        self.next.set(id + 1);
        Rc::new(id)
    }

    fn busy(&self) -> HashSet<u64> {
        self.held
            .iter()
            .filter(|(_, handle)| Rc::strong_count(handle) > 1)
            .map(|(id, _)| *id)
            .collect()
    }

    fn insert_timeline(&mut self, key: String, timeline: Rc<u64>) -> Result<(), TsoError> {
        let busy = self.busy();
        let id = *timeline;
        let result = self.cache.insert_timeline(key, id, &busy);
        if result.is_ok() {
            self.held.insert(id, timeline);
        }
        result
    }

    fn insert_new(&mut self, key: &str) -> Result<(), TsoError> {
        let timeline = self.test_timeline();
        self.insert_timeline(key.to_string(), timeline)
    }

    fn timeline_handle(&mut self, key: &str) -> Option<Rc<u64>> {
        self.cache.timeline_handle(key).map(|id| self.held[&id].clone())
    }

    fn timeline_count(&self) -> usize {
        self.cache.timeline_count()
    }
}

#[test]
fn runtime_cache_rejects_when_full_and_only_busy_entry_exists() {
    let mut runtime = Runtime::new(1);
    let first = runtime.test_timeline();
    runtime
        .insert_timeline("runtime-saturated.a".to_string(), first.clone())
        .unwrap();

    let result = runtime.insert_new("runtime-saturated.b");
    match result {
        Err(TsoError::TimelineRuntimeCacheSaturated {
            timeline_key,
            max_entries,
        }) => {
            assert_eq!(timeline_key, "runtime-saturated.b");
            assert_eq!(max_entries, 1);
        }
        other => panic!("unexpected runtime cache result: {:?}", other),
    }

    assert_eq!(runtime.timeline_count(), 1);
    drop(first);
}

#[test]
fn runtime_cache_records_evicted_idle_metric() {
    let mut runtime = Runtime::new(1);
    runtime.insert_new("runtime-evict.a").unwrap();
    runtime.insert_new("runtime-evict.b").unwrap();

    assert_eq!(runtime.timeline_count(), 1);
    assert!(runtime.timeline_handle("runtime-evict.a").is_none());
}

#[test]
fn runtime_cache_retries_eviction_after_requeueing_updated_access_tick() {
    let mut runtime = Runtime::new(1);
    runtime.insert_new("runtime-requeue-updated.a").unwrap();

    let handle = runtime
        .timeline_handle("runtime-requeue-updated.a")
        .expect("existing timeline should be present");
    drop(handle);

    runtime.insert_new("runtime-requeue-updated.b").unwrap();

    assert!(runtime
        .timeline_handle("runtime-requeue-updated.a")
        .is_none());
    assert!(runtime
        .timeline_handle("runtime-requeue-updated.b")
        .is_some());
    assert_eq!(runtime.timeline_count(), 1);
}

#[test]
fn runtime_cache_does_not_build_when_saturated() {
    let mut runtime = Runtime::new(1);
    let first = runtime.test_timeline();
    runtime
        .insert_timeline("runtime-no-build.a".to_string(), first.clone())
        .unwrap();

    let built = Cell::new(false);
    let busy = runtime.busy();
    let result = runtime.cache.timeline_handle_or_insert_with(
        "runtime-no-build.b",
        || {
            built.set(true);
            99
        },
        &busy,
    );

    assert!(matches!(
        result,
        Err(TsoError::TimelineRuntimeCacheSaturated {
            timeline_key,
            max_entries: 1,
        }) if timeline_key == "runtime-no-build.b"
    ));
    assert!(!built.get());
    drop(first);
}

#[test]
fn runtime_cache_evicts_oldest_idle_candidate_without_full_scan() {
    let mut runtime = Runtime::new(2);
    runtime.insert_new("runtime-oldest.a").unwrap();
    runtime.insert_new("runtime-oldest.b").unwrap();

    let handle_b = runtime.timeline_handle("runtime-oldest.b").unwrap();
    drop(handle_b);

    runtime.insert_new("runtime-oldest.c").unwrap();

    assert!(runtime.timeline_handle("runtime-oldest.a").is_none());
    assert!(runtime.timeline_handle("runtime-oldest.b").is_some());
    assert!(runtime.timeline_handle("runtime-oldest.c").is_some());
    assert_eq!(runtime.timeline_count(), 2);
}

#[test]
fn a_full_cache_trades_an_idle_timeline_for_a_new_one() {
    let mut runtime = Runtime::new(3);
    for key in ["a", "b", "c"] {
        runtime.insert_new(key).unwrap();
    }
    let a = runtime.timeline_handle("a").unwrap();
    let b = runtime.timeline_handle("b").unwrap();

    runtime.insert_new("d").unwrap();
    assert!(runtime.timeline_handle("c").is_none());
    assert_eq!(runtime.timeline_count(), 3);
    assert_eq!(runtime.cache.eviction_candidates.len(), 3);

    let d = runtime.timeline_handle("d").unwrap();
    assert!(runtime.insert_new("e").is_err());
    assert_eq!(runtime.timeline_count(), 3);
    assert_eq!(runtime.cache.eviction_candidates.len(), 3);

    drop((a, d));
    runtime.insert_new("e").unwrap();
    assert!(runtime.timeline_handle("a").is_none());
    assert!(runtime.timeline_handle("b").is_some());
    drop(b);
    runtime.cache.clear();
    assert_eq!(runtime.cache.eviction_candidates.len(), 0);
}

#[test]
fn runtime_cache_requeues_busy_candidate_until_it_becomes_idle() {
    let mut runtime = Runtime::new(1);
    let first = runtime.test_timeline();
    runtime
        .insert_timeline("runtime-requeue.a".to_string(), first.clone())
        .unwrap();

    let result = runtime.insert_new("runtime-requeue.b");
    assert!(matches!(
        result,
        Err(TsoError::TimelineRuntimeCacheSaturated {
            timeline_key,
            max_entries: 1,
        }) if timeline_key == "runtime-requeue.b"
    ));

    drop(first);

    runtime.insert_new("runtime-requeue.b").unwrap();

    assert!(runtime.timeline_handle("runtime-requeue.a").is_none());
    assert!(runtime.timeline_handle("runtime-requeue.b").is_some());
}

#[test]
fn runtime_cache_hits_do_not_unboundedly_grow_eviction_candidates() {
    let mut runtime = Runtime::new(1);
    runtime.insert_new("runtime-heap.a").unwrap();

    for _ in 0..32 {
        let handle = runtime.timeline_handle("runtime-heap.a").unwrap();
        drop(handle);
    }

    assert_eq!(runtime.cache.eviction_candidates.len(), 1);
}

#[test]
fn runtime_cache_remove_and_reinsert_does_not_accumulate_stale_candidates() {
    let mut runtime = Runtime::new(1);

    for _ in 0..24 {
        runtime.insert_new("runtime-churn.a").unwrap();
        runtime.cache.remove_timeline("runtime-churn.a");
    }

    assert!(runtime.cache.eviction_candidates.len() <= 16);
    runtime.cache.maybe_compact_eviction_candidates();
    assert_eq!(runtime.cache.eviction_candidates.len(), 0);
}

#[test]
fn runtime_cache_evicts_idle_candidate_beyond_busy_batch_window() {
    let mut runtime = Runtime::new(33);
    let mut busy = Vec::new();

    for index in 0..32 {
        let key = format!("runtime-busy-{index}");
        let timeline = runtime.test_timeline();
        runtime.insert_timeline(key, timeline.clone()).unwrap();
        busy.push(timeline);
    }

    runtime.insert_new("runtime-idle-tail").unwrap();
    runtime.insert_new("runtime-new-tail").unwrap();

    assert!(runtime.timeline_handle("runtime-idle-tail").is_none());
    assert!(runtime.timeline_handle("runtime-new-tail").is_some());
    assert_eq!(runtime.timeline_count(), 33);

    drop(busy);
}

#[test]
fn runtime_cache_evicts_idle_candidate_beyond_sixty_four_busy_candidates() {
    let mut runtime = Runtime::new(97);
    let mut busy = Vec::new();

    for index in 0..96 {
        let key = format!("runtime-busy-wide-{index}");
        let timeline = runtime.test_timeline();
        runtime.insert_timeline(key, timeline.clone()).unwrap();
        busy.push(timeline);
    }

    runtime.insert_new("runtime-idle-wide-tail").unwrap();
    runtime.insert_new("runtime-new-wide-tail").unwrap();

    assert!(runtime.timeline_handle("runtime-idle-wide-tail").is_none());
    assert!(runtime.timeline_handle("runtime-new-wide-tail").is_some());
    assert_eq!(runtime.timeline_count(), 97);

    drop(busy);
}

#[test]
fn runtime_cache_reinsert_skips_stale_generation_candidates() {
    let mut runtime = Runtime::new(1);
    runtime.insert_new("runtime-generation.a").unwrap();
    runtime.cache.remove_timeline("runtime-generation.a");
    runtime.insert_new("runtime-generation.a").unwrap();

    let result = runtime.insert_new("runtime-generation.b");

    assert!(result.is_ok());
    assert!(runtime.timeline_handle("runtime-generation.a").is_none());
    assert!(runtime.timeline_handle("runtime-generation.b").is_some());
}

#[test]
fn timeline_runtime_facade_delegates_cache_surface() {
    let mut runtime = TimelineRuntimeState::new(2);
    let nobody = HashSet::new();
    let timeline: u64 = 41;

    runtime
        .insert_timeline("runtime.facade.timeline".to_owned(), timeline, &nobody)
        .expect("insert should succeed");

    assert_eq!(runtime.timeline_count(), 1);
    assert!(runtime.timeline_handle("runtime.facade.timeline").is_some());

    runtime.remove_timeline("runtime.facade.timeline");
    assert_eq!(runtime.timeline_count(), 0);

    let rebuilt = runtime
        .timeline_handle_or_insert_with("runtime.facade.timeline", || timeline, &nobody)
        .expect("reinsert through facade should succeed");
    assert_eq!(rebuilt, timeline);

    runtime.clear();
    assert_eq!(runtime.timeline_count(), 0);
}

#[test]
fn lease_validation_requires_matching_owner_and_unexpired_time() {
    let mut runtime = GeneratorRuntimeState::new(2);
    runtime.upsert_lease(
        1,
        GeneratorLeaseState {
            revision: 7,
            owner_instance_id: "worker-a".to_owned(),
            generator_lease_token: 11,
            lease_expire_at_ms: 500,
            last_persisted_tso: Some(99),
            issued_upper_bound: Some(123),
        },
    );

    assert!(runtime.lease_valid_for_owner(1, "worker-a", 499));
    assert_eq!(
        runtime.valid_lease_upper_bound_for_owner(1, "worker-a", 499),
        Some(123)
    );
    assert!(!runtime.lease_valid_for_owner(1, "worker-b", 499));
    assert_eq!(
        runtime.valid_lease_upper_bound_for_owner(1, "worker-b", 499),
        None
    );
    assert!(!runtime.lease_valid_for_owner(1, "worker-a", 500));
    assert_eq!(
        runtime.valid_lease_upper_bound_for_owner(1, "worker-a", 500),
        None
    );

    assert_eq!(runtime.lease_keys(), vec![1]);
    runtime.remove_lease(1);
    assert!(runtime.lease_state(1).is_none());
    assert_eq!(runtime.generator_count(), 2);
}

#[test]
fn dedicated_claims_stay_single_home_until_matching_release() {
    let mut runtime = GeneratorRuntimeState::new(8);

    assert_eq!(runtime.claimed_generator_for_timeline("timeline-a"), None);
    assert!(runtime.claim_dedicated(6, "timeline-a").unwrap());
    assert_eq!(
        runtime.claimed_generator_for_timeline("timeline-a"),
        Some(6)
    );
    assert!(!runtime.claim_dedicated(6, "timeline-a").unwrap());
    assert_eq!(
        runtime.claim_dedicated(6, "timeline-b"),
        Err(TsoError::GeneratorPoolExhausted)
    );

    runtime.release_dedicated(6, "timeline-b");
    assert_eq!(
        runtime.claimed_generator_for_timeline("timeline-a"),
        Some(6)
    );

    runtime.release_dedicated(6, "timeline-a");
    assert_eq!(runtime.claimed_generator_for_timeline("timeline-a"), None);
}

#[test]
fn cleared_leases_and_claims_are_gone() {
    let mut runtime = GeneratorRuntimeState::new(2);
    runtime.upsert_lease(
        0,
        GeneratorLeaseState {
            revision: 1,
            owner_instance_id: "worker-a".to_owned(),
            generator_lease_token: 1,
            lease_expire_at_ms: 10,
            last_persisted_tso: None,
            issued_upper_bound: None,
        },
    );
    runtime.claim_dedicated(1, "timeline-a").unwrap();

    runtime.clear_leases();
    runtime.clear_dedicated_claims();

    assert!(runtime.lease_keys().is_empty());
    assert_eq!(runtime.claimed_generator_for_timeline("timeline-a"), None);
}
