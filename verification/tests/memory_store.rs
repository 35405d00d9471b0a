use chronos::error::TsoError;
use chronos::metadata::authority::{
    filters_of_page, owner_endpoint_matches, page_of_timelines, route_of_timeline,
    timeline_limit_check, FilterScanStep, OwnedTimeline, OwnerEndpoint, SocketAddress,
    StatusFilterScan,
};
use chronos::metadata::memory::MemoryMetadataStore;
use chronos::metadata::types::{
    AllocationRequestFingerprint, AllocationResponseRecord, GeneratorBatchOp, GeneratorRecord,
    RequestRecord, RequestRecordState, RouteUpdateSignal, TimelineBatchOp, TimelineRecord,
    TimelineRecordListPage, CURRENT_METADATA_SCHEMA_VERSION,
};
use chronos::model::{ResourceTier, TimelineLifecycleState, TimelineRoute, TimestampRange};

fn sample_record(timeline_key: &str, generator_id: u32) -> TimelineRecord {
    TimelineRecord {
        schema_version: 1,
        route: TimelineRoute {
            timeline_key: timeline_key.to_string(),
            generator_id,
            owner_worker_endpoint: "worker-a:50051".into(),
            epoch: 1,
            route_version: 1,
            resource_tier: ResourceTier::Shared,
        },
        state: TimelineLifecycleState::Active,
        recovery_floor_tso: None,
        issued_upper_bound: Some(10),
        last_graceful_issued: Some(9),
        lease_expire_at_ms: Some(100),
        updated_at_ms: 1,
    }
}

fn sample_generator(generator_id: u32) -> GeneratorRecord {
    GeneratorRecord {
        schema_version: 1,
        generator_id,
        owner_worker_endpoint: "worker-a:50051".into(),
        owner_instance_id: "instance-a".into(),
        generator_lease_token: 1,
        lease_expire_at_ms: Some(100),
        last_issued_tso: Some(99),
        issued_upper_bound: Some(111),
        updated_at_ms: 12,
    }
}

fn sample_request_record(state: RequestRecordState, updated_at_ms: u64) -> RequestRecord {
    RequestRecord {
        schema_version: 1,
        fingerprint: AllocationRequestFingerprint {
            timeline_key: "timeline".into(),
            count: 1,
        },
        state,
        response: None,
        updated_at_ms,
    }
}

fn completed_record(tso: u64, updated_at_ms: u64) -> RequestRecord {
    RequestRecord {
        response: Some(AllocationResponseRecord {
            timeline_key: "timeline".into(),
            generator_id: 1,
            epoch: 1,
            route_version: 1,
            ranges: vec![TimestampRange {
                start_tso: tso,
                end_tso: tso,
            }],
        }),
        ..sample_request_record(RequestRecordState::Completed, updated_at_ms)
    }
}

#[test]
fn prune_completed_request_records_removes_only_old_completed_records() {
    let mut store = MemoryMetadataStore::new();
    store
        .create_request_record("timeline", "old", &completed_record(10, 100))
        .unwrap();
    store
        .create_request_record("timeline", "fresh", &completed_record(11, 300))
        .unwrap();
    store
        .create_request_record(
            "timeline",
            "pending",
            &sample_request_record(RequestRecordState::Pending, 50),
        )
        .unwrap();

    assert_eq!(store.prune_completed_request_records(200, 10).unwrap(), 1);
    assert!(store
        .load_request_record("timeline", "old")
        .unwrap()
        .is_none());
    assert!(store
        .load_request_record("timeline", "fresh")
        .unwrap()
        .is_some());
    assert!(store
        .load_request_record("timeline", "pending")
        .unwrap()
        .is_some());
}

#[test]
fn request_cleanup_index_tracks_completed_record_updates() {
    let mut store = MemoryMetadataStore::new();
    let pending = sample_request_record(RequestRecordState::Pending, 100);
    let completed = completed_record(10, 200);
    let fresh_completed = completed_record(10, 300);

    let pending_revision = store
        .create_request_record("timeline", "indexed", &pending)
        .unwrap();
    assert!(store.request_cleanup_index.is_empty());

    let completed_revision = store
        .compare_exchange_request_record("timeline", "indexed", pending_revision, &completed)
        .unwrap();
    assert_eq!(store.request_cleanup_index.len(), 1);

    store
        .compare_exchange_request_record(
            "timeline",
            "indexed",
            completed_revision,
            &fresh_completed,
        )
        .unwrap();
    assert_eq!(store.request_cleanup_index.len(), 1);
    assert_eq!(store.prune_completed_request_records(250, 10).unwrap(), 0);
    assert_eq!(store.prune_completed_request_records(400, 10).unwrap(), 1);
    assert!(store
        .load_request_record("timeline", "indexed")
        .unwrap()
        .is_none());
    assert!(store.request_cleanup_index.is_empty());
}

#[test]
fn prune_completed_request_records_handles_legacy_records_without_cleanup_index() {
    let mut store = MemoryMetadataStore::new();
    store.request_records.insert(
        MemoryMetadataStore::request_key("timeline", "legacy"),
        (completed_record(20, 100), 1),
    );
    assert!(store.request_cleanup_index.is_empty());

    assert_eq!(store.prune_completed_request_records(200, 10).unwrap(), 1);
    assert!(store
        .load_request_record("timeline", "legacy")
        .unwrap()
        .is_none());
}

#[test]
fn pruning_takes_the_oldest_first_and_stops_at_its_limit() {
    let mut store = MemoryMetadataStore::new();
    for (id, age) in [("b", 20), ("c", 30), ("a", 10)] {
        store
            .create_request_record("timeline", id, &completed_record(1, age))
            .unwrap();
    }

    assert_eq!(store.prune_completed_request_records(100, 0).unwrap(), 0);
    assert_eq!(store.prune_completed_request_records(100, 2).unwrap(), 2);
    assert!(store.load_request_record("timeline", "a").unwrap().is_none());
    assert!(store.load_request_record("timeline", "b").unwrap().is_none());
    assert!(store.load_request_record("timeline", "c").unwrap().is_some());
    assert_eq!(store.request_cleanup_index.len(), 1);
}

#[test]
fn a_deleted_request_takes_its_index_entry_along() {
    let mut store = MemoryMetadataStore::new();
    store
        .create_request_record("timeline", "gone", &completed_record(1, 10))
        .unwrap();

    assert_eq!(
        store.compare_delete_request_record("timeline", "gone", 7),
        Err(TsoError::CasFailed)
    );
    store
        .compare_delete_request_record("timeline", "gone", 1)
        .unwrap();
    assert!(store.request_cleanup_index.is_empty());
    assert_eq!(
        store.compare_delete_request_record("timeline", "gone", 1),
        Err(TsoError::TimelineNotFound { timeline_key: "request:timeline:gone".into() })
    );
}

#[test]
fn load_timeline_route_accepts_newer_schema_projection() {
    let store = MemoryMetadataStore::new();
    let mut record = sample_record("timeline-route-future", 1);
    record.schema_version = CURRENT_METADATA_SCHEMA_VERSION + 1;
    store
        .records
        .insert(record.route.timeline_key.clone(), (record, 1));

    let (route_record, revision) = store
        .load_timeline_route("timeline-route-future")
        .unwrap()
        .unwrap();

    assert_eq!(
        route_record.schema_version,
        CURRENT_METADATA_SCHEMA_VERSION + 1
    );
    assert_eq!(route_record.route.timeline_key, "timeline-route-future");
    assert_eq!(revision, 1);
}

#[test]
fn list_timeline_filters_page_accepts_newer_schema_projection() {
    let mut store = MemoryMetadataStore::new();
    let mut record = sample_record("timeline-filter-future", 1);
    record.schema_version = CURRENT_METADATA_SCHEMA_VERSION + 1;
    store
        .records
        .insert(record.route.timeline_key.clone(), (record, 1));

    let page = store.list_timeline_filters_page(None, 10).unwrap();

    assert_eq!(page.records.len(), 1);
    assert_eq!(
        page.records[0].schema_version,
        CURRENT_METADATA_SCHEMA_VERSION + 1
    );
    assert_eq!(page.records[0].route.timeline_key, "timeline-filter-future");
}

#[test]
fn load_timeline_still_rejects_newer_schema_full_record() {
    let store = MemoryMetadataStore::new();
    let mut record = sample_record("timeline-full-future", 1);
    record.schema_version = CURRENT_METADATA_SCHEMA_VERSION + 1;
    store
        .records
        .insert(record.route.timeline_key.clone(), (record, 1));

    assert!(matches!(
        store.load_timeline("timeline-full-future"),
        Err(TsoError::Internal(message)) if message.contains("unsupported timeline metadata schema_version")
    ));
}

fn keys_of(page: &TimelineRecordListPage) -> Vec<&str> {
    page.records
        .iter()
        .map(|record| record.route.timeline_key.as_str())
        .collect()
}

#[test]
fn list_timelines_page_orders_records_and_returns_next_cursor() {
    let mut store = MemoryMetadataStore::new();
    for (timeline_key, generator_id) in [("timeline-c", 3), ("timeline-a", 1), ("timeline-b", 2)] {
        store
            .create_timeline(timeline_key, &sample_record(timeline_key, generator_id))
            .unwrap();
    }

    let page = store.list_timelines_page(None, 2).unwrap();

    assert_eq!(keys_of(&page), vec!["timeline-a", "timeline-b"]);
    assert_eq!(
        page.next_start_after_timeline_key.as_deref(),
        Some("timeline-b")
    );
}

#[test]
fn list_timelines_page_treats_start_after_as_exclusive() {
    let mut store = MemoryMetadataStore::new();
    for (timeline_key, generator_id) in [("timeline-a", 1), ("timeline-b", 2), ("timeline-c", 3)] {
        store
            .create_timeline(timeline_key, &sample_record(timeline_key, generator_id))
            .unwrap();
    }

    let page = store.list_timelines_page(Some("timeline-a"), 2).unwrap();

    assert_eq!(keys_of(&page), vec!["timeline-b", "timeline-c"]);
    assert_eq!(page.next_start_after_timeline_key, None);
}

#[test]
fn a_page_of_no_length_is_empty() {
    let mut store = MemoryMetadataStore::new();
    store.create_timeline("timeline-a", &sample_record("timeline-a", 1)).unwrap();

    let page = store.list_timelines_page(None, 0).unwrap();
    assert!(page.records.is_empty());
    assert_eq!(page.next_start_after_timeline_key, None);
    assert_eq!(store.list_timelines().unwrap().len(), 1);
}

#[test]
fn batch_timeline_cas_serializes_against_single_key_cas_under_contention() {
    let mut store = MemoryMetadataStore::new();
    let rev_a = store
        .create_timeline("timeline-a", &sample_record("timeline-a", 1))
        .unwrap();
    let rev_b = store
        .create_timeline("timeline-b", &sample_record("timeline-b", 2))
        .unwrap();

    let mut next_a = sample_record("timeline-a", 1);
    next_a.lease_expire_at_ms = Some(200);
    let mut next_b = sample_record("timeline-b", 2);
    next_b.lease_expire_at_ms = Some(300);
    let mut conflicting_b = sample_record("timeline-b", 2);
    conflicting_b.lease_expire_at_ms = Some(400);

    let revisions = store
        .compare_exchange_timelines(&[
            TimelineBatchOp {
                timeline_key: "timeline-a".to_string(),
                previous_revision: rev_a,
                record: next_a,
            },
            TimelineBatchOp {
                timeline_key: "timeline-b".to_string(),
                previous_revision: rev_b,
                record: next_b,
            },
        ])
        .unwrap();
    assert_eq!(revisions, vec![rev_a + 1, rev_b + 1]);

    let single_result = store.compare_exchange_timeline("timeline-b", rev_b, &conflicting_b);
    assert!(matches!(single_result, Err(TsoError::CasFailed)));

    let loaded_a = store.load_timeline("timeline-a").unwrap().unwrap().0;
    let loaded_b = store.load_timeline("timeline-b").unwrap().unwrap().0;
    assert_eq!(loaded_a.lease_expire_at_ms, Some(200));
    assert_eq!(loaded_b.lease_expire_at_ms, Some(300));
}

#[test]
fn a_batch_with_one_stale_revision_changes_nothing() {
    let mut store = MemoryMetadataStore::new();
    store.create_timeline("timeline-a", &sample_record("timeline-a", 1)).unwrap();
    store.create_timeline("timeline-b", &sample_record("timeline-b", 2)).unwrap();
    store.take_route_updates();

    let mut next_a = sample_record("timeline-a", 1);
    next_a.route.route_version = 2;
    let result = store.compare_exchange_timelines(&[
        TimelineBatchOp {
            timeline_key: "timeline-a".to_string(),
            previous_revision: 1,
            record: next_a,
        },
        TimelineBatchOp {
            timeline_key: "timeline-b".to_string(),
            previous_revision: 9,
            record: sample_record("timeline-b", 2),
        },
    ]);

    assert!(result.is_err());
    assert_eq!(store.load_timeline("timeline-a").unwrap().unwrap().1, 1);
    assert!(store.take_route_updates().is_empty());
}

/// One of the writes of a generator: its worker, the count of the write, its expiry and its last
/// timestamp.
fn generator_write(
    generator_id: u32,
    worker: &str,
    write: u64,
    expire_at_ms: u64,
    last_issued_tso: u64,
) -> GeneratorRecord {
    GeneratorRecord {
        schema_version: 1,
        generator_id,
        owner_worker_endpoint: format!("{worker}:50051"),
        owner_instance_id: format!("{worker}#{write}"),
        generator_lease_token: write,
        lease_expire_at_ms: Some(expire_at_ms),
        last_issued_tso: Some(last_issued_tso),
        issued_upper_bound: Some(last_issued_tso + 10),
        updated_at_ms: write,
    }
}

#[test]
fn batch_generator_cas_serializes_against_single_key_cas_under_contention() {
    let mut store = MemoryMetadataStore::new();
    let rev_a = store
        .create_generator(1, &generator_write(1, "worker-a", 1, 100, 10))
        .unwrap();
    let rev_b = store
        .create_generator(2, &generator_write(2, "worker-b", 1, 100, 20))
        .unwrap();

    let next_a = generator_write(1, "worker-a", 2, 200, 11);
    let next_b = generator_write(2, "worker-b", 2, 300, 21);
    let conflicting_b = generator_write(2, "worker-b", 3, 400, 22);

    let revisions = store
        .compare_exchange_generators(&[
            GeneratorBatchOp { generator_id: 1, previous_revision: rev_a, record: next_a },
            GeneratorBatchOp { generator_id: 2, previous_revision: rev_b, record: next_b },
        ])
        .unwrap();
    assert_eq!(revisions, vec![rev_a + 1, rev_b + 1]);

    let single_result = store.compare_exchange_generator(2, rev_b, &conflicting_b);
    assert!(matches!(single_result, Err(TsoError::CasFailed)));

    let loaded_a = store.load_generator(1).unwrap().unwrap().0;
    let loaded_b = store.load_generator(2).unwrap().unwrap().0;
    assert_eq!(loaded_a.generator_lease_token, 2);
    assert_eq!(loaded_b.generator_lease_token, 2);
    assert_eq!(loaded_a.lease_expire_at_ms, Some(200));
    assert_eq!(loaded_b.lease_expire_at_ms, Some(300));
}

#[test]
fn generators_are_created_once_and_listed() {
    let mut store = MemoryMetadataStore::new();
    assert_eq!(store.create_generator(7, &sample_generator(7)), Ok(1));
    assert_eq!(
        store.create_generator(7, &sample_generator(7)),
        Err(TsoError::MetadataAlreadyExists)
    );
    assert_eq!(
        store.compare_exchange_generator(8, 1, &sample_generator(8)),
        Err(TsoError::TimelineNotFound { timeline_key: "generator:8".into() })
    );

    let loaded = store.load_generators(&[7, 8, 7]).unwrap();
    assert_eq!(loaded.len(), 2);
    assert!(loaded[&7].is_some());
    assert!(loaded[&8].is_none());
    assert_eq!(store.scan_generators().unwrap().len(), 1);
}

#[test]
fn writes_publish_the_routes_that_changed() {
    let mut store = MemoryMetadataStore::new();
    store.create_timeline("timeline-a", &sample_record("timeline-a", 1)).unwrap();
    assert_eq!(
        store.create_timeline("timeline-a", &sample_record("timeline-a", 1)),
        Err(TsoError::MetadataAlreadyExists)
    );

    let mut same_route = sample_record("timeline-a", 1);
    same_route.updated_at_ms = 2;
    assert_eq!(store.compare_exchange_timeline("timeline-a", 1, &same_route), Ok(2));
    let mut moved = sample_record("timeline-a", 5);
    moved.route.route_version = 2;
    assert_eq!(store.compare_exchange_timeline("timeline-a", 2, &moved), Ok(3));
    assert_eq!(
        store.compare_exchange_timeline("timeline-z", 1, &moved),
        Err(TsoError::TimelineNotFound { timeline_key: "timeline-z".into() })
    );

    let updates = store.take_route_updates();
    assert_eq!(updates.len(), 2);
    assert!(matches!(&updates[1], RouteUpdateSignal::Route(route) if route.generator_id == 5));
}

#[test]
fn sorted_keys_follow_new_timelines() {
    let mut store = MemoryMetadataStore::new();
    assert!(store.sorted_timeline_keys().is_empty());
    store.create_timeline("timeline-b", &sample_record("timeline-b", 1)).unwrap();
    assert_eq!(store.sorted_timeline_keys(), vec!["timeline-b"]);
    store.create_timeline("timeline-a", &sample_record("timeline-a", 1)).unwrap();
    assert_eq!(store.sorted_timeline_keys(), vec!["timeline-a", "timeline-b"]);
}

#[test]
fn endpoints_are_compared_as_texts_and_as_addresses() {
    let local = Some(SocketAddress::V4 { ip: 0x7f00_0001, port: 50051 });
    let other = Some(SocketAddress::V4 { ip: 0x7f00_0001, port: 50052 });

    assert!(owner_endpoint_matches(" Worker-A:50051", None, "worker-a:50051 ", None));
    assert!(!owner_endpoint_matches("worker-a:50051", None, "worker-b:50051", None));
    assert!(owner_endpoint_matches("127.0.0.1:50051", local, "127.0.0.1:050051", local));
    assert!(!owner_endpoint_matches("127.0.0.1:50051", local, "127.0.0.1:50052", other));
    assert!(!owner_endpoint_matches("127.0.0.1:50051", local, "worker-a:50051", None));
}

fn filtered(
    store: &mut MemoryMetadataStore,
    states: Vec<TimelineLifecycleState>,
    owner: Option<&str>,
    start_after: Option<&str>,
    limit: usize,
) -> TimelineRecordListPage {
    let owner = owner.map(|text| OwnerEndpoint { text: text.into(), address: None });
    let Some((mut scan, mut step)) =
        StatusFilterScan::start(states, owner, start_after.map(str::to_owned), limit)
    else {
        return store.list_timelines_page(start_after, limit).unwrap();
    };
    loop {
        match step {
            FilterScanStep::Done { page } => return page,
            FilterScanStep::Page { cursor } => {
                let page = store.list_timelines_page(cursor.as_deref(), limit).unwrap();
                let timelines = page
                    .records
                    .into_iter()
                    .map(|record| OwnedTimeline { record, owner_address: None })
                    .collect();
                step = scan.on_page(timelines, page.next_start_after_timeline_key);
            }
        }
    }
}

#[test]
fn filtered_listings_read_on_until_their_page_is_full() {
    let mut store = MemoryMetadataStore::new();
    for (i, state) in [
        TimelineLifecycleState::Active,
        TimelineLifecycleState::Draining,
        TimelineLifecycleState::Active,
        TimelineLifecycleState::Active,
        TimelineLifecycleState::Draining,
        TimelineLifecycleState::Draining,
    ]
    .into_iter()
    .enumerate()
    {
        let key = format!("timeline-{i}");
        let mut record = sample_record(&key, 1);
        record.state = state;
        store.create_timeline(&key, &record).unwrap();
    }

    let first = filtered(&mut store, vec![TimelineLifecycleState::Draining], None, None, 2);
    assert_eq!(keys_of(&first), vec!["timeline-1", "timeline-4"]);
    assert_eq!(first.next_start_after_timeline_key.as_deref(), Some("timeline-4"));

    let second = filtered(
        &mut store,
        vec![TimelineLifecycleState::Draining],
        Some("WORKER-A:50051"),
        Some("timeline-4"),
        2,
    );
    assert_eq!(keys_of(&second), vec!["timeline-5"]);
    assert_eq!(second.next_start_after_timeline_key, None);

    assert!(filtered(&mut store, Vec::new(), Some("worker-z:1"), None, 3).records.is_empty());
    assert_eq!(filtered(&mut store, Vec::new(), None, None, 3).records.len(), 3);
    assert!(filtered(&mut store, vec![TimelineLifecycleState::Active], None, None, 0)
        .records
        .is_empty());
}

#[test]
fn pages_are_cut_from_all_timelines() {
    let all = || vec![sample_record("c", 1), sample_record("a", 1), sample_record("b", 1)];

    let page = page_of_timelines(all(), Some("a"), 1);
    assert_eq!(keys_of(&page), vec!["b"]);
    assert_eq!(page.next_start_after_timeline_key.as_deref(), Some("b"));
    let filters = filters_of_page(page);
    assert_eq!(filters.records[0].route.timeline_key, "b");
    assert_eq!(filters.next_start_after_timeline_key.as_deref(), Some("b"));
    assert_eq!(keys_of(&page_of_timelines(all(), None, 5)), vec!["a", "b", "c"]);
}

#[test]
fn the_number_of_timelines_is_limited() {
    let mut store = MemoryMetadataStore::new();
    store.create_timeline("timeline-a", &sample_record("timeline-a", 1)).unwrap();

    let page = store.list_timelines_page(None, 2).unwrap();
    assert_eq!(timeline_limit_check(&page, 2), Ok(()));
    let page = store.list_timelines_page(None, 1).unwrap();
    assert_eq!(
        timeline_limit_check(&page, 1),
        Err(TsoError::TimelineLimitReached { max: 1 })
    );
}

#[test]
fn a_route_is_all_that_remains_of_a_timeline() {
    let (route, revision) = route_of_timeline(Ok(Some((sample_record("timeline-a", 4), 6))))
        .unwrap()
        .unwrap();
    assert_eq!(route.route.generator_id, 4);
    assert_eq!(revision, 6);
    assert_eq!(route_of_timeline(Ok(None)), Ok(None));
    assert_eq!(route_of_timeline(Err(TsoError::CasFailed)), Err(TsoError::CasFailed));
}
