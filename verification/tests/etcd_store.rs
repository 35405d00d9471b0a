use std::collections::BTreeMap;

use chronos::error::TsoError;
use chronos::metadata::etcd::admission::{
    AdmissionReply, AdmissionRequest, AdmissionRun, AdmissionStep,
};
use chronos::metadata::etcd::cluster_format::{
    ClusterFormatRun, ClusterRow, FormatReply, FormatStep, LayoutDescription,
};
use chronos::metadata::etcd::generators::{
    compare_exchange_generator_result, compare_exchange_generator_txn,
    compare_exchange_generators_result, compare_exchange_generators_txn, create_generator_result,
    create_generator_txn, BatchGetAnswer, GeneratorLoadStep, GeneratorLoading, GeneratorRow,
    GeneratorScan, GeneratorScanStep, GENERATOR_BATCH_GET_CHUNK_SIZE,
};
use chronos::metadata::etcd::index_rebuild::{
    GateReply, GateStep, RebuildGate, RebuildReply, RebuildRun, RebuildStep, RouteRow,
    CURRENT_STATUS_INDEX_VERSION,
};
use chronos::metadata::etcd::json::{load_generator, load_timeline, Found};
use chronos::metadata::etcd::lease_lock::{
    lease_lock_is_owned, LockEntry, LockReply, LockStep, LockTry,
};
use chronos::metadata::etcd::listing::{
    list_timeline_filters_page, list_timelines, list_timelines_page, merge_state_pages, page_query,
    plan_status_filter, FilterRow, IndexListStep, IndexListing, RangeQuery, StatusFilterPlan,
    TimelineRow,
};
use chronos::metadata::etcd::prune::{IndexRow, PruneReply, PruneRun, PruneStep, RecordRow};
use chronos::metadata::etcd::request_cas::{
    create_request_result, RequestCas, RequestReply, RequestStep,
};
use chronos::metadata::etcd::request_index::{
    compare_delete_request_txn, compare_exchange_request_txn, create_request_txn,
};
use chronos::metadata::etcd::status_index::{
    compare_exchange_timeline_txn, create_timeline_result, create_timeline_txn, Fence,
};
use chronos::metadata::etcd::timeline_batch::{BatchReply, BatchStep, TimelineBatchCas};
use chronos::metadata::etcd::timeline_cas::{CasReply, CasStep, TimelineCas};
use chronos::metadata::etcd::txn::{
    cas_result, create_result, delete_result, Condition, InstanceIdentityLeaseRecord, Operation,
    Payload, RequestRecordCleanupIndexEntry, Transaction, TxnReply,
};
use chronos::metadata::identity::{AcquireReply, AcquireRun, AcquireStep, IdentityEntry};
use chronos::metadata::keys::{
    cluster_format_key, generator_key, instance_identity_key, ownership_plan_key,
    request_cleanup_index_key, request_key, timeline_key, timeline_status_index_marker_key,
    timeline_status_owner_index_key, timeline_status_state_index_key,
};
use chronos::metadata::ownership::{OwnershipPlanMember, OwnershipPlanRecord};
use chronos::metadata::types::{
    AllocationRequestFingerprint, GeneratorBatchOp, GeneratorRecord, RequestRecord,
    RequestRecordState, TimelineBatchOp, TimelineFilterRecord, TimelineRecord,
    CURRENT_CLUSTER_FORMAT_VERSION,
};
use chronos::model::{ResourceTier, TimelineLifecycleState, TimelineRoute};

const PREFIX: &str = "/chronos";

struct Stored {
    value: Payload,
    mod_revision: i64,
    create_revision: i64,
    lease: i64,
}

/// A store that keeps its keys in order and commits one transaction at a time.
struct Store {
    rows: BTreeMap<Vec<u8>, Stored>,
    revision: i64,
}

impl Store {
    fn new() -> Self {
        Store { rows: BTreeMap::new(), revision: 1 }
    }

    fn holds(&self, condition: &Condition) -> bool {
        match condition {
            Condition::ModRevision { key, revision } => {
                self.rows.get(key).map_or(0, |row| row.mod_revision) == *revision
            }
            Condition::CreateRevision { key, revision } => {
                self.rows.get(key).map_or(0, |row| row.create_revision) == *revision
            }
            Condition::Value { key, value } => match self.rows.get(key) {
                Some(Stored { value: Payload::Bytes(bytes), .. }) => bytes == value,
                _ => false,
            },
        }
    }

    fn commit(&mut self, txn: Transaction) -> TxnReply {
        if !txn.conditions.iter().all(|condition| self.holds(condition)) {
            return TxnReply {
                succeeded: false,
                first_put_revision: None,
                header_revision: Some(self.revision),
            };
        }
        self.revision += 1;
        let revision = self.revision;
        let mut first_put_revision = None;
        for (i, operation) in txn.operations.into_iter().enumerate() {
            match operation {
                Operation::Put { key, value, lease } => {
                    if i == 0 {
                        first_put_revision = Some(revision);
                    }
                    let create_revision =
                        self.rows.get(&key).map_or(revision, |row| row.create_revision);
                    self.rows.insert(
                        key,
                        Stored {
                            value,
                            mod_revision: revision,
                            create_revision,
                            lease: lease.unwrap_or(0),
                        },
                    );
                }
                Operation::Delete { key } => {
                    self.rows.remove(&key);
                }
                Operation::DeletePrefix { prefix } => {
                    self.rows.retain(|key, _| !key.starts_with(&prefix));
                }
                Operation::Get { .. } => {}
            }
        }
        TxnReply { succeeded: true, first_put_revision, header_revision: Some(revision) }
    }

    fn put_bytes(&mut self, key: &str, bytes: &[u8]) {
        self.commit(Transaction {
            conditions: Vec::new(),
            operations: vec![Operation::Put {
                key: key.as_bytes().to_vec(),
                value: Payload::Bytes(bytes.to_vec()),
                lease: None,
            }],
        });
    }

    fn bytes_at(&self, key: &str) -> Option<Vec<u8>> {
        match self.rows.get(key.as_bytes()) {
            Some(Stored { value: Payload::Bytes(bytes), .. }) => Some(bytes.clone()),
            _ => None,
        }
    }

    fn has(&self, key: &str) -> bool {
        self.rows.contains_key(key.as_bytes())
    }

    fn keys_between(&self, start: &[u8], end: &[u8], limit: i64) -> Vec<Vec<u8>> {
        self.rows
            .range(start.to_vec()..end.to_vec())
            .map(|(key, _)| key.clone())
            .take(if limit == 0 { usize::MAX } else { limit as usize })
            .collect()
    }

    fn timeline_at(&self, key: &[u8]) -> Option<Found<TimelineRecord>> {
        match self.rows.get(key) {
            Some(Stored { value: Payload::Timeline(record), mod_revision, .. }) => {
                Some(Found { value: Ok(record.clone()), mod_revision: *mod_revision })
            }
            _ => None,
        }
    }

    fn timeline_rows(&self, query: &RangeQuery) -> Vec<TimelineRow> {
        self.keys_between(&query.start, &query.end, query.limit)
            .into_iter()
            .map(|key| {
                let found = self.timeline_at(&key).expect("a timeline stands there");
                TimelineRow { key, record: found.value }
            })
            .collect()
    }

    fn request_at(&self, key: &[u8]) -> Option<Found<RequestRecord>> {
        match self.rows.get(key) {
            Some(Stored { value: Payload::Request(record), mod_revision, .. }) => {
                Some(Found { value: Ok(record.clone()), mod_revision: *mod_revision })
            }
            _ => None,
        }
    }

    fn generator_at(&self, key: &[u8]) -> Option<Found<GeneratorRecord>> {
        match self.rows.get(key) {
            Some(Stored { value: Payload::Generator(record), mod_revision, .. }) => {
                Some(Found { value: Ok(record.clone()), mod_revision: *mod_revision })
            }
            _ => None,
        }
    }
}

fn timeline(key: &str, owner: &str, state: TimelineLifecycleState) -> TimelineRecord {
    TimelineRecord {
        schema_version: 1,
        route: TimelineRoute {
            timeline_key: key.into(),
            generator_id: 7,
            owner_worker_endpoint: owner.into(),
            epoch: 1,
            route_version: 1,
            resource_tier: ResourceTier::Shared,
        },
        state,
        recovery_floor_tso: None,
        issued_upper_bound: Some(10),
        last_graceful_issued: Some(9),
        lease_expire_at_ms: Some(100),
        updated_at_ms: 1,
    }
}

fn create(store: &mut Store, record: &TimelineRecord) -> Result<u64, TsoError> {
    let txn = create_timeline_txn(PREFIX, &record.route.timeline_key, record, None)?;
    create_timeline_result(Ok(store.commit(txn)), false)
}

#[test]
fn a_created_timeline_is_loaded_and_indexed() {
    let mut store = Store::new();
    let record = timeline("timeline-a", "worker-a:1", TimelineLifecycleState::Active);
    let revision = create(&mut store, &record).unwrap();

    let (loaded, at) = load_timeline(Ok(
        store.timeline_at(timeline_key(PREFIX, "timeline-a").as_bytes())
    ))
    .unwrap()
    .unwrap();
    assert_eq!(loaded, record);
    assert_eq!(at, revision);
    assert!(store.has(&timeline_status_owner_index_key(PREFIX, "worker-a:1", "timeline-a")));
    assert!(store.has(&timeline_status_state_index_key(PREFIX, "Active", "timeline-a")));
    assert_eq!(create(&mut store, &record), Err(TsoError::MetadataAlreadyExists));
}

#[test]
fn a_replaced_timeline_moves_its_index_entries() {
    let mut store = Store::new();
    let record = timeline("timeline-a", "worker-a:1", TimelineLifecycleState::Active);
    let revision = create(&mut store, &record).unwrap();

    let next = timeline("timeline-a", "worker-b:1", TimelineLifecycleState::Draining);
    let loaded = load_timeline(Ok(
        store.timeline_at(timeline_key(PREFIX, "timeline-a").as_bytes())
    ))
    .unwrap();
    let txn = compare_exchange_timeline_txn(PREFIX, "timeline-a", revision, &next, loaded).unwrap();
    let second = cas_result(Ok(store.commit(txn)), "failed", "invalid").unwrap();

    assert!(second > revision);
    assert!(!store.has(&timeline_status_owner_index_key(PREFIX, "worker-a:1", "timeline-a")));
    assert!(store.has(&timeline_status_owner_index_key(PREFIX, "worker-b:1", "timeline-a")));
    assert!(!store.has(&timeline_status_state_index_key(PREFIX, "Active", "timeline-a")));
    assert!(store.has(&timeline_status_state_index_key(PREFIX, "Draining", "timeline-a")));

    let stale = compare_exchange_timeline_txn(
        PREFIX,
        "timeline-a",
        revision,
        &record,
        load_timeline(Ok(store.timeline_at(timeline_key(PREFIX, "timeline-a").as_bytes()))).unwrap(),
    );
    assert!(matches!(stale, Err(TsoError::CasFailed)));
    assert!(matches!(
        compare_exchange_timeline_txn(PREFIX, "timeline-z", 1, &record, None),
        Err(TsoError::TimelineNotFound { .. })
    ));
}

#[test]
fn etcd_expired_lease_lock_fences_stale_holder_writes() {
    let mut store = Store::new();
    let fence = Fence { key: "/chronos/cluster/fence_test_lock".into(), token: b"41".to_vec() };
    let record = timeline("timeline-a", "worker-a:1", TimelineLifecycleState::Active);

    let txn = create_timeline_txn(PREFIX, "timeline-a", &record, Some(&fence)).unwrap();
    let reply = store.commit(txn);
    assert!(!reply.succeeded);
    assert_eq!(create_timeline_result(Ok(reply), true), Err(TsoError::CasFailed));

    store.put_bytes("/chronos/cluster/fence_test_lock", b"41");
    let txn = create_timeline_txn(PREFIX, "timeline-a", &record, Some(&fence)).unwrap();
    assert!(create_timeline_result(Ok(store.commit(txn)), true).is_ok());
}

fn batch(
    store: &mut Store,
    operations: &Vec<TimelineBatchOp>,
    mut lose_first_answer: bool,
) -> Result<Vec<u64>, TsoError> {
    let (mut run, mut step) = TimelineBatchCas::start(PREFIX, operations);
    loop {
        step = match step {
            BatchStep::Done { revisions } => return Ok(revisions),
            BatchStep::Failed { error } => return Err(error),
            BatchStep::LoadTimeline { key } => {
                run.on_reply(BatchReply::Timeline(Ok(store.timeline_at(&key))))
            }
            BatchStep::Commit { txn } => {
                let mut reply = store.commit(txn);
                if lose_first_answer {
                    lose_first_answer = false;
                    reply.succeeded = false;
                }
                run.on_reply(BatchReply::Committed(Ok(reply)))
            }
        };
    }
}

#[test]
fn a_batch_of_timelines_is_replaced_together_or_not_at_all() {
    let mut store = Store::new();
    let a = create(&mut store, &timeline("a", "w:1", TimelineLifecycleState::Active)).unwrap();
    let b = create(&mut store, &timeline("b", "w:1", TimelineLifecycleState::Active)).unwrap();
    let operation = |key: &str, revision: u64| TimelineBatchOp {
        timeline_key: key.into(),
        previous_revision: revision,
        record: timeline(key, "w:2", TimelineLifecycleState::Locked),
    };

    assert!(batch(&mut store, &vec![operation("a", a), operation("b", b + 50)], false).is_err());
    assert!(store.has(&timeline_status_owner_index_key(PREFIX, "w:1", "a")));

    let revisions = batch(&mut store, &vec![operation("a", a), operation("b", b)], false).unwrap();
    assert_eq!(revisions.len(), 2);
    assert_eq!(revisions[0], revisions[1]);
    assert!(!store.has(&timeline_status_owner_index_key(PREFIX, "w:1", "a")));
    assert!(store.has(&timeline_status_state_index_key(PREFIX, "Locked", "b")));
    assert_eq!(batch(&mut store, &Vec::new(), false), Ok(Vec::new()));
}

#[test]
fn a_batch_whose_answer_was_lost_recognises_what_it_wrote() {
    let mut store = Store::new();
    let a = create(&mut store, &timeline("a", "w:1", TimelineLifecycleState::Active)).unwrap();
    let operations = vec![TimelineBatchOp {
        timeline_key: "a".into(),
        previous_revision: a,
        record: timeline("a", "w:2", TimelineLifecycleState::Locked),
    }];

    let revisions = batch(&mut store, &operations, true).unwrap();
    assert_eq!(revisions, vec![a + 1]);
}

fn page(store: &Store, start_after: Option<&str>, limit: usize) -> (Vec<String>, Option<String>) {
    let (rows, start) = match page_query(PREFIX, start_after, limit) {
        Some(query) => (Ok(store.timeline_rows(&query)), query.start),
        None => (Err("nothing was asked".into()), Vec::new()),
    };
    let page = list_timelines_page(rows, &start, start_after.is_some(), limit).unwrap();
    (
        page.records.into_iter().map(|record| record.route.timeline_key).collect(),
        page.next_start_after_timeline_key,
    )
}

fn filled_store() -> Store {
    let mut store = Store::new();
    for (key, owner, state) in [
        ("c", "w:1", TimelineLifecycleState::Active),
        ("a", "w:1", TimelineLifecycleState::Draining),
        ("d", "w:2", TimelineLifecycleState::Active),
        ("b", "w:2", TimelineLifecycleState::Draining),
    ] {
        create(&mut store, &timeline(key, owner, state)).unwrap();
    }
    store
}

#[test]
fn timelines_are_listed_page_by_page() {
    let store = filled_store();

    assert_eq!(page(&store, None, 3), (vec!["a".into(), "b".into(), "c".into()], Some("c".into())));
    assert_eq!(page(&store, Some("c"), 3), (vec!["d".into()], None));

    assert_eq!(page_query(PREFIX, None, 0), None);
    assert_eq!(page(&store, None, 0), (vec![], None));
    assert!(list_timeline_filters_page(Err("nothing was asked".into()), b"s", true, 0)
        .unwrap()
        .records
        .is_empty());

    let query = page_query(PREFIX, None, 9).unwrap();
    assert_eq!(list_timelines(Ok(store.timeline_rows(&query))).unwrap().len(), 4);
    assert_eq!(
        list_timelines(Err("gone".into())),
        Err(TsoError::Internal("Etcd list failed: gone".into()))
    );
}

#[test]
fn unreadable_rows_end_a_listing() {
    let row = |record| vec![TimelineRow { key: b"k".to_vec(), record }];

    assert_eq!(
        list_timelines_page(Ok(row(Err("bad".into()))), b"s", false, 1).unwrap_err(),
        TsoError::Internal("Timeline record page deserialization failed: bad".into())
    );
    let mut newer = timeline("a", "w:1", TimelineLifecycleState::Active);
    newer.schema_version = 9;
    assert!(list_timelines_page(Ok(row(Ok(newer))), b"s", false, 1).is_err());
    assert!(list_timelines_page(Ok(row(Err("bad".into()))), b"k", true, 1).is_ok());

    let filters = list_timeline_filters_page(
        Ok(vec![FilterRow {
            key: b"k".to_vec(),
            record: Ok(TimelineFilterRecord {
                schema_version: 9,
                route: timeline("a", "w:1", TimelineLifecycleState::Active).route,
                state: TimelineLifecycleState::Active,
            }),
        }]),
        b"s",
        false,
        1,
    )
    .unwrap();
    assert_eq!(filters.records.len(), 1);
}

fn from_index(
    store: &Store,
    index_prefix: &str,
    states: Vec<TimelineLifecycleState>,
    start_after: Option<&str>,
    limit: usize,
) -> (Vec<TimelineRecord>, Option<String>) {
    let (mut listing, mut step) = IndexListing::start(index_prefix, states, start_after, limit);
    loop {
        step = match step {
            IndexListStep::Scan { query } => listing.on_rows(Ok(store.timeline_rows(&query))),
            IndexListStep::Done { page } => {
                return (page.records, page.next_start_after_timeline_key)
            }
            IndexListStep::Failed { error } => panic!("{error:?}"),
        };
    }
}

fn by_status(
    store: &Store,
    states: &Vec<TimelineLifecycleState>,
    owner: Option<&str>,
    limit: usize,
) -> Vec<String> {
    let records = match plan_status_filter(PREFIX, states, owner) {
        StatusFilterPlan::Everything => return page(store, None, limit).0,
        StatusFilterPlan::Index { index_prefix, states } => {
            from_index(store, &index_prefix, states, None, limit).0
        }
        StatusFilterPlan::Merge { index_prefixes } => {
            let mut found = Vec::new();
            for index_prefix in index_prefixes {
                found.extend(from_index(store, &index_prefix, Vec::new(), None, limit).0);
            }
            merge_state_pages(found, limit).records
        }
    };
    records.into_iter().map(|record| record.route.timeline_key).collect()
}

#[test]
fn timelines_are_listed_by_state_and_owner() {
    let store = filled_store();
    let draining = TimelineLifecycleState::Draining;
    let active = TimelineLifecycleState::Active;

    assert_eq!(by_status(&store, &vec![], None, 2), vec!["a", "b"]);
    assert_eq!(by_status(&store, &vec![draining], None, 9), vec!["a", "b"]);
    assert_eq!(by_status(&store, &vec![active, draining], None, 9), vec!["a", "b", "c", "d"]);
    assert_eq!(by_status(&store, &vec![active, draining], None, 3), vec!["a", "b", "c"]);
    assert_eq!(by_status(&store, &vec![], Some("w:2"), 9), vec!["b", "d"]);
    assert_eq!(by_status(&store, &vec![active], Some("w:2"), 9), vec!["d"]);
    assert!(by_status(&store, &vec![active, draining], None, 0).is_empty());
    assert!(by_status(&store, &vec![], None, 0).is_empty());
}

#[test]
fn an_index_listing_reads_on_and_resumes_behind_its_cursor() {
    let store = filled_store();
    let prefix = match plan_status_filter(PREFIX, &vec![TimelineLifecycleState::Active], None) {
        StatusFilterPlan::Index { index_prefix, .. } => index_prefix,
        _ => panic!("one state has an index"),
    };

    let (first, next) = from_index(&store, &prefix, Vec::new(), None, 1);
    assert_eq!(first[0].route.timeline_key, "c");
    assert_eq!(next.as_deref(), Some("c"));
    let (second, next) = from_index(&store, &prefix, Vec::new(), Some("c"), 1);
    assert_eq!(second[0].route.timeline_key, "d");
    assert_eq!(next, None);
    assert!(from_index(&store, &prefix, Vec::new(), None, 0).0.is_empty());
}

fn generator(id: u32, token: u64) -> GeneratorRecord {
    GeneratorRecord {
        schema_version: 1,
        generator_id: id,
        owner_worker_endpoint: "worker-a:1".into(),
        owner_instance_id: "instance-a".into(),
        generator_lease_token: token,
        lease_expire_at_ms: None,
        last_issued_tso: None,
        issued_upper_bound: None,
        updated_at_ms: 1,
    }
}

fn create_generator(store: &mut Store, id: u32) -> u64 {
    let txn = create_generator_txn(PREFIX, id, &generator(id, 1)).unwrap();
    create_result(Ok(store.commit(txn)), "failed", "invalid").unwrap()
}

#[test]
fn generators_are_loaded_in_chunks_and_scanned() {
    let mut store = Store::new();
    for id in 0..150 {
        create_generator(&mut store, id);
    }

    let ids: Vec<u32> = (100..200).chain(100..120).collect();
    let (mut loading, mut step) = GeneratorLoading::start(PREFIX, &ids);
    let mut chunks = Vec::new();
    let loaded = loop {
        step = match step {
            GeneratorLoadStep::Done { loaded } => break loaded,
            GeneratorLoadStep::Failed { error } => panic!("{error:?}"),
            GeneratorLoadStep::Commit { txn } => {
                chunks.push(txn.operations.len());
                let answers = txn
                    .operations
                    .iter()
                    .map(|operation| match operation {
                        Operation::Get { key } => match store.generator_at(key) {
                            Some(found) => BatchGetAnswer::Present(found.value),
                            None => BatchGetAnswer::Missing,
                        },
                        _ => BatchGetAnswer::Other,
                    })
                    .collect();
                loading.on_reply(Ok(answers))
            }
        };
    };
    assert_eq!(chunks, vec![GENERATOR_BATCH_GET_CHUNK_SIZE, 36]);
    assert_eq!(loaded.len(), 100);
    assert!(loaded[&149].is_some());
    assert!(loaded[&150].is_none());

    let (mut scan, mut step) = GeneratorScan::start(PREFIX);
    let records = loop {
        step = match step {
            GeneratorScanStep::Done { records } => break records,
            GeneratorScanStep::Failed { error } => panic!("{error:?}"),
            GeneratorScanStep::Scan { query } => {
                let rows = store
                    .keys_between(&query.start, &query.end, query.limit)
                    .into_iter()
                    .map(|key| {
                        let found = store.generator_at(&key).unwrap();
                        GeneratorRow { key, record: found.value }
                    })
                    .collect();
                scan.on_rows(Ok(rows))
            }
        };
    };
    assert_eq!(records.len(), 150);
}

#[test]
fn faulty_generator_answers_end_the_loading() {
    let first = |answers| {
        let (mut loading, _) = GeneratorLoading::start(PREFIX, &[1, 2]);
        match loading.on_reply(answers) {
            GeneratorLoadStep::Failed { error } => error,
            _ => panic!("the loading should fail"),
        }
    };

    assert_eq!(
        first(Err("down".into())),
        TsoError::Internal("Etcd get_generator_batch failed: down".into())
    );
    assert_eq!(
        first(Ok(vec![BatchGetAnswer::Missing, BatchGetAnswer::Other])),
        TsoError::Internal("invalid generator batch get txn response".into())
    );
    assert_eq!(
        first(Ok(vec![BatchGetAnswer::Present(Err("bad".into()))])),
        TsoError::Internal("Generator record batch deserialization failed: bad".into())
    );
    assert!(matches!(
        GeneratorLoading::start(PREFIX, &[]).1,
        GeneratorLoadStep::Done { loaded } if loaded.is_empty()
    ));
    assert_eq!(
        load_generator(Err("down".into())),
        Err(TsoError::Internal("Etcd get_generator failed: down".into()))
    );
}

#[test]
fn generators_are_replaced_together_or_not_at_all() {
    let mut store = Store::new();
    let one = create_generator(&mut store, 1);
    let two = create_generator(&mut store, 2);
    let operations = |second: u64| {
        vec![
            GeneratorBatchOp { generator_id: 1, previous_revision: one, record: generator(1, 9) },
            GeneratorBatchOp { generator_id: 2, previous_revision: second, record: generator(2, 9) },
        ]
    };

    let txn = compare_exchange_generators_txn(PREFIX, &operations(two + 9)).unwrap().unwrap();
    assert_eq!(
        compare_exchange_generators_result(Ok(store.commit(txn)), 2),
        Err(TsoError::CasFailed)
    );
    let txn = compare_exchange_generators_txn(PREFIX, &operations(two)).unwrap().unwrap();
    let revisions = compare_exchange_generators_result(Ok(store.commit(txn)), 2).unwrap();
    assert_eq!(revisions.len(), 2);
    assert!(compare_exchange_generators_txn(PREFIX, &[]).unwrap().is_none());

    let txn = compare_exchange_generator_txn(PREFIX, 1, revisions[0], &generator(1, 10)).unwrap();
    assert!(cas_result(Ok(store.commit(txn)), "failed", "invalid").is_ok());
    let found = store.generator_at(generator_key(PREFIX, 1).as_bytes()).unwrap();
    assert_eq!(found.value.unwrap().generator_lease_token, 10);
}

fn request(state: RequestRecordState, updated_at_ms: u64) -> RequestRecord {
    RequestRecord {
        schema_version: 1,
        fingerprint: AllocationRequestFingerprint { timeline_key: "t".into(), count: 1 },
        state,
        response: None,
        updated_at_ms,
    }
}

fn create_request(store: &mut Store, id: &str, record: &RequestRecord) -> u64 {
    let txn = create_request_txn(PREFIX, "t", id, record).unwrap();
    create_result(Ok(store.commit(txn)), "failed", "invalid").unwrap()
}

fn loaded_request(store: &Store, id: &str) -> Option<(RequestRecord, u64)> {
    store
        .request_at(request_key(PREFIX, "t", id).as_bytes())
        .map(|found| (found.value.unwrap(), found.mod_revision as u64))
}

fn prune(store: &mut Store, older_than_ms: u64, limit: usize) -> usize {
    let (mut run, mut step) = PruneRun::start(PREFIX, older_than_ms, limit);
    loop {
        step = match step {
            PruneStep::Done { pruned } => return pruned,
            PruneStep::Failed { error } => panic!("{error:?}"),
            PruneStep::ScanIndex { start, end, limit } => {
                let rows = store
                    .keys_between(&start, &end, limit)
                    .into_iter()
                    .map(|key| {
                        let row = &store.rows[&key];
                        let entry = match &row.value {
                            Payload::CleanupIndex(entry) => Ok(RequestRecordCleanupIndexEntry {
                                timeline_key: entry.timeline_key.clone(),
                                client_request_id: entry.client_request_id.clone(),
                                updated_at_ms: entry.updated_at_ms,
                            }),
                            _ => Err("not an entry".to_string()),
                        };
                        IndexRow { key, mod_revision: row.mod_revision, entry }
                    })
                    .collect();
                run.on_reply(PruneReply::IndexPage(Ok(rows)))
            }
            PruneStep::LoadRecord { key } => {
                run.on_reply(PruneReply::Record(Ok(store.request_at(&key))))
            }
            PruneStep::Commit { txn } => {
                let reply = store.commit(txn);
                run.on_reply(PruneReply::Committed(Ok(reply.succeeded)))
            }
            PruneStep::ScanRecords { start, end, limit } => {
                let rows = store
                    .keys_between(&start, &end, limit)
                    .into_iter()
                    .map(|key| {
                        let found = store.request_at(&key).unwrap();
                        RecordRow { key, mod_revision: found.mod_revision, record: found.value }
                    })
                    .collect();
                run.on_reply(PruneReply::RecordPage(Ok(rows)))
            }
        };
    }
}

#[test]
fn old_completed_requests_are_pruned_with_their_index_entries() {
    let mut store = Store::new();
    create_request(&mut store, "old", &request(RequestRecordState::Completed, 100));
    create_request(&mut store, "fresh", &request(RequestRecordState::Completed, 300));
    create_request(&mut store, "pending", &request(RequestRecordState::Pending, 50));
    // A record from before the index existed.
    store.commit(Transaction {
        conditions: Vec::new(),
        operations: vec![Operation::Put {
            key: request_key(PREFIX, "t", "unindexed").into_bytes(),
            value: Payload::Request(request(RequestRecordState::Completed, 10)),
            lease: None,
        }],
    });
    let keys_before = store.rows.len();

    assert_eq!(prune(&mut store, 200, 10), 2);

    assert!(loaded_request(&store, "old").is_none());
    assert!(loaded_request(&store, "unindexed").is_none());
    assert!(loaded_request(&store, "fresh").is_some());
    assert!(loaded_request(&store, "pending").is_some());
    assert_eq!(store.rows.len(), keys_before - 3);
    assert_eq!(prune(&mut store, 200, 10), 0);
    assert_eq!(prune(&mut store, 1000, 0), 0);
}

#[test]
fn a_cleanup_deletes_all_that_is_due_up_to_its_limit() {
    let mut store = Store::new();
    for i in 0..300 {
        let done = request(RequestRecordState::Completed, 100 + i % 2 * 200);
        if i % 3 == 0 {
            // A record that no index entry names.
            store.commit(Transaction {
                conditions: Vec::new(),
                operations: vec![Operation::Put {
                    key: request_key(PREFIX, "t", &format!("r{i}")).into_bytes(),
                    value: Payload::Request(done),
                    lease: None,
                }],
            });
        } else {
            create_request(&mut store, &format!("r{i}"), &done);
        }
    }

    assert_eq!(prune(&mut store, 200, 120), 120);
    assert_eq!(prune(&mut store, 200, 120), 30);
    assert_eq!(prune(&mut store, 200, 120), 0);
    let left = (0..300).filter(|i| loaded_request(&store, &format!("r{i}")).is_some());
    assert!(left.eq((0..300).filter(|i| i % 2 == 1)));
}

#[test]
fn replaced_and_deleted_requests_keep_the_cleanup_index_in_step() {
    let mut store = Store::new();
    let revision = create_request(&mut store, "r", &request(RequestRecordState::Pending, 10));
    assert_eq!(store.rows.len(), 1);

    let done = request(RequestRecordState::Completed, 20);
    let loaded = loaded_request(&store, "r");
    let txn = compare_exchange_request_txn(PREFIX, "t", "r", revision, &done, loaded).unwrap();
    let revision = cas_result(Ok(store.commit(txn)), "failed", "invalid").unwrap();
    assert_eq!(store.rows.len(), 2);

    let loaded = loaded_request(&store, "r");
    let txn = compare_delete_request_txn(PREFIX, "t", "r", revision, loaded).unwrap();
    assert_eq!(delete_result(Ok(store.commit(txn)), "failed"), Ok(()));
    assert!(store.rows.is_empty());
}

fn lock(
    store: &mut Store,
    key: &str,
    lease: i64,
    keepalive: Result<(), String>,
) -> (LockStep, Vec<i64>) {
    let (mut attempt, mut step) = LockTry::start(key, 1, Vec::new(), "test_lock");
    let mut revoked = Vec::new();
    loop {
        step = match step {
            LockStep::GrantLease { ttl_seconds } => {
                assert_eq!(ttl_seconds, 3);
                attempt.on_reply(LockReply::Granted(Ok(lease)))
            }
            LockStep::Commit { txn } => {
                let reply = store.commit(txn);
                attempt.on_reply(LockReply::Committed(Ok(reply.succeeded)))
            }
            LockStep::RevokeLease { lease_id } => {
                revoked.push(lease_id);
                attempt.on_reply(LockReply::Revoked)
            }
            LockStep::OpenKeepalive { .. } => {
                attempt.on_reply(LockReply::KeepaliveOpened(keepalive.clone()))
            }
            done => return (done, revoked),
        };
    }
}

#[test]
fn a_lock_is_held_by_one_lease_at_a_time() {
    let mut store = Store::new();

    let (held, revoked) = lock(&mut store, "/chronos/lock", 41, Ok(()));
    let LockStep::Acquired { fence, lease_id, .. } = held else {
        panic!("a free lock is acquired");
    };
    assert_eq!(lease_id, 41);
    assert!(revoked.is_empty());
    let entry = |value: &[u8], lease| Ok(Some(LockEntry { value: value.to_vec(), lease }));
    assert_eq!(lease_lock_is_owned(&fence, 41, false, entry(b"41", 41)), Ok(true));
    assert_eq!(lease_lock_is_owned(&fence, 41, false, entry(b"42", 42)), Ok(false));
    assert_eq!(lease_lock_is_owned(&fence, 41, true, entry(b"41", 41)), Ok(false));
    assert_eq!(lease_lock_is_owned(&fence, 41, false, Ok(None)), Ok(false));

    let (taken, revoked) = lock(&mut store, "/chronos/lock", 42, Ok(()));
    assert!(matches!(taken, LockStep::Taken));
    assert_eq!(revoked, vec![42]);
}

#[test]
fn a_lock_that_cannot_be_kept_is_given_back() {
    let mut store = Store::new();

    let (failed, revoked) = lock(&mut store, "/chronos/lock", 43, Err("no stream".into()));
    assert!(matches!(failed, LockStep::Failed { .. }));
    assert_eq!(revoked, vec![43]);
}

fn rebuild(store: &mut Store, fence: Fence) -> Result<(), TsoError> {
    let (mut run, mut step) = RebuildRun::start(PREFIX, fence);
    loop {
        step = match step {
            RebuildStep::Done => return Ok(()),
            RebuildStep::Failed { error } => return Err(error),
            RebuildStep::Commit { txn } => {
                let reply = store.commit(txn);
                run.on_reply(RebuildReply::Committed(Ok(reply.succeeded)))
            }
            RebuildStep::ScanRoutes { start, end, limit } => {
                let rows = store
                    .keys_between(&start, &end, limit)
                    .into_iter()
                    .map(|key| {
                        let found = store.timeline_at(&key).unwrap();
                        RouteRow { key, mod_revision: found.mod_revision, record: found.value }
                    })
                    .collect();
                run.on_reply(RebuildReply::RoutePage(Ok(rows)))
            }
            RebuildStep::CheckLock => run.on_reply(RebuildReply::LockOwned(Ok(true))),
        };
    }
}

#[test]
fn etcd_status_index_rebuild_upgrades_stale_marker() {
    let mut store = filled_store();
    let marker = timeline_status_index_marker_key(PREFIX);
    let owner_entry = timeline_status_owner_index_key(PREFIX, "w:1", "a");
    store.rows.remove(owner_entry.as_bytes());
    store.put_bytes(&marker, b"1");
    store.put_bytes("/chronos/lock", b"41");

    let (mut gate, step) = RebuildGate::start(PREFIX);
    assert!(matches!(step, GateStep::ReadMarker { .. }));
    let step = gate.on_reply(GateReply::Marker(Ok(store.bytes_at(&marker))));
    assert!(matches!(step, GateStep::TryLock { .. }));
    let step = gate.on_reply(GateReply::LockTried { now_ms: 0, acquired: Ok(true) });
    assert!(matches!(step, GateStep::ReadMarker { .. }));
    let step = gate.on_reply(GateReply::Marker(Ok(store.bytes_at(&marker))));
    assert!(matches!(step, GateStep::Rebuild));

    rebuild(&mut store, Fence { key: "/chronos/lock".into(), token: b"41".to_vec() }).unwrap();

    assert_eq!(store.bytes_at(&marker), Some(CURRENT_STATUS_INDEX_VERSION.as_bytes().to_vec()));
    assert!(store.has(&owner_entry));
    let (mut gate, _) = RebuildGate::start(PREFIX);
    assert!(matches!(
        gate.on_reply(GateReply::Marker(Ok(store.bytes_at(&marker)))),
        GateStep::Done
    ));
}

#[test]
fn a_rebuild_without_its_lock_changes_nothing() {
    let mut store = filled_store();
    let rows = store.rows.len();

    assert!(rebuild(&mut store, Fence { key: "/chronos/lock".into(), token: b"41".to_vec() })
        .is_err());
    assert_eq!(store.rows.len(), rows);
}

fn layout(shown: &str, is_default: bool) -> LayoutDescription {
    LayoutDescription { encoded: shown.as_bytes().to_vec(), shown: shown.into(), is_default }
}

#[test]
fn an_invalid_configured_layout_is_refused_before_anything_is_read() {
    let begun = ClusterFormatRun::start_configured(
        PREFIX,
        CURRENT_CLUSTER_FORMAT_VERSION,
        Err("bits do not add up".into()),
    );

    assert_eq!(
        begun.err(),
        Some(TsoError::Internal("invalid timestamp layout: bits do not add up".into()))
    );
}

fn ensure_format(store: &mut Store, shown: &str, is_default: bool) -> Result<(), TsoError> {
    let (mut run, mut step) = ClusterFormatRun::start_configured(
        PREFIX,
        CURRENT_CLUSTER_FORMAT_VERSION,
        Ok(layout(shown, is_default)),
    )?;
    loop {
        step = match step {
            FormatStep::Done => return Ok(()),
            FormatStep::Failed { error } => return Err(error),
            FormatStep::ReadCluster { prefix } => {
                let rows = store
                    .rows
                    .iter()
                    .filter(|(key, _)| key.starts_with(&prefix))
                    .filter_map(|(key, row)| match &row.value {
                        Payload::Bytes(bytes) => Some(ClusterRow {
                            key: key.clone(),
                            value: bytes.clone(),
                            layout: Ok(layout(&String::from_utf8_lossy(bytes), false)),
                        }),
                        _ => None,
                    })
                    .collect();
                run.on_reply(FormatReply::Cluster(Ok(rows)))
            }
            FormatStep::ProbeData { prefix, limit } => {
                let keys = store
                    .rows
                    .keys()
                    .filter(|key| key.starts_with(&prefix))
                    .take(limit as usize)
                    .cloned()
                    .collect();
                run.on_reply(FormatReply::Data(Ok(keys)))
            }
            FormatStep::Commit { txn } => {
                let reply = store.commit(txn);
                run.on_reply(FormatReply::Committed(Ok(reply.succeeded)))
            }
        };
    }
}

#[test]
fn a_prefix_keeps_the_format_it_was_given() {
    let mut store = Store::new();
    ensure_format(&mut store, "22/8/12", true).unwrap();
    assert_eq!(store.bytes_at(&cluster_format_key(PREFIX)), Some(b"2".to_vec()));
    let revision = store.revision;

    ensure_format(&mut store, "22/8/12", true).unwrap();
    assert_eq!(store.revision, revision);
    assert!(ensure_format(&mut store, "20/10/12", false).is_err());

    store.put_bytes(&cluster_format_key(PREFIX), b"7");
    assert!(ensure_format(&mut store, "22/8/12", true).is_err());
}

#[test]
fn a_custom_layout_needs_an_empty_prefix() {
    let mut store = filled_store();
    assert!(ensure_format(&mut store, "20/10/12", false).is_err());
    assert!(ensure_format(&mut Store::new(), "20/10/12", false).is_ok());
}

fn identity(worker: &str, plan: &str) -> InstanceIdentityLeaseRecord {
    InstanceIdentityLeaseRecord {
        instance_id: format!("instance-{worker}"),
        worker_id: worker.into(),
        advertise_endpoint: format!("{worker}:50051"),
        ownership_plan_id: plan.into(),
        ownership_modulo: 2,
        cluster_format_version: CURRENT_CLUSTER_FORMAT_VERSION,
    }
}

fn copy_plan(plan: &OwnershipPlanRecord) -> OwnershipPlanRecord {
    OwnershipPlanRecord {
        schema_version: plan.schema_version,
        plan_id: plan.plan_id.clone(),
        modulo: plan.modulo,
        members: plan.members.clone(),
        updated_at_ms: plan.updated_at_ms,
    }
}

fn join_plan(
    store: &mut Store,
    worker: &str,
    remainders: Vec<u32>,
    active: &[&str],
) -> Result<(), TsoError> {
    let (mut run, mut step) = AdmissionRun::start(
        PREFIX,
        AdmissionRequest {
            worker_id: worker.into(),
            advertise_endpoint: format!("{worker}:50051"),
            plan_id: " plan-a ".into(),
            modulo: 2,
            remainders,
        },
    );
    loop {
        step = match step {
            AdmissionStep::Done => return Ok(()),
            AdmissionStep::Failed { error } => return Err(error),
            AdmissionStep::ListIdentities => {
                let listed = active
                    .iter()
                    .map(|worker| IdentityEntry { lease: 5, record: Ok(identity(worker, "plan-a")) })
                    .collect();
                run.on_reply(AdmissionReply::Identities { now_ms: 100, listed: Ok(listed) })
            }
            AdmissionStep::ReadPlan { key } => {
                let found = match store.rows.get(key.as_bytes()) {
                    Some(Stored { value: Payload::OwnershipPlan(plan), mod_revision, .. }) => {
                        Some(Found { value: Ok(copy_plan(plan)), mod_revision: *mod_revision })
                    }
                    _ => None,
                };
                run.on_reply(AdmissionReply::Plan(Ok(found)))
            }
            AdmissionStep::Commit { txn } => {
                let reply = store.commit(txn);
                run.on_reply(AdmissionReply::Committed(Ok(reply)))
            }
        };
    }
}

fn plan_members(store: &Store) -> Vec<OwnershipPlanMember> {
    match store.rows.get(ownership_plan_key(PREFIX).as_bytes()) {
        Some(Stored { value: Payload::OwnershipPlan(plan), .. }) => plan.members.clone(),
        _ => Vec::new(),
    }
}

#[test]
fn workers_join_a_plan_and_take_over_from_those_that_are_gone() {
    let mut store = Store::new();
    join_plan(&mut store, "a", vec![0], &["a"]).unwrap();
    join_plan(&mut store, "b", vec![1], &["a", "b"]).unwrap();
    assert_eq!(plan_members(&store).len(), 2);

    assert!(join_plan(&mut store, "c", vec![1], &["a", "b", "c"]).is_err());
    join_plan(&mut store, "c", vec![1], &["a", "c"]).unwrap();
    let members = plan_members(&store);
    assert_eq!(members.len(), 2);
    assert!(members.iter().any(|member| member.worker_id == "c" && member.remainder == 1));
    assert!(!members.iter().any(|member| member.worker_id == "b"));

    let revision = store.revision;
    join_plan(&mut store, "c", vec![1], &["a", "c"]).unwrap();
    assert_eq!(store.revision, revision);
}

fn acquire(store: &mut Store, worker: &str, lease: i64, lose_claim: bool) -> (AcquireStep, Vec<i64>) {
    let (mut run, mut step) = AcquireRun::start(PREFIX, identity(worker, "plan-a"), 3, 0, 0);
    let mut revoked = Vec::new();
    loop {
        step = match step {
            AcquireStep::GrantLease { ttl_seconds } => {
                assert_eq!(ttl_seconds, 3);
                run.on_reply(AcquireReply::Granted { observed_at: 0, lease: Ok((lease, 3)) })
            }
            AcquireStep::Claim { txn } => {
                let reply = store.commit(txn);
                run.on_reply(AcquireReply::Claimed(if lose_claim {
                    Err("connection reset".into())
                } else {
                    Ok(reply.succeeded)
                }))
            }
            AcquireStep::ReadIdentity { key } => {
                let found = match store.rows.get(&key) {
                    Some(Stored { value: Payload::Identity(record), lease, .. }) => {
                        Some(IdentityEntry { lease: *lease, record: Ok(record.clone()) })
                    }
                    _ => None,
                };
                run.on_reply(AcquireReply::Identity(Ok(found)))
            }
            AcquireStep::RevokeLease { lease_id } => {
                revoked.push(lease_id);
                run.on_reply(AcquireReply::Revoked)
            }
            AcquireStep::OpenKeepalive { .. } => run.on_reply(AcquireReply::KeepaliveOpened(Ok(()))),
            done => return (done, revoked),
        };
    }
}

#[test]
fn an_identity_is_acquired_once_and_a_lost_answer_is_looked_up() {
    let mut store = Store::new();

    let (first, revoked) = acquire(&mut store, "a", 7, true);
    assert!(matches!(first, AcquireStep::Acquired { lease_id: 7, .. }));
    assert!(revoked.is_empty());
    assert!(store.has(&instance_identity_key(PREFIX, "instance-a")));

    let (second, revoked) = acquire(&mut store, "a", 8, false);
    assert!(matches!(
        second,
        AcquireStep::Failed { error: TsoError::InstanceIdentityInUse { .. } }
    ));
    assert_eq!(revoked, vec![8]);
}

fn replace(
    store: &mut Store,
    key: &str,
    revision: u64,
    record: &TimelineRecord,
    mut lose_first_answer: bool,
) -> Result<u64, TsoError> {
    let (mut run, mut step) = TimelineCas::start(PREFIX, key, revision, record);
    loop {
        step = match step {
            CasStep::LoadTimeline { key } => {
                run.on_reply(CasReply::Timeline(Ok(store.timeline_at(&key))))
            }
            CasStep::Commit { txn } => {
                let mut reply = store.commit(txn);
                if lose_first_answer {
                    // The request is sent a second time, and the store refuses it.
                    reply.succeeded = false;
                    lose_first_answer = false;
                }
                run.on_reply(CasReply::Committed(Ok(reply)))
            }
            CasStep::Done { revision } => return Ok(revision),
            CasStep::Failed { error } => return Err(error),
        };
    }
}

#[test]
fn a_timeline_is_replaced_at_its_revision_only() {
    let mut store = Store::new();
    let record = timeline("timeline-a", "worker-a:1", TimelineLifecycleState::Active);
    let next = timeline("timeline-a", "worker-b:1", TimelineLifecycleState::Draining);
    let first = create(&mut store, &record).unwrap();

    let second = replace(&mut store, "timeline-a", first, &next, false).unwrap();

    assert!(second > first);
    assert!(store.has(&timeline_status_owner_index_key(PREFIX, "worker-b:1", "timeline-a")));
    assert!(!store.has(&timeline_status_owner_index_key(PREFIX, "worker-a:1", "timeline-a")));
    assert_eq!(
        replace(&mut store, "timeline-a", first, &record, false),
        Err(TsoError::CasFailed)
    );
    assert_eq!(
        replace(&mut store, "timeline-z", first, &record, false),
        Err(TsoError::TimelineNotFound { timeline_key: "timeline-z".into() })
    );
    let mut unknown = record.clone();
    unknown.schema_version = 9;
    assert!(matches!(
        replace(&mut store, "timeline-a", second, &unknown, false),
        Err(TsoError::Internal(_))
    ));
}

#[test]
fn a_replacement_whose_answer_was_lost_is_recognised() {
    let mut store = Store::new();
    let record = timeline("timeline-a", "worker-a:1", TimelineLifecycleState::Active);
    let next = timeline("timeline-a", "worker-b:1", TimelineLifecycleState::Draining);
    let first = create(&mut store, &record).unwrap();

    let second = replace(&mut store, "timeline-a", first, &next, true).unwrap();

    let standing = store.timeline_at(timeline_key(PREFIX, "timeline-a").as_bytes()).unwrap();
    assert_eq!(standing.mod_revision as u64, second);
    assert_eq!(standing.value, Ok(next));
}

#[test]
fn a_failed_replacement_tells_why() {
    let record = timeline("timeline-a", "worker-a:1", TimelineLifecycleState::Active);
    let (mut run, _) = TimelineCas::start(PREFIX, "timeline-a", 1, &record);
    let standing = Found { value: Ok(record.clone()), mod_revision: 1 };
    run.on_reply(CasReply::Timeline(Ok(Some(standing))));
    let step = run.on_reply(CasReply::Committed(Err("gone".into())));
    assert!(matches!(
        step,
        CasStep::Failed { error: TsoError::Internal(message) } if message == "Etcd txn failed: gone"
    ));

    let (mut run, _) = TimelineCas::start(PREFIX, "timeline-a", 1, &record);
    let step = run.on_reply(CasReply::Timeline(Err("gone".into())));
    assert!(matches!(
        step,
        CasStep::Failed { error: TsoError::Internal(message) } if message == "Etcd get failed: gone"
    ));
}

fn change(store: &mut Store, begun: (RequestCas, RequestStep)) -> Result<Option<u64>, TsoError> {
    let (mut run, mut step) = begun;
    loop {
        step = match step {
            RequestStep::LoadRecord { key } => {
                run.on_reply(RequestReply::Record(Ok(store.request_at(&key))))
            }
            RequestStep::Commit { txn } => {
                let reply = store.commit(txn);
                run.on_reply(RequestReply::Committed(Ok(reply)))
            }
            RequestStep::Replaced { revision } => return Ok(Some(revision)),
            RequestStep::Deleted => return Ok(None),
            RequestStep::Failed { error } => return Err(error),
        };
    }
}

#[test]
fn a_request_is_changed_at_its_revision_only() {
    let mut store = Store::new();
    let pending = request(RequestRecordState::Pending, 10);
    let done = request(RequestRecordState::Completed, 20);
    let txn = create_request_txn(PREFIX, "t", "r", &pending).unwrap();
    let first = create_request_result(Ok(store.commit(txn))).unwrap();
    let txn = create_request_txn(PREFIX, "t", "r", &pending).unwrap();
    assert_eq!(
        create_request_result(Ok(store.commit(txn))),
        Err(TsoError::MetadataAlreadyExists)
    );

    let begun = RequestCas::replace(PREFIX, "t", "r", first, &done).unwrap();
    let second = change(&mut store, begun).unwrap().unwrap();
    assert!(second > first);
    assert_eq!(store.rows.len(), 2);

    let begun = RequestCas::replace(PREFIX, "t", "r", first, &pending).unwrap();
    assert_eq!(change(&mut store, begun), Err(TsoError::CasFailed));
    let begun = RequestCas::delete(PREFIX, "t", "r", first);
    assert_eq!(change(&mut store, begun), Err(TsoError::CasFailed));
    let begun = RequestCas::delete(PREFIX, "t", "other", first);
    assert_eq!(
        change(&mut store, begun),
        Err(TsoError::TimelineNotFound { timeline_key: "request:t:other".into() })
    );
    let mut unknown = request(RequestRecordState::Completed, 20);
    unknown.schema_version = 9;
    assert!(RequestCas::replace(PREFIX, "t", "r", second, &unknown).is_err());

    let begun = RequestCas::delete(PREFIX, "t", "r", second);
    assert_eq!(change(&mut store, begun), Ok(None));
    assert!(store.rows.is_empty());
}

#[test]
fn writes_that_fail_tell_why() {
    let failed = |message: &str| Err(TsoError::Internal(message.into()));
    let unreadable = TxnReply { succeeded: true, first_put_revision: None, header_revision: None };
    assert_eq!(
        create_generator_result(Err("gone".into())),
        failed("Etcd generator txn failed: gone")
    );
    assert_eq!(
        compare_exchange_generator_result(Ok(unreadable)),
        failed("invalid generator txn response")
    );
    assert_eq!(
        create_request_result(Err("gone".into())),
        failed("Etcd request create txn failed: gone")
    );
    let (mut run, _) = RequestCas::delete(PREFIX, "t", "r", 1);
    let standing = Found { value: Ok(request(RequestRecordState::Pending, 1)), mod_revision: 1 };
    run.on_reply(RequestReply::Record(Ok(Some(standing))));
    let step = run.on_reply(RequestReply::Committed(Err("gone".into())));
    assert!(matches!(
        step,
        RequestStep::Failed { error: TsoError::Internal(message) }
            if message == "Etcd request delete txn failed: gone"
    ));
}

/// The index entries that stand, but for the marker, and those that the timelines call for.
fn shown_and_wanted(store: &Store) -> (Vec<Vec<u8>>, Vec<Vec<u8>>) {
    let shown = store
        .rows
        .iter()
        .filter(|(key, row)| {
            key.starts_with(b"/chronos/timeline_status/") && matches!(row.value, Payload::Timeline(_))
        })
        .map(|(key, _)| key.clone())
        .collect();
    let mut wanted = Vec::new();
    for (key, row) in &store.rows {
        if key.starts_with(b"/chronos/routes/") {
            if let Payload::Timeline(record) = &row.value {
                let route = &record.route;
                for entry in [
                    timeline_status_owner_index_key(
                        PREFIX,
                        &route.owner_worker_endpoint,
                        &route.timeline_key,
                    ),
                    timeline_status_state_index_key(
                        PREFIX,
                        record.state.as_str(),
                        &route.timeline_key,
                    ),
                ] {
                    let found = store.timeline_at(entry.as_bytes()).unwrap();
                    assert_eq!(found.value.as_ref(), Ok(record));
                    wanted.push(entry.into_bytes());
                }
            }
        }
    }
    wanted.sort();
    (shown, wanted)
}

#[test]
fn the_status_index_shows_the_timelines_as_they_stand() {
    let mut store = Store::new();
    let a = create(&mut store, &timeline("a", "w:1", TimelineLifecycleState::Active)).unwrap();
    let b = create(&mut store, &timeline("a/b", "W:1 ", TimelineLifecycleState::Active)).unwrap();
    let (shown, wanted) = shown_and_wanted(&store);
    assert_eq!(shown.len(), 4);
    assert_eq!(shown, wanted);

    let operations = vec![
        TimelineBatchOp {
            timeline_key: "a".into(),
            previous_revision: a,
            record: timeline("a", "w:2", TimelineLifecycleState::Active),
        },
        TimelineBatchOp {
            timeline_key: "a/b".into(),
            previous_revision: b,
            record: timeline("a/b", "w:1", TimelineLifecycleState::Locked),
        },
    ];
    batch(&mut store, &operations, false).unwrap();
    let (shown, wanted) = shown_and_wanted(&store);
    assert_eq!(shown.len(), 4);
    assert_eq!(shown, wanted);

    store.rows.remove(shown[0].as_slice());
    store.put_bytes("/chronos/cluster/timeline_status_index_rebuild_lock", b"41");
    let lock = "/chronos/cluster/timeline_status_index_rebuild_lock";
    rebuild(&mut store, Fence { key: lock.into(), token: b"41".to_vec() }).unwrap();
    let (shown, wanted) = shown_and_wanted(&store);
    assert_eq!(shown.len(), 4);
    assert_eq!(shown, wanted);
    assert!(!store.has(lock));
}

#[test]
fn a_stale_note_is_dropped_and_a_completed_request_keeps_its_own() {
    let mut store = Store::new();
    let revision = create_request(&mut store, "r", &request(RequestRecordState::Pending, 10));
    let stale = RequestRecordCleanupIndexEntry {
        timeline_key: "t".into(),
        client_request_id: "r".into(),
        updated_at_ms: 5,
    };
    let stale_key = request_cleanup_index_key(PREFIX, 5, "t", "r");
    store.commit(Transaction {
        conditions: Vec::new(),
        operations: vec![Operation::Put {
            key: stale_key.clone().into_bytes(),
            value: Payload::CleanupIndex(stale),
            lease: None,
        }],
    });
    let done = request(RequestRecordState::Completed, 300);
    let loaded = loaded_request(&store, "r");
    let txn = compare_exchange_request_txn(PREFIX, "t", "r", revision, &done, loaded).unwrap();
    store.commit(txn);

    assert_eq!(prune(&mut store, 200, 10), 0);

    assert!(!store.has(&stale_key));
    let note = request_cleanup_index_key(PREFIX, 300, "t", "r");
    let noted_at = store.rows.get(note.as_bytes()).unwrap().mod_revision;
    assert_eq!(loaded_request(&store, "r"), Some((done, noted_at as u64)));
}
