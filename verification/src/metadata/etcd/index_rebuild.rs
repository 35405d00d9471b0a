//! Building the status indexes anew, by one worker at a time.

use vstd::prelude::*;
use vstd::slice::*;
use vstd::utf8::*;

use crate::error::{internal, TsoError};
use crate::metadata::etcd::lease_lock::bytes_equal;
use crate::metadata::etcd::ranges;
use crate::metadata::etcd::ranges::{next_etcd_key_after, prefix_range_end};
use crate::metadata::etcd::status_index;
use crate::metadata::etcd::status_index::{push_index_puts, Fence};
use crate::metadata::etcd::txn;
use crate::metadata::etcd::txn::{
    delete, guarded, key_bytes, put, reported, Condition, ConditionView, Operation, OperationView,
    Payload, PayloadView, Transaction,
};
use crate::metadata::keys;
use crate::metadata::keys::{
    route_prefix, timeline_status_index_marker_key, timeline_status_index_prefix,
    timeline_status_index_rebuild_lock_key,
};
use crate::metadata::types;
use crate::metadata::types::{TimelineRecord, CURRENT_METADATA_SCHEMA_VERSION};

verus! {

pub const STATUS_INDEX_REBUILD_BATCH_RECORDS: i64 = 32;

pub const STATUS_INDEX_REBUILD_LOCK_TTL_SECS: i64 = 120;

pub const STATUS_INDEX_REBUILD_WAIT_TIMEOUT_MS: u64 = 120_000;

pub const STATUS_INDEX_REBUILD_POLL_MS: u64 = 100;

/// The version of the indexes that this library writes.
pub const CURRENT_STATUS_INDEX_VERSION: &'static str = "2";

/// A timeline as it is scanned.
#[derive(Debug)]
pub struct RouteRow {
    pub key: Vec<u8>,
    pub mod_revision: i64,
    pub record: Result<TimelineRecord, String>,
}

/// What the rebuild waits for.
#[derive(Debug, Clone, Copy, PartialEq, Eq, Structural)]
pub enum RebuildWait {
    Cleanup,
    RoutePage,
    RowIndexed,
    LockChecked,
    MarkerWritten,
    Nothing,
}

/// What it asks for.
pub enum RebuildStep {
    Commit { txn: Transaction },
    ScanRoutes { start: Vec<u8>, end: Vec<u8>, limit: i64 },
    CheckLock,
    Done,
    Failed { error: TsoError },
}

/// What it is answered.
pub enum RebuildReply {
    Committed(Result<bool, String>),
    RoutePage(Result<Vec<RouteRow>, String>),
    LockOwned(Result<bool, TsoError>),
}

/// A rebuild by a worker that holds the lock.
pub struct RebuildRun {
    pub prefix: String,
    pub fence: Fence,
    pub wait: RebuildWait,
    pub rows: Vec<RouteRow>,
    pub at: usize,
}

impl RebuildRun {
    pub open spec fn valid(self) -> bool {
        self.at <= self.rows@.len()
    }

    pub open spec fn awaits(self, reply: RebuildReply) -> bool {
        match self.wait {
            RebuildWait::Cleanup | RebuildWait::RowIndexed | RebuildWait::MarkerWritten => reply
                is Committed,
            RebuildWait::RoutePage => reply is RoutePage,
            RebuildWait::LockChecked => reply is LockOwned,
            RebuildWait::Nothing => false,
        }
    }

    pub open spec fn same_task(self, other: RebuildRun) -> bool {
        self.prefix == other.prefix && self.fence == other.fence
    }

    pub open spec fn is_failed(self, step: RebuildStep) -> bool {
        step is Failed && self.wait == RebuildWait::Nothing
    }

    /// Under the lock, everything in the indexes is deleted.
    pub open spec fn cleans_up(self, txn: Transaction) -> bool {
        &&& txn@.conditions == seq![self.fence.condition()]
        &&& txn@.operations == seq![
            OperationView::DeletePrefix {
                prefix: encode_utf8(keys::timeline_status_index_prefix_text(self.prefix@)),
            },
        ]
    }

    /// Under the lock, a timeline that stands as it was scanned is entered into both indexes.
    pub open spec fn indexes_row(self, row: RouteRow, txn: Transaction) -> bool {
        &&& txn@.conditions == seq![
            self.fence.condition(),
            ConditionView::ModRevision { key: row.key@, revision: row.mod_revision },
        ]
        &&& txn@.operations == status_index::index_puts(self.prefix@, row.record->Ok_0@)
    }

    /// Under the lock, the indexes are declared current and the lock is given up.
    pub open spec fn publishes(self, txn: Transaction) -> bool {
        &&& txn@.conditions == seq![self.fence.condition()]
        &&& txn@.operations == seq![
            OperationView::Put {
                key: encode_utf8(keys::timeline_status_index_marker_key_text(self.prefix@)),
                value: PayloadView::Bytes(encode_utf8(CURRENT_STATUS_INDEX_VERSION@)),
                lease: None,
            },
            OperationView::Delete { key: encode_utf8(self.fence.key@) },
        ]
    }

    /// It scans the timelines from a key on.
    pub open spec fn scans_from(self, first: Seq<u8>, step: RebuildStep) -> bool {
        &&& self.wait == RebuildWait::RoutePage
        &&& step matches RebuildStep::ScanRoutes { start, end, limit }
        &&& start@ == first
        &&& end@ == ranges::range_end(encode_utf8(keys::route_prefix_text(self.prefix@)))
        &&& limit == STATUS_INDEX_REBUILD_BATCH_RECORDS
    }

    /// It goes on with the rows after `at`: it indexes the next one, or scans on after the last one.
    pub open spec fn goes_on(self, at: nat, step: RebuildStep) -> bool {
        if at < self.rows@.len() {
            let row = self.rows@[at as int];
            match row.record {
                Err(report) => self.is_failed(step) && txn::is_reported(
                    step->error,
                    "Timeline status index rebuild deserialization failed"@,
                    report@,
                ),
                Ok(record) => if record.schema_version != CURRENT_METADATA_SCHEMA_VERSION {
                    self.is_failed(step) && step->error.is_internal(
                        types::unsupported_schema("timeline"@, record.schema_version),
                    )
                } else {
                    &&& self.wait == RebuildWait::RowIndexed
                    &&& self.at == at + 1
                    &&& step matches RebuildStep::Commit { txn }
                    &&& self.indexes_row(row, txn)
                },
            }
        } else {
            self.scans_from(
                ranges::key_after(
                    if self.rows@.len() > 0 {
                        self.rows@.last().key@
                    } else {
                        Seq::empty()
                    },
                ),
                step,
            )
        }
    }

    fn fail(&mut self, error: TsoError) -> (step: RebuildStep)
        requires
            old(self).valid(),
        ensures
            final(self).valid(),
            final(self).same_task(*old(self)),
            final(self).rows == old(self).rows,
            final(self).is_failed(step),
            step == (RebuildStep::Failed { error }),
    {
        self.wait = RebuildWait::Nothing;
        RebuildStep::Failed { error }
    }

    fn go_on(&mut self) -> (step: RebuildStep)
        requires
            old(self).valid(),
        ensures
            final(self).valid(),
            final(self).same_task(*old(self)),
            final(self).rows == old(self).rows,
            final(self).goes_on(old(self).at as nat, step),
    {
        if self.at < self.rows.len() {
            let at: usize = self.at;
            match &self.rows[at].record {
                Err(report) => {
                    let error = reported(
                        "Timeline status index rebuild deserialization failed",
                        report.as_str(),
                    );
                    self.fail(error)
                },
                Ok(record) => {
                    match record.validate_schema_version() {
                        Ok(()) => {},
                        Err(error) => {
                            return self.fail(error);
                        },
                    }
                    let mut operations: Vec<Operation> = Vec::new();
                    push_index_puts(self.prefix.as_str(), record, &mut operations);
                    assert(txn::operation_views(operations@) =~= status_index::index_puts(
                        self.prefix@,
                        record@,
                    ));
                    let mut conditions: Vec<Condition> = Vec::new();
                    conditions.push(self.fence.fence_compare());
                    conditions.push(
                        Condition::ModRevision {
                            key: slice_to_vec(self.rows[at].key.as_slice()),
                            revision: self.rows[at].mod_revision,
                        },
                    );
                    let txn = Transaction { conditions, operations };
                    assert(txn@.conditions =~= seq![
                        self.fence.condition(),
                        ConditionView::ModRevision {
                            key: self.rows@[at as int].key@,
                            revision: self.rows@[at as int].mod_revision,
                        },
                    ]);
                    self.at = at + 1;
                    self.wait = RebuildWait::RowIndexed;
                    RebuildStep::Commit { txn }
                },
            }
        } else {
            let last_key = if self.rows.len() > 0 {
                slice_to_vec(self.rows[self.rows.len() - 1].key.as_slice())
            } else {
                Vec::new()
            };
            assert(last_key@ =~= if self.rows@.len() > 0 {
                self.rows@.last().key@
            } else {
                Seq::empty()
            });
            self.wait = RebuildWait::RoutePage;
            RebuildStep::ScanRoutes {
                start: next_etcd_key_after(last_key.as_slice()),
                end: prefix_range_end(route_prefix(self.prefix.as_str()).as_str()),
                limit: STATUS_INDEX_REBUILD_BATCH_RECORDS,
            }
        }
    }

    fn publish(&mut self) -> (step: RebuildStep)
        requires
            old(self).valid(),
        ensures
            final(self).valid(),
            final(self).same_task(*old(self)),
            final(self).wait == RebuildWait::MarkerWritten,
            step matches RebuildStep::Commit { txn } && final(self).publishes(txn),
    {
        let marker = timeline_status_index_marker_key(self.prefix.as_str());
        let mut operations: Vec<Operation> = Vec::new();
        operations.push(
            put(marker.as_str(), Payload::Bytes(key_bytes(CURRENT_STATUS_INDEX_VERSION))),
        );
        operations.push(delete(self.fence.key.as_str()));
        let mut conditions: Vec<Condition> = Vec::new();
        conditions.push(self.fence.fence_compare());
        let txn = Transaction { conditions, operations };
        assert(txn@.conditions =~= seq![self.fence.condition()]);
        assert(txn@.operations =~= seq![
            OperationView::Put {
                key: encode_utf8(keys::timeline_status_index_marker_key_text(self.prefix@)),
                value: PayloadView::Bytes(encode_utf8(CURRENT_STATUS_INDEX_VERSION@)),
                lease: None,
            },
            OperationView::Delete { key: encode_utf8(self.fence.key@) },
        ]);
        self.wait = RebuildWait::MarkerWritten;
        RebuildStep::Commit { txn }
    }

    /// Begins a rebuild under a lock that is held.
    pub fn start(prefix: &str, fence: Fence) -> (begun: (Self, RebuildStep))
        ensures
            begun.0.valid(),
            begun.0.prefix@ == prefix@,
            begun.0.fence == fence,
            begun.0.wait == RebuildWait::Cleanup,
            begun.1 matches RebuildStep::Commit { txn } && begun.0.cleans_up(txn),
    {
        let index_prefix = timeline_status_index_prefix(prefix);
        let txn = guarded(
            fence.fence_compare(),
            Operation::DeletePrefix { prefix: key_bytes(index_prefix.as_str()) },
        );
        (
            RebuildRun {
                prefix: prefix.to_owned(),
                fence,
                wait: RebuildWait::Cleanup,
                rows: Vec::new(),
                at: 0,
            },
            RebuildStep::Commit { txn },
        )
    }

    /// What a reply comes to.
    pub open spec fn advances(
        self,
        before: RebuildRun,
        reply: RebuildReply,
        step: RebuildStep,
    ) -> bool {
        match reply {
            RebuildReply::RoutePage(page) => match page {
                Err(report) => self.is_failed(step) && txn::is_reported(
                    step->error,
                    "Etcd status index route scan failed"@,
                    report@,
                ),
                Ok(rows) => if rows@.len() == 0 {
                    &&& self.wait == RebuildWait::MarkerWritten
                    &&& step matches RebuildStep::Commit { txn }
                    &&& self.publishes(txn)
                } else {
                    self.rows == rows && self.goes_on(0, step)
                },
            },
            RebuildReply::LockOwned(owned) => match owned {
                Err(error) => self.is_failed(step) && step->error == error,
                Ok(false) => self.is_failed(step) && step->error.is_internal(
                    "Etcd status index rebuild lock was lost while indexing routes"@,
                ),
                Ok(true) => self.rows == before.rows && self.goes_on(before.at as nat, step),
            },
            RebuildReply::Committed(committed) => match before.wait {
                RebuildWait::Cleanup => match committed {
                    Err(report) => self.is_failed(step) && txn::is_reported(
                        step->error,
                        "Etcd status index cleanup failed"@,
                        report@,
                    ),
                    Ok(false) => self.is_failed(step) && step->error.is_internal(
                        "Etcd status index rebuild lock was lost before cleanup"@,
                    ),
                    Ok(true) => self.scans_from(
                        encode_utf8(keys::route_prefix_text(self.prefix@)),
                        step,
                    ),
                },
                RebuildWait::RowIndexed => match committed {
                    Err(report) => self.is_failed(step) && txn::is_reported(
                        step->error,
                        "Etcd status index rebuild txn failed"@,
                        report@,
                    ),
                    Ok(false) => {
                        &&& self.wait == RebuildWait::LockChecked
                        &&& step is CheckLock
                        &&& self.rows == before.rows
                        &&& self.at == before.at
                    },
                    Ok(true) => self.rows == before.rows && self.goes_on(before.at as nat, step),
                },
                _ => match committed {
                    Err(report) => self.is_failed(step) && txn::is_reported(
                        step->error,
                        "Etcd status index marker write failed"@,
                        report@,
                    ),
                    Ok(false) => self.is_failed(step) && step->error.is_internal(
                        "Etcd status index rebuild lock was lost before publishing the marker"@,
                    ),
                    Ok(true) => step is Done && self.wait == RebuildWait::Nothing,
                },
            },
        }
    }

    /// Takes a reply and says what to ask for next.
    pub fn on_reply(&mut self, reply: RebuildReply) -> (step: RebuildStep)
        requires
            old(self).valid(),
            old(self).awaits(reply),
        ensures
            final(self).valid(),
            final(self).same_task(*old(self)),
            final(self).advances(*old(self), reply, step),
    {
        match reply {
            RebuildReply::RoutePage(page) => match page {
                Err(report) => {
                    let error = reported("Etcd status index route scan failed", report.as_str());
                    self.fail(error)
                },
                Ok(rows) => {
                    if rows.len() == 0 {
                        return self.publish();
                    }
                    self.rows = rows;
                    self.at = 0;
                    self.go_on()
                },
            },
            RebuildReply::LockOwned(owned) => match owned {
                Err(error) => self.fail(error),
                Ok(still) => {
                    if still {
                        self.go_on()
                    } else {
                        self.fail(
                            internal(
                                "Etcd status index rebuild lock was lost while indexing routes",
                            ),
                        )
                    }
                },
            },
            RebuildReply::Committed(committed) => match self.wait {
                RebuildWait::Cleanup => match committed {
                    Err(report) => {
                        let error = reported("Etcd status index cleanup failed", report.as_str());
                        self.fail(error)
                    },
                    Ok(succeeded) => {
                        if !succeeded {
                            return self.fail(
                                internal("Etcd status index rebuild lock was lost before cleanup"),
                            );
                        }
                        let first = route_prefix(self.prefix.as_str());
                        self.wait = RebuildWait::RoutePage;
                        RebuildStep::ScanRoutes {
                            start: key_bytes(first.as_str()),
                            end: prefix_range_end(first.as_str()),
                            limit: STATUS_INDEX_REBUILD_BATCH_RECORDS,
                        }
                    },
                },
                RebuildWait::RowIndexed => match committed {
                    Err(report) => {
                        let error = reported(
                            "Etcd status index rebuild txn failed",
                            report.as_str(),
                        );
                        self.fail(error)
                    },
                    Ok(succeeded) => {
                        if succeeded {
                            self.go_on()
                        } else {
                            self.wait = RebuildWait::LockChecked;
                            RebuildStep::CheckLock
                        }
                    },
                },
                _ => match committed {
                    Err(report) => {
                        let error = reported(
                            "Etcd status index marker write failed",
                            report.as_str(),
                        );
                        self.fail(error)
                    },
                    Ok(succeeded) => {
                        if succeeded {
                            self.wait = RebuildWait::Nothing;
                            RebuildStep::Done
                        } else {
                            self.fail(
                                internal(
                                    "Etcd status index rebuild lock was lost before publishing the marker",
                                ),
                            )
                        }
                    },
                },
            },
        }
    }
}

/// What a worker that wants the indexes current waits for.
#[derive(Debug, Clone, Copy, PartialEq, Eq, Structural)]
pub enum GateWait {
    Marker,
    Lock,
    MarkerUnderLock,
    MarkerWhileWaiting,
    LockWhileWaiting,
    Pause,
    Nothing,
}

/// What it does.
pub enum GateStep {
    ReadMarker { key: Vec<u8> },
    TryLock { lock_key: String, ttl_seconds: i64 },
    ReadLock { key: Vec<u8> },
    Sleep { wait_ms: u64 },
    /// Rebuild under the lock that it got, and give it back.
    Rebuild,
    /// The indexes are current: give the lock back.
    ReleaseAndFinish,
    Done,
    Failed { error: TsoError },
}

/// What it is told.
pub enum GateReply {
    Marker(Result<Option<Vec<u8>>, String>),
    LockTried { now_ms: u64, acquired: Result<bool, TsoError> },
    LockRead { now_ms: u64, present: Result<bool, String> },
    Rested,
}

/// A worker on its way to current indexes.
pub struct RebuildGate {
    pub prefix: String,
    pub wait: GateWait,
    pub deadline_ms: u64,
}

impl RebuildGate {
    pub open spec fn awaits(self, reply: GateReply) -> bool {
        match self.wait {
            GateWait::Marker | GateWait::MarkerUnderLock | GateWait::MarkerWhileWaiting => reply
                is Marker,
            GateWait::Lock => reply is LockTried,
            GateWait::LockWhileWaiting => reply is LockRead,
            GateWait::Pause => reply is Rested,
            GateWait::Nothing => false,
        }
    }

    pub open spec fn marker_key(self) -> Seq<u8> {
        encode_utf8(keys::timeline_status_index_marker_key_text(self.prefix@))
    }

    pub open spec fn lock_key(self) -> Seq<char> {
        keys::timeline_status_index_rebuild_lock_key_text(self.prefix@)
    }

    pub open spec fn reads_marker(self, step: GateStep, wait: GateWait) -> bool {
        &&& self.wait == wait
        &&& step matches GateStep::ReadMarker { key }
        &&& key@ == self.marker_key()
    }

    fn read_marker(&mut self, wait: GateWait) -> (step: GateStep)
        ensures
            final(self).prefix == old(self).prefix,
            final(self).deadline_ms == old(self).deadline_ms,
            final(self).reads_marker(step, wait),
    {
        self.wait = wait;
        let key = timeline_status_index_marker_key(self.prefix.as_str());
        GateStep::ReadMarker { key: key_bytes(key.as_str()) }
    }

    pub fn start(prefix: &str) -> (begun: (Self, GateStep))
        ensures
            begun.0.prefix@ == prefix@,
            begun.0.reads_marker(begun.1, GateWait::Marker),
    {
        let mut gate = RebuildGate {
            prefix: prefix.to_owned(),
            wait: GateWait::Marker,
            deadline_ms: 0,
        };
        let step = gate.read_marker(GateWait::Marker);
        (gate, step)
    }

    /// The marker says that the indexes are current.
    pub open spec fn is_current(marker: Option<Vec<u8>>) -> bool {
        marker matches Some(value) && value@ == encode_utf8(CURRENT_STATUS_INDEX_VERSION@)
    }

    /// What a reply comes to.
    pub open spec fn advances(self, before: RebuildGate, reply: GateReply, step: GateStep) -> bool {
        match reply {
            GateReply::Marker(marker) => match marker {
                Err(report) => {
                    &&& self.wait == GateWait::Nothing
                    &&& step matches GateStep::Failed { error }
                    &&& txn::is_reported(
                        error,
                        "Etcd status index marker lookup failed"@,
                        report@,
                    )
                },
                Ok(value) => if before.wait == GateWait::MarkerUnderLock {
                    &&& self.wait == GateWait::Nothing
                    &&& if Self::is_current(value) {
                        step is ReleaseAndFinish
                    } else {
                        step is Rebuild
                    }
                } else if Self::is_current(value) {
                    self.wait == GateWait::Nothing && step is Done
                } else if before.wait == GateWait::Marker {
                    &&& self.wait == GateWait::Lock
                    &&& step matches GateStep::TryLock { lock_key, ttl_seconds }
                    &&& lock_key@ == self.lock_key()
                    &&& ttl_seconds == STATUS_INDEX_REBUILD_LOCK_TTL_SECS
                } else {
                    &&& self.wait == GateWait::LockWhileWaiting
                    &&& self.deadline_ms == before.deadline_ms
                    &&& step matches GateStep::ReadLock { key }
                    &&& key@ == encode_utf8(self.lock_key())
                },
            },
            GateReply::LockTried { now_ms, acquired } => match acquired {
                Err(error) => self.wait == GateWait::Nothing && step == (GateStep::Failed { error }),
                Ok(true) => self.reads_marker(step, GateWait::MarkerUnderLock),
                Ok(false) => {
                    &&& self.reads_marker(step, GateWait::MarkerWhileWaiting)
                    &&& self.deadline_ms == now_ms + STATUS_INDEX_REBUILD_WAIT_TIMEOUT_MS
                },
            },
            GateReply::LockRead { now_ms, present } => match present {
                Err(report) => {
                    &&& self.wait == GateWait::Nothing
                    &&& step matches GateStep::Failed { error }
                    &&& txn::is_reported(
                        error,
                        "Etcd status index rebuild lock lookup failed"@,
                        report@,
                    )
                },
                Ok(false) => self.reads_marker(step, GateWait::Marker),
                Ok(true) => if now_ms >= before.deadline_ms {
                    &&& self.wait == GateWait::Nothing
                    &&& step matches GateStep::Failed { error }
                    &&& error.is_internal(
                        "timed out waiting for concurrent status index rebuild"@,
                    )
                } else {
                    &&& self.wait == GateWait::Pause
                    &&& self.deadline_ms == before.deadline_ms
                    &&& step == (GateStep::Sleep { wait_ms: STATUS_INDEX_REBUILD_POLL_MS })
                },
            },
            GateReply::Rested => {
                &&& self.reads_marker(step, GateWait::MarkerWhileWaiting)
                &&& self.deadline_ms == before.deadline_ms
            },
        }
    }

    /// Takes a reply and says what to do next.
    pub fn on_reply(&mut self, reply: GateReply) -> (step: GateStep)
        requires
            old(self).awaits(reply),
            reply matches GateReply::LockTried { now_ms, .. } ==> now_ms
                + STATUS_INDEX_REBUILD_WAIT_TIMEOUT_MS <= u64::MAX,
        ensures
            final(self).prefix == old(self).prefix,
            final(self).advances(*old(self), reply, step),
    {
        match reply {
            GateReply::Marker(marker) => match marker {
                Err(report) => {
                    self.wait = GateWait::Nothing;
                    GateStep::Failed {
                        error: reported(
                            "Etcd status index marker lookup failed",
                            report.as_str(),
                        ),
                    }
                },
                Ok(value) => {
                    let current = match &value {
                        Some(bytes) => bytes_equal(
                            bytes.as_slice(),
                            CURRENT_STATUS_INDEX_VERSION.as_bytes(),
                        ),
                        None => false,
                    };
                    assert(current == Self::is_current(value));
                    match self.wait {
                        GateWait::MarkerUnderLock => {
                            self.wait = GateWait::Nothing;
                            if current {
                                GateStep::ReleaseAndFinish
                            } else {
                                GateStep::Rebuild
                            }
                        },
                        GateWait::Marker => {
                            if current {
                                self.wait = GateWait::Nothing;
                                GateStep::Done
                            } else {
                                self.wait = GateWait::Lock;
                                GateStep::TryLock {
                                    lock_key: timeline_status_index_rebuild_lock_key(
                                        self.prefix.as_str(),
                                    ),
                                    ttl_seconds: STATUS_INDEX_REBUILD_LOCK_TTL_SECS,
                                }
                            }
                        },
                        _ => {
                            if current {
                                self.wait = GateWait::Nothing;
                                GateStep::Done
                            } else {
                                self.wait = GateWait::LockWhileWaiting;
                                let key = timeline_status_index_rebuild_lock_key(
                                    self.prefix.as_str(),
                                );
                                GateStep::ReadLock { key: key_bytes(key.as_str()) }
                            }
                        },
                    }
                },
            },
            GateReply::LockTried { now_ms, acquired } => match acquired {
                Err(error) => {
                    self.wait = GateWait::Nothing;
                    GateStep::Failed { error }
                },
                Ok(got) => {
                    if got {
                        self.read_marker(GateWait::MarkerUnderLock)
                    } else {
                        self.deadline_ms = now_ms + STATUS_INDEX_REBUILD_WAIT_TIMEOUT_MS;
                        self.read_marker(GateWait::MarkerWhileWaiting)
                    }
                },
            },
            GateReply::LockRead { now_ms, present } => match present {
                Err(report) => {
                    self.wait = GateWait::Nothing;
                    GateStep::Failed {
                        error: reported(
                            "Etcd status index rebuild lock lookup failed",
                            report.as_str(),
                        ),
                    }
                },
                Ok(held) => {
                    if !held {
                        self.read_marker(GateWait::Marker)
                    } else if now_ms >= self.deadline_ms {
                        self.wait = GateWait::Nothing;
                        GateStep::Failed {
                            error: internal(
                                "timed out waiting for concurrent status index rebuild",
                            ),
                        }
                    } else {
                        self.wait = GateWait::Pause;
                        GateStep::Sleep { wait_ms: STATUS_INDEX_REBUILD_POLL_MS }
                    }
                },
            },
            GateReply::Rested => self.read_marker(GateWait::MarkerWhileWaiting),
        }
    }
}

/// Nothing of a rebuild happens without the lock: each of its transactions is guarded by the fence.
pub proof fn rebuilds_are_fenced(run: RebuildRun, row: RouteRow, txn: Transaction)
    requires
        run.cleans_up(txn) || run.indexes_row(row, txn) || run.publishes(txn),
    ensures
        txn@.conditions.contains(run.fence.condition()),
{
    assert(txn@.conditions[0] == run.fence.condition());
}

/// A rebuild scans the timelines by thirty-two from the first one on, right behind the last row each
/// time, and indexes one row after the other. It declares the indexes current exactly where a scan
/// finds no more, and is done only once that is written.
pub proof fn rebuilds_index_every_timeline(
    before: RebuildRun,
    after: RebuildRun,
    reply: RebuildReply,
    step: RebuildStep,
)
    requires
        before.valid(),
        before.awaits(reply),
        after.same_task(before),
        after.advances(before, reply, step),
    ensures
        step is Done <==> before.wait == RebuildWait::MarkerWritten && (
        reply matches RebuildReply::Committed(Ok(true))),
        after.wait == RebuildWait::MarkerWritten ==> (reply matches RebuildReply::RoutePage(Ok(
            rows,
        )) && rows@.len() == 0),
        step matches RebuildStep::ScanRoutes { start, end, limit } ==> {
            &&& limit == 32
            &&& end@ == ranges::range_end(encode_utf8(keys::route_prefix_text(before.prefix@)))
            &&& if before.wait == RebuildWait::Cleanup {
                start@ == encode_utf8(keys::route_prefix_text(before.prefix@))
            } else {
                after.rows@.len() > 0 ==> start@ == after.rows@.last().key@.push(0)
            }
        },
        after.wait == RebuildWait::RowIndexed ==> {
            &&& 0 < after.at <= after.rows@.len()
            &&& after.rows@[after.at - 1].record matches Ok(record)
            &&& record.schema_version == 1
            &&& step matches RebuildStep::Commit { txn }
            &&& after.indexes_row(after.rows@[after.at - 1], txn)
            &&& if reply is RoutePage {
                after.at == 1
            } else {
                after.at == before.at + 1 && after.rows == before.rows
            }
        },
        (reply matches RebuildReply::Committed(Ok(false))) && before.wait
            == RebuildWait::RowIndexed ==> step is CheckLock,
        (reply matches RebuildReply::Committed(Ok(false))) && before.wait
            != RebuildWait::RowIndexed ==> step is Failed,
        (reply matches RebuildReply::LockOwned(Ok(false))) ==> step is Failed,
{
}

/// The indexes are built anew only under the lock, and only where the marker does not say that they
/// are of the second version. Whoever does not get the lock waits two minutes at most, a tenth of a
/// second at a time, and tries for the lock again once it is gone.
pub proof fn indexes_are_rebuilt_under_the_lock(
    before: RebuildGate,
    after: RebuildGate,
    reply: GateReply,
    step: GateStep,
)
    requires
        before.awaits(reply),
        after.prefix == before.prefix,
        after.advances(before, reply, step),
    ensures
        ({
            let current = reply matches GateReply::Marker(Ok(Some(value))) && value@
                == encode_utf8("2"@);
            let read = reply matches GateReply::Marker(Ok(_));
            &&& step is Rebuild <==> before.wait == GateWait::MarkerUnderLock && read && !current
            &&& step is ReleaseAndFinish <==> before.wait == GateWait::MarkerUnderLock && current
            &&& step is Done <==> before.wait != GateWait::MarkerUnderLock && current
        }),
        after.wait == GateWait::MarkerUnderLock ==> (reply matches GateReply::LockTried {
            acquired: Ok(true),
            ..
        }),
        step matches GateStep::TryLock { ttl_seconds, .. } ==> ttl_seconds == 120,
        (reply matches GateReply::LockTried { now_ms, acquired: Ok(false) }) ==> after.deadline_ms
            == reply->LockTried_now_ms + 120_000,
        (reply matches GateReply::LockRead { present: Ok(true), .. }) ==> (if reply->LockRead_now_ms
            >= before.deadline_ms {
            step is Failed
        } else {
            step == (GateStep::Sleep { wait_ms: 100 }) && after.deadline_ms == before.deadline_ms
        }),
        (reply matches GateReply::LockRead { present: Ok(false), .. }) ==> after.wait
            == GateWait::Marker,
        reply is Rested ==> after.wait == GateWait::MarkerWhileWaiting && after.deadline_ms
            == before.deadline_ms,
{
}

/// The indexes are declared current, and the lock is given up with it, in one write that holds only
/// under the lock. A row that could not be written is looked at again once the lock was found to be
/// held, with nothing skipped; a lost lock ends the rebuild.
pub proof fn rebuilds_end_under_the_lock(
    before: RebuildRun,
    after: RebuildRun,
    reply: RebuildReply,
    step: RebuildStep,
)
    requires
        before.valid(),
        before.awaits(reply),
        after.same_task(before),
        after.advances(before, reply, step),
    ensures
        after.wait == RebuildWait::MarkerWritten ==> {
            &&& step matches RebuildStep::Commit { txn }
            &&& txn@.conditions.contains(before.fence.condition())
            &&& txn@.operations.contains(
                OperationView::Put {
                    key: encode_utf8(keys::timeline_status_index_marker_key_text(before.prefix@)),
                    value: PayloadView::Bytes(encode_utf8("2"@)),
                    lease: None,
                },
            )
            &&& txn@.operations.contains(
                OperationView::Delete { key: encode_utf8(before.fence.key@) },
            )
        },
        step is CheckLock <==> before.wait == RebuildWait::RowIndexed && (
        reply matches RebuildReply::Committed(Ok(false))),
        step is CheckLock ==> after.rows@ == before.rows@ && after.at == before.at,
        (reply matches RebuildReply::LockOwned(Ok(true))) ==> after.rows@ == before.rows@,
        (reply matches RebuildReply::LockOwned(Ok(false))) || (
        reply matches RebuildReply::LockOwned(Err(_))) ==> step is Failed,
        (reply matches RebuildReply::Committed(Ok(false))) && before.wait
            != RebuildWait::RowIndexed ==> step is Failed,
{
    if after.wait == RebuildWait::MarkerWritten {
        if let RebuildStep::Commit { txn } = step {
            assert(txn@.conditions[0] == before.fence.condition());
            let marker = txn@.operations[0];
            let lock = txn@.operations[1];
            assert(txn@.operations.contains(marker) && txn@.operations.contains(lock));
        }
    }
}

} // verus!
