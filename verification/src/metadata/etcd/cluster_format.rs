//! The format of a metadata prefix: which workers may use it.

use vstd::prelude::*;
use vstd::slice::*;
use vstd::utf8::*;

use crate::error::{internal, TsoError};
use crate::metadata::etcd::lease_lock::bytes_equal;
use crate::metadata::etcd::txn;
use crate::metadata::etcd::txn::{
    key_bytes, put, reported, written_at, Condition, ConditionView, InstanceIdentityLeaseRecord,
    Operation, OperationView, Payload, PayloadView, Transaction,
};
use crate::metadata::keys;
use crate::metadata::keys::{
    cluster_format_key, cluster_prefix, cluster_timestamp_layout_key, generator_prefix,
    legacy_request_prefix, request_prefix, route_prefix, timeline_status_index_marker_key,
    timeline_status_index_prefix,
};
use crate::metadata::types::CURRENT_CLUSTER_FORMAT_VERSION;
use crate::text;
use crate::text::{decimal_text, join4, join5, text_from_utf8};

verus! {

pub const CLUSTER_FORMAT_ATTEMPTS: u32 = 8;

/// The format of an identity, as it is reported.
pub open spec fn format_note(identity: InstanceIdentityLeaseRecord) -> Seq<char> {
    identity.worker_id@ + ":"@ + identity.instance_id@ + "=v"@ + text::decimal(
        identity.cluster_format_version as nat,
    )
}

/// The formats other than the current one, separated by commas.
pub open spec fn other_formats(identities: Seq<InstanceIdentityLeaseRecord>) -> Seq<char>
    decreases identities.len(),
{
    if identities.len() == 0 {
        Seq::empty()
    } else {
        let before = other_formats(identities.drop_last());
        let last = identities.last();
        if last.cluster_format_version == CURRENT_CLUSTER_FORMAT_VERSION {
            before
        } else if all_current(identities.drop_last()) {
            format_note(last)
        } else {
            before + ", "@ + format_note(last)
        }
    }
}

/// Every identity has the current format.
pub open spec fn all_current(identities: Seq<InstanceIdentityLeaseRecord>) -> bool {
    forall|i: int|
        0 <= i < identities.len() ==> (#[trigger] identities[i]).cluster_format_version
            == CURRENT_CLUSTER_FORMAT_VERSION
}

/// What looking at the formats of the active workers comes to.
pub open spec fn compares_formats(
    identities: Seq<InstanceIdentityLeaseRecord>,
    result: Result<(), TsoError>,
) -> bool {
    match result {
        Ok(()) => all_current(identities),
        Err(error) => !all_current(identities) && error.is_internal(
            "active workers use an incompatible cluster format; expected v"@ + text::decimal(
                CURRENT_CLUSTER_FORMAT_VERSION as nat,
            ) + ", observed ["@ + other_formats(identities)
                + "]. Quiesce traffic, stop every old worker, wait for identity leases to expire, then start the new version"@,
        ),
    }
}

/// A worker may start exactly where every active worker has the second format. An identity of
/// another one is shown in the refusal.
pub proof fn workers_of_one_format_run_together(
    identities: Seq<InstanceIdentityLeaseRecord>,
    result: Result<(), TsoError>,
)
    requires
        compares_formats(identities, result),
    ensures
        result is Ok <==> forall|i: int|
            0 <= i < identities.len() ==> (#[trigger] identities[i]).cluster_format_version == 2,
        identities.len() > 0 && identities.last().cluster_format_version != 2
            ==> format_note(identities.last()).is_suffix_of(other_formats(identities)),
{
    if identities.len() > 0 && identities.last().cluster_format_version != 2 {
        let note = format_note(identities.last());
        let before = other_formats(identities.drop_last());
        assert(note.is_suffix_of(note));
        assert(note.is_suffix_of(before + ", "@ + note));
    }
}

/// Workers of another format must be gone before this one starts.
pub fn active_identity_formats_are_compatible(identities: &[InstanceIdentityLeaseRecord]) -> (
    result: Result<(), TsoError>)
    ensures
        compares_formats(identities@, result),
        match result {
            Ok(()) => all_current(identities@),
            Err(error) => !all_current(identities@) && error.is_internal(
                "active workers use an incompatible cluster format; expected v"@ + text::decimal(
                    CURRENT_CLUSTER_FORMAT_VERSION as nat,
                ) + ", observed ["@ + other_formats(identities@)
                    + "]. Quiesce traffic, stop every old worker, wait for identity leases to expire, then start the new version"@,
            ),
        },
{
    let mut notes = String::new();
    let mut compatible = true;
    let mut i: usize = 0;
    assert(identities@.take(0) =~= Seq::<InstanceIdentityLeaseRecord>::empty());
    assert(notes@ =~= Seq::<char>::empty());
    while i < identities.len()
        invariant
            i <= identities@.len(),
            compatible == all_current(identities@.take(i as int)),
            notes@ == other_formats(identities@.take(i as int)),
        decreases identities@.len() - i,
    {
        let identity = &identities[i];
        let ghost seen = identities@.take(i as int);
        let ghost now = identities@.take(i + 1);
        assert(now.drop_last() =~= seen);
        assert(now.last() == identities@[i as int]);
        if identity.cluster_format_version != CURRENT_CLUSTER_FORMAT_VERSION {
            let note = join5(
                identity.worker_id.as_str(),
                ":",
                identity.instance_id.as_str(),
                "=v",
                decimal_text(identity.cluster_format_version as u64).as_str(),
            );
            if compatible {
                notes = note;
                compatible = false;
            } else {
                notes.append(", ");
                notes.append(note.as_str());
            }
            assert(now[i as int].cluster_format_version != CURRENT_CLUSTER_FORMAT_VERSION);
            assert(!all_current(now));
        } else {
            assert(all_current(seen) ==> all_current(now)) by {
                if all_current(seen) {
                    assert forall|k: int| 0 <= k < now.len() implies (
                    #[trigger] now[k]).cluster_format_version == CURRENT_CLUSTER_FORMAT_VERSION by {
                        if k < i {
                            assert(now[k] == seen[k]);
                        }
                    }
                }
            }
            assert(all_current(now) ==> all_current(seen)) by {
                if all_current(now) {
                    assert forall|k: int| 0 <= k < seen.len() implies (
                    #[trigger] seen[k]).cluster_format_version == CURRENT_CLUSTER_FORMAT_VERSION by {
                        assert(now[k] == seen[k]);
                    }
                }
            }
        }
        i = i + 1;
    }
    assert(identities@.take(i as int) =~= identities@);
    if compatible {
        return Ok(());
    }
    Err(
        TsoError::Internal(
            join5(
                "active workers use an incompatible cluster format; expected v",
                decimal_text(CURRENT_CLUSTER_FORMAT_VERSION as u64).as_str(),
                ", observed [",
                notes.as_str(),
                "]. Quiesce traffic, stop every old worker, wait for identity leases to expire, then start the new version",
            ),
        ),
    )
}

/// A timestamp layout: how it is written, how it is shown, and whether it is the default one. A
/// layout has one written form.
#[derive(Debug)]
pub struct LayoutDescription {
    pub encoded: Vec<u8>,
    pub shown: String,
    pub is_default: bool,
}

/// A row under the cluster prefix. `layout` is what the value decodes to as a timestamp layout.
#[derive(Debug)]
pub struct ClusterRow {
    pub key: Vec<u8>,
    pub value: Vec<u8>,
    pub layout: Result<LayoutDescription, String>,
}

/// Where a key stands among the rows; the number of rows where it does not.
pub open spec fn row_of(rows: Seq<ClusterRow>, key: Seq<u8>) -> nat
    decreases rows.len(),
{
    if rows.len() == 0 || rows[0].key@ == key {
        0
    } else {
        1 + row_of(rows.drop_first(), key)
    }
}

fn find_row(rows: &Vec<ClusterRow>, key: &[u8]) -> (at: usize)
    ensures
        at == row_of(rows@, key@),
        at <= rows@.len(),
{
    let mut i: usize = 0;
    assert(rows@.skip(0) =~= rows@);
    while i < rows.len()
        invariant
            i <= rows@.len(),
            row_of(rows@, key@) == i + row_of(rows@.skip(i as int), key@),
        decreases rows@.len() - i,
    {
        let ghost rest = rows@.skip(i as int);
        assert(rest[0] == rows@[i as int]);
        assert(rest.drop_first() =~= rows@.skip(i + 1));
        if bytes_equal(rows[i].key.as_slice(), key) {
            return i;
        }
        i = i + 1;
    }
    i
}

/// What the start waits for.
#[derive(Debug, Clone, Copy, PartialEq, Eq, Structural)]
pub enum FormatWait {
    Cluster,
    /// Whether there is data under one of the prefixes that hold timestamps.
    Data { probe: u32 },
    Migrated,
    Created,
    Nothing,
}

/// What it asks for.
pub enum FormatStep {
    ReadCluster { prefix: Vec<u8> },
    /// Read the keys with this prefix, so many at most.
    ProbeData { prefix: Vec<u8>, limit: i64 },
    Commit { txn: Transaction },
    Done,
    Failed { error: TsoError },
}

/// What it is answered.
pub enum FormatReply {
    Cluster(Result<Vec<ClusterRow>, String>),
    /// The keys that were found.
    Data(Result<Vec<Vec<u8>>, String>),
    Committed(Result<bool, String>),
}

/// A start that makes sure of the format.
pub struct ClusterFormatRun {
    pub prefix: String,
    pub version: u32,
    pub layout: LayoutDescription,
    /// How many attempts have begun.
    pub attempts: u32,
    pub wait: FormatWait,
}

/// What the rows under the cluster prefix mean for a start.
pub enum FormatVerdict {
    Current,
    Migrate,
    Create,
    /// Create, unless there is data already.
    CreateIfEmpty,
    Refuse { error: TsoError },
}

impl ClusterFormatRun {
    pub open spec fn valid(self) -> bool {
        &&& self.attempts <= CLUSTER_FORMAT_ATTEMPTS
        &&& self.wait matches FormatWait::Data { probe } ==> probe <= 4
    }

    pub open spec fn awaits(self, reply: FormatReply) -> bool {
        match self.wait {
            FormatWait::Cluster => reply is Cluster,
            FormatWait::Data { .. } => reply is Data,
            FormatWait::Migrated | FormatWait::Created => reply is Committed,
            FormatWait::Nothing => false,
        }
    }

    pub open spec fn same_task(self, other: ClusterFormatRun) -> bool {
        self.prefix == other.prefix && self.version == other.version && self.layout == other.layout
    }

    pub open spec fn is_failed(self, step: FormatStep) -> bool {
        step is Failed && self.wait == FormatWait::Nothing
    }

    pub open spec fn format_key(self) -> Seq<u8> {
        encode_utf8(keys::cluster_format_key_text(self.prefix@))
    }

    pub open spec fn layout_key(self) -> Seq<u8> {
        encode_utf8(keys::cluster_timestamp_layout_key_text(self.prefix@))
    }

    /// The version, as it is written.
    pub open spec fn expected(self) -> Seq<char> {
        text::decimal(self.version as nat)
    }

    /// What a stored layout means under the current format: it must be there, readable, and the one
    /// that is configured.
    pub open spec fn judges_layout(
        self,
        stored: Option<Result<LayoutDescription, String>>,
        verdict: FormatVerdict,
    ) -> bool {
        match stored {
            None => verdict matches FormatVerdict::Refuse { error } && error.is_internal(
                "cluster format v3 is missing cluster/timestamp_layout"@,
            ),
            Some(Err(report)) => verdict matches FormatVerdict::Refuse { error }
                && txn::is_reported(error, "Etcd timestamp layout is invalid"@, report@),
            Some(Ok(layout)) => if layout.encoded@ == self.layout.encoded@ {
                verdict is Current
            } else {
                verdict matches FormatVerdict::Refuse { error } && error.is_internal(
                    "timestamp layout mismatch: configured "@ + self.layout.shown@
                        + ", metadata prefix contains "@ + layout.shown@,
                )
            },
        }
    }

    /// What the rows mean.
    pub open spec fn judges(self, rows: Seq<ClusterRow>, verdict: FormatVerdict) -> bool {
        let format_at = row_of(rows, self.format_key()) as int;
        let layout_at = row_of(rows, self.layout_key()) as int;
        let stored = if layout_at < rows.len() {
            Some(rows[layout_at].layout)
        } else {
            None
        };
        if format_at < rows.len() {
            let value = rows[format_at].value@;
            let actual = decode_utf8(value);
            if !valid_utf8(value) {
                verdict matches FormatVerdict::Refuse { error } && txn::is_reported(
                    error,
                    "Etcd cluster format marker is not valid UTF-8"@,
                    text::utf8_fault(value),
                )
            } else if actual == self.expected() {
                self.judges_layout(stored, verdict)
            } else if actual == "2"@ && stored is None && self.layout.is_default {
                verdict is Migrate
            } else if actual == "2"@ && !self.layout.is_default {
                verdict matches FormatVerdict::Refuse { error } && error.is_internal(
                    "custom timestamp layouts require a new, empty metadata prefix; an existing v2 prefix can only migrate to the default layout"@,
                )
            } else {
                verdict matches FormatVerdict::Refuse { error } && error.is_internal(
                    "cluster format mismatch: binary requires v"@ + self.expected()
                        + ", metadata prefix contains v"@ + actual
                        + "; downgrade and mixed-format startup are forbidden"@,
                )
            }
        } else if stored is Some {
            verdict matches FormatVerdict::Refuse { error } && error.is_internal(
                "metadata prefix contains a timestamp layout without a cluster format marker"@,
            )
        } else if self.layout.is_default {
            verdict is Create
        } else {
            verdict is CreateIfEmpty
        }
    }

    fn judge(&self, rows: &Vec<ClusterRow>) -> (verdict: FormatVerdict)
        ensures
            self.judges(rows@, verdict),
    {
        let format_at: usize = find_row(
            rows,
            key_bytes(cluster_format_key(self.prefix.as_str()).as_str()).as_slice(),
        );
        let layout_at: usize = find_row(
            rows,
            key_bytes(cluster_timestamp_layout_key(self.prefix.as_str()).as_str()).as_slice(),
        );
        if format_at < rows.len() {
            let actual = match text_from_utf8(slice_to_vec(rows[format_at].value.as_slice())) {
                Err(fault) => {
                    return FormatVerdict::Refuse {
                        error: reported(
                            "Etcd cluster format marker is not valid UTF-8",
                            fault.as_str(),
                        ),
                    };
                },
                Ok(actual) => actual,
            };
            let expected = decimal_text(self.version as u64);
            if actual == expected {
                if layout_at >= rows.len() {
                    return FormatVerdict::Refuse {
                        error: internal("cluster format v3 is missing cluster/timestamp_layout"),
                    };
                }
                return match &rows[layout_at].layout {
                    Err(report) => FormatVerdict::Refuse {
                        error: reported("Etcd timestamp layout is invalid", report.as_str()),
                    },
                    Ok(stored) => {
                        if bytes_equal(stored.encoded.as_slice(), self.layout.encoded.as_slice()) {
                            FormatVerdict::Current
                        } else {
                            FormatVerdict::Refuse {
                                error: TsoError::Internal(
                                    join4(
                                        "timestamp layout mismatch: configured ",
                                        self.layout.shown.as_str(),
                                        ", metadata prefix contains ",
                                        stored.shown.as_str(),
                                    ),
                                ),
                            }
                        }
                    },
                };
            }
            let second = actual == "2".to_owned();
            if second && layout_at >= rows.len() && self.layout.is_default {
                return FormatVerdict::Migrate;
            }
            if second && !self.layout.is_default {
                return FormatVerdict::Refuse {
                    error: internal(
                        "custom timestamp layouts require a new, empty metadata prefix; an existing v2 prefix can only migrate to the default layout",
                    ),
                };
            }
            return FormatVerdict::Refuse {
                error: TsoError::Internal(
                    join5(
                        "cluster format mismatch: binary requires v",
                        expected.as_str(),
                        ", metadata prefix contains v",
                        actual.as_str(),
                        "; downgrade and mixed-format startup are forbidden",
                    ),
                ),
            };
        }
        if layout_at < rows.len() {
            return FormatVerdict::Refuse {
                error: internal(
                    "metadata prefix contains a timestamp layout without a cluster format marker",
                ),
            };
        }
        if self.layout.is_default {
            FormatVerdict::Create
        } else {
            FormatVerdict::CreateIfEmpty
        }
    }

    /// The format and the layout are written together.
    pub open spec fn writes(self) -> Seq<OperationView> {
        seq![
            OperationView::Put {
                key: self.format_key(),
                value: PayloadView::Bytes(encode_utf8(self.expected())),
                lease: None,
            },
            OperationView::Put {
                key: self.layout_key(),
                value: PayloadView::Bytes(self.layout.encoded@),
                lease: None,
            },
        ]
    }

    fn write_operations(&self) -> (operations: Vec<Operation>)
        ensures
            txn::operation_views(operations@) == self.writes(),
    {
        let format_key = cluster_format_key(self.prefix.as_str());
        let layout_key = cluster_timestamp_layout_key(self.prefix.as_str());
        let expected = decimal_text(self.version as u64);
        let mut operations: Vec<Operation> = Vec::new();
        operations.push(put(format_key.as_str(), Payload::Bytes(key_bytes(expected.as_str()))));
        operations.push(
            put(
                layout_key.as_str(),
                Payload::Bytes(slice_to_vec(self.layout.encoded.as_slice())),
            ),
        );
        assert(txn::operation_views(operations@) =~= self.writes());
        operations
    }

    /// A prefix of the second version is brought to the current one, where nobody else was faster.
    pub open spec fn migrates(self, step: FormatStep) -> bool {
        &&& self.wait == FormatWait::Migrated
        &&& step matches FormatStep::Commit { txn }
        &&& txn@.conditions == seq![
            ConditionView::Value { key: self.format_key(), value: encode_utf8("2"@) },
            ConditionView::ModRevision { key: self.layout_key(), revision: 0 },
        ]
        &&& txn@.operations == self.writes()
    }

    /// A new prefix gets its format, where nobody else was faster.
    pub open spec fn creates(self, step: FormatStep) -> bool {
        &&& self.wait == FormatWait::Created
        &&& step matches FormatStep::Commit { txn }
        &&& txn@.conditions == seq![
            ConditionView::ModRevision { key: self.format_key(), revision: 0 },
            ConditionView::ModRevision { key: self.layout_key(), revision: 0 },
        ]
        &&& txn@.operations == self.writes()
    }

    fn migrate(&mut self) -> (step: FormatStep)
        requires
            old(self).valid(),
        ensures
            final(self).valid(),
            final(self).same_task(*old(self)),
            final(self).attempts == old(self).attempts,
            final(self).migrates(step),
    {
        self.wait = FormatWait::Migrated;
        let format_key = cluster_format_key(self.prefix.as_str());
        let layout_key = cluster_timestamp_layout_key(self.prefix.as_str());
        let mut conditions: Vec<Condition> = Vec::new();
        conditions.push(
            Condition::Value { key: key_bytes(format_key.as_str()), value: key_bytes("2") },
        );
        conditions.push(written_at(layout_key.as_str(), 0));
        let txn = Transaction { conditions, operations: self.write_operations() };
        assert(txn@.conditions =~= seq![
            ConditionView::Value { key: self.format_key(), value: encode_utf8("2"@) },
            ConditionView::ModRevision { key: self.layout_key(), revision: 0 },
        ]);
        FormatStep::Commit { txn }
    }

    fn create(&mut self) -> (step: FormatStep)
        requires
            old(self).valid(),
        ensures
            final(self).valid(),
            final(self).same_task(*old(self)),
            final(self).attempts == old(self).attempts,
            final(self).creates(step),
    {
        self.wait = FormatWait::Created;
        let format_key = cluster_format_key(self.prefix.as_str());
        let layout_key = cluster_timestamp_layout_key(self.prefix.as_str());
        let mut conditions: Vec<Condition> = Vec::new();
        conditions.push(written_at(format_key.as_str(), 0));
        conditions.push(written_at(layout_key.as_str(), 0));
        let txn = Transaction { conditions, operations: self.write_operations() };
        assert(txn@.conditions =~= seq![
            ConditionView::ModRevision { key: self.format_key(), revision: 0 },
            ConditionView::ModRevision { key: self.layout_key(), revision: 0 },
        ]);
        FormatStep::Commit { txn }
    }

    /// The prefixes that hold timestamps, in the order in which they are looked at.
    pub open spec fn probed_prefix(self, probe: u32) -> Seq<char> {
        if probe == 0 {
            keys::route_prefix_text(self.prefix@)
        } else if probe == 1 {
            keys::generator_prefix_text(self.prefix@)
        } else if probe == 2 {
            keys::request_prefix_text(self.prefix@)
        } else if probe == 3 {
            keys::legacy_request_prefix_text(self.prefix@)
        } else {
            keys::timeline_status_index_prefix_text(self.prefix@)
        }
    }

    /// It looks for data under a prefix. Of the status index the marker alone does not count, so two
    /// keys are read there.
    pub open spec fn probes(self, probe: u32, step: FormatStep) -> bool {
        &&& self.wait == (FormatWait::Data { probe })
        &&& step matches FormatStep::ProbeData { prefix, limit }
        &&& prefix@ == encode_utf8(self.probed_prefix(probe))
        &&& limit == if probe < 4 {
            1int
        } else {
            2int
        }
    }

    fn probe_data(&mut self, probe: u32) -> (step: FormatStep)
        requires
            old(self).valid(),
            probe <= 4,
        ensures
            final(self).valid(),
            final(self).same_task(*old(self)),
            final(self).attempts == old(self).attempts,
            final(self).probes(probe, step),
    {
        self.wait = FormatWait::Data { probe };
        let prefix = if probe == 0 {
            route_prefix(self.prefix.as_str())
        } else if probe == 1 {
            generator_prefix(self.prefix.as_str())
        } else if probe == 2 {
            request_prefix(self.prefix.as_str())
        } else if probe == 3 {
            legacy_request_prefix(self.prefix.as_str())
        } else {
            timeline_status_index_prefix(self.prefix.as_str())
        };
        let limit: i64 = if probe < 4 {
            1
        } else {
            2
        };
        FormatStep::ProbeData { prefix: key_bytes(prefix.as_str()), limit }
    }

    fn fail(&mut self, error: TsoError) -> (step: FormatStep)
        requires
            old(self).valid(),
        ensures
            final(self).valid(),
            final(self).same_task(*old(self)),
            final(self).is_failed(step),
            step == (FormatStep::Failed { error }),
    {
        self.wait = FormatWait::Nothing;
        FormatStep::Failed { error }
    }

    /// It looks at the prefix once more, or gives up after the last attempt.
    pub open spec fn tries_again(self, before: ClusterFormatRun, step: FormatStep) -> bool {
        if before.attempts >= CLUSTER_FORMAT_ATTEMPTS {
            self.is_failed(step) && step->error.is_internal(
                "cluster format marker remained contended after 8 attempts"@,
            )
        } else {
            &&& self.wait == FormatWait::Cluster
            &&& self.attempts == before.attempts + 1
            &&& step matches FormatStep::ReadCluster { prefix }
            &&& prefix@ == encode_utf8(keys::cluster_prefix_text(self.prefix@))
        }
    }

    fn try_again(&mut self) -> (step: FormatStep)
        requires
            old(self).valid(),
        ensures
            final(self).valid(),
            final(self).same_task(*old(self)),
            final(self).tries_again(*old(self), step),
    {
        if self.attempts >= CLUSTER_FORMAT_ATTEMPTS {
            return self.fail(
                internal("cluster format marker remained contended after 8 attempts"),
            );
        }
        self.attempts = self.attempts + 1;
        self.wait = FormatWait::Cluster;
        FormatStep::ReadCluster {
            prefix: key_bytes(cluster_prefix(self.prefix.as_str()).as_str()),
        }
    }

    /// Begins to make sure of the format.
    pub fn start(prefix: &str, version: u32, layout: LayoutDescription) -> (begun: (
        Self,
        FormatStep,
    ))
        ensures
            begun.0.valid(),
            begun.0.prefix@ == prefix@,
            begun.0.version == version,
            begun.0.layout == layout,
            begun.0.attempts == 1,
            begun.0.wait == FormatWait::Cluster,
            begun.1 matches FormatStep::ReadCluster { prefix: cluster } && cluster@ == encode_utf8(
                keys::cluster_prefix_text(prefix@),
            ),
    {
        let mut run = ClusterFormatRun {
            prefix: prefix.to_owned(),
            version,
            layout,
            attempts: 0,
            wait: FormatWait::Nothing,
        };
        let step = run.try_again();
        (run, step)
    }

    /// Begins to make sure of the format for a process that was configured with a layout. A layout
    /// that is none is refused before anything is read.
    pub fn start_configured(
        prefix: &str,
        version: u32,
        configured: Result<LayoutDescription, String>,
    ) -> (begun: Result<(Self, FormatStep), TsoError>)
        ensures
            match configured {
                Err(report) => begun matches Err(error) && txn::is_reported(
                    error,
                    "invalid timestamp layout"@,
                    report@,
                ),
                Ok(layout) => begun matches Ok(both) && {
                    &&& both.0.valid()
                    &&& both.0.prefix@ == prefix@
                    &&& both.0.version == version
                    &&& both.0.layout == layout
                    &&& both.0.attempts == 1
                    &&& both.0.wait == FormatWait::Cluster
                    &&& both.1 matches FormatStep::ReadCluster { prefix: cluster } && cluster@
                        == encode_utf8(keys::cluster_prefix_text(prefix@))
                },
            },
    {
        match configured {
            Err(report) => Err(reported("invalid timestamp layout", report.as_str())),
            Ok(layout) => Ok(Self::start(prefix, version, layout)),
        }
    }

    /// What a verdict comes to.
    pub open spec fn acts_on(
        self,
        before: ClusterFormatRun,
        verdict: FormatVerdict,
        step: FormatStep,
    ) -> bool {
        match verdict {
            FormatVerdict::Current => step is Done && self.wait == FormatWait::Nothing,
            FormatVerdict::Migrate => self.attempts == before.attempts && self.migrates(step),
            FormatVerdict::Create => self.attempts == before.attempts && self.creates(step),
            FormatVerdict::CreateIfEmpty => self.attempts == before.attempts && self.probes(
                0,
                step,
            ),
            FormatVerdict::Refuse { error } => self.is_failed(step) && step->error == error,
        }
    }

    /// The keys are data: of the status index, those other than the marker.
    pub open spec fn holds_data(self, probe: u32, found: Seq<Vec<u8>>) -> bool {
        if probe < 4 {
            found.len() > 0
        } else {
            exists|i: int|
                0 <= i < found.len() && (#[trigger] found[i])@ != encode_utf8(
                    keys::timeline_status_index_marker_key_text(self.prefix@),
                )
        }
    }

    fn has_data(&self, probe: u32, found: &Vec<Vec<u8>>) -> (answer: bool)
        ensures
            answer == self.holds_data(probe, found@),
    {
        if probe < 4 {
            return found.len() > 0;
        }
        let marker = key_bytes(timeline_status_index_marker_key(self.prefix.as_str()).as_str());
        let mut i: usize = 0;
        while i < found.len()
            invariant
                i <= found@.len(),
                probe >= 4,
                marker@ == encode_utf8(keys::timeline_status_index_marker_key_text(self.prefix@)),
                forall|k: int| 0 <= k < i ==> (#[trigger] found@[k])@ == marker@,
            decreases found@.len() - i,
        {
            if !bytes_equal(found[i].as_slice(), marker.as_slice()) {
                assert(found@[i as int]@ != marker@);
                return true;
            }
            i = i + 1;
        }
        false
    }

    /// What a reply comes to.
    pub open spec fn advances(
        self,
        before: ClusterFormatRun,
        reply: FormatReply,
        step: FormatStep,
    ) -> bool {
        match reply {
            FormatReply::Cluster(read) => match read {
                Err(report) => self.is_failed(step) && txn::is_reported(
                    step->error,
                    "Etcd cluster format lookup failed"@,
                    report@,
                ),
                Ok(rows) => exists|verdict: FormatVerdict|
                    #[trigger] before.judges(rows@, verdict) && self.acts_on(
                        before,
                        verdict,
                        step,
                    ),
            },
            FormatReply::Data(read) => {
                let probe = before.wait->probe;
                match read {
                    Err(report) => self.is_failed(step) && txn::is_reported(
                        step->error,
                        if probe < 4 {
                            "Etcd timestamp data compatibility probe failed"@
                        } else {
                            "Etcd timestamp status compatibility probe failed"@
                        },
                        report@,
                    ),
                    Ok(found) => if before.holds_data(probe, found@) {
                        self.is_failed(step) && step->error.is_internal(
                            "custom timestamp layouts require a new, empty metadata prefix; existing timestamp-bearing metadata was found"@,
                        )
                    } else if probe < 4 {
                        self.attempts == before.attempts && self.probes((probe + 1) as u32, step)
                    } else {
                        self.attempts == before.attempts && self.creates(step)
                    },
                }
            },
            FormatReply::Committed(committed) => match committed {
                Err(report) => self.is_failed(step) && txn::is_reported(
                    step->error,
                    if before.wait == FormatWait::Migrated {
                        "Etcd cluster format migration failed"@
                    } else {
                        "Etcd cluster format create failed"@
                    },
                    report@,
                ),
                Ok(true) => step is Done && self.wait == FormatWait::Nothing,
                Ok(false) => self.tries_again(before, step),
            },
        }
    }

    /// Takes a reply and says what to ask for next.
    pub fn on_reply(&mut self, reply: FormatReply) -> (step: FormatStep)
        requires
            old(self).valid(),
            old(self).awaits(reply),
        ensures
            final(self).valid(),
            final(self).same_task(*old(self)),
            final(self).advances(*old(self), reply, step),
    {
        match reply {
            FormatReply::Cluster(read) => match read {
                Err(report) => {
                    let error = reported("Etcd cluster format lookup failed", report.as_str());
                    self.fail(error)
                },
                Ok(rows) => {
                    let verdict = self.judge(&rows);
                    assert(old(self).judges(rows@, verdict));
                    match verdict {
                        FormatVerdict::Current => {
                            self.wait = FormatWait::Nothing;
                            FormatStep::Done
                        },
                        FormatVerdict::Migrate => self.migrate(),
                        FormatVerdict::Create => self.create(),
                        FormatVerdict::CreateIfEmpty => self.probe_data(0),
                        FormatVerdict::Refuse { error } => self.fail(error),
                    }
                },
            },
            FormatReply::Data(read) => {
                let probe: u32 = match self.wait {
                    FormatWait::Data { probe } => probe,
                    _ => 0,
                };
                match read {
                    Err(report) => {
                        let error = if probe < 4 {
                            reported(
                                "Etcd timestamp data compatibility probe failed",
                                report.as_str(),
                            )
                        } else {
                            reported(
                                "Etcd timestamp status compatibility probe failed",
                                report.as_str(),
                            )
                        };
                        self.fail(error)
                    },
                    Ok(found) => {
                        if self.has_data(probe, &found) {
                            return self.fail(
                                internal(
                                    "custom timestamp layouts require a new, empty metadata prefix; existing timestamp-bearing metadata was found",
                                ),
                            );
                        }
                        if probe < 4 {
                            self.probe_data(probe + 1)
                        } else {
                            self.create()
                        }
                    },
                }
            },
            FormatReply::Committed(committed) => match committed {
                Err(report) => {
                    let error = match self.wait {
                        FormatWait::Migrated => reported(
                            "Etcd cluster format migration failed",
                            report.as_str(),
                        ),
                        _ => reported("Etcd cluster format create failed", report.as_str()),
                    };
                    self.fail(error)
                },
                Ok(succeeded) => {
                    if succeeded {
                        self.wait = FormatWait::Nothing;
                        FormatStep::Done
                    } else {
                        self.try_again()
                    }
                },
            },
        }
    }
}

/// A prefix is never written to while it holds another format than the second or the current one.
pub proof fn foreign_formats_are_refused(
    run: ClusterFormatRun,
    rows: Seq<ClusterRow>,
    verdict: FormatVerdict,
)
    requires
        run.judges(rows, verdict),
        row_of(rows, run.format_key()) < rows.len(),
        decode_utf8(rows[row_of(rows, run.format_key()) as int].value@) != run.expected(),
        decode_utf8(rows[row_of(rows, run.format_key()) as int].value@) != "2"@,
    ensures
        verdict is Refuse,
{
}

/// A key is found at its first row, or nowhere.
pub proof fn rows_are_found_by_their_key(rows: Seq<ClusterRow>, key: Seq<u8>)
    ensures
        row_of(rows, key) <= rows.len(),
        row_of(rows, key) < rows.len() ==> rows[row_of(rows, key) as int].key@ == key,
        forall|i: int| 0 <= i < row_of(rows, key) ==> (#[trigger] rows[i]).key@ != key,
    decreases rows.len(),
{
    if rows.len() > 0 && rows[0].key@ != key {
        let rest = rows.drop_first();
        rows_are_found_by_their_key(rest, key);
        assert forall|i: int| 0 <= i < row_of(rows, key) implies (#[trigger] rows[i]).key@
            != key by {
            if i > 0 {
                assert(rows[i] == rest[i - 1]);
            }
        }
    }
}

/// A prefix is taken as it is exactly where it holds the expected version and the configured layout.
/// It is written to only where it holds neither, or holds the second version without a layout and
/// the default layout is configured; everything else is refused.
pub proof fn prefixes_are_judged_by_their_marks(
    run: ClusterFormatRun,
    rows: Seq<ClusterRow>,
    format_at: int,
    layout_at: int,
    verdict: FormatVerdict,
)
    requires
        run.judges(rows, verdict),
        format_at == row_of(rows, run.format_key()),
        layout_at == row_of(rows, run.layout_key()),
        format_at < rows.len() ==> valid_utf8(rows[format_at].value@),
    ensures
        ({
            let marked = format_at < rows.len();
            let laid_out = layout_at < rows.len();
            let actual = decode_utf8(rows[format_at].value@);
            let expected = text::decimal(run.version as nat);
            &&& verdict is Current <==> marked && laid_out && actual == expected && (
            rows[layout_at].layout matches Ok(layout) && layout.encoded@ == run.layout.encoded@)
            &&& verdict is Migrate <==> marked && !laid_out && actual == "2"@ && actual != expected
                && run.layout.is_default
            &&& verdict is Create <==> !marked && !laid_out && run.layout.is_default
            &&& verdict is CreateIfEmpty <==> !marked && !laid_out && !run.layout.is_default
        }),
{
}

/// A start looks at a prefix eight times at most. With a layout of its own it writes only after all
/// five kinds of data were looked for and none was found; and it is done only where the prefix was
/// current or what it wrote was taken.
pub proof fn formats_are_written_with_care(
    before: ClusterFormatRun,
    after: ClusterFormatRun,
    reply: FormatReply,
    step: FormatStep,
)
    requires
        before.valid(),
        before.awaits(reply),
        after.same_task(before),
        after.advances(before, reply, step),
    ensures
        before.attempts <= 8,
        step matches FormatStep::ReadCluster { .. } ==> after.attempts == before.attempts + 1
            && after.attempts <= 8 && (reply matches FormatReply::Committed(Ok(false))),
        (reply matches FormatReply::Committed(Ok(false))) && before.attempts == 8 ==> step
            is Failed,
        (reply matches FormatReply::Committed(Ok(true))) ==> step is Done,
        step is Done ==> (reply matches FormatReply::Committed(Ok(true))) || reply is Cluster,
        (reply matches FormatReply::Data(Ok(found)) && found@.len() > 0) && before.wait->probe < 4
            ==> step is Failed,
        (reply matches FormatReply::Data(Ok(found)) && found@.len() == 0) && before.wait->probe < 4
            ==> after.wait == (FormatWait::Data { probe: (before.wait->probe + 1) as u32 }) && step
            is ProbeData,
        before.wait is Data && step is Commit ==> before.wait->probe == 4,
        before.wait == (FormatWait::Data { probe: 4 }) && (reply matches FormatReply::Data(Ok(
            found,
        )) && found@.len() == 0) ==> step is Commit && after.wait == FormatWait::Created,
        reply is Cluster && before.layout.is_default ==> !(step is ProbeData),
{
}

/// The five kinds of data are told apart by where they stand.
pub proof fn every_kind_of_data_is_looked_for(run: ClusterFormatRun)
    ensures
        run.probed_prefix(0) == keys::route_prefix_text(run.prefix@),
        run.probed_prefix(1) == keys::generator_prefix_text(run.prefix@),
        run.probed_prefix(2) == keys::request_prefix_text(run.prefix@),
        run.probed_prefix(3) == keys::legacy_request_prefix_text(run.prefix@),
        run.probed_prefix(4) == keys::timeline_status_index_prefix_text(run.prefix@),
{
}

/// Looking for data reads one key of a kind, and two of the status index, whose marker alone is no
/// data: a second key, or another one than the marker, is.
pub proof fn data_is_looked_for_key_by_key(
    run: ClusterFormatRun,
    probe: u32,
    step: FormatStep,
    found: Seq<Vec<u8>>,
)
    requires
        probe <= 4,
        run.probes(probe, step),
    ensures
        step matches FormatStep::ProbeData { prefix, limit } && prefix@ == encode_utf8(
            run.probed_prefix(probe),
        ) && limit == (if probe == 4 {
            2int
        } else {
            1int
        }),
        run.wait == (FormatWait::Data { probe }),
        probe < 4 ==> (run.holds_data(probe, found) <==> found.len() > 0),
        probe == 4 && found.len() == 1 ==> (run.holds_data(probe, found) <==> found[0]@
            != encode_utf8(keys::timeline_status_index_marker_key_text(run.prefix@))),
        probe == 4 && found.len() == 2 && found[0]@ != found[1]@ ==> run.holds_data(probe, found),
        found.len() == 0 ==> !run.holds_data(probe, found),
{
    let marker = encode_utf8(keys::timeline_status_index_marker_key_text(run.prefix@));
    if found.len() == 1 {
        assert(found[0]@ == found[0]@);
    }
    if found.len() == 2 {
        assert(found[0]@ != marker || found[1]@ != marker || found[0]@ == found[1]@);
    }
}

/// A format is written into an empty store only: where one kind of data is not found, the next is
/// looked for, and after the last the format is created. Where there is data, nothing is written.
pub proof fn formats_are_created_after_every_kind_was_looked_for(
    before: ClusterFormatRun,
    probe: u32,
    found: Result<Vec<Vec<u8>>, String>,
    after: ClusterFormatRun,
    step: FormatStep,
)
    requires
        probe <= 4,
        before.wait == (FormatWait::Data { probe }),
        after.advances(before, FormatReply::Data(found), step),
    ensures
        found is Err ==> step is Failed,
        found matches Ok(rows) && before.holds_data(probe, rows@) ==> step is Failed,
        found matches Ok(rows) && !before.holds_data(probe, rows@) && probe < 4 ==> step
            is ProbeData && after.wait == (FormatWait::Data { probe: (probe + 1) as u32 }),
        found matches Ok(rows) && !before.holds_data(probe, rows@) && probe == 4 ==> step
            is Commit && after.wait == FormatWait::Created,
        step is Failed ==> after.wait == FormatWait::Nothing,
{
}

/// What is told of the other formats of several workers is what is told of the first of them and of
/// the rest, with a comma in between where there is something to tell of both.
pub proof fn other_formats_are_told_one_by_one(
    first: Seq<InstanceIdentityLeaseRecord>,
    rest: Seq<InstanceIdentityLeaseRecord>,
)
    ensures
        (forall|i: int|
            0 <= i < first.len() ==> (#[trigger] first[i]).cluster_format_version == 2)
            ==> other_formats(first).len() == 0 && other_formats(first + rest) == other_formats(
            rest,
        ),
        (forall|i: int| 0 <= i < rest.len() ==> (#[trigger] rest[i]).cluster_format_version == 2)
            ==> other_formats(first + rest) == other_formats(first),
        (exists|i: int|
            0 <= i < first.len() && (#[trigger] first[i]).cluster_format_version != 2) && (
        exists|i: int|
            0 <= i < rest.len() && (#[trigger] rest[i]).cluster_format_version != 2)
            ==> other_formats(first + rest) == other_formats(first) + ", "@ + other_formats(rest),
        rest.len() == 1 && rest[0].cluster_format_version != 2 ==> other_formats(rest)
            == format_note(rest[0]),
    decreases first.len() + rest.len(),
{
    if first.len() > 0 && rest.len() == 0 {
        assert(first =~= first.drop_last() + seq![first.last()]);
        other_formats_are_told_one_by_one(first.drop_last(), seq![]);
        assert(first.drop_last() + seq![] =~= first.drop_last());
    }
    if rest.len() == 0 {
        assert(first + rest =~= first);
    } else {
        let less = rest.drop_last();
        assert((first + rest).drop_last() =~= first + less);
        assert((first + rest).last() == rest.last());
        other_formats_are_told_one_by_one(first, less);
        assert(forall|i: int| 0 <= i < first.len() ==> first[i] == (first + less)[i]);
        assert(forall|i: int|
            0 <= i < less.len() ==> less[i] == (first + less)[first.len() + i] && less[i]
                == rest[i]);
        assert(all_current(first + less) <==> all_current(first) && all_current(less)) by {
            if all_current(first + less) {
                assert forall|i: int| 0 <= i < first.len() implies (
                #[trigger] first[i]).cluster_format_version == CURRENT_CLUSTER_FORMAT_VERSION by {
                    assert((first + less)[i].cluster_format_version
                        == CURRENT_CLUSTER_FORMAT_VERSION);
                }
                assert forall|i: int| 0 <= i < less.len() implies (
                #[trigger] less[i]).cluster_format_version == CURRENT_CLUSTER_FORMAT_VERSION by {
                    assert((first + less)[first.len() + i].cluster_format_version
                        == CURRENT_CLUSTER_FORMAT_VERSION);
                }
            }
        }
        let a = other_formats(first);
        let b = other_formats(less);
        let note = format_note(rest.last());
        assert(a + ", "@ + b + ", "@ + note =~= a + ", "@ + (b + ", "@ + note));
        if less.len() == 0 {
            assert(first + less =~= first);
        }
    }
}

} // verus!
