//! Replacing one timeline.

use vstd::prelude::*;

use crate::error::TsoError;
use crate::metadata::etcd::json;
use crate::metadata::etcd::json::{load_timeline, Found};
use crate::metadata::etcd::status_index;
use crate::metadata::etcd::status_index::{compare_exchange_timeline_txn, recovered_revision};
use crate::metadata::etcd::txn;
use crate::metadata::etcd::txn::{cas_result, key_bytes, Transaction, TxnReply};
use crate::metadata::keys::timeline_key;
use crate::metadata::types;
use crate::metadata::types::{TimelineRecord, CURRENT_METADATA_SCHEMA_VERSION};

verus! {

/// What the replacement waits for.
#[derive(Debug, Clone, Copy, PartialEq, Eq, Structural)]
pub enum CasWait {
    /// The timeline as it stands.
    Timeline,
    /// The replacement.
    Committed,
    /// The timeline after a refusal.
    Recovered,
    Nothing,
}

/// What it asks for.
pub enum CasStep {
    LoadTimeline { key: Vec<u8> },
    Commit { txn: Transaction },
    Done { revision: u64 },
    Failed { error: TsoError },
}

/// What it is answered.
pub enum CasReply {
    Timeline(Result<Option<Found<TimelineRecord>>, String>),
    Committed(Result<TxnReply, String>),
}

/// A replacement of a timeline that is under way.
pub struct TimelineCas {
    pub prefix: String,
    pub timeline_key: String,
    pub expected_revision: u64,
    /// The record that is to be written.
    pub record: TimelineRecord,
    pub wait: CasWait,
}

impl TimelineCas {
    pub open spec fn valid(self) -> bool {
        self.wait != CasWait::Nothing ==> self.record.schema_version
            == CURRENT_METADATA_SCHEMA_VERSION
    }

    pub open spec fn awaits(self, reply: CasReply) -> bool {
        match self.wait {
            CasWait::Timeline | CasWait::Recovered => reply is Timeline,
            CasWait::Committed => reply is Committed,
            CasWait::Nothing => false,
        }
    }

    pub open spec fn same_task(self, other: TimelineCas) -> bool {
        &&& self.prefix == other.prefix
        &&& self.timeline_key == other.timeline_key
        &&& self.expected_revision == other.expected_revision
        &&& self.record == other.record
    }

    pub open spec fn is_failed(self, step: CasStep) -> bool {
        step is Failed && self.wait == CasWait::Nothing
    }

    /// It asks for the timeline.
    pub open spec fn loads(self, step: CasStep, wait: CasWait) -> bool {
        &&& self.wait == wait
        &&& step matches CasStep::LoadTimeline { key }
        &&& key@ == status_index::record_key(self.prefix@, self.timeline_key@)
    }

    fn fail(&mut self, error: TsoError) -> (step: CasStep)
        ensures
            final(self).same_task(*old(self)),
            final(self).valid(),
            final(self).is_failed(step),
            step->error == error,
    {
        self.wait = CasWait::Nothing;
        CasStep::Failed { error }
    }

    fn load(&mut self, wait: CasWait) -> (step: CasStep)
        requires
            old(self).record.schema_version == CURRENT_METADATA_SCHEMA_VERSION,
        ensures
            final(self).same_task(*old(self)),
            final(self).valid(),
            final(self).loads(step, wait),
    {
        self.wait = wait;
        let key = timeline_key(self.prefix.as_str(), self.timeline_key.as_str());
        CasStep::LoadTimeline { key: key_bytes(key.as_str()) }
    }

    /// Begins to replace a timeline that is expected to stand at a revision.
    pub fn start(
        prefix: &str,
        timeline_key: &str,
        expected_revision: u64,
        record: &TimelineRecord,
    ) -> (begun: (Self, CasStep))
        ensures
            begun.0.valid(),
            begun.0.prefix@ == prefix@,
            begun.0.timeline_key@ == timeline_key@,
            begun.0.expected_revision == expected_revision,
            begun.0.record@ == record@.stamped(),
            if record.schema_version == CURRENT_METADATA_SCHEMA_VERSION {
                begun.0.loads(begun.1, CasWait::Timeline)
            } else {
                begun.0.is_failed(begun.1) && begun.1->error.is_internal(
                    types::unsupported_schema("timeline"@, record.schema_version),
                )
            },
    {
        let mut run = TimelineCas {
            prefix: prefix.to_owned(),
            timeline_key: timeline_key.to_owned(),
            expected_revision,
            record: record.stamped_for_persistence(),
            wait: CasWait::Nothing,
        };
        let step = match record.validate_schema_version() {
            Ok(()) => run.load(CasWait::Timeline),
            Err(error) => run.fail(error),
        };
        (run, step)
    }

    /// What the timeline as it stands comes to: it is replaced where it stands at the expected
    /// revision.
    pub open spec fn takes_timeline(
        self,
        reply: Result<Option<Found<TimelineRecord>>, String>,
        step: CasStep,
    ) -> bool {
        exists|loaded: Result<Option<(TimelineRecord, u64)>, TsoError>|
            #[trigger] json::loads_timeline(reply, loaded) && match loaded {
                Err(error) => self.is_failed(step) && step->error == error,
                Ok(None) => self.is_failed(step) && step->error.is_not_found(self.timeline_key@),
                Ok(Some((previous, revision))) => if revision != self.expected_revision {
                    self.is_failed(step) && step->error == TsoError::CasFailed
                } else {
                    &&& self.wait == CasWait::Committed
                    &&& step matches CasStep::Commit { txn } && status_index::replaces_timeline(
                        txn,
                        self.prefix@,
                        self.timeline_key@,
                        self.expected_revision,
                        previous@,
                        self.record@,
                    )
                },
            }
    }

    /// What the answer to the replacement comes to. A refusal is looked into: an earlier try may
    /// have gone through unnoticed.
    pub open spec fn takes_commit(self, reply: Result<TxnReply, String>, step: CasStep) -> bool {
        if reply matches Ok(answer) && !answer.succeeded {
            self.loads(step, CasWait::Recovered)
        } else {
            &&& self.wait == CasWait::Nothing
            &&& exists|result: Result<u64, TsoError>|
                #[trigger] txn::replaced(
                    reply,
                    "Etcd txn failed"@,
                    "invalid txn response"@,
                    result,
                ) && match result {
                    Ok(revision) => step == (CasStep::Done { revision }),
                    Err(error) => step == (CasStep::Failed { error }),
                }
        }
    }

    /// What the timeline after a refusal comes to: where the very record stands there, it was
    /// replaced.
    pub open spec fn takes_recovered(
        self,
        reply: Result<Option<Found<TimelineRecord>>, String>,
        step: CasStep,
    ) -> bool {
        &&& self.wait == CasWait::Nothing
        &&& exists|loaded: Result<Option<(TimelineRecord, u64)>, TsoError>|
            #[trigger] json::loads_timeline(reply, loaded) && match loaded {
                Err(error) => step == (CasStep::Failed { error }),
                Ok(Some((existing, revision))) if existing@ == self.record@ => step == (
                CasStep::Done { revision }),
                Ok(_) => step == (CasStep::Failed { error: TsoError::CasFailed }),
            }
    }

    /// Takes a reply and says what to ask for next.
    pub fn on_reply(&mut self, reply: CasReply) -> (step: CasStep)
        requires
            old(self).valid(),
            old(self).awaits(reply),
        ensures
            final(self).valid(),
            final(self).same_task(*old(self)),
            match reply {
                CasReply::Timeline(found) => if old(self).wait == CasWait::Timeline {
                    final(self).takes_timeline(found, step)
                } else {
                    final(self).takes_recovered(found, step)
                },
                CasReply::Committed(answer) => final(self).takes_commit(answer, step),
            },
    {
        match reply {
            CasReply::Timeline(found) => {
                let loaded = load_timeline(found);
                assert(json::loads_timeline(found, loaded));
                let standing = match loaded {
                    Err(error) => {
                        return self.fail(error);
                    },
                    Ok(standing) => standing,
                };
                if self.wait == CasWait::Timeline {
                    let txn = match compare_exchange_timeline_txn(
                        self.prefix.as_str(),
                        self.timeline_key.as_str(),
                        self.expected_revision,
                        &self.record,
                        standing,
                    ) {
                        Err(error) => {
                            return self.fail(error);
                        },
                        Ok(txn) => txn,
                    };
                    assert(self.record@.stamped() == self.record@);
                    self.wait = CasWait::Committed;
                    CasStep::Commit { txn }
                } else {
                    match recovered_revision(&self.record, standing) {
                        Err(error) => self.fail(error),
                        Ok(revision) => {
                            self.wait = CasWait::Nothing;
                            CasStep::Done { revision }
                        },
                    }
                }
            },
            CasReply::Committed(answer) => {
                let refused = match &answer {
                    Ok(reply) => !reply.succeeded,
                    Err(_) => false,
                };
                if refused {
                    return self.load(CasWait::Recovered);
                }
                self.wait = CasWait::Nothing;
                let result = cas_result(answer, "Etcd txn failed", "invalid txn response");
                assert(txn::replaced(
                    answer,
                    "Etcd txn failed"@,
                    "invalid txn response"@,
                    result,
                ));
                match result {
                    Ok(revision) => CasStep::Done { revision },
                    Err(error) => CasStep::Failed { error },
                }
            },
        }
    }
}

} // verus!
