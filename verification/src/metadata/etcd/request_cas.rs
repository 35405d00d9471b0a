//! Writing request records: what the answers of the store come to.

use vstd::prelude::*;

use crate::error::TsoError;
use crate::metadata::etcd::json;
use crate::metadata::etcd::json::{load_request_record, Found};
use crate::metadata::etcd::request_index;
use crate::metadata::etcd::request_index::{
    compare_delete_request_txn, compare_exchange_request_txn,
};
use crate::metadata::etcd::txn;
use crate::metadata::etcd::txn::{
    cas_result, create_result, delete_result, key_bytes, Transaction, TxnReply,
};
use crate::metadata::keys::request_key;
use crate::metadata::types;
use crate::metadata::types::{RequestRecord, CURRENT_METADATA_SCHEMA_VERSION};

verus! {

/// The result of creating a request record.
pub fn create_request_result(reply: Result<TxnReply, String>) -> (result: Result<u64, TsoError>)
    ensures
        txn::created(
            reply,
            "Etcd request create txn failed"@,
            "invalid request create txn response"@,
            result,
        ),
{
    create_result(reply, "Etcd request create txn failed", "invalid request create txn response")
}

/// What is to become of a request record.
pub enum RequestChange {
    Replace { record: RequestRecord },
    Delete,
}

/// What the change waits for.
#[derive(Debug, Clone, Copy, PartialEq, Eq, Structural)]
pub enum RequestWait {
    /// The record as it stands.
    Record,
    /// The change.
    Committed,
    Nothing,
}

/// What it asks for.
pub enum RequestStep {
    LoadRecord { key: Vec<u8> },
    Commit { txn: Transaction },
    Replaced { revision: u64 },
    Deleted,
    Failed { error: TsoError },
}

/// What it is answered.
pub enum RequestReply {
    Record(Result<Option<Found<RequestRecord>>, String>),
    Committed(Result<TxnReply, String>),
}

/// A change of a request record that is under way.
pub struct RequestCas {
    pub prefix: String,
    pub timeline_key: String,
    pub client_request_id: String,
    pub expected_revision: u64,
    pub change: RequestChange,
    pub wait: RequestWait,
}

impl RequestCas {
    pub open spec fn valid(self) -> bool {
        self.wait != RequestWait::Nothing ==> match self.change {
            RequestChange::Replace { record } => record.schema_version
                == CURRENT_METADATA_SCHEMA_VERSION,
            RequestChange::Delete => true,
        }
    }

    pub open spec fn awaits(self, reply: RequestReply) -> bool {
        match self.wait {
            RequestWait::Record => reply is Record,
            RequestWait::Committed => reply is Committed,
            RequestWait::Nothing => false,
        }
    }

    pub open spec fn same_task(self, other: RequestCas) -> bool {
        &&& self.prefix == other.prefix
        &&& self.timeline_key == other.timeline_key
        &&& self.client_request_id == other.client_request_id
        &&& self.expected_revision == other.expected_revision
        &&& self.change == other.change
    }

    pub open spec fn is_failed(self, step: RequestStep) -> bool {
        step is Failed && self.wait == RequestWait::Nothing
    }

    /// It asks for the record.
    pub open spec fn loads(self, step: RequestStep) -> bool {
        &&& self.wait == RequestWait::Record
        &&& step matches RequestStep::LoadRecord { key }
        &&& key@ == request_index::record_key(
            self.prefix@,
            self.timeline_key@,
            self.client_request_id@,
        )
    }

    fn fail(&mut self, error: TsoError) -> (step: RequestStep)
        ensures
            final(self).same_task(*old(self)),
            final(self).valid(),
            final(self).is_failed(step),
            step->error == error,
    {
        self.wait = RequestWait::Nothing;
        RequestStep::Failed { error }
    }

    fn begin(
        prefix: &str,
        timeline_key: &str,
        client_request_id: &str,
        expected_revision: u64,
        change: RequestChange,
    ) -> (begun: (Self, RequestStep))
        requires
            change matches RequestChange::Replace { record } ==> record.schema_version
                == CURRENT_METADATA_SCHEMA_VERSION,
        ensures
            begun.0.valid(),
            begun.0.prefix@ == prefix@,
            begun.0.timeline_key@ == timeline_key@,
            begun.0.client_request_id@ == client_request_id@,
            begun.0.expected_revision == expected_revision,
            begun.0.change == change,
            begun.0.loads(begun.1),
    {
        let key = request_key(prefix, timeline_key, client_request_id);
        let run = RequestCas {
            prefix: prefix.to_owned(),
            timeline_key: timeline_key.to_owned(),
            client_request_id: client_request_id.to_owned(),
            expected_revision,
            change,
            wait: RequestWait::Record,
        };
        (run, RequestStep::LoadRecord { key: key_bytes(key.as_str()) })
    }

    /// Begins to replace a record that is expected to stand at a revision.
    pub fn replace(
        prefix: &str,
        timeline_key: &str,
        client_request_id: &str,
        expected_revision: u64,
        record: &RequestRecord,
    ) -> (result: Result<(Self, RequestStep), TsoError>)
        ensures
            match result {
                Ok((run, step)) => {
                    &&& record.schema_version == CURRENT_METADATA_SCHEMA_VERSION
                    &&& run.valid()
                    &&& run.prefix@ == prefix@
                    &&& run.timeline_key@ == timeline_key@
                    &&& run.client_request_id@ == client_request_id@
                    &&& run.expected_revision == expected_revision
                    &&& run.change matches RequestChange::Replace { record: next } && next@
                        == record@.stamped()
                    &&& run.loads(step)
                },
                Err(error) => record.schema_version != CURRENT_METADATA_SCHEMA_VERSION
                    && error.is_internal(
                    types::unsupported_schema("request"@, record.schema_version),
                ),
            },
    {
        match record.validate_schema_version() {
            Ok(()) => {},
            Err(error) => {
                return Err(error);
            },
        }
        let change = RequestChange::Replace { record: record.stamped_for_persistence() };
        Ok(Self::begin(prefix, timeline_key, client_request_id, expected_revision, change))
    }

    /// Begins to delete a record that is expected to stand at a revision.
    pub fn delete(
        prefix: &str,
        timeline_key: &str,
        client_request_id: &str,
        expected_revision: u64,
    ) -> (begun: (Self, RequestStep))
        ensures
            begun.0.valid(),
            begun.0.prefix@ == prefix@,
            begun.0.timeline_key@ == timeline_key@,
            begun.0.client_request_id@ == client_request_id@,
            begun.0.expected_revision == expected_revision,
            begun.0.change is Delete,
            begun.0.loads(begun.1),
    {
        Self::begin(
            prefix,
            timeline_key,
            client_request_id,
            expected_revision,
            RequestChange::Delete,
        )
    }

    /// The transaction that makes the change, where the record stands as it was loaded.
    pub open spec fn changes(self, previous: RequestRecord, txn: Transaction) -> bool {
        match self.change {
            RequestChange::Replace { record } => request_index::replaces_request(
                txn,
                self.prefix@,
                self.timeline_key@,
                self.client_request_id@,
                self.expected_revision,
                previous@,
                record@,
            ),
            RequestChange::Delete => request_index::deletes_request(
                txn,
                self.prefix@,
                self.timeline_key@,
                self.client_request_id@,
                self.expected_revision,
                previous@,
            ),
        }
    }

    /// What the record as it stands comes to: it is changed where it stands at the expected
    /// revision.
    pub open spec fn takes_record(
        self,
        reply: Result<Option<Found<RequestRecord>>, String>,
        step: RequestStep,
    ) -> bool {
        exists|loaded: Result<Option<(RequestRecord, u64)>, TsoError>|
            #[trigger] json::loads_request(reply, loaded) && match loaded {
                Err(error) => self.is_failed(step) && step->error == error,
                Ok(None) => self.is_failed(step) && step->error.is_not_found(
                    request_index::missing_name(self.timeline_key@, self.client_request_id@),
                ),
                Ok(Some((previous, revision))) => if revision != self.expected_revision {
                    self.is_failed(step) && step->error == TsoError::CasFailed
                } else {
                    &&& self.wait == RequestWait::Committed
                    &&& step matches RequestStep::Commit { txn } && self.changes(previous, txn)
                },
            }
    }

    /// What the answer to the change comes to.
    pub open spec fn takes_commit(
        self,
        reply: Result<TxnReply, String>,
        step: RequestStep,
    ) -> bool {
        &&& self.wait == RequestWait::Nothing
        &&& match self.change {
            RequestChange::Replace { .. } => exists|result: Result<u64, TsoError>|
                #[trigger] txn::replaced(
                    reply,
                    "Etcd request CAS txn failed"@,
                    "invalid request CAS txn response"@,
                    result,
                ) && match result {
                    Ok(revision) => step == (RequestStep::Replaced { revision }),
                    Err(error) => step == (RequestStep::Failed { error }),
                },
            RequestChange::Delete => exists|result: Result<(), TsoError>|
                #[trigger] txn::deleted(reply, "Etcd request delete txn failed"@, result)
                    && match result {
                    Ok(()) => step == RequestStep::Deleted,
                    Err(error) => step == (RequestStep::Failed { error }),
                },
        }
    }

    /// Takes a reply and says what to ask for next.
    pub fn on_reply(&mut self, reply: RequestReply) -> (step: RequestStep)
        requires
            old(self).valid(),
            old(self).awaits(reply),
        ensures
            final(self).valid(),
            final(self).same_task(*old(self)),
            match reply {
                RequestReply::Record(found) => final(self).takes_record(found, step),
                RequestReply::Committed(answer) => final(self).takes_commit(answer, step),
            },
    {
        match reply {
            RequestReply::Record(found) => {
                let loaded = load_request_record(found);
                assert(json::loads_request(found, loaded));
                let standing = match loaded {
                    Err(error) => {
                        return self.fail(error);
                    },
                    Ok(standing) => standing,
                };
                let made = match &self.change {
                    RequestChange::Replace { record } => {
                        assert(record@.stamped() == record@);
                        compare_exchange_request_txn(
                            self.prefix.as_str(),
                            self.timeline_key.as_str(),
                            self.client_request_id.as_str(),
                            self.expected_revision,
                            record,
                            standing,
                        )
                    },
                    RequestChange::Delete => compare_delete_request_txn(
                        self.prefix.as_str(),
                        self.timeline_key.as_str(),
                        self.client_request_id.as_str(),
                        self.expected_revision,
                        standing,
                    ),
                };
                match made {
                    Err(error) => self.fail(error),
                    Ok(txn) => {
                        self.wait = RequestWait::Committed;
                        RequestStep::Commit { txn }
                    },
                }
            },
            RequestReply::Committed(answer) => {
                self.wait = RequestWait::Nothing;
                let replaces = match &self.change {
                    RequestChange::Replace { .. } => true,
                    RequestChange::Delete => false,
                };
                if replaces {
                    let result = cas_result(
                        answer,
                        "Etcd request CAS txn failed",
                        "invalid request CAS txn response",
                    );
                    assert(txn::replaced(
                        answer,
                        "Etcd request CAS txn failed"@,
                        "invalid request CAS txn response"@,
                        result,
                    ));
                    match result {
                        Ok(revision) => RequestStep::Replaced { revision },
                        Err(error) => RequestStep::Failed { error },
                    }
                } else {
                    let result = delete_result(answer, "Etcd request delete txn failed");
                    assert(txn::deleted(answer, "Etcd request delete txn failed"@, result));
                    match result {
                        Ok(()) => RequestStep::Deleted,
                        Err(error) => RequestStep::Failed { error },
                    }
                }
            },
        }
    }
}

} // verus!
