//! What holds of the answers of the store, and of what is made of them.

use vstd::prelude::*;

use crate::error::TsoError;
use crate::metadata::etcd::json;
use crate::metadata::etcd::json::Found;
use crate::metadata::etcd::request_cas::{RequestCas, RequestChange, RequestStep, RequestWait};
use crate::metadata::etcd::request_index;
use crate::metadata::etcd::status_index;
use crate::metadata::etcd::timeline_batch;
use crate::metadata::etcd::timeline_batch::{BatchStep, BatchWait, TimelineBatchCas};
use crate::metadata::etcd::timeline_cas::{CasStep, CasWait, TimelineCas};
use crate::metadata::etcd::txn;
use crate::metadata::etcd::txn::{Transaction, TxnReply};
use crate::metadata::types::{
    GeneratorRecord, RequestRecord, RequestRecordState, TimelineBatchOp, TimelineRecord,
    TimelineRouteRecord,
};

verus! {

/// A write is told as done exactly where the store did it and says at which revision; a refusal
/// means that the record exists already where it was to be created, and that somebody else was
/// faster where it was to be replaced or deleted.
pub proof fn writes_are_told_as_they_went(
    reply: Result<TxnReply, String>,
    txn_context: Seq<char>,
    invalid_context: Seq<char>,
    creation: Result<u64, TsoError>,
    replacement: Result<u64, TsoError>,
    deletion: Result<(), TsoError>,
)
    requires
        txn::created(reply, txn_context, invalid_context, creation),
        txn::replaced(reply, txn_context, invalid_context, replacement),
        txn::deleted(reply, txn_context, deletion),
    ensures
        creation is Ok <==> (reply matches Ok(answer) && answer.succeeded
            && answer.first_put_revision is Some),
        replacement is Ok <==> creation is Ok,
        creation is Ok ==> ({
            let revision = reply->Ok_0.first_put_revision->Some_0;
            revision >= 0 ==> creation->Ok_0 == revision && replacement->Ok_0 == revision
        }),
        deletion is Ok <==> (reply matches Ok(answer) && answer.succeeded),
        (reply matches Ok(answer) && !answer.succeeded) ==> {
            &&& creation->Err_0 == TsoError::MetadataAlreadyExists
            &&& replacement->Err_0 == TsoError::CasFailed
            &&& deletion->Err_0 == TsoError::CasFailed
        },
        reply is Err ==> creation->Err_0 is Internal && replacement->Err_0 is Internal
            && deletion->Err_0 is Internal,
{
}

/// Several records that are replaced together all get the one revision of the answer.
pub proof fn batches_share_a_revision(
    reply: Result<TxnReply, String>,
    count: nat,
    txn_context: Seq<char>,
    invalid_context: Seq<char>,
    result: Result<Vec<u64>, TsoError>,
    i: int,
)
    requires
        txn::replaced_together(reply, count, txn_context, invalid_context, result),
    ensures
        result is Ok <==> (reply matches Ok(answer) && answer.succeeded && answer.header_revision
            is Some),
        result matches Ok(revisions) ==> revisions@.len() == count,
        result matches Ok(revisions) ==> ({
            let revision = reply->Ok_0.header_revision->Some_0;
            0 <= i < count && revision >= 0 ==> revisions@[i] == revision
        }),
        (reply matches Ok(answer) && !answer.succeeded) ==> result->Err_0 == TsoError::CasFailed,
{
}

/// A timeline stands there and can be read: it decodes, and its schema is the first one.
pub open spec fn readable_timeline(reply: Result<Option<Found<TimelineRecord>>, String>) -> bool {
    reply matches Ok(Some(found)) && (found.value matches Ok(record) && record.schema_version == 1)
}

/// A request record stands there and can be read.
pub open spec fn readable_request(reply: Result<Option<Found<RequestRecord>>, String>) -> bool {
    reply matches Ok(Some(found)) && (found.value matches Ok(record) && record.schema_version == 1)
}

/// Timelines and request records are read as they stand, with their revision, exactly where they
/// can be read; where nothing stands, nothing is found.
pub proof fn records_are_read_as_they_stand(
    timeline: Result<Option<Found<TimelineRecord>>, String>,
    timeline_result: Result<Option<(TimelineRecord, u64)>, TsoError>,
    request: Result<Option<Found<RequestRecord>>, String>,
    request_result: Result<Option<(RequestRecord, u64)>, TsoError>,
)
    requires
        json::loads_timeline(timeline, timeline_result),
        json::loads_request(request, request_result),
    ensures
        timeline_result matches Ok(Some(_)) <==> readable_timeline(timeline),
        timeline_result matches Ok(None) <==> timeline matches Ok(None),
        timeline_result matches Ok(Some((record, revision))) ==> ({
            let found = timeline->Ok_0->Some_0;
            record == found.value->Ok_0 && (found.mod_revision >= 0 ==> revision
                == found.mod_revision)
        }),
        request_result matches Ok(Some(_)) <==> readable_request(request),
        request_result matches Ok(None) <==> request matches Ok(None),
        request_result matches Ok(Some((record, revision))) ==> ({
            let found = request->Ok_0->Some_0;
            record == found.value->Ok_0 && (found.mod_revision >= 0 ==> revision
                == found.mod_revision)
        }),
{
}

/// Generators are read as they stand where their schema is the first one, and routes where it is
/// that one or a later one.
pub proof fn generators_and_routes_are_read_as_they_stand(
    generator: Result<Option<Found<GeneratorRecord>>, String>,
    generator_result: Result<Option<(GeneratorRecord, u64)>, TsoError>,
    route: Result<Option<Found<TimelineRouteRecord>>, String>,
    route_result: Result<Option<(TimelineRouteRecord, u64)>, TsoError>,
)
    requires
        json::loads_generator(generator, generator_result),
        json::loads_route(route, route_result),
    ensures
        generator_result matches Ok(Some(_)) <==> (generator matches Ok(Some(found)) && (
        found.value matches Ok(record) && record.schema_version == 1)),
        generator_result matches Ok(None) <==> generator matches Ok(None),
        generator_result matches Ok(Some((record, revision))) ==> ({
            let found = generator->Ok_0->Some_0;
            record == found.value->Ok_0 && (found.mod_revision >= 0 ==> revision
                == found.mod_revision)
        }),
        route_result matches Ok(Some(_)) <==> (route matches Ok(Some(found)) && (
        found.value matches Ok(record) && record.schema_version >= 1)),
        route_result matches Ok(None) <==> route matches Ok(None),
        route_result matches Ok(Some((record, revision))) ==> ({
            let found = route->Ok_0->Some_0;
            record == found.value->Ok_0 && (found.mod_revision >= 0 ==> revision
                == found.mod_revision)
        }),
{
}

/// A timeline is replaced only where it can be read and stands at the expected revision. Otherwise
/// nothing is asked of the store any more, and the failure says why.
pub proof fn timelines_are_replaced_at_their_revision(
    run: TimelineCas,
    reply: Result<Option<Found<TimelineRecord>>, String>,
    step: CasStep,
)
    requires
        run.takes_timeline(reply, step),
        reply matches Ok(Some(found)) ==> found.mod_revision >= 0,
    ensures
        step is Commit || step is Failed,
        step is Commit ==> run.wait == CasWait::Committed,
        step is Failed ==> run.wait == CasWait::Nothing,
        step is Commit <==> readable_timeline(reply) && reply->Ok_0->Some_0.mod_revision
            == run.expected_revision,
        readable_timeline(reply) && reply->Ok_0->Some_0.mod_revision != run.expected_revision
            ==> step->error == TsoError::CasFailed,
        reply matches Ok(None) ==> step->error is TimelineNotFound,
{
}

/// A replacement that the store refused is looked into, and counts as done only where the very
/// record that was to be written stands there.
pub proof fn refused_replacements_are_looked_into(
    committed: TimelineCas,
    answer: Result<TxnReply, String>,
    next: CasStep,
    recovered: TimelineCas,
    reply: Result<Option<Found<TimelineRecord>>, String>,
    last: CasStep,
)
    requires
        committed.takes_commit(answer, next),
        recovered.takes_recovered(reply, last),
        reply matches Ok(Some(found)) ==> found.mod_revision >= 0,
    ensures
        next is LoadTimeline <==> (answer matches Ok(told) && !told.succeeded),
        next is LoadTimeline ==> committed.wait == CasWait::Recovered,
        next is Done <==> (answer matches Ok(told) && told.succeeded && told.first_put_revision
            is Some),
        last is Done <==> readable_timeline(reply) && reply->Ok_0->Some_0.value->Ok_0@
            == recovered.record@,
        last matches CasStep::Done { revision } ==> revision
            == reply->Ok_0->Some_0.mod_revision,
        last is Done || last is Failed,
        readable_timeline(reply) && last is Failed ==> last->error == TsoError::CasFailed,
{
}

/// A replacement is asked of the store only for a record of the first schema whose predecessor was
/// loaded at the expected revision, and a refusal is taken for done only where the very record
/// stands there.
pub proof fn replacements_need_what_was_loaded(
    prefix: Seq<char>,
    timeline: Seq<char>,
    expected_revision: u64,
    record: TimelineRecord,
    loaded: Option<(TimelineRecord, u64)>,
    begun: Result<Transaction, TsoError>,
    recovered: Result<u64, TsoError>,
)
    requires
        status_index::begins_replacement(
            prefix,
            timeline,
            expected_revision,
            record,
            loaded,
            begun,
        ),
        status_index::recovers(record@, loaded, recovered),
    ensures
        begun is Ok <==> record.schema_version == 1 && (loaded matches Some((_, revision))
            && revision == expected_revision),
        record.schema_version == 1 && loaded is None ==> begun->Err_0.is_not_found(timeline),
        record.schema_version == 1 && (loaded matches Some((_, revision)) && revision
            != expected_revision) ==> begun->Err_0 == TsoError::CasFailed,
        recovered is Ok <==> (loaded matches Some((existing, _)) && existing@ == record@),
        recovered matches Ok(revision) ==> revision == loaded->Some_0.1,
        recovered is Err ==> recovered->Err_0 == TsoError::CasFailed,
{
}

/// A request record is replaced or deleted only where it was loaded at the expected revision.
pub proof fn requests_are_changed_at_their_revision(
    prefix: Seq<char>,
    timeline_key: Seq<char>,
    client_request_id: Seq<char>,
    expected_revision: u64,
    record: RequestRecord,
    loaded: Option<(RequestRecord, u64)>,
    replacement: Result<Transaction, TsoError>,
    deletion: Result<Transaction, TsoError>,
)
    requires
        request_index::begins_replacement(
            prefix,
            timeline_key,
            client_request_id,
            expected_revision,
            record,
            loaded,
            replacement,
        ),
        request_index::begins_deletion(
            prefix,
            timeline_key,
            client_request_id,
            expected_revision,
            loaded,
            deletion,
        ),
    ensures
        deletion is Ok <==> (loaded matches Some((_, revision)) && revision == expected_revision),
        replacement is Ok <==> record.schema_version == 1 && deletion is Ok,
        loaded is None ==> deletion->Err_0 is TimelineNotFound,
        loaded is Some && deletion is Err ==> deletion->Err_0 == TsoError::CasFailed,
        record.schema_version == 1 && loaded is Some && replacement is Err ==> replacement->Err_0
            == TsoError::CasFailed,
{
}

/// A change of a request record is asked of the store only where the record can be read and stands
/// at the expected revision, and is told as done exactly where the store did it.
pub proof fn request_changes_are_told_as_they_went(
    run: RequestCas,
    reply: Result<Option<Found<RequestRecord>>, String>,
    step: RequestStep,
    committed: RequestCas,
    answer: Result<TxnReply, String>,
    last: RequestStep,
)
    requires
        run.takes_record(reply, step),
        reply matches Ok(Some(found)) ==> found.mod_revision >= 0,
        committed.takes_commit(answer, last),
    ensures
        step is Commit || step is Failed,
        step is Commit ==> run.wait == RequestWait::Committed,
        step is Commit <==> readable_request(reply) && reply->Ok_0->Some_0.mod_revision
            == run.expected_revision,
        readable_request(reply) && step is Failed ==> step->error == TsoError::CasFailed,
        reply matches Ok(None) ==> step->error is TimelineNotFound,
        last is Replaced ==> committed.change is Replace,
        last is Deleted <==> committed.change is Delete && (answer matches Ok(told)
            && told.succeeded),
        committed.change is Replace ==> (last is Replaced <==> (answer matches Ok(told)
            && told.succeeded && told.first_put_revision is Some)),
        (answer matches Ok(told) && !told.succeeded) ==> last is Failed && last->error
            == TsoError::CasFailed,
        committed.wait == RequestWait::Nothing,
{
}

/// A batch goes on past a timeline only where that can be read and stands at its revision.
pub proof fn batches_check_every_revision(
    before: TimelineBatchCas,
    after: TimelineBatchCas,
    reply: Result<Option<Found<TimelineRecord>>, String>,
    step: BatchStep,
)
    requires
        before.previous@.len() < before.operations@.len(),
        after.takes_timeline(before, reply, step),
        after.same_task(before),
        reply matches Ok(Some(found)) ==> found.mod_revision >= 0,
    ensures
        ({
            let operation = before.operations@[before.previous@.len() as int];
            let stands = readable_timeline(reply) && reply->Ok_0->Some_0.mod_revision
                == operation.previous_revision;
            &&& step is Failed || stands
            &&& step is Done ==> false
            &&& stands ==> after.previous@ == before.previous@.push(
                reply->Ok_0->Some_0.value->Ok_0,
            )
            &&& stands ==> after.recovered == before.recovered
            &&& step is Commit ==> before.previous@.len() + 1 == before.operations@.len()
            &&& readable_timeline(reply) && !stands ==> step->error == TsoError::CasFailed
        }),
{
}

/// A batch that the store refused is looked into timeline by timeline, and counts as done only
/// where every one of the very records stands there.
pub proof fn refused_batches_are_looked_into(
    before: TimelineBatchCas,
    after: TimelineBatchCas,
    reply: Result<Option<Found<TimelineRecord>>, String>,
    step: BatchStep,
)
    requires
        before.recovered@.len() < before.operations@.len(),
        after.takes_recovered(before, reply, step),
        after.same_task(before),
        reply matches Ok(Some(found)) ==> found.mod_revision >= 0,
    ensures
        ({
            let operation = before.operations@[before.recovered@.len() as int];
            let stands = readable_timeline(reply) && reply->Ok_0->Some_0.value->Ok_0@
                == operation.record@;
            &&& step is Failed <==> !stands
            &&& step is Done <==> stands && before.recovered@.len() + 1 == before.operations@.len()
            &&& step matches BatchStep::Done { revisions } ==> revisions@
                == before.recovered@.push(reply->Ok_0->Some_0.mod_revision as u64)
            &&& reply matches Ok(None) ==> step->error == TsoError::CasFailed
        }),
{
}

/// The answer to a batch: a refusal is looked into, and nothing else is.
pub proof fn batches_are_told_as_they_went(
    before: TimelineBatchCas,
    after: TimelineBatchCas,
    answer: Result<TxnReply, String>,
    step: BatchStep,
)
    requires
        before.recovered@.len() == 0,
        before.operations@.len() > 0,
        after.takes_commit(before, answer, step),
        after.same_task(before),
    ensures
        step is LoadTimeline <==> (answer matches Ok(told) && !told.succeeded),
        step is LoadTimeline ==> after.wait == BatchWait::Recovered,
        step is Done <==> (answer matches Ok(told) && told.succeeded && told.header_revision
            is Some),
        step matches BatchStep::Done { revisions } ==> revisions@.len()
            == before.operations@.len(),
{
}

/// Completed request records that are older than a time may be cleaned up, and no others.
pub proof fn old_completed_requests_may_go(record: RequestRecord, older_than_ms: u64)
    ensures
        request_index::prunable(record@, older_than_ms) <==> record.state
            == RequestRecordState::Completed && record.updated_at_ms < older_than_ms,
        request_index::prunable_candidate(record@) <==> record.state
            == RequestRecordState::Completed,
{
}

/// What a batch writes are the records that were given, each under its timeline and at its revision,
/// stamped with the first schema.
pub proof fn batches_write_what_was_given(
    given: Seq<TimelineBatchOp>,
    stamped: Seq<TimelineBatchOp>,
    i: int,
)
    requires
        timeline_batch::stamped_operations(given, stamped),
        0 <= i < given.len(),
    ensures
        stamped.len() == given.len(),
        stamped[i].timeline_key@ == given[i].timeline_key@,
        stamped[i].previous_revision == given[i].previous_revision,
        stamped[i].record.schema_version == 1,
        stamped[i].record.route@ == given[i].record.route@,
        stamped[i].record.state == given[i].record.state,
        stamped[i].record.issued_upper_bound == given[i].record.issued_upper_bound,
        stamped[i].record.recovery_floor_tso == given[i].record.recovery_floor_tso,
{
    assert(stamped[i].record@ == given[i].record@.stamped());
}

} // verus!
