//! The persisted records and what holds of each of them.

use vstd::prelude::*;
use vstd::std_specs::cmp::PartialEqSpecImpl;
use vstd::string::*;

use crate::error::TsoError;
use crate::model::{
    AllocateTimestampsResponse, RouteView, TimelineLifecycleState, TimelineRoute, TimestampRange,
};
use crate::text;
use crate::text::push_decimal;

verus! {

pub const CURRENT_METADATA_SCHEMA_VERSION: u32 = 1;

/// The version of the layout of the whole metadata prefix.
pub const CURRENT_CLUSTER_FORMAT_VERSION: u32 = 2;

/// What subscribers of route changes are told.
#[derive(Debug, Clone, PartialEq, Eq)]
pub enum RouteUpdateSignal {
    Route(TimelineRoute),
    Reset,
}

#[derive(Debug, Eq)]
pub struct TimelineRecord {
    pub schema_version: u32,
    pub route: TimelineRoute,
    pub state: TimelineLifecycleState,
    pub recovery_floor_tso: Option<u64>,
    pub issued_upper_bound: Option<u64>,
    pub last_graceful_issued: Option<u64>,
    pub lease_expire_at_ms: Option<u64>,
    pub updated_at_ms: u64,
}

/// The content of a timeline record.
pub struct TimelineRecordView {
    pub schema_version: u32,
    pub route: RouteView,
    pub state: TimelineLifecycleState,
    pub recovery_floor_tso: Option<u64>,
    pub issued_upper_bound: Option<u64>,
    pub last_graceful_issued: Option<u64>,
    pub lease_expire_at_ms: Option<u64>,
    pub updated_at_ms: u64,
}

impl TimelineRecordView {
    /// The record as it is written: stamped with the current schema version.
    pub open spec fn stamped(self) -> TimelineRecordView {
        TimelineRecordView { schema_version: CURRENT_METADATA_SCHEMA_VERSION, ..self }
    }
}

impl View for TimelineRecord {
    type V = TimelineRecordView;

    open spec fn view(&self) -> TimelineRecordView {
        TimelineRecordView {
            schema_version: self.schema_version,
            route: self.route@,
            state: self.state,
            recovery_floor_tso: self.recovery_floor_tso,
            issued_upper_bound: self.issued_upper_bound,
            last_graceful_issued: self.last_graceful_issued,
            lease_expire_at_ms: self.lease_expire_at_ms,
            updated_at_ms: self.updated_at_ms,
        }
    }
}

impl Clone for TimelineRecord {
    fn clone(&self) -> (copy: Self)
        ensures
            copy == *self,
    {
        TimelineRecord {
            schema_version: self.schema_version,
            route: self.route.clone(),
            state: self.state,
            recovery_floor_tso: self.recovery_floor_tso,
            issued_upper_bound: self.issued_upper_bound,
            last_graceful_issued: self.last_graceful_issued,
            lease_expire_at_ms: self.lease_expire_at_ms,
            updated_at_ms: self.updated_at_ms,
        }
    }
}

impl PartialEq for TimelineRecord {
    fn eq(&self, other: &Self) -> (same: bool) {
        self.schema_version == other.schema_version && self.route == other.route && self.state
            == other.state && self.recovery_floor_tso == other.recovery_floor_tso
            && self.issued_upper_bound == other.issued_upper_bound && self.last_graceful_issued
            == other.last_graceful_issued && self.lease_expire_at_ms == other.lease_expire_at_ms
            && self.updated_at_ms == other.updated_at_ms
    }
}

impl PartialEqSpecImpl for TimelineRecord {
    open spec fn obeys_eq_spec() -> bool {
        true
    }

    open spec fn eq_spec(&self, other: &Self) -> bool {
        self@ == other@
    }
}

/// What a status filter reads of a timeline record.
#[derive(Debug, PartialEq, Eq)]
pub struct TimelineFilterRecord {
    pub schema_version: u32,
    pub route: TimelineRoute,
    pub state: TimelineLifecycleState,
}

/// What a route lookup reads of a timeline record.
#[derive(Debug, PartialEq, Eq)]
pub struct TimelineRouteRecord {
    pub schema_version: u32,
    pub route: TimelineRoute,
}

#[derive(Debug, PartialEq, Eq)]
pub struct GeneratorRecord {
    pub schema_version: u32,
    pub generator_id: u32,
    pub owner_worker_endpoint: String,
    pub owner_instance_id: String,
    pub generator_lease_token: u64,
    pub lease_expire_at_ms: Option<u64>,
    pub last_issued_tso: Option<u64>,
    pub issued_upper_bound: Option<u64>,
    pub updated_at_ms: u64,
}

/// The content of a generator record.
pub struct GeneratorRecordView {
    pub schema_version: u32,
    pub generator_id: u32,
    pub owner_worker_endpoint: Seq<char>,
    pub owner_instance_id: Seq<char>,
    pub generator_lease_token: u64,
    pub lease_expire_at_ms: Option<u64>,
    pub last_issued_tso: Option<u64>,
    pub issued_upper_bound: Option<u64>,
    pub updated_at_ms: u64,
}

impl GeneratorRecordView {
    /// The record as it is written: stamped with the current schema version.
    pub open spec fn stamped(self) -> GeneratorRecordView {
        GeneratorRecordView { schema_version: CURRENT_METADATA_SCHEMA_VERSION, ..self }
    }
}

impl View for GeneratorRecord {
    type V = GeneratorRecordView;

    open spec fn view(&self) -> GeneratorRecordView {
        GeneratorRecordView {
            schema_version: self.schema_version,
            generator_id: self.generator_id,
            owner_worker_endpoint: self.owner_worker_endpoint@,
            owner_instance_id: self.owner_instance_id@,
            generator_lease_token: self.generator_lease_token,
            lease_expire_at_ms: self.lease_expire_at_ms,
            last_issued_tso: self.last_issued_tso,
            issued_upper_bound: self.issued_upper_bound,
            updated_at_ms: self.updated_at_ms,
        }
    }
}

impl Clone for GeneratorRecord {
    fn clone(&self) -> (copy: Self)
        ensures
            copy == *self,
    {
        GeneratorRecord {
            schema_version: self.schema_version,
            generator_id: self.generator_id,
            owner_worker_endpoint: self.owner_worker_endpoint.clone(),
            owner_instance_id: self.owner_instance_id.clone(),
            generator_lease_token: self.generator_lease_token,
            lease_expire_at_ms: self.lease_expire_at_ms,
            last_issued_tso: self.last_issued_tso,
            issued_upper_bound: self.issued_upper_bound,
            updated_at_ms: self.updated_at_ms,
        }
    }
}

#[derive(Debug, Clone, Copy, PartialEq, Eq, Structural)]
pub enum RequestRecordState {
    Pending,
    Completed,
}

#[derive(Debug, PartialEq, Eq)]
pub struct AllocationRequestFingerprint {
    pub timeline_key: String,
    pub count: u32,
}

impl Clone for AllocationRequestFingerprint {
    fn clone(&self) -> (copy: Self)
        ensures
            copy == *self,
    {
        AllocationRequestFingerprint { timeline_key: self.timeline_key.clone(), count: self.count }
    }
}

#[derive(Debug, PartialEq, Eq)]
pub struct AllocationResponseRecord {
    pub timeline_key: String,
    pub generator_id: u32,
    pub epoch: u64,
    pub route_version: u64,
    pub ranges: Vec<TimestampRange>,
}

/// What a stored response says.
pub open spec fn same_response(a: AllocationResponseRecord, b: AllocationResponseRecord) -> bool {
    &&& a.timeline_key@ == b.timeline_key@
    &&& a.generator_id == b.generator_id
    &&& a.epoch == b.epoch
    &&& a.route_version == b.route_version
    &&& a.ranges@ == b.ranges@
}

/// Copies ranges one by one.
pub fn copy_ranges(ranges: &Vec<TimestampRange>) -> (copy: Vec<TimestampRange>)
    ensures
        copy@ == ranges@,
{
    let mut copy: Vec<TimestampRange> = Vec::new();
    let mut i: usize = 0;
    while i < ranges.len()
        invariant
            i <= ranges@.len(),
            copy@ == ranges@.take(i as int),
        decreases ranges@.len() - i,
    {
        copy.push(ranges[i]);
        assert(copy@ =~= ranges@.take(i + 1));
        i = i + 1;
    }
    assert(ranges@.take(i as int) =~= ranges@);
    copy
}

impl Clone for AllocationResponseRecord {
    fn clone(&self) -> (copy: Self)
        ensures
            same_response(copy, *self),
    {
        AllocationResponseRecord {
            timeline_key: self.timeline_key.clone(),
            generator_id: self.generator_id,
            epoch: self.epoch,
            route_version: self.route_version,
            ranges: copy_ranges(&self.ranges),
        }
    }
}

#[derive(Debug, PartialEq, Eq)]
pub struct RequestRecord {
    pub schema_version: u32,
    pub fingerprint: AllocationRequestFingerprint,
    pub state: RequestRecordState,
    pub response: Option<AllocationResponseRecord>,
    pub updated_at_ms: u64,
}

/// The content of a stored response.
pub struct ResponseView {
    pub timeline_key: Seq<char>,
    pub generator_id: u32,
    pub epoch: u64,
    pub route_version: u64,
    pub ranges: Seq<TimestampRange>,
}

/// The content of a request record.
pub struct RequestRecordView {
    pub schema_version: u32,
    pub fingerprint_timeline_key: Seq<char>,
    pub fingerprint_count: u32,
    pub state: RequestRecordState,
    pub response: Option<ResponseView>,
    pub updated_at_ms: u64,
}

impl View for AllocationResponseRecord {
    type V = ResponseView;

    open spec fn view(&self) -> ResponseView {
        ResponseView {
            timeline_key: self.timeline_key@,
            generator_id: self.generator_id,
            epoch: self.epoch,
            route_version: self.route_version,
            ranges: self.ranges@,
        }
    }
}

impl RequestRecordView {
    /// The record as it is written: stamped with the current schema version.
    pub open spec fn stamped(self) -> RequestRecordView {
        RequestRecordView { schema_version: CURRENT_METADATA_SCHEMA_VERSION, ..self }
    }
}

impl View for RequestRecord {
    type V = RequestRecordView;

    open spec fn view(&self) -> RequestRecordView {
        RequestRecordView {
            schema_version: self.schema_version,
            fingerprint_timeline_key: self.fingerprint.timeline_key@,
            fingerprint_count: self.fingerprint.count,
            state: self.state,
            response: match self.response {
                Some(response) => Some(response@),
                None => None,
            },
            updated_at_ms: self.updated_at_ms,
        }
    }
}

impl Clone for RequestRecord {
    fn clone(&self) -> (copy: Self)
        ensures
            copy@ == self@,
    {
        let response = match &self.response {
            Some(response) => Some(response.clone()),
            None => None,
        };
        RequestRecord {
            schema_version: self.schema_version,
            fingerprint: self.fingerprint.clone(),
            state: self.state,
            response,
            updated_at_ms: self.updated_at_ms,
        }
    }
}

/// A record of a schema version may be read: of the current one, and of a newer one where that is
/// read too.
pub open spec fn accepts_schema(version: u32, newer_too: bool) -> bool {
    version == CURRENT_METADATA_SCHEMA_VERSION || (newer_too && version
        > CURRENT_METADATA_SCHEMA_VERSION)
}

/// Records have the first schema. Where only the route or the state is read, a newer one will do;
/// an older one never does.
pub proof fn records_have_the_first_schema(version: u32, newer_too: bool)
    ensures
        accepts_schema(version, false) <==> version == 1,
        accepts_schema(version, true) <==> version >= 1,
        accepts_schema(version, newer_too) ==> version >= 1,
{
}

/// The message that refuses a record of another schema version.
pub open spec fn unsupported_schema(kind: Seq<char>, version: u32) -> Seq<char> {
    "unsupported "@ + kind + " metadata schema_version "@ + text::decimal(version as nat)
}

fn unsupported_schema_error(kind: &str, version: u32) -> (error: TsoError)
    ensures
        error.is_internal(unsupported_schema(kind@, version)),
{
    let mut message = "unsupported ".to_owned();
    message.append(kind);
    message.append(" metadata schema_version ");
    push_decimal(&mut message, version as u64);
    TsoError::Internal(message)
}

impl TimelineRecord {
    pub fn validate_schema_version(&self) -> (result: Result<(), TsoError>)
        ensures
            result is Ok <==> accepts_schema(self.schema_version, false),
            result is Ok <==> self.schema_version == CURRENT_METADATA_SCHEMA_VERSION,
            result matches Err(error) ==> error.is_internal(
                unsupported_schema("timeline"@, self.schema_version),
            ),
    {
        if self.schema_version == CURRENT_METADATA_SCHEMA_VERSION {
            Ok(())
        } else {
            Err(unsupported_schema_error("timeline", self.schema_version))
        }
    }

    /// The record as it is written: stamped with the current schema version.
    pub open spec fn stamped(self) -> TimelineRecord {
        TimelineRecord { schema_version: CURRENT_METADATA_SCHEMA_VERSION, ..self }
    }

    pub fn stamped_for_persistence(&self) -> (record: Self)
        ensures
            record == self.stamped(),
            record@ == self@.stamped(),
    {
        let mut record = self.clone();
        record.schema_version = CURRENT_METADATA_SCHEMA_VERSION;
        record
    }
}

impl TimelineFilterRecord {
    /// A filter reads newer records too.
    pub fn validate_schema_version(&self) -> (result: Result<(), TsoError>)
        ensures
            result is Ok <==> accepts_schema(self.schema_version, true),
            result is Ok <==> self.schema_version >= CURRENT_METADATA_SCHEMA_VERSION,
            result matches Err(error) ==> error.is_internal(
                unsupported_schema("timeline"@, self.schema_version),
            ),
    {
        if self.schema_version >= CURRENT_METADATA_SCHEMA_VERSION {
            Ok(())
        } else {
            Err(unsupported_schema_error("timeline", self.schema_version))
        }
    }
}

impl TimelineRouteRecord {
    /// A route lookup reads newer records too.
    pub fn validate_schema_version(&self) -> (result: Result<(), TsoError>)
        ensures
            result is Ok <==> accepts_schema(self.schema_version, true),
            result is Ok <==> self.schema_version >= CURRENT_METADATA_SCHEMA_VERSION,
            result matches Err(error) ==> error.is_internal(
                unsupported_schema("timeline"@, self.schema_version),
            ),
    {
        if self.schema_version >= CURRENT_METADATA_SCHEMA_VERSION {
            Ok(())
        } else {
            Err(unsupported_schema_error("timeline", self.schema_version))
        }
    }
}

impl GeneratorRecord {
    pub fn validate_schema_version(&self) -> (result: Result<(), TsoError>)
        ensures
            result is Ok <==> accepts_schema(self.schema_version, false),
            result is Ok <==> self.schema_version == CURRENT_METADATA_SCHEMA_VERSION,
            result matches Err(error) ==> error.is_internal(
                unsupported_schema("generator"@, self.schema_version),
            ),
    {
        if self.schema_version == CURRENT_METADATA_SCHEMA_VERSION {
            Ok(())
        } else {
            Err(unsupported_schema_error("generator", self.schema_version))
        }
    }

    pub fn stamped_for_persistence(&self) -> (record: Self)
        ensures
            record@ == self@.stamped(),
    {
        let mut record = self.clone();
        record.schema_version = CURRENT_METADATA_SCHEMA_VERSION;
        record
    }
}

impl RequestRecord {
    pub fn validate_schema_version(&self) -> (result: Result<(), TsoError>)
        ensures
            result is Ok <==> accepts_schema(self.schema_version, false),
            result is Ok <==> self.schema_version == CURRENT_METADATA_SCHEMA_VERSION,
            result matches Err(error) ==> error.is_internal(
                unsupported_schema("request"@, self.schema_version),
            ),
    {
        if self.schema_version == CURRENT_METADATA_SCHEMA_VERSION {
            Ok(())
        } else {
            Err(unsupported_schema_error("request", self.schema_version))
        }
    }

    pub fn stamped_for_persistence(&self) -> (record: Self)
        ensures
            record@ == self@.stamped(),
    {
        let mut record = self.clone();
        record.schema_version = CURRENT_METADATA_SCHEMA_VERSION;
        record
    }

    /// What a request is answered that asks again.
    pub open spec fn answers(
        self,
        timeline_key: Seq<char>,
        result: Result<Option<AllocateTimestampsResponse>, TsoError>,
    ) -> bool {
        match (self.state, self.response) {
            (RequestRecordState::Pending, _) => result matches Ok(None),
            (RequestRecordState::Completed, None) => result matches Err(error)
                && error.is_internal(
                "completed request record missing response for timeline "@ + timeline_key,
            ),
            (RequestRecordState::Completed, Some(stored)) => if stored.timeline_key@.len() > 0
                && stored.timeline_key@ != timeline_key {
                result matches Err(error) && error.is_internal(
                    "request response timeline mismatch: stored="@ + stored.timeline_key@
                        + " requested="@ + timeline_key,
                )
            } else {
                result matches Ok(Some(response)) && {
                    &&& response.timeline_key@ == timeline_key
                    &&& response.generator_id == stored.generator_id
                    &&& response.epoch == stored.epoch
                    &&& response.route_version == stored.route_version
                    &&& response.ranges@ == stored.ranges@
                }
            },
        }
    }

    /// The answer of a completed request for the timeline that asks.
    pub fn completed_response(&self, timeline_key: &str) -> (result: Result<
        Option<AllocateTimestampsResponse>,
        TsoError,
    >)
        ensures
            self.answers(timeline_key@, result),
            match (self.state, self.response) {
                (RequestRecordState::Pending, _) => result matches Ok(None),
                (RequestRecordState::Completed, None) => result matches Err(error)
                    && error.is_internal(
                    "completed request record missing response for timeline "@ + timeline_key@,
                ),
                (RequestRecordState::Completed, Some(stored)) => if stored.timeline_key@.len() > 0
                    && stored.timeline_key@ != timeline_key@ {
                    result matches Err(error) && error.is_internal(
                        "request response timeline mismatch: stored="@ + stored.timeline_key@
                            + " requested="@ + timeline_key@,
                    )
                } else {
                    result matches Ok(Some(response)) && {
                        &&& response.timeline_key@ == timeline_key@
                        &&& response.generator_id == stored.generator_id
                        &&& response.epoch == stored.epoch
                        &&& response.route_version == stored.route_version
                        &&& response.ranges@ == stored.ranges@
                    }
                },
            },
    {
        match self.state {
            RequestRecordState::Pending => Ok(None),
            RequestRecordState::Completed => match &self.response {
                Some(stored) => {
                    if !stored.timeline_key.as_str().is_empty() && stored.timeline_key
                        != timeline_key.to_owned() {
                        let mut message = "request response timeline mismatch: stored=".to_owned();
                        message.append(stored.timeline_key.as_str());
                        message.append(" requested=");
                        message.append(timeline_key);
                        return Err(TsoError::Internal(message));
                    }
                    Ok(
                        Some(
                            AllocateTimestampsResponse {
                                timeline_key: timeline_key.to_owned(),
                                generator_id: stored.generator_id,
                                epoch: stored.epoch,
                                route_version: stored.route_version,
                                ranges: copy_ranges(&stored.ranges),
                            },
                        ),
                    )
                },
                None => {
                    let mut message =
                        "completed request record missing response for timeline ".to_owned();
                    message.append(timeline_key);
                    Err(TsoError::Internal(message))
                },
            },
        }
    }
}

/// A completed request that asks again is answered with the very timestamps that it was given, for
/// its own timeline and for no other; a request that is not completed is not answered.
pub proof fn completed_requests_are_answered_alike(
    record: RequestRecord,
    timeline_key: Seq<char>,
    result: Result<Option<AllocateTimestampsResponse>, TsoError>,
)
    requires
        record.answers(timeline_key, result),
    ensures
        result matches Ok(Some(response)) ==> {
            &&& record.state == RequestRecordState::Completed
            &&& record.response matches Some(stored)
            &&& response.ranges@ == stored.ranges@
            &&& response.generator_id == stored.generator_id
            &&& response.epoch == stored.epoch
            &&& response.route_version == stored.route_version
            &&& response.timeline_key@ == timeline_key
            &&& stored.timeline_key@ == timeline_key || stored.timeline_key@.len() == 0
        },
        result matches Ok(None) <==> record.state == RequestRecordState::Pending,
        record.state == RequestRecordState::Completed && (record.response matches Some(stored)
            && stored.timeline_key@ == timeline_key) ==> result is Ok,
{
}

/// Stamping a record for writing changes its schema version to the current one and nothing else.
pub proof fn stamping_changes_the_schema_only(
    timeline: TimelineRecordView,
    generator: GeneratorRecordView,
    request: RequestRecordView,
)
    ensures
        timeline.stamped().schema_version == 1,
        timeline.stamped().route == timeline.route,
        timeline.stamped().state == timeline.state,
        timeline.stamped().recovery_floor_tso == timeline.recovery_floor_tso,
        timeline.stamped().issued_upper_bound == timeline.issued_upper_bound,
        timeline.stamped().last_graceful_issued == timeline.last_graceful_issued,
        timeline.stamped().lease_expire_at_ms == timeline.lease_expire_at_ms,
        timeline.stamped().updated_at_ms == timeline.updated_at_ms,
        generator.stamped().schema_version == 1,
        generator.stamped().generator_id == generator.generator_id,
        generator.stamped().owner_worker_endpoint == generator.owner_worker_endpoint,
        generator.stamped().owner_instance_id == generator.owner_instance_id,
        generator.stamped().generator_lease_token == generator.generator_lease_token,
        generator.stamped().lease_expire_at_ms == generator.lease_expire_at_ms,
        generator.stamped().last_issued_tso == generator.last_issued_tso,
        generator.stamped().issued_upper_bound == generator.issued_upper_bound,
        generator.stamped().updated_at_ms == generator.updated_at_ms,
        request.stamped().schema_version == 1,
        request.stamped().state == request.state,
        request.stamped().response == request.response,
        request.stamped().fingerprint_timeline_key == request.fingerprint_timeline_key,
        request.stamped().fingerprint_count == request.fingerprint_count,
        request.stamped().updated_at_ms == request.updated_at_ms,
{
}

/// One compare-and-exchange of a batch over timelines.
#[derive(Debug)]
pub struct TimelineBatchOp {
    pub timeline_key: String,
    pub previous_revision: u64,
    pub record: TimelineRecord,
}

/// A page of timelines, and the key to go on from when more follow.
#[derive(Debug, PartialEq, Eq)]
pub struct TimelineRecordListPage {
    pub records: Vec<TimelineRecord>,
    pub next_start_after_timeline_key: Option<String>,
}

/// A page of filter records, and the key to go on from when more follow.
#[derive(Debug, PartialEq, Eq)]
pub struct TimelineFilterRecordListPage {
    pub records: Vec<TimelineFilterRecord>,
    pub next_start_after_timeline_key: Option<String>,
}

/// One compare-and-exchange of a batch over generators.
#[derive(Debug)]
pub struct GeneratorBatchOp {
    pub generator_id: u32,
    pub previous_revision: u64,
    pub record: GeneratorRecord,
}

/// A route change is reported unless the previous route is known and says the same.
pub open spec fn route_changes(previous: Option<TimelineRoute>, next: TimelineRoute) -> bool {
    previous matches Some(route) ==> route@ != next@
}

/// A copy of a stored response says the same in every part.
pub proof fn copied_responses_agree(a: AllocationResponseRecord, b: AllocationResponseRecord)
    ensures
        same_response(a, b) <==> {
            &&& a.timeline_key@ == b.timeline_key@
            &&& a.generator_id == b.generator_id
            &&& a.epoch == b.epoch
            &&& a.route_version == b.route_version
            &&& a.ranges@ == b.ranges@
        },
{
}

/// A route changes where it is new or where any part of it is another one.
pub proof fn routes_change_where_they_differ(
    previous: Option<TimelineRoute>,
    next: TimelineRoute,
)
    ensures
        previous is None ==> route_changes(previous, next),
        previous matches Some(route) ==> (route_changes(previous, next) <==> {
            ||| route.timeline_key@ != next.timeline_key@
            ||| route.generator_id != next.generator_id
            ||| route.owner_worker_endpoint@ != next.owner_worker_endpoint@
            ||| route.epoch != next.epoch
            ||| route.route_version != next.route_version
            ||| route.resource_tier != next.resource_tier
        }),
{
}

/// The route of a record that may not be there.
pub open spec fn route_in(record: Option<&TimelineRecord>) -> Option<TimelineRoute> {
    match record {
        Some(found) => Some(found.route),
        None => None,
    }
}

/// The update that a written record brings.
pub open spec fn update_for(
    previous: Option<TimelineRoute>,
    next: TimelineRoute,
) -> Option<TimelineRoute> {
    if route_changes(previous, next) {
        Some(next)
    } else {
        None
    }
}

/// What is passed on of a written record is its route, and only where that changed.
pub proof fn updates_tell_the_new_route(previous: Option<TimelineRoute>, next: TimelineRoute)
    ensures
        previous is None ==> update_for(previous, next) == Some(next),
        previous matches Some(route) ==> (update_for(previous, next) is None <==> route@ == next@),
        update_for(previous, next) matches Some(told) ==> told@ == next@,
{
}

/// Records that say the same are the same in every part, and so are routes.
pub proof fn records_that_say_the_same_agree(
    a: TimelineRecord,
    b: TimelineRecord,
    c: GeneratorRecord,
    d: GeneratorRecord,
    e: RequestRecord,
    f: RequestRecord,
)
    ensures
        a@ == b@ <==> {
            &&& a.schema_version == b.schema_version
            &&& a.route.timeline_key@ == b.route.timeline_key@
            &&& a.route.generator_id == b.route.generator_id
            &&& a.route.owner_worker_endpoint@ == b.route.owner_worker_endpoint@
            &&& a.route.epoch == b.route.epoch
            &&& a.route.route_version == b.route.route_version
            &&& a.route.resource_tier == b.route.resource_tier
            &&& a.state == b.state
            &&& a.recovery_floor_tso == b.recovery_floor_tso
            &&& a.issued_upper_bound == b.issued_upper_bound
            &&& a.last_graceful_issued == b.last_graceful_issued
            &&& a.lease_expire_at_ms == b.lease_expire_at_ms
            &&& a.updated_at_ms == b.updated_at_ms
        },
        c@ == d@ <==> {
            &&& c.schema_version == d.schema_version
            &&& c.generator_id == d.generator_id
            &&& c.owner_worker_endpoint@ == d.owner_worker_endpoint@
            &&& c.owner_instance_id@ == d.owner_instance_id@
            &&& c.generator_lease_token == d.generator_lease_token
            &&& c.lease_expire_at_ms == d.lease_expire_at_ms
            &&& c.last_issued_tso == d.last_issued_tso
            &&& c.issued_upper_bound == d.issued_upper_bound
            &&& c.updated_at_ms == d.updated_at_ms
        },
        e@ == f@ ==> {
            &&& e.schema_version == f.schema_version
            &&& e.fingerprint.timeline_key@ == f.fingerprint.timeline_key@
            &&& e.fingerprint.count == f.fingerprint.count
            &&& e.state == f.state
            &&& e.response is Some <==> f.response is Some
            &&& e.response is Some ==> {
                &&& e.response->0.timeline_key@ == f.response->0.timeline_key@
                &&& e.response->0.generator_id == f.response->0.generator_id
                &&& e.response->0.epoch == f.response->0.epoch
                &&& e.response->0.route_version == f.response->0.route_version
                &&& e.response->0.ranges@ == f.response->0.ranges@
            }
            &&& e.updated_at_ms == f.updated_at_ms
        },
{
}

pub fn timeline_route_update_from_routes(
    previous_route: Option<&TimelineRoute>,
    next_route: &TimelineRoute,
) -> (update: Option<TimelineRoute>)
    ensures
        update == update_for(
            match previous_route {
                Some(route) => Some(*route),
                None => None,
            },
            *next_route,
        ),
        update is Some <==> (previous_route matches Some(route) ==> route@ != next_route@),
        update matches Some(route) ==> route == *next_route,
{
    match previous_route {
        Some(route) => if *route == *next_route {
            None
        } else {
            Some(next_route.clone())
        },
        None => Some(next_route.clone()),
    }
}

pub fn timeline_route_changed(
    previous_record: Option<&TimelineRecord>,
    next_record: &TimelineRecord,
) -> (changed: bool)
    ensures
        changed == route_changes(route_in(previous_record), next_record.route),
        changed <==> (previous_record matches Some(record) ==> record.route@
            != next_record.route@),
{
    match previous_record {
        Some(record) => timeline_route_update_from_routes(
            Some(&record.route),
            &next_record.route,
        ).is_some(),
        None => timeline_route_update_from_routes(None, &next_record.route).is_some(),
    }
}

pub fn timeline_route_update(
    previous_record: Option<&TimelineRecord>,
    next_record: &TimelineRecord,
) -> (update: Option<TimelineRoute>)
    ensures
        update == update_for(route_in(previous_record), next_record.route),
        update is Some <==> (previous_record matches Some(record) ==> record.route@
            != next_record.route@),
        update matches Some(route) ==> route == next_record.route,
{
    if timeline_route_changed(previous_record, next_record) {
        Some(next_record.route.clone())
    } else {
        None
    }
}

pub fn collect_timeline_route_update(
    previous_record: Option<&TimelineRecord>,
    next_record: &TimelineRecord,
    route_updates: &mut Vec<TimelineRoute>,
)
    ensures
        final(route_updates)@ == match update_for(route_in(previous_record), next_record.route) {
            Some(update) => old(route_updates)@.push(update),
            None => old(route_updates)@,
        },
        final(route_updates)@ == if previous_record matches Some(record) && record.route@
            == next_record.route@ {
            old(route_updates)@
        } else {
            old(route_updates)@.push(next_record.route)
        },
{
    if let Some(route_update) = timeline_route_update(previous_record, next_record) {
        route_updates.push(route_update);
    }
}

} // verus!
