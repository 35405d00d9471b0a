//! Records as they are read back from the store.

use vstd::prelude::*;

use crate::error::TsoError;
use crate::metadata::etcd::txn;
use crate::metadata::etcd::txn::reported;
use crate::metadata::types;
use crate::metadata::types::{
    GeneratorRecord, RequestRecord, TimelineRecord, TimelineRouteRecord,
    CURRENT_METADATA_SCHEMA_VERSION,
};

verus! {

/// A value that was found under a key: what it decodes to, or why it does not, and the revision at
/// which it was written.
#[derive(Debug)]
pub struct Found<T> {
    pub value: Result<T, String>,
    pub mod_revision: i64,
}

/// What a lookup comes to before the record itself is looked at.
pub open spec fn looked_up<T>(
    reply: Result<Option<Found<T>>, String>,
    get_heading: Seq<char>,
    decode_heading: Seq<char>,
    result: Result<Option<(T, u64)>, TsoError>,
) -> bool {
    match reply {
        Err(report) => result matches Err(error) && txn::is_reported(error, get_heading, report@),
        Ok(None) => result matches Ok(None),
        Ok(Some(found)) => match found.value {
            Err(report) => result matches Err(error) && txn::is_reported(
                error,
                decode_heading,
                report@,
            ),
            Ok(record) => result matches Ok(Some((value, revision))) && value == record && revision
                == txn::as_revision(found.mod_revision),
        },
    }
}

/// The record that a lookup found.
pub fn record_of<T>(
    reply: Result<Option<Found<T>>, String>,
    get_heading: &str,
    decode_heading: &str,
) -> (result: Result<Option<(T, u64)>, TsoError>)
    ensures
        looked_up(reply, get_heading@, decode_heading@, result),
{
    match reply {
        Err(report) => Err(reported(get_heading, report.as_str())),
        Ok(None) => Ok(None),
        Ok(Some(found)) => match found.value {
            Err(report) => Err(reported(decode_heading, report.as_str())),
            Ok(record) => Ok(Some((record, #[verifier::truncate] (found.mod_revision as u64)))),
        },
    }
}

/// What a lookup of a record comes to: a record that was found is refused where its schema is not
/// supported.
pub open spec fn loads<T>(
    reply: Result<Option<Found<T>>, String>,
    get_heading: Seq<char>,
    decode_heading: Seq<char>,
    supported: bool,
    schema_fault: Seq<char>,
    result: Result<Option<(T, u64)>, TsoError>,
) -> bool {
    if (reply matches Ok(Some(found)) && found.value is Ok) && !supported {
        result matches Err(error) && error.is_internal(schema_fault)
    } else {
        looked_up(reply, get_heading, decode_heading, result)
    }
}

/// The record that the lookup found, where it decodes.
pub open spec fn decoded<T>(reply: Result<Option<Found<T>>, String>) -> T {
    reply->Ok_0->Some_0.value->Ok_0
}

/// What loading a request record comes to.
pub open spec fn loads_request(
    reply: Result<Option<Found<RequestRecord>>, String>,
    result: Result<Option<(RequestRecord, u64)>, TsoError>,
) -> bool {
    loads(
        reply,
        "Etcd get_request failed"@,
        "Request record deserialization failed"@,
        decoded(reply).schema_version == CURRENT_METADATA_SCHEMA_VERSION,
        types::unsupported_schema("request"@, decoded(reply).schema_version),
        result,
    )
}

pub fn load_request_record(reply: Result<Option<Found<RequestRecord>>, String>) -> (result: Result<
    Option<(RequestRecord, u64)>,
    TsoError,
>)
    ensures
        loads_request(reply, result),
{
    match record_of(reply, "Etcd get_request failed", "Request record deserialization failed") {
        Err(error) => Err(error),
        Ok(None) => Ok(None),
        Ok(Some((record, revision))) => match record.validate_schema_version() {
            Ok(()) => Ok(Some((record, revision))),
            Err(error) => Err(error),
        },
    }
}

/// What loading a timeline comes to.
pub open spec fn loads_timeline(
    reply: Result<Option<Found<TimelineRecord>>, String>,
    result: Result<Option<(TimelineRecord, u64)>, TsoError>,
) -> bool {
    loads(
        reply,
        "Etcd get failed"@,
        "Record deserialization failed"@,
        decoded(reply).schema_version == CURRENT_METADATA_SCHEMA_VERSION,
        types::unsupported_schema("timeline"@, decoded(reply).schema_version),
        result,
    )
}

pub fn load_timeline(reply: Result<Option<Found<TimelineRecord>>, String>) -> (result: Result<
    Option<(TimelineRecord, u64)>,
    TsoError,
>)
    ensures
        loads_timeline(reply, result),
{
    match record_of(reply, "Etcd get failed", "Record deserialization failed") {
        Err(error) => Err(error),
        Ok(None) => Ok(None),
        Ok(Some((record, revision))) => match record.validate_schema_version() {
            Ok(()) => Ok(Some((record, revision))),
            Err(error) => Err(error),
        },
    }
}

/// What loading the route of a timeline comes to: a newer schema is read as far as the route.
pub open spec fn loads_route(
    reply: Result<Option<Found<TimelineRouteRecord>>, String>,
    result: Result<Option<(TimelineRouteRecord, u64)>, TsoError>,
) -> bool {
    loads(
        reply,
        "Etcd get_route failed"@,
        "Route record deserialization failed"@,
        decoded(reply).schema_version >= CURRENT_METADATA_SCHEMA_VERSION,
        types::unsupported_schema("timeline"@, decoded(reply).schema_version),
        result,
    )
}

pub fn load_timeline_route(reply: Result<Option<Found<TimelineRouteRecord>>, String>) -> (result:
    Result<Option<(TimelineRouteRecord, u64)>, TsoError>)
    ensures
        loads_route(reply, result),
{
    match record_of(reply, "Etcd get_route failed", "Route record deserialization failed") {
        Err(error) => Err(error),
        Ok(None) => Ok(None),
        Ok(Some((record, revision))) => match record.validate_schema_version() {
            Ok(()) => Ok(Some((record, revision))),
            Err(error) => Err(error),
        },
    }
}

/// What loading a generator comes to.
pub open spec fn loads_generator(
    reply: Result<Option<Found<GeneratorRecord>>, String>,
    result: Result<Option<(GeneratorRecord, u64)>, TsoError>,
) -> bool {
    loads(
        reply,
        "Etcd get_generator failed"@,
        "Generator record deserialization failed"@,
        decoded(reply).schema_version == CURRENT_METADATA_SCHEMA_VERSION,
        types::unsupported_schema("generator"@, decoded(reply).schema_version),
        result,
    )
}

pub fn load_generator(reply: Result<Option<Found<GeneratorRecord>>, String>) -> (result: Result<
    Option<(GeneratorRecord, u64)>,
    TsoError,
>)
    ensures
        loads_generator(reply, result),
{
    match record_of(reply, "Etcd get_generator failed", "Generator record deserialization failed") {
        Err(error) => Err(error),
        Ok(None) => Ok(None),
        Ok(Some((record, revision))) => match record.validate_schema_version() {
            Ok(()) => Ok(Some((record, revision))),
            Err(error) => Err(error),
        },
    }
}

} // verus!
