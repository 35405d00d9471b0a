//! Pages of timelines, in the order of their keys.

use vstd::prelude::*;
use vstd::slice::*;
use vstd::utf8::*;

use crate::error::TsoError;
use crate::metadata::etcd::lease_lock::bytes_equal;
use crate::metadata::etcd::ranges;
use crate::metadata::etcd::ranges::{fetch_limit_for_page, next_etcd_key_after, prefix_range_end};
use crate::metadata::etcd::txn;
use crate::metadata::etcd::txn::{key_bytes, reported};
use crate::metadata::keys;
use crate::metadata::keys::{
    route_prefix, timeline_key, timeline_status_owner_index_prefix,
    timeline_status_state_index_prefix,
};
use crate::metadata::pages;
use crate::metadata::pages::{cut_page, sort_by_key, Keyed};
use crate::metadata::types;
use crate::metadata::types::{
    TimelineFilterRecord, TimelineFilterRecordListPage, TimelineRecord, TimelineRecordListPage,
    CURRENT_METADATA_SCHEMA_VERSION,
};
use crate::model::TimelineLifecycleState;
use crate::text;
use crate::text::{join2, text_less};

verus! {

/// A row of timelines.
#[derive(Debug)]
pub struct TimelineRow {
    pub key: Vec<u8>,
    pub record: Result<TimelineRecord, String>,
}

/// A row of timelines, of which only the route and the state are read.
#[derive(Debug)]
pub struct FilterRow {
    pub key: Vec<u8>,
    pub record: Result<TimelineFilterRecord, String>,
}

/// A range to read.
#[derive(Debug, PartialEq, Eq)]
pub struct RangeQuery {
    pub start: Vec<u8>,
    pub end: Vec<u8>,
    pub limit: i64,
}

/// Where a page starts: at the timeline that it comes after, or at the first one.
pub open spec fn page_start(prefix: Seq<char>, start_after: Option<&str>) -> Seq<u8> {
    match start_after {
        Some(timeline) => encode_utf8(keys::timeline_key_text(prefix, timeline@)),
        None => encode_utf8(keys::route_prefix_text(prefix)),
    }
}

/// What is read for a page.
pub open spec fn asks_for_page(
    prefix: Seq<char>,
    start_after: Option<&str>,
    limit: usize,
    asked: Option<RangeQuery>,
) -> bool {
    match asked {
        Some(query) => {
            &&& limit > 0
            &&& query.start@ == page_start(prefix, start_after)
            &&& query.end@ == ranges::range_end(encode_utf8(keys::route_prefix_text(prefix)))
            &&& query.limit == ranges::page_fetch_limit(limit, start_after is Some)
        },
        None => limit == 0,
    }
}

/// What to read for a page of timelines; nothing for a page that holds none.
pub fn page_query(prefix: &str, start_after: Option<&str>, limit: usize) -> (asked: Option<
    RangeQuery,
>)
    ensures
        asks_for_page(prefix@, start_after, limit, asked),
        match asked {
            Some(query) => {
                &&& limit > 0
                &&& query.start@ == page_start(prefix@, start_after)
                &&& query.end@ == ranges::range_end(encode_utf8(keys::route_prefix_text(prefix@)))
                &&& query.limit == ranges::page_fetch_limit(limit, start_after is Some)
            },
            None => limit == 0,
        },
{
    if limit == 0 {
        return None;
    }
    let first = route_prefix(prefix);
    let start = match start_after {
        Some(timeline) => timeline_key(prefix, timeline),
        None => first.clone(),
    };
    Some(
        RangeQuery {
            start: key_bytes(start.as_str()),
            end: prefix_range_end(first.as_str()),
            limit: fetch_limit_for_page(limit, start_after.is_some()),
        },
    )
}

/// The row is the one that the page comes after.
pub open spec fn is_cursor_row(key: Seq<u8>, start: Seq<u8>, continues: bool) -> bool {
    continues && key == start
}

/// The row stops the listing.
pub open spec fn timeline_row_faulty(row: TimelineRow, start: Seq<u8>, continues: bool) -> bool {
    !is_cursor_row(row.key@, start, continues) && match row.record {
        Err(_) => true,
        Ok(record) => record.schema_version != CURRENT_METADATA_SCHEMA_VERSION,
    }
}

/// Why it does.
pub open spec fn timeline_row_fault(row: TimelineRow, heading: Seq<char>, error: TsoError) -> bool {
    match row.record {
        Err(report) => txn::is_reported(error, heading, report@),
        Ok(record) => error.is_internal(
            types::unsupported_schema("timeline"@, record.schema_version),
        ),
    }
}

/// The first row that stops the listing, and why.
pub open spec fn timeline_rows_stop(
    rows: Seq<TimelineRow>,
    start: Seq<u8>,
    continues: bool,
    heading: Seq<char>,
    i: int,
    error: TsoError,
) -> bool {
    &&& 0 <= i < rows.len()
    &&& timeline_row_faulty(rows[i], start, continues)
    &&& timeline_row_fault(rows[i], heading, error)
    &&& forall|k: int| 0 <= k < i ==> !timeline_row_faulty(#[trigger] rows[k], start, continues)
}

/// The records of the rows, without the one that the page comes after.
pub open spec fn timeline_records(
    rows: Seq<TimelineRow>,
    start: Seq<u8>,
    continues: bool,
) -> Seq<TimelineRecord>
    decreases rows.len(),
{
    if rows.len() == 0 {
        Seq::empty()
    } else {
        let before = timeline_records(rows.drop_last(), start, continues);
        if is_cursor_row(rows.last().key@, start, continues) || rows.last().record is Err {
            before
        } else {
            before.push(rows.last().record->Ok_0)
        }
    }
}

/// What reading the rows comes to.
pub open spec fn reads_timelines(
    rows: Seq<TimelineRow>,
    start: Seq<u8>,
    continues: bool,
    heading: Seq<char>,
    result: Result<Vec<TimelineRecord>, TsoError>,
) -> bool {
    match result {
        Ok(records) => {
            &&& forall|i: int|
                0 <= i < rows.len() ==> !timeline_row_faulty(#[trigger] rows[i], start, continues)
            &&& records@ == timeline_records(rows, start, continues)
        },
        Err(error) => exists|i: int|
            #[trigger] timeline_rows_stop(rows, start, continues, heading, i, error),
    }
}

/// The records of rows.
pub fn read_timelines(
    rows: &Vec<TimelineRow>,
    start: &[u8],
    continues: bool,
    heading: &str,
) -> (result: Result<Vec<TimelineRecord>, TsoError>)
    ensures
        reads_timelines(rows@, start@, continues, heading@, result),
{
    let mut records: Vec<TimelineRecord> = Vec::new();
    let mut i: usize = 0;
    assert(rows@.take(0) =~= Seq::<TimelineRow>::empty());
    while i < rows.len()
        invariant
            i <= rows@.len(),
            forall|k: int|
                0 <= k < i ==> !timeline_row_faulty(#[trigger] rows@[k], start@, continues),
            records@ == timeline_records(rows@.take(i as int), start@, continues),
        decreases rows@.len() - i,
    {
        let row = &rows[i];
        assert(rows@.take(i + 1).drop_last() =~= rows@.take(i as int));
        assert(rows@.take(i + 1).last() == rows@[i as int]);
        if !(continues && bytes_equal(row.key.as_slice(), start)) {
            match &row.record {
                Err(report) => {
                    let error = reported(heading, report.as_str());
                    assert(timeline_rows_stop(
                        rows@,
                        start@,
                        continues,
                        heading@,
                        i as int,
                        error,
                    ));
                    return Err(error);
                },
                Ok(record) => {
                    match record.validate_schema_version() {
                        Ok(()) => {},
                        Err(error) => {
                            assert(timeline_rows_stop(
                                rows@,
                                start@,
                                continues,
                                heading@,
                                i as int,
                                error,
                            ));
                            return Err(error);
                        },
                    }
                    records.push(record.clone());
                },
            }
        }
        i = i + 1;
    }
    assert(rows@.take(i as int) =~= rows@);
    Ok(records)
}

/// The records of the rows, in order, fill the page.
pub open spec fn timelines_fill(
    rows: Seq<TimelineRow>,
    start: Seq<u8>,
    continues: bool,
    limit: nat,
    records: Vec<TimelineRecord>,
    sorted: Seq<TimelineRecord>,
    page: TimelineRecordListPage,
) -> bool {
    &&& reads_timelines(
        rows,
        start,
        continues,
        "Timeline record page deserialization failed"@,
        Ok(records),
    )
    &&& pages::is_sorted_page(
        records@,
        sorted,
        limit,
        page.records@,
        page.next_start_after_timeline_key,
    )
}

/// What a page of timelines comes to, once its rows were read.
pub open spec fn pages_timelines_of(
    rows: Seq<TimelineRow>,
    start: Seq<u8>,
    continues: bool,
    limit: nat,
    result: Result<TimelineRecordListPage, TsoError>,
) -> bool {
    match result {
        Err(error) => reads_timelines(
            rows,
            start,
            continues,
            "Timeline record page deserialization failed"@,
            Err(error),
        ),
        Ok(page) => exists|records: Vec<TimelineRecord>, sorted: Seq<TimelineRecord>|
            #[trigger] timelines_fill(rows, start, continues, limit, records, sorted, page),
    }
}

fn page_of_timelines(
    rows: &Vec<TimelineRow>,
    start: &[u8],
    continues: bool,
    limit: usize,
) -> (result: Result<TimelineRecordListPage, TsoError>)
    requires
        limit > 0,
    ensures
        pages_timelines_of(rows@, start@, continues, limit as nat, result),
{
    let records = match read_timelines(
        rows,
        start,
        continues,
                "Timeline record page deserialization failed",
    ) {
        Err(error) => return Err(error),
        Ok(records) => records,
    };
    let ghost found = records;
    let sorted = sort_by_key(records);
    let ghost ordered = sorted@;
    let (page, next) = cut_page(sorted, limit);
    let page = TimelineRecordListPage { records: page, next_start_after_timeline_key: next };
    assert(timelines_fill(rows@, start@, continues, limit as nat, found, ordered, page));
    Ok(page)
}

/// What a page of timelines comes to. A page that holds none asks for nothing.
pub open spec fn pages_timelines(
    read: Result<Vec<TimelineRow>, String>,
    start: Seq<u8>,
    continues: bool,
    limit: nat,
    result: Result<TimelineRecordListPage, TsoError>,
) -> bool {
    if limit == 0 {
        result matches Ok(page) && page.records@.len() == 0
            && page.next_start_after_timeline_key is None
    } else {
        match read {
            Err(report) => result matches Err(error) && txn::is_reported(
                error,
                "Etcd list_page failed"@,
                report@,
            ),
            Ok(rows) => pages_timelines_of(rows@, start, continues, limit, result),
        }
    }
}

/// A page of timelines, given the rows that were read for it.
pub fn list_timelines_page(
    read: Result<Vec<TimelineRow>, String>,
    start: &[u8],
    continues: bool,
    limit: usize,
) -> (result: Result<TimelineRecordListPage, TsoError>)
    ensures
        pages_timelines(read, start@, continues, limit as nat, result),
{
    if limit == 0 {
        return Ok(
            TimelineRecordListPage { records: Vec::new(), next_start_after_timeline_key: None },
        );
    }
    match read {
        Err(report) => Err(reported("Etcd list_page failed", report.as_str())),
        Ok(rows) => page_of_timelines(&rows, start, continues, limit),
    }
}

/// The row stops the listing of routes and states. A newer schema is read as far as these.
pub open spec fn filter_row_faulty(row: FilterRow, start: Seq<u8>, continues: bool) -> bool {
    !is_cursor_row(row.key@, start, continues) && match row.record {
        Err(_) => true,
        Ok(record) => record.schema_version < CURRENT_METADATA_SCHEMA_VERSION,
    }
}

pub open spec fn filter_rows_stop(
    rows: Seq<FilterRow>,
    start: Seq<u8>,
    continues: bool,
    i: int,
    error: TsoError,
) -> bool {
    &&& 0 <= i < rows.len()
    &&& filter_row_faulty(rows[i], start, continues)
    &&& match rows[i].record {
        Err(report) => txn::is_reported(
            error,
            "Timeline filter record page deserialization failed"@,
            report@,
        ),
        Ok(record) => error.is_internal(
            types::unsupported_schema("timeline"@, record.schema_version),
        ),
    }
    &&& forall|k: int| 0 <= k < i ==> !filter_row_faulty(#[trigger] rows[k], start, continues)
}

pub open spec fn filter_records(
    rows: Seq<FilterRow>,
    start: Seq<u8>,
    continues: bool,
) -> Seq<TimelineFilterRecord>
    decreases rows.len(),
{
    if rows.len() == 0 {
        Seq::empty()
    } else {
        let before = filter_records(rows.drop_last(), start, continues);
        if is_cursor_row(rows.last().key@, start, continues) || rows.last().record is Err {
            before
        } else {
            before.push(rows.last().record->Ok_0)
        }
    }
}

pub open spec fn reads_filters(
    rows: Seq<FilterRow>,
    start: Seq<u8>,
    continues: bool,
    result: Result<Vec<TimelineFilterRecord>, TsoError>,
) -> bool {
    match result {
        Ok(records) => {
            &&& forall|i: int|
                0 <= i < rows.len() ==> !filter_row_faulty(#[trigger] rows[i], start, continues)
            &&& records@ == filter_records(rows, start, continues)
        },
        Err(error) => exists|i: int|
            #[trigger] filter_rows_stop(rows, start, continues, i, error),
    }
}

fn read_filters(rows: &Vec<FilterRow>, start: &[u8], continues: bool) -> (result: Result<
    Vec<TimelineFilterRecord>,
    TsoError,
>)
    ensures
        reads_filters(rows@, start@, continues, result),
{
    let mut records: Vec<TimelineFilterRecord> = Vec::new();
    let mut i: usize = 0;
    assert(rows@.take(0) =~= Seq::<FilterRow>::empty());
    while i < rows.len()
        invariant
            i <= rows@.len(),
            forall|k: int|
                0 <= k < i ==> !filter_row_faulty(#[trigger] rows@[k], start@, continues),
            records@ == filter_records(rows@.take(i as int), start@, continues),
        decreases rows@.len() - i,
    {
        let row = &rows[i];
        assert(rows@.take(i + 1).drop_last() =~= rows@.take(i as int));
        assert(rows@.take(i + 1).last() == rows@[i as int]);
        if !(continues && bytes_equal(row.key.as_slice(), start)) {
            match &row.record {
                Err(report) => {
                    let error = reported(
                        "Timeline filter record page deserialization failed",
                        report.as_str(),
                    );
                    assert(filter_rows_stop(rows@, start@, continues, i as int, error));
                    return Err(error);
                },
                Ok(record) => {
                    match record.validate_schema_version() {
                        Ok(()) => {},
                        Err(error) => {
                            assert(filter_rows_stop(rows@, start@, continues, i as int, error));
                            return Err(error);
                        },
                    }
                    records.push(
                        TimelineFilterRecord {
                            schema_version: record.schema_version,
                            route: record.route.clone(),
                            state: record.state,
                        },
                    );
                },
            }
        }
        i = i + 1;
    }
    assert(rows@.take(i as int) =~= rows@);
    Ok(records)
}

/// The records of the rows, in order, fill the page.
pub open spec fn filters_fill(
    rows: Seq<FilterRow>,
    start: Seq<u8>,
    continues: bool,
    limit: nat,
    records: Vec<TimelineFilterRecord>,
    sorted: Seq<TimelineFilterRecord>,
    page: TimelineFilterRecordListPage,
) -> bool {
    &&& reads_filters(rows, start, continues, Ok(records))
    &&& pages::is_sorted_page(
        records@,
        sorted,
        limit,
        page.records@,
        page.next_start_after_timeline_key,
    )
}

/// What a page of routes and states comes to, once its rows were read.
pub open spec fn pages_filters_of(
    rows: Seq<FilterRow>,
    start: Seq<u8>,
    continues: bool,
    limit: nat,
    result: Result<TimelineFilterRecordListPage, TsoError>,
) -> bool {
    match result {
        Err(error) => reads_filters(rows, start, continues, Err(error)),
        Ok(page) => exists|records: Vec<TimelineFilterRecord>, sorted: Seq<TimelineFilterRecord>|
            #[trigger] filters_fill(rows, start, continues, limit, records, sorted, page),
    }
}

fn page_of_filters(rows: &Vec<FilterRow>, start: &[u8], continues: bool, limit: usize) -> (result:
    Result<TimelineFilterRecordListPage, TsoError>)
    requires
        limit > 0,
    ensures
        pages_filters_of(rows@, start@, continues, limit as nat, result),
{
    let records = match read_filters(
        rows,
        start,
        continues,
    ) {
        Err(error) => return Err(error),
        Ok(records) => records,
    };
    let ghost found = records;
    let sorted = sort_by_key(records);
    let ghost ordered = sorted@;
    let (page, next) = cut_page(sorted, limit);
    let page = TimelineFilterRecordListPage { records: page, next_start_after_timeline_key: next };
    assert(filters_fill(rows@, start@, continues, limit as nat, found, ordered, page));
    Ok(page)
}

/// What a page of routes and states comes to. A page that holds none asks for nothing.
pub open spec fn pages_filters(
    read: Result<Vec<FilterRow>, String>,
    start: Seq<u8>,
    continues: bool,
    limit: nat,
    result: Result<TimelineFilterRecordListPage, TsoError>,
) -> bool {
    if limit == 0 {
        result matches Ok(page) && page.records@.len() == 0
            && page.next_start_after_timeline_key is None
    } else {
        match read {
            Err(report) => result matches Err(error) && txn::is_reported(
                error,
                "Etcd list_page_filters failed"@,
                report@,
            ),
            Ok(rows) => pages_filters_of(rows@, start, continues, limit, result),
        }
    }
}

/// A page of routes and states, given the rows that were read for it.
pub fn list_timeline_filters_page(
    read: Result<Vec<FilterRow>, String>,
    start: &[u8],
    continues: bool,
    limit: usize,
) -> (result: Result<TimelineFilterRecordListPage, TsoError>)
    ensures
        pages_filters(read, start@, continues, limit as nat, result),
{
    if limit == 0 {
        return Ok(
            TimelineFilterRecordListPage {
                records: Vec::new(),
                next_start_after_timeline_key: None,
            },
        );
    }
    match read {
        Err(report) => Err(reported("Etcd list_page_filters failed", report.as_str())),
        Ok(rows) => page_of_filters(&rows, start, continues, limit),
    }
}

/// All timelines, given all their rows.
pub fn list_timelines(read: Result<Vec<TimelineRow>, String>) -> (result: Result<
    Vec<TimelineRecord>,
    TsoError,
>)
    ensures
        match read {
            Err(report) => result matches Err(error) && txn::is_reported(
                error,
                "Etcd list failed"@,
                report@,
            ),
            Ok(rows) => reads_timelines(
                rows@,
                Seq::empty(),
                false,
                "Timeline record list deserialization failed"@,
                result,
            ),
        },
{
    match read {
        Err(report) => Err(reported("Etcd list failed", report.as_str())),
        Ok(rows) => {
            let nowhere: Vec<u8> = Vec::new();
            assert(nowhere@ =~= Seq::<u8>::empty());
            read_timelines(
                &rows,
                nowhere.as_slice(),
                false,
                "Timeline record list deserialization failed",
            )
        },
    }
}

// ---- listing from an index ----

/// What a listing from an index asks for.
pub enum IndexListStep {
    Scan { query: RangeQuery },
    Done { page: TimelineRecordListPage },
    Failed { error: TsoError },
}

/// A listing from an index that is under way.
pub struct IndexListing {
    pub states: Vec<TimelineLifecycleState>,
    pub continues: bool,
    pub limit: usize,
    pub start: Vec<u8>,
    pub end: Vec<u8>,
    pub records: Vec<TimelineRecord>,
}

/// The state is asked for: any is where none is named.
pub open spec fn wants_state(
    states: Seq<TimelineLifecycleState>,
    state: TimelineLifecycleState,
) -> bool {
    states.len() == 0 || states.contains(state)
}

/// Whether a state is asked for.
pub fn state_is_wanted(states: &Vec<TimelineLifecycleState>, state: TimelineLifecycleState) -> (
    answer: bool)
    ensures
        answer == wants_state(states@, state),
{
    if states.len() == 0 {
        return true;
    }
    let mut i: usize = 0;
    while i < states.len()
        invariant
            i <= states@.len(),
            forall|k: int| 0 <= k < i ==> states@[k] != state,
        decreases states@.len() - i,
    {
        if states[i] == state {
            assert(states@[i as int] == state);
            return true;
        }
        i = i + 1;
    }
    false
}

/// The records of the rows whose state is asked for.
pub open spec fn wanted_records(
    rows: Seq<TimelineRow>,
    start: Seq<u8>,
    continues: bool,
    states: Seq<TimelineLifecycleState>,
) -> Seq<TimelineRecord> {
    timeline_records(rows, start, continues).filter(
        |record: TimelineRecord| wants_state(states, record.state),
    )
}

impl IndexListing {
    pub open spec fn valid(self) -> bool {
        self.limit > 0 && self.records@.len() <= self.limit
    }

    pub open spec fn same_task(self, other: IndexListing) -> bool {
        &&& self.states == other.states
        &&& self.continues == other.continues
        &&& self.limit == other.limit
        &&& self.end == other.end
    }

    pub open spec fn scans(self, step: IndexListStep) -> bool {
        &&& step matches IndexListStep::Scan { query }
        &&& query.start@ == self.start@
        &&& query.end@ == self.end@
        &&& query.limit == ranges::page_fetch_limit(self.limit, self.continues)
    }

    /// The first `count` rows are taken: none of them stops the listing, and the records with a
    /// state that is asked for are added.
    pub open spec fn takes(
        self,
        rows: Seq<TimelineRow>,
        count: int,
        records: Seq<TimelineRecord>,
    ) -> bool {
        &&& 0 <= count <= rows.len()
        &&& forall|k: int|
            0 <= k < count ==> !timeline_row_faulty(#[trigger] rows[k], self.start@, self.continues)
        &&& records == self.records@ + wanted_records(
            rows.take(count),
            self.start@,
            self.continues,
            self.states@,
        )
    }

    /// Rows are taken until there is one record more than the page holds.
    pub open spec fn overflows(
        self,
        rows: Seq<TimelineRow>,
        count: int,
        records: Seq<TimelineRecord>,
    ) -> bool {
        &&& self.takes(rows, count, records)
        &&& records.len() == self.limit + 1
    }

    fn scan(&self) -> (step: IndexListStep)
        ensures
            self.scans(step),
    {
        IndexListStep::Scan {
            query: RangeQuery {
                start: slice_to_vec(self.start.as_slice()),
                end: slice_to_vec(self.end.as_slice()),
                limit: fetch_limit_for_page(self.limit, self.continues),
            },
        }
    }

    /// Begins to list what an index holds under a prefix, after a timeline where one is given.
    pub fn start(
        index_prefix: &str,
        states: Vec<TimelineLifecycleState>,
        start_after: Option<&str>,
        limit: usize,
    ) -> (begun: (Self, IndexListStep))
        ensures
            begun.0.states == states,
            begun.0.continues == (start_after is Some),
            begun.0.limit == limit,
            begun.0.records@.len() == 0,
            begun.0.end@ == ranges::range_end(encode_utf8(index_prefix@)),
            begun.0.start@ == match start_after {
                Some(timeline) => encode_utf8(index_prefix@ + timeline@),
                None => encode_utf8(index_prefix@),
            },
            if limit == 0 {
                begun.1 matches IndexListStep::Done { page } && page.records@.len() == 0
                    && page.next_start_after_timeline_key is None
            } else {
                begun.0.valid() && begun.0.scans(begun.1)
            },
    {
        let start = match start_after {
            Some(timeline) => key_bytes(join2(index_prefix, timeline).as_str()),
            None => key_bytes(index_prefix),
        };
        let listing = IndexListing {
            states,
            continues: start_after.is_some(),
            limit,
            start,
            end: prefix_range_end(index_prefix),
            records: Vec::new(),
        };
        if limit == 0 {
            let page = TimelineRecordListPage {
                records: Vec::new(),
                next_start_after_timeline_key: None,
            };
            return (listing, IndexListStep::Done { page });
        }
        let step = listing.scan();
        (listing, step)
    }

    /// The listing is over: a page is cut off the records that were found.
    pub open spec fn finishes(self, records: Seq<TimelineRecord>, step: IndexListStep) -> bool {
        step matches IndexListStep::Done { page } && pages::cuts(
            records,
            self.limit as nat,
            page.records@,
            page.next_start_after_timeline_key,
        )
    }

    fn finish(&mut self) -> (step: IndexListStep)
        requires
            old(self).limit > 0,
        ensures
            final(self).same_task(*old(self)),
            old(self).finishes(old(self).records@, step),
    {
        let mut records: Vec<TimelineRecord> = Vec::new();
        std::mem::swap(&mut records, &mut self.records);
        let (page, next) = cut_page(records, self.limit);
        IndexListStep::Done {
            page: TimelineRecordListPage { records: page, next_start_after_timeline_key: next },
        }
    }

    /// What rows come to: the listing ends where there are none or where more were found than the
    /// page holds, stops at a row that cannot be read, and reads on otherwise.
    pub open spec fn advances(
        self,
        before: IndexListing,
        read: Result<Vec<TimelineRow>, String>,
        step: IndexListStep,
    ) -> bool {
        match read {
            Err(report) => step matches IndexListStep::Failed { error } && txn::is_reported(
                error,
                "Etcd status index list failed"@,
                report@,
            ),
            Ok(rows) => if rows@.len() == 0 {
                before.finishes(before.records@, step)
            } else {
                ||| exists|count: int, records: Seq<TimelineRecord>|
                    #[trigger] before.overflows(rows@, count, records) && before.finishes(
                        records,
                        step,
                    )
                ||| exists|count: int, records: Seq<TimelineRecord>|
                    #[trigger] before.takes(rows@, count, records) && records.len() <= before.limit
                        && before.stops_after(rows@, count, step)
                ||| (before.takes(rows@, rows@.len() as int, self.records@)
                    && self.records@.len() <= before.limit && self.start@ == ranges::key_after(
                    rows@.last().key@,
                ) && self.scans(step) && self.valid())
            },
        }
    }

    /// The row after the ones that were taken stops the listing.
    pub open spec fn stops_after(
        self,
        rows: Seq<TimelineRow>,
        count: int,
        step: IndexListStep,
    ) -> bool {
        step matches IndexListStep::Failed { error } && timeline_rows_stop(
            rows,
            self.start@,
            self.continues,
            "Timeline status index deserialization failed"@,
            count,
            error,
        )
    }

    /// Takes the rows that were read and says what to do next.
    pub fn on_rows(&mut self, read: Result<Vec<TimelineRow>, String>) -> (step: IndexListStep)
        requires
            old(self).valid(),
        ensures
            final(self).same_task(*old(self)),
            final(self).advances(*old(self), read, step),
    {
        let rows = match read {
            Err(report) => {
                return IndexListStep::Failed {
                    error: reported("Etcd status index list failed", report.as_str()),
                };
            },
            Ok(rows) => rows,
        };
        if rows.len() == 0 {
            return self.finish();
        }
        self.take_rows(&rows)
    }

    fn take_rows(&mut self, rows: &Vec<TimelineRow>) -> (step: IndexListStep)
        requires
            old(self).valid(),
            rows@.len() > 0,
        ensures
            final(self).same_task(*old(self)),
            ({
                ||| exists|count: int, records: Seq<TimelineRecord>|
                    #[trigger] old(self).overflows(rows@, count, records) && old(self).finishes(
                        records,
                        step,
                    )
                ||| exists|count: int, records: Seq<TimelineRecord>|
                    #[trigger] old(self).takes(rows@, count, records) && records.len() <= old(
                        self).limit && old(self).stops_after(rows@, count, step)
                ||| (old(self).takes(rows@, rows@.len() as int, final(self).records@) && final(
                    self).records@.len() <= old(self).limit && final(self).start@
                    == ranges::key_after(rows@.last().key@) && final(self).scans(step) && final(
                    self).valid())
            }),
    {
        let mut i: usize = 0;
        proof {
            assert(rows@.take(0) =~= Seq::<TimelineRow>::empty());
            let none = Seq::<TimelineRecord>::empty();
            reveal(Seq::filter);
            assert(none.filter(
                |record: TimelineRecord| wants_state(old(self).states@, record.state),
            ) =~= none);
            assert(self.records@ + none =~= self.records@);
        }
        while i < rows.len()
            invariant
                i <= rows@.len(),
                old(self).valid(),
                self.valid(),
                self.same_task(*old(self)),
                self.start == old(self).start,
                old(self).takes(rows@, i as int, self.records@),
            decreases rows@.len() - i,
        {
            let row = &rows[i];
            let ghost so_far = self.records@;
            proof {
                assert(rows@.take(i + 1).drop_last() =~= rows@.take(i as int));
                assert(rows@.take(i + 1).last() == rows@[i as int]);
            }
            if self.continues && bytes_equal(row.key.as_slice(), self.start.as_slice()) {
                assert(old(self).takes(rows@, i + 1, self.records@));
            } else {
                let record = match &row.record {
                    Err(report) => {
                        let error = reported(
                            "Timeline status index deserialization failed",
                            report.as_str(),
                        );
                        let step = IndexListStep::Failed { error };
                        assert(old(self).stops_after(rows@, i as int, step));
                        return step;
                    },
                    Ok(record) => record,
                };
                match record.validate_schema_version() {
                    Ok(()) => {},
                    Err(error) => {
                        let step = IndexListStep::Failed { error };
                        assert(old(self).stops_after(rows@, i as int, step));
                        return step;
                    },
                }
                let wanted = state_is_wanted(&self.states, record.state);
                proof {
                    lemma_wanted_step(
                        rows@.take(i as int),
                        rows@[i as int],
                        old(self).start@,
                        old(self).continues,
                        old(self).states@,
                    );
                    assert(rows@.take(i + 1) =~= rows@.take(i as int).push(rows@[i as int]));
                }
                if wanted {
                    self.records.push(record.clone());
                    proof {
                        let before = wanted_records(
                            rows@.take(i as int),
                            old(self).start@,
                            old(self).continues,
                            old(self).states@,
                        );
                        assert((old(self).records@ + before).push(*record) =~= old(self).records@
                            + before.push(*record));
                    }
                    assert(old(self).takes(rows@, i + 1, self.records@));
                    if self.records.len() > self.limit {
                        assert(old(self).overflows(rows@, i + 1, self.records@));
                        return self.finish();
                    }
                } else {
                    assert(old(self).takes(rows@, i + 1, self.records@));
                }
            }
            i = i + 1;
        }
        self.start = next_etcd_key_after(rows[rows.len() - 1].key.as_slice());
        self.scan()
    }
}

proof fn lemma_wanted_step(
    rows: Seq<TimelineRow>,
    row: TimelineRow,
    start: Seq<u8>,
    continues: bool,
    states: Seq<TimelineLifecycleState>,
)
    requires
        !is_cursor_row(row.key@, start, continues),
        row.record is Ok,
    ensures
        wanted_records(rows.push(row), start, continues, states) == if wants_state(
            states,
            row.record->Ok_0.state,
        ) {
            wanted_records(rows, start, continues, states).push(row.record->Ok_0)
        } else {
            wanted_records(rows, start, continues, states)
        },
{
    assert(rows.push(row).drop_last() =~= rows);
    let records = timeline_records(rows, start, continues);
    let record = row.record->Ok_0;
    assert(timeline_records(rows.push(row), start, continues) == records.push(record));
    reveal(Seq::filter);
    assert(records.push(record).drop_last() =~= records);
}

// ---- choosing among the indexes ----

/// How a listing by state and owner is made.
pub enum StatusFilterPlan {
    /// No filter: from the timelines themselves.
    Everything,
    /// From one index.
    Index { index_prefix: String, states: Vec<TimelineLifecycleState> },
    /// From the index of each state, merged.
    Merge { index_prefixes: Vec<String> },
}

pub open spec fn state_prefixes(prefix: Seq<char>, states: Seq<TimelineLifecycleState>) -> Seq<
    Seq<char>,
> {
    Seq::new(
        states.len(),
        |i: int| keys::timeline_status_state_index_prefix_text(prefix, states[i].name()),
    )
}

pub open spec fn prefix_views(prefixes: Seq<String>) -> Seq<Seq<char>> {
    Seq::new(prefixes.len(), |i: int| prefixes[i]@)
}

fn copy_states(states: &Vec<TimelineLifecycleState>) -> (copy: Vec<TimelineLifecycleState>)
    ensures
        copy@ == states@,
{
    let mut copy: Vec<TimelineLifecycleState> = Vec::new();
    let mut i: usize = 0;
    while i < states.len()
        invariant
            i <= states@.len(),
            copy@ == states@.take(i as int),
        decreases states@.len() - i,
    {
        copy.push(states[i]);
        i = i + 1;
        assert(states@.take(i as int) =~= states@.take(i - 1).push(states@[i - 1]));
    }
    assert(states@.take(i as int) =~= states@);
    copy
}

/// The plan for a listing by state and owner.
pub open spec fn plans_filter(
    prefix: Seq<char>,
    states: Seq<TimelineLifecycleState>,
    owner_worker_endpoint: Option<&str>,
    plan: StatusFilterPlan,
) -> bool {
    match owner_worker_endpoint {
        Some(owner) => plan matches StatusFilterPlan::Index { index_prefix, states: wanted }
            && index_prefix@ == keys::timeline_status_owner_index_prefix_text(prefix, owner@)
            && wanted@ == states,
        None => if states.len() == 0 {
            plan is Everything
        } else if states.len() == 1 {
            plan matches StatusFilterPlan::Index { index_prefix, states: wanted } && index_prefix@
                == keys::timeline_status_state_index_prefix_text(prefix, states[0].name())
                && wanted@.len() == 0
        } else {
            plan matches StatusFilterPlan::Merge { index_prefixes } && prefix_views(
                index_prefixes@,
            ) == state_prefixes(prefix, states)
        },
    }
}

/// Chooses the index: by owner where one is asked for, else by state.
pub fn plan_status_filter(
    prefix: &str,
    states: &Vec<TimelineLifecycleState>,
    owner_worker_endpoint: Option<&str>,
) -> (plan: StatusFilterPlan)
    ensures
        plans_filter(prefix@, states@, owner_worker_endpoint, plan),
        match owner_worker_endpoint {
            Some(owner) => plan matches StatusFilterPlan::Index { index_prefix, states: wanted }
                && index_prefix@ == keys::timeline_status_owner_index_prefix_text(prefix@, owner@)
                && wanted@ == states@,
            None => if states@.len() == 0 {
                plan is Everything
            } else if states@.len() == 1 {
                plan matches StatusFilterPlan::Index { index_prefix, states: wanted }
                    && index_prefix@ == keys::timeline_status_state_index_prefix_text(
                    prefix@,
                    states@[0].name(),
                ) && wanted@.len() == 0
            } else {
                plan matches StatusFilterPlan::Merge { index_prefixes } && prefix_views(
                    index_prefixes@,
                ) == state_prefixes(prefix@, states@)
            },
        },
{
    if let Some(owner) = owner_worker_endpoint {
        return StatusFilterPlan::Index {
            index_prefix: timeline_status_owner_index_prefix(prefix, owner),
            states: copy_states(states),
        };
    }
    if states.len() == 0 {
        return StatusFilterPlan::Everything;
    }
    if states.len() == 1 {
        return StatusFilterPlan::Index {
            index_prefix: timeline_status_state_index_prefix(prefix, states[0].as_str()),
            states: Vec::new(),
        };
    }
    let mut index_prefixes: Vec<String> = Vec::new();
    let mut i: usize = 0;
    while i < states.len()
        invariant
            i <= states@.len(),
            index_prefixes@.len() == i,
            forall|k: int|
                0 <= k < i ==> (#[trigger] index_prefixes@[k])@
                    == keys::timeline_status_state_index_prefix_text(prefix@, states@[k].name()),
        decreases states@.len() - i,
    {
        index_prefixes.push(timeline_status_state_index_prefix(prefix, states[i].as_str()));
        i = i + 1;
    }
    assert(prefix_views(index_prefixes@) =~= state_prefixes(prefix@, states@));
    StatusFilterPlan::Merge { index_prefixes }
}

/// The records by key; of two with one key the later one counts.
pub open spec fn by_key(records: Seq<TimelineRecord>) -> Map<Seq<char>, TimelineRecord>
    decreases records.len(),
{
    if records.len() == 0 {
        Map::empty()
    } else {
        by_key(records.drop_last()).insert(records.last().key_text(), records.last())
    }
}

/// The records of a map, each once, in the order of their keys.
pub open spec fn lists_in_order(
    listed: Seq<TimelineRecord>,
    map: Map<Seq<char>, TimelineRecord>,
) -> bool {
    &&& forall|i: int, j: int|
        0 <= i < j < listed.len() ==> text::text_before(
            #[trigger] listed[i].key_text(),
            #[trigger] listed[j].key_text(),
        )
    &&& forall|i: int|
        0 <= i < listed.len() ==> map.contains_key(#[trigger] listed[i].key_text())
            && map[listed[i].key_text()] == listed[i]
    &&& forall|key: Seq<char>| #[trigger]
        map.contains_key(key) ==> exists|i: int|
            0 <= i < listed.len() && #[trigger] listed[i].key_text() == key
}

/// Puts a record into a listing, in place of one with the same key.
fn merge_record(listed: &mut Vec<TimelineRecord>, record: TimelineRecord, Ghost(map): Ghost<
    Map<Seq<char>, TimelineRecord>,
>)
    requires
        lists_in_order(old(listed)@, map),
    ensures
        lists_in_order(final(listed)@, map.insert(record.key_text(), record)),
{
    let mut at: usize = 0;
    while at < listed.len() && text_less(listed[at].key().as_str(), record.key().as_str())
        invariant
            at <= listed@.len(),
            listed@ == old(listed)@,
            forall|k: int|
                0 <= k < at ==> text::text_before(
                    #[trigger] listed@[k].key_text(),
                    record.key_text(),
                ),
        decreases listed@.len() - at,
    {
        at = at + 1;
    }
    let ghost before = listed@;
    let ghost key = record.key_text();
    let ghost after_map = map.insert(key, record);
    if at < listed.len() && *listed[at].key() == *record.key() {
        listed.set(at, record);
        proof {
            assert forall|i: int, j: int| 0 <= i < j < listed@.len() implies text::text_before(
                #[trigger] listed@[i].key_text(),
                #[trigger] listed@[j].key_text(),
            ) by {
                assert(listed@[i].key_text() == before[i].key_text());
                assert(listed@[j].key_text() == before[j].key_text());
            }
            assert forall|i: int| 0 <= i < listed@.len() implies after_map.contains_key(
                #[trigger] listed@[i].key_text(),
            ) && after_map[listed@[i].key_text()] == listed@[i] by {
                if i != at {
                    assert(listed@[i] == before[i]);
                    if before[i].key_text() == key {
                        text::text_order_is_total(key, key, key);
                        if i < at {
                            assert(text::text_before(before[i].key_text(), key));
                        } else {
                            assert(text::text_before(
                                before[at as int].key_text(),
                                before[i].key_text(),
                            ));
                        }
                    }
                }
            }
            assert forall|other: Seq<char>| #[trigger] after_map.contains_key(other) implies exists|
                i: int,
            |
                0 <= i < listed@.len() && #[trigger] listed@[i].key_text() == other by {
                if other == key {
                    assert(listed@[at as int].key_text() == key);
                } else {
                    assert(map.contains_key(other));
                    let i = choose|i: int|
                        0 <= i < before.len() && #[trigger] before[i].key_text() == other;
                    assert(listed@[i].key_text() == other);
                }
            }
        }
    } else {
        proof {
            if at < before.len() {
                text::text_order_is_total(before[at as int].key_text(), key, key);
                assert(text::text_before(key, before[at as int].key_text()));
            }
        }
        listed.insert(at, record);
        proof {
            assert forall|i: int, j: int| 0 <= i < j < listed@.len() implies text::text_before(
                #[trigger] listed@[i].key_text(),
                #[trigger] listed@[j].key_text(),
            ) by {
                if j < at {
                    assert(listed@[i] == before[i] && listed@[j] == before[j]);
                } else if j == at {
                    assert(listed@[i] == before[i]);
                    assert(listed@[j] == record);
                } else {
                    assert(listed@[j] == before[j - 1]);
                    let behind = before[j - 1].key_text();
                    if j - 1 > at {
                        assert(text::text_before(before[at as int].key_text(), behind));
                        text::text_order_is_total(key, before[at as int].key_text(), behind);
                    }
                    assert(text::text_before(key, behind));
                    if i < at {
                        assert(listed@[i] == before[i]);
                    } else if i == at {
                        assert(listed@[i] == record);
                    } else {
                        assert(listed@[i] == before[i - 1]);
                    }
                }
            }
            assert forall|i: int| 0 <= i < listed@.len() implies after_map.contains_key(
                #[trigger] listed@[i].key_text(),
            ) && after_map[listed@[i].key_text()] == listed@[i] by {
                text::text_order_is_total(key, key, key);
                if i < at {
                    assert(listed@[i] == before[i]);
                    assert(text::text_before(before[i].key_text(), key));
                } else if i > at {
                    assert(listed@[i] == before[i - 1]);
                    assert(listed@[at as int] == record);
                    assert(text::text_before(
                        listed@[at as int].key_text(),
                        listed@[i].key_text(),
                    ));
                } else {
                    assert(listed@[i] == record);
                }
            }
            assert forall|other: Seq<char>| #[trigger] after_map.contains_key(other) implies exists|
                i: int,
            |
                0 <= i < listed@.len() && #[trigger] listed@[i].key_text() == other by {
                if other == key {
                    assert(listed@[at as int] == record);
                    assert(listed@[at as int].key_text() == key);
                } else {
                    assert(map.contains_key(other));
                    let i = choose|i: int|
                        0 <= i < before.len() && #[trigger] before[i].key_text() == other;
                    if i < at {
                        assert(listed@[i] == before[i]);
                        assert(listed@[i].key_text() == other);
                    } else {
                        assert(listed@[i + 1] == before[i]);
                        assert(listed@[i + 1].key_text() == other);
                    }
                }
            }
        }
    }
}

/// What merging the pages of several states comes to.
pub open spec fn merges(
    found: Seq<TimelineRecord>,
    listed: Seq<TimelineRecord>,
    limit: nat,
    page: TimelineRecordListPage,
) -> bool {
    &&& lists_in_order(listed, by_key(found))
    &&& if limit == 0 {
        page.records@.len() == 0 && page.next_start_after_timeline_key is None
    } else {
        pages::cuts(listed, limit, page.records@, page.next_start_after_timeline_key)
    }
}

/// One page of the records that were found for several states, each timeline once.
pub fn merge_state_pages(found: Vec<TimelineRecord>, limit: usize) -> (page:
    TimelineRecordListPage)
    ensures
        exists|listed: Seq<TimelineRecord>| #[trigger] merges(found@, listed, limit as nat, page),
{
    let mut listed: Vec<TimelineRecord> = Vec::new();
    let mut i: usize = 0;
    assert(found@.take(0) =~= Seq::<TimelineRecord>::empty());
    while i < found.len()
        invariant
            i <= found@.len(),
            lists_in_order(listed@, by_key(found@.take(i as int))),
        decreases found@.len() - i,
    {
        let ghost map = by_key(found@.take(i as int));
        assert(found@.take(i + 1).drop_last() =~= found@.take(i as int));
        assert(found@.take(i + 1).last() == found@[i as int]);
        merge_record(&mut listed, found[i].clone(), Ghost(map));
        i = i + 1;
    }
    assert(found@.take(i as int) =~= found@);
    let ghost all = listed@;
    if limit == 0 {
        let page = TimelineRecordListPage {
            records: Vec::new(),
            next_start_after_timeline_key: None,
        };
        assert(merges(found@, all, 0, page));
        return page;
    }
    let (records, next) = cut_page(listed, limit);
    let page = TimelineRecordListPage { records, next_start_after_timeline_key: next };
    assert(merges(found@, all, limit as nat, page));
    page
}

} // verus!
