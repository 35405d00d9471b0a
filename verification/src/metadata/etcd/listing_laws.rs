//! What holds of the pages of timelines.

use vstd::prelude::*;
use vstd::utf8::*;

use crate::error::TsoError;
use crate::metadata::etcd::listing;
use crate::metadata::etcd::listing::{
    FilterRow, IndexListStep, IndexListing, RangeQuery, StatusFilterPlan, TimelineRow,
};
use crate::metadata::etcd::ranges;
use crate::metadata::etcd::status_index;
use crate::metadata::key_laws;
use crate::metadata::keys;
use crate::metadata::pages::Keyed;
use crate::metadata::types::{
    TimelineFilterRecord, TimelineFilterRecordListPage, TimelineRecord, TimelineRecordListPage,
    TimelineRecordView,
};
use crate::model::TimelineLifecycleState;
use crate::text;

verus! {

/// The row of a page that is not the one that the page comes after.
pub open spec fn counts(key: Seq<u8>, start: Seq<u8>, continues: bool) -> bool {
    continues ==> key != start
}

/// The records of a page are those of its rows, in their order, without the one that the page comes
/// after.
pub proof fn pages_show_their_rows(
    rows: Seq<TimelineRow>,
    filters: Seq<FilterRow>,
    start: Seq<u8>,
    continues: bool,
)
    ensures
        listing::timeline_records(rows, start, continues) == rows.filter(
            |row: TimelineRow| counts(row.key@, start, continues) && row.record is Ok,
        ).map_values(|row: TimelineRow| row.record->Ok_0),
        listing::filter_records(filters, start, continues) == filters.filter(
            |row: FilterRow| counts(row.key@, start, continues) && row.record is Ok,
        ).map_values(|row: FilterRow| row.record->Ok_0),
    decreases rows.len() + filters.len(),
{
    reveal(Seq::filter);
    let read = |row: TimelineRow| counts(row.key@, start, continues) && row.record is Ok;
    let record = |row: TimelineRow| row.record->Ok_0;
    let read_filter = |row: FilterRow| counts(row.key@, start, continues) && row.record is Ok;
    let filter_record = |row: FilterRow| row.record->Ok_0;
    if rows.len() > 0 {
        pages_show_their_rows(rows.drop_last(), filters, start, continues);
    }
    if filters.len() > 0 {
        pages_show_their_rows(rows, filters.drop_last(), start, continues);
    }
    assert(listing::timeline_records(rows, start, continues) =~= rows.filter(read).map_values(
        record,
    ));
    assert(listing::filter_records(filters, start, continues) =~= filters.filter(
        read_filter,
    ).map_values(filter_record));
}

/// A page is read exactly where every row that counts decodes and has the first schema. Where only
/// routes and states are read, a later schema will do.
pub proof fn pages_need_readable_rows(
    rows: Seq<TimelineRow>,
    records: Result<Vec<TimelineRecord>, TsoError>,
    filters: Seq<FilterRow>,
    filter_records: Result<Vec<TimelineFilterRecord>, TsoError>,
    start: Seq<u8>,
    continues: bool,
    heading: Seq<char>,
)
    requires
        listing::reads_timelines(rows, start, continues, heading, records),
        listing::reads_filters(filters, start, continues, filter_records),
    ensures
        records is Ok <==> forall|i: int|
            0 <= i < rows.len() && counts(#[trigger] rows[i].key@, start, continues) ==> (
            rows[i].record matches Ok(record) && record.schema_version == 1),
        filter_records is Ok <==> forall|i: int|
            0 <= i < filters.len() && counts(#[trigger] filters[i].key@, start, continues) ==> (
            filters[i].record matches Ok(record) && record.schema_version >= 1),
        records is Err ==> records->Err_0 is Internal,
        filter_records is Err ==> filter_records->Err_0 is Internal,
{
    if records is Err {
        let error = records->Err_0;
        let i = choose|i: int|
            #[trigger] listing::timeline_rows_stop(rows, start, continues, heading, i, error);
        assert(counts(rows[i].key@, start, continues));
    } else {
        assert forall|i: int|
            0 <= i < rows.len() && counts(#[trigger] rows[i].key@, start, continues) implies (
        rows[i].record matches Ok(record) && record.schema_version == 1) by {
            assert(!listing::timeline_row_faulty(rows[i], start, continues));
        }
    }
    if filter_records is Err {
        let error = filter_records->Err_0;
        let i = choose|i: int|
            #[trigger] listing::filter_rows_stop(filters, start, continues, i, error);
        assert(counts(filters[i].key@, start, continues));
    } else {
        assert forall|i: int|
            0 <= i < filters.len() && counts(#[trigger] filters[i].key@, start, continues) implies (
        filters[i].record matches Ok(record) && record.schema_version >= 1) by {
            assert(!listing::filter_row_faulty(filters[i], start, continues));
        }
    }
}

/// For a page more is read than it holds, so that it shows whether more follows: one row more, and
/// another one for the timeline that the page comes after. Nothing is read for a page that holds
/// nothing.
pub proof fn pages_look_one_row_ahead(
    prefix: Seq<char>,
    start_after: Option<&str>,
    limit: usize,
    asked: Option<RangeQuery>,
)
    requires
        listing::asks_for_page(prefix, start_after, limit, asked),
    ensures
        asked is None <==> limit == 0,
        asked matches Some(query) ==> {
            &&& limit <= 1_000_000_000 ==> query.limit == limit + (if start_after is Some {
                2int
            } else {
                1int
            })
            &&& query.limit > 0
            &&& start_after is None ==> query.start@ == encode_utf8(keys::route_prefix_text(prefix))
            &&& start_after matches Some(timeline) ==> query.start@ == encode_utf8(
                keys::timeline_key_text(prefix, timeline@),
            )
            &&& query.end@ == ranges::range_end(encode_utf8(keys::route_prefix_text(prefix)))
        },
{
}

/// So many records as are to be deleted are looked at at once, but 128 at least and 4096 at most.
pub proof fn cleanups_read_by_the_batch(limit: int)
    ensures
        128 <= ranges::prune_fetch_limit(limit) <= 4096,
        128 <= limit <= 4096 ==> ranges::prune_fetch_limit(limit) == limit,
        limit < 128 ==> ranges::prune_fetch_limit(limit) == 128,
        limit > 4096 ==> ranges::prune_fetch_limit(limit) == 4096,
{
}

/// The record passes a filter by state: every state does where none is named.
pub open spec fn in_states(
    states: Seq<TimelineLifecycleState>,
    state: TimelineLifecycleState,
) -> bool {
    states.len() > 0 ==> exists|i: int| 0 <= i < states.len() && #[trigger] states[i] == state
}

/// Of the rows of an index those are taken that count and that are in a state that is asked for.
pub proof fn wanted_rows_are_taken(
    rows: Seq<TimelineRow>,
    start: Seq<u8>,
    continues: bool,
    states: Seq<TimelineLifecycleState>,
)
    ensures
        listing::wanted_records(rows, start, continues, states) == rows.filter(
            |row: TimelineRow| counts(row.key@, start, continues) && row.record is Ok,
        ).map_values(|row: TimelineRow| row.record->Ok_0).filter(
            |record: TimelineRecord| in_states(states, record.state),
        ),
{
    pages_show_their_rows(rows, Seq::empty(), start, continues);
    let wanted = |record: TimelineRecord| listing::wants_state(states, record.state);
    let asked_for = |record: TimelineRecord| in_states(states, record.state);
    assert forall|record: TimelineRecord| #[trigger] wanted(record) == asked_for(record) by {
        if states.contains(record.state) {
            let i = choose|i: int| 0 <= i < states.len() && states[i] == record.state;
            assert(states[i] == record.state);
        }
    }
    assert(wanted =~= asked_for);
}

/// A record is listed by a plan: it is found under the index that the plan names, and its state is
/// one that the plan lets through.
pub open spec fn shows(
    plan: StatusFilterPlan,
    prefix: Seq<char>,
    record: TimelineRecordView,
) -> bool {
    match plan {
        StatusFilterPlan::Everything => true,
        StatusFilterPlan::Index { index_prefix, states } => {
            &&& stands_under(index_prefix@, prefix, record)
            &&& in_states(states@, record.state)
        },
        StatusFilterPlan::Merge { index_prefixes } => exists|i: int|
            0 <= i < index_prefixes@.len() && stands_under(
                #[trigger] index_prefixes@[i]@,
                prefix,
                record,
            ),
    }
}

/// One of the index entries of a record begins with a prefix.
pub open spec fn stands_under(
    index_prefix: Seq<char>,
    prefix: Seq<char>,
    record: TimelineRecordView,
) -> bool {
    ||| index_prefix.is_prefix_of(status_index::owner_key(prefix, record))
    ||| index_prefix.is_prefix_of(status_index::state_key(prefix, record))
}

proof fn lemma_under_owner(prefix: Seq<char>, owner: Seq<char>, record: TimelineRecordView)
    ensures
        stands_under(
            keys::timeline_status_owner_index_prefix_text(prefix, owner),
            prefix,
            record,
        ) <==> keys::normal_endpoint(record.route.owner_worker_endpoint) == keys::normal_endpoint(
            owner,
        ),
{
    key_laws::owner_ranges_hold_their_own_entries(
        prefix,
        owner,
        record.route.owner_worker_endpoint,
        record.state.name(),
        record.route.timeline_key,
    );
    key_laws::status_index_entries_lie_in_their_ranges(
        prefix,
        owner,
        record.state.name(),
        record.route.timeline_key,
    );
}

proof fn lemma_under_state(
    prefix: Seq<char>,
    state: TimelineLifecycleState,
    record: TimelineRecordView,
)
    ensures
        stands_under(
            keys::timeline_status_state_index_prefix_text(prefix, state.name()),
            prefix,
            record,
        ) <==> record.state == state,
{
    key_laws::state_ranges_hold_their_own_entries(
        prefix,
        state,
        record.state,
        record.route.owner_worker_endpoint,
        record.route.timeline_key,
    );
    key_laws::status_index_entries_lie_in_their_ranges(
        prefix,
        record.route.owner_worker_endpoint,
        state.name(),
        record.route.timeline_key,
    );
}

/// A listing by state and owner shows a timeline exactly where its state is one of those that are
/// asked for, or none is named, and its owner is the one that is asked for, or none is. Endpoints
/// count as the same where they differ in case and surrounding whitespace alone.
pub proof fn filters_show_what_was_asked_for(
    prefix: Seq<char>,
    states: Seq<TimelineLifecycleState>,
    owner_worker_endpoint: Option<&str>,
    plan: StatusFilterPlan,
    record: TimelineRecordView,
)
    requires
        listing::plans_filter(prefix, states, owner_worker_endpoint, plan),
    ensures
        shows(plan, prefix, record) <==> in_states(states, record.state) && (
        owner_worker_endpoint matches Some(owner) ==> text::ascii_lower(
            text::trimmed(record.route.owner_worker_endpoint),
        ) == text::ascii_lower(text::trimmed(owner@))),
{
    match owner_worker_endpoint {
        Some(owner) => {
            lemma_under_owner(prefix, owner@, record);
        },
        None => {
            if states.len() == 1 {
                lemma_under_state(prefix, states[0], record);
            } else if states.len() > 1 {
                let prefixes = plan->index_prefixes@;
                let views = listing::prefix_views(prefixes);
                assert(views == listing::state_prefixes(prefix, states));
                assert(views.len() == states.len());
                assert forall|i: int| 0 <= i < states.len() implies (stands_under(
                    #[trigger] prefixes[i]@,
                    prefix,
                    record,
                ) <==> record.state == states[i]) by {
                    assert(views[i] == prefixes[i]@);
                    lemma_under_state(prefix, states[i], record);
                }
                if in_states(states, record.state) {
                    let i = choose|i: int| 0 <= i < states.len() && #[trigger] states[i]
                        == record.state;
                    assert(stands_under(prefixes[i]@, prefix, record));
                }
            }
        },
    }
}

/// A listing from an index reads on right behind the last row as long as it has not found more than
/// the page holds, and ends without a cursor only where the index does. What it hands out are the
/// records that it had found, and it keeps them while it reads on.
pub proof fn listings_read_on_to_the_end(
    before: IndexListing,
    after: IndexListing,
    rows: Vec<TimelineRow>,
    step: IndexListStep,
)
    requires
        before.valid(),
        after.same_task(before),
        after.advances(before, Ok(rows), step),
    ensures
        rows@.len() == 0 ==> (step matches IndexListStep::Done { page } && page.records@
            == before.records@ && page.next_start_after_timeline_key is None),
        step matches IndexListStep::Done { page } ==> {
            &&& page.records@.len() <= before.limit
            &&& rows@.len() > 0 ==> page.records@.len() == before.limit
            &&& page.next_start_after_timeline_key is Some <==> rows@.len() > 0
            &&& before.records@.is_prefix_of(page.records@)
        },
        step matches IndexListStep::Scan { query } ==> {
            &&& query.start@ == rows@.last().key@.push(0)
            &&& query.end@ == before.end@
            &&& before.records@.is_prefix_of(after.records@)
            &&& after.records@.len() <= before.limit
        },
{
    if step is Scan {
        assert(rows@.take(rows@.len() as int) =~= rows@);
    }
}

/// Of the records with one key the last one counts.
pub proof fn the_last_record_of_a_key_counts(records: Seq<TimelineRecord>, key: Seq<char>)
    ensures
        listing::by_key(records).contains_key(key) <==> exists|i: int|
            0 <= i < records.len() && #[trigger] records[i].key_text() == key,
        listing::by_key(records).contains_key(key) ==> exists|i: int|
            0 <= i < records.len() && #[trigger] records[i].key_text() == key && records[i]
                == listing::by_key(records)[key] && (forall|j: int|
                i < j < records.len() ==> #[trigger] records[j].key_text() != key),
    decreases records.len(),
{
    if records.len() > 0 {
        let before = records.drop_last();
        the_last_record_of_a_key_counts(before, key);
        let last = records.len() - 1;
        if records.last().key_text() == key {
            assert(records[last].key_text() == key);
        } else if listing::by_key(before).contains_key(key) {
            let i = choose|i: int|
                0 <= i < before.len() && #[trigger] before[i].key_text() == key && before[i]
                    == listing::by_key(before)[key] && (forall|j: int|
                    i < j < before.len() ==> #[trigger] before[j].key_text() != key);
            assert(records[i].key_text() == key);
            assert forall|j: int| i < j < records.len() implies #[trigger] records[j].key_text()
                != key by {
                if j < last {
                    assert(before[j].key_text() != key);
                }
            }
        } else {
            assert forall|i: int| 0 <= i < records.len() implies #[trigger] records[i].key_text()
                != key by {
                if i < last {
                    assert(before[i].key_text() != key);
                }
            }
        }
    }
}

/// The merged page holds records that were found, each timeline once and in the order of the keys,
/// leaves none out before its end, and says where to go on exactly where more were found than it
/// holds.
pub proof fn merged_pages_hold_what_was_found(
    found: Seq<TimelineRecord>,
    listed: Seq<TimelineRecord>,
    limit: nat,
    page: TimelineRecordListPage,
    k: int,
)
    requires
        limit > 0,
        listing::merges(found, listed, limit, page),
        0 <= k < found.len(),
    ensures
        page.records@.len() <= limit,
        forall|i: int, j: int|
            0 <= i < j < page.records@.len() ==> text::text_before(
                #[trigger] page.records@[i].key_text(),
                #[trigger] page.records@[j].key_text(),
            ),
        forall|i: int|
            0 <= i < page.records@.len() ==> found.contains(#[trigger] page.records@[i]),
        page.next_start_after_timeline_key is None ==> exists|i: int|
            0 <= i < page.records@.len() && #[trigger] page.records@[i].key_text()
                == found[k].key_text(),
        page.next_start_after_timeline_key matches Some(key) ==> page.records@.len() == limit
            && key@ == page.records@.last().key_text(),
{
    let map = listing::by_key(found);
    assert forall|i: int| 0 <= i < page.records@.len() implies found.contains(
        #[trigger] page.records@[i],
    ) by {
        assert(page.records@[i] == listed[i]);
        let key = listed[i].key_text();
        assert(map.contains_key(key) && map[key] == listed[i]);
        the_last_record_of_a_key_counts(found, key);
        let j = choose|j: int|
            0 <= j < found.len() && #[trigger] found[j].key_text() == key && found[j] == map[key] && (
            forall|l: int| j < l < found.len() ==> #[trigger] found[l].key_text() != key);
        assert(found[j] == page.records@[i]);
    }
    assert forall|i: int, j: int| 0 <= i < j < page.records@.len() implies text::text_before(
        #[trigger] page.records@[i].key_text(),
        #[trigger] page.records@[j].key_text(),
    ) by {
        assert(page.records@[i] == listed[i] && page.records@[j] == listed[j]);
        assert(text::text_before(listed[i].key_text(), listed[j].key_text()));
    }
    the_last_record_of_a_key_counts(found, found[k].key_text());
    if page.next_start_after_timeline_key is None {
        let i = choose|i: int|
            0 <= i < listed.len() && #[trigger] listed[i].key_text() == found[k].key_text();
        assert(page.records@[i].key_text() == found[k].key_text());
    }
}

/// A page of timelines from the store holds no more than it may, in the order of the keys, and
/// nothing but records of the rows that were read; it is empty where it may hold nothing, and fails
/// where the rows could not be had. It leaves a row out only where it is full, and then says where
/// to go on.
pub proof fn pages_hold_the_rows_in_order(
    rows: Vec<TimelineRow>,
    start: Seq<u8>,
    continues: bool,
    limit: nat,
    result: Result<TimelineRecordListPage, TsoError>,
)
    requires
        listing::pages_timelines(Ok(rows), start, continues, limit, result),
    ensures
        limit == 0 ==> (result matches Ok(page) && page.records@.len() == 0
            && page.next_start_after_timeline_key is None),
        limit > 0 && result is Ok ==> {
            let page = result->Ok_0;
            let all = listing::timeline_records(rows@, start, continues);
            &&& page.records@.len() <= limit
            &&& all.len() <= limit ==> page.records@.len() == all.len()
            &&& page.next_start_after_timeline_key is Some <==> all.len() > limit
            &&& page.next_start_after_timeline_key matches Some(key) ==> page.records@.len()
                == limit && key@ == page.records@.last().key_text()
            &&& forall|i: int|
                0 <= i < page.records@.len() ==> all.contains(#[trigger] page.records@[i])
            &&& forall|i: int, j: int|
                0 <= i < j < page.records@.len() ==> !text::text_before(
                    #[trigger] page.records@[j].key_text(),
                    #[trigger] page.records@[i].key_text(),
                )
        },
{
    broadcast use vstd::seq_lib::group_to_multiset_ensures;

    if limit > 0 && result is Ok {
        let page = result->Ok_0;
        let (records, sorted) = choose|
            records: Vec<TimelineRecord>,
            sorted: Seq<TimelineRecord>,
        | #[trigger]
            listing::timelines_fill(rows@, start, continues, limit, records, sorted, page);
        let all = listing::timeline_records(rows@, start, continues);
        assert(records@ == all);
        assert(sorted.len() == sorted.to_multiset().len());
        assert(all.len() == all.to_multiset().len());
        assert forall|i: int| 0 <= i < page.records@.len() implies all.contains(
            #[trigger] page.records@[i],
        ) by {
            assert(page.records@[i] == sorted[i]);
            assert(sorted.contains(sorted[i]));
            assert(all.to_multiset().count(sorted[i]) > 0);
        }
        assert forall|i: int, j: int| 0 <= i < j < page.records@.len() implies !text::text_before(
            #[trigger] page.records@[j].key_text(),
            #[trigger] page.records@[i].key_text(),
        ) by {
            assert(page.records@[i] == sorted[i] && page.records@[j] == sorted[j]);
            assert(!text::text_before(sorted[j].key_text(), sorted[i].key_text()));
        }
    }
}

/// The same of a page of routes and states.
pub proof fn filter_pages_hold_the_rows_in_order(
    rows: Vec<FilterRow>,
    start: Seq<u8>,
    continues: bool,
    limit: nat,
    result: Result<TimelineFilterRecordListPage, TsoError>,
)
    requires
        listing::pages_filters(Ok(rows), start, continues, limit, result),
    ensures
        limit == 0 ==> (result matches Ok(page) && page.records@.len() == 0
            && page.next_start_after_timeline_key is None),
        limit > 0 && result is Ok ==> {
            let page = result->Ok_0;
            let all = listing::filter_records(rows@, start, continues);
            &&& page.records@.len() <= limit
            &&& all.len() <= limit ==> page.records@.len() == all.len()
            &&& page.next_start_after_timeline_key is Some <==> all.len() > limit
            &&& page.next_start_after_timeline_key matches Some(key) ==> page.records@.len()
                == limit && key@ == page.records@.last().key_text()
            &&& forall|i: int|
                0 <= i < page.records@.len() ==> all.contains(#[trigger] page.records@[i])
            &&& forall|i: int, j: int|
                0 <= i < j < page.records@.len() ==> !text::text_before(
                    #[trigger] page.records@[j].key_text(),
                    #[trigger] page.records@[i].key_text(),
                )
        },
{
    broadcast use vstd::seq_lib::group_to_multiset_ensures;

    if limit > 0 && result is Ok {
        let page = result->Ok_0;
        let (records, sorted) = choose|
            records: Vec<TimelineFilterRecord>,
            sorted: Seq<TimelineFilterRecord>,
        | #[trigger]
            listing::filters_fill(rows@, start, continues, limit, records, sorted, page);
        let all = listing::filter_records(rows@, start, continues);
        assert(records@ == all);
        assert(sorted.len() == sorted.to_multiset().len());
        assert(all.len() == all.to_multiset().len());
        assert forall|i: int| 0 <= i < page.records@.len() implies all.contains(
            #[trigger] page.records@[i],
        ) by {
            assert(page.records@[i] == sorted[i]);
            assert(sorted.contains(sorted[i]));
            assert(all.to_multiset().count(sorted[i]) > 0);
        }
        assert forall|i: int, j: int| 0 <= i < j < page.records@.len() implies !text::text_before(
            #[trigger] page.records@[j].key_text(),
            #[trigger] page.records@[i].key_text(),
        ) by {
            assert(page.records@[i] == sorted[i] && page.records@[j] == sorted[j]);
            assert(!text::text_before(sorted[j].key_text(), sorted[i].key_text()));
        }
    }
}

} // verus!
