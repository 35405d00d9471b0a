//! Records in the order of their keys, and pages of them.

use vstd::multiset::*;
use vstd::prelude::*;

use crate::metadata::types::{TimelineFilterRecord, TimelineRecord};
use crate::seqs;
use crate::text;
use crate::text::text_less;

verus! {

/// A record that has a key.
pub trait Keyed {
    spec fn key_text(&self) -> Seq<char>;

    fn key(&self) -> (key: &String)
        ensures
            key@ == self.key_text(),
    ;
}

impl Keyed for TimelineRecord {
    open spec fn key_text(&self) -> Seq<char> {
        self.route.timeline_key@
    }

    fn key(&self) -> (key: &String) {
        &self.route.timeline_key
    }
}

impl Keyed for TimelineFilterRecord {
    open spec fn key_text(&self) -> Seq<char> {
        self.route.timeline_key@
    }

    fn key(&self) -> (key: &String) {
        &self.route.timeline_key
    }
}

/// No record comes before an earlier one.
pub open spec fn in_key_order<T: Keyed>(records: Seq<T>) -> bool {
    forall|i: int, j: int|
        0 <= i < j < records.len() ==> !text::text_before(
            #[trigger] records[j].key_text(),
            #[trigger] records[i].key_text(),
        )
}

/// Puts a record into its place among records in order.
fn insert_in_order<T: Keyed>(records: &mut Vec<T>, record: T)
    requires
        in_key_order(old(records)@),
    ensures
        in_key_order(final(records)@),
        final(records)@.to_multiset() == old(records)@.to_multiset().insert(record),
{
    let mut at: usize = 0;
    while at < records.len() && !text_less(record.key().as_str(), records[at].key().as_str())
        invariant
            at <= records@.len(),
            records@ == old(records)@,
            forall|k: int|
                0 <= k < at ==> !text::text_before(
                    record.key_text(),
                    #[trigger] records@[k].key_text(),
                ),
        decreases records@.len() - at,
    {
        at = at + 1;
    }
    let ghost before = records@;
    proof {
        seqs::lemma_insert_multiset(before, at as int, record);
    }
    records.insert(at, record);
    assert forall|i: int, j: int| 0 <= i < j < records@.len() implies !text::text_before(
        #[trigger] records@[j].key_text(),
        #[trigger] records@[i].key_text(),
    ) by {
        let new = record.key_text();
        if j < at {
            assert(records@[i] == before[i] && records@[j] == before[j]);
        } else if j == at {
            assert(records@[i] == before[i]);
            assert(records@[j] == record);
        } else {
            assert(records@[j] == before[j - 1]);
            let behind = before[j - 1].key_text();
            assert(text::text_before(new, before[at as int].key_text()));
            if j - 1 > at {
                assert(!text::text_before(behind, before[at as int].key_text()));
            }
            text::text_order_is_total(new, before[at as int].key_text(), behind);
            text::text_order_is_total(before[at as int].key_text(), behind, new);
            text::text_order_is_total(behind, new, before[at as int].key_text());
            if i < at {
                assert(records@[i] == before[i]);
            } else if i == at {
                assert(records@[i] == record);
            } else {
                assert(records@[i] == before[i - 1]);
            }
        }
    }
}

/// Brings records into the order of their keys.
pub fn sort_by_key<T: Keyed>(records: Vec<T>) -> (sorted: Vec<T>)
    ensures
        in_key_order(sorted@),
        sorted@.to_multiset() == records@.to_multiset(),
{
    broadcast use group_multiset_axioms;

    let ghost all = records@;
    let mut rest = records;
    let mut sorted: Vec<T> = Vec::new();
    proof {
        all.to_multiset_ensures();
        sorted@.to_multiset_ensures();
        assert(sorted@.to_multiset() =~= Multiset::<T>::empty());
        assert(rest@.to_multiset().add(sorted@.to_multiset()) =~= all.to_multiset());
    }
    while rest.len() > 0
        invariant
            in_key_order(sorted@),
            rest@.to_multiset().add(sorted@.to_multiset()) == all.to_multiset(),
        decreases rest@.len(),
    {
        let ghost before = rest@;
        let ghost done = sorted@.to_multiset();
        if let Some(record) = rest.pop() {
            proof {
                assert(before =~= rest@.push(record));
                rest@.to_multiset_ensures();
                assert(before.to_multiset() =~= rest@.to_multiset().insert(record));
            }
            insert_in_order(&mut sorted, record);
            assert(rest@.to_multiset().add(sorted@.to_multiset()) =~= before.to_multiset().add(
                done,
            ));
        }
    }
    proof {
        rest@.to_multiset_ensures();
        assert(rest@.to_multiset() =~= Multiset::<T>::empty());
        assert(sorted@.to_multiset() =~= all.to_multiset());
    }
    sorted
}

/// A page is the first `limit` records, and says where to go on when there are more.
pub open spec fn cuts<T: Keyed>(
    records: Seq<T>,
    limit: nat,
    page: Seq<T>,
    next: Option<String>,
) -> bool {
    if records.len() > limit {
        &&& page == records.take(limit as int)
        &&& next matches Some(key)
        &&& key@ == records[limit - 1].key_text()
    } else {
        page == records && next is None
    }
}

/// Cuts a page off the front.
pub fn cut_page<T: Keyed>(records: Vec<T>, limit: usize) -> (page: (Vec<T>, Option<String>))
    requires
        limit > 0,
    ensures
        cuts(records@, limit as nat, page.0@, page.1),
{
    let mut records = records;
    if records.len() > limit {
        let next = records[limit - 1].key().clone();
        let ghost all = records@;
        records.truncate(limit);
        assert(records@ =~= all.take(limit as int));
        (records, Some(next))
    } else {
        (records, None)
    }
}

/// The records, brought into order and cut to a page.
pub open spec fn is_sorted_page<T: Keyed>(
    records: Seq<T>,
    sorted: Seq<T>,
    limit: nat,
    page: Seq<T>,
    next: Option<String>,
) -> bool {
    &&& in_key_order(sorted)
    &&& sorted.to_multiset() == records.to_multiset()
    &&& cuts(sorted, limit, page, next)
}

/// A page names where to go on exactly when it was cut, and then it is full and ends there.
pub proof fn cursors_are_the_last_keys<T: Keyed>(
    records: Seq<T>,
    limit: nat,
    page: Seq<T>,
    next: Option<String>,
)
    requires
        limit > 0,
        cuts(records, limit, page, next),
    ensures
        forall|i: int| 0 <= i < page.len() ==> #[trigger] page[i] == records[i],
        page.len() <= limit,
        records.len() <= limit ==> page.len() == records.len(),
        next is Some <==> page.len() < records.len(),
        next matches Some(key) ==> page.len() == limit && key@ == page.last().key_text(),
{
}

} // verus!
