//! Ranges of keys, in the order of their bytes.

use vstd::prelude::*;
use vstd::slice::*;
use vstd::utf8::*;

use crate::text;

verus! {

pub const REQUEST_RECORD_PRUNE_MIN_FETCH_LIMIT: usize = 128;

pub const REQUEST_RECORD_PRUNE_MAX_FETCH_LIMIT: usize = 4096;

/// The end of the range of all keys that begin with these bytes: the last byte that can be raised
/// is raised, and what follows it is dropped. Where no byte can be raised it is a single zero,
/// which the store takes for no end at all.
pub open spec fn range_end(prefix: Seq<u8>) -> Seq<u8>
    decreases prefix.len(),
{
    if prefix.len() == 0 {
        seq![0u8]
    } else if prefix.last() < 255 {
        prefix.drop_last().push((prefix.last() + 1) as u8)
    } else {
        range_end(prefix.drop_last())
    }
}

pub fn prefix_range_end(prefix: &str) -> (end: Vec<u8>)
    ensures
        end@ == range_end(encode_utf8(prefix@)),
{
    let bytes = prefix.as_bytes();
    let ghost all = bytes@;
    let mut index: usize = bytes.len();
    assert(all.take(index as int) =~= all);
    while index > 0
        invariant
            index <= all.len(),
            bytes@ == all,
            all == encode_utf8(prefix@),
            range_end(all) == range_end(all.take(index as int)),
        decreases index,
    {
        index = index - 1;
        let ghost part = all.take(index + 1);
        assert(part.drop_last() =~= all.take(index as int));
        assert(part.last() == all[index as int]);
        let byte: u8 = bytes[index];
        if byte < 255 {
            let mut end = slice_to_vec(slice_subrange(bytes, 0, index));
            end.push(byte + 1);
            assert(end@ =~= all.take(index as int).push((part.last() + 1) as u8));
            return end;
        }
    }
    let mut end: Vec<u8> = Vec::new();
    end.push(0);
    assert(end@ =~= seq![0u8]);
    end
}

/// The key begins with the prefix.
pub open spec fn has_prefix(key: Seq<u8>, prefix: Seq<u8>) -> bool {
    prefix.len() <= key.len() && key.take(prefix.len() as int) == prefix
}

/// The key lies in the half-open range.
pub open spec fn in_range(key: Seq<u8>, start: Seq<u8>, end: Seq<u8>) -> bool {
    !text::bytes_before(key, start) && text::bytes_before(key, end)
}

/// The range of a prefix whose last byte can be raised holds the keys with that prefix and no
/// others.
pub proof fn prefix_ranges_are_exact(prefix: Seq<u8>, key: Seq<u8>)
    requires
        prefix.len() > 0,
        prefix.last() < 255,
    ensures
        in_range(key, prefix, range_end(prefix)) <==> has_prefix(key, prefix),
    decreases prefix.len(),
{
    let end = range_end(prefix);
    if key.len() == 0 {
        assert(text::bytes_before(key, prefix));
    } else if prefix.len() == 1 {
        assert(end.len() == 1);
        assert(end[0] == prefix[0] + 1);
        assert(prefix.drop_first() =~= Seq::<u8>::empty());
        assert(end.drop_first() =~= Seq::<u8>::empty());
        if key[0] == prefix[0] {
            assert(!text::bytes_before(key.drop_first(), prefix.drop_first()));
            assert(key.take(1) =~= prefix);
        } else if has_prefix(key, prefix) {
            assert(key.take(1)[0] == prefix[0]);
        }
        if key[0] == end[0] {
            assert(!text::bytes_before(key.drop_first(), end.drop_first()));
        }
    } else {
        let rest = prefix.drop_first();
        assert(rest.last() == prefix.last());
        assert(end =~= seq![prefix[0]] + range_end(rest)) by {
            assert(rest.drop_last() =~= prefix.drop_last().drop_first());
        }
        assert(end[0] == prefix[0]);
        assert(end.drop_first() =~= range_end(rest));
        if key[0] == prefix[0] {
            prefix_ranges_are_exact(rest, key.drop_first());
            if has_prefix(key, prefix) {
                assert(key.drop_first().take(rest.len() as int) =~= key.take(
                    prefix.len() as int,
                ).drop_first());
            }
            if has_prefix(key.drop_first(), rest) {
                assert(key.take(prefix.len() as int) =~= seq![key[0]] + key.drop_first().take(
                    rest.len() as int,
                ));
                assert(prefix =~= seq![prefix[0]] + rest);
            }
        } else if has_prefix(key, prefix) {
            assert(key.take(prefix.len() as int)[0] == prefix[0]);
        }
    }
}

/// The key right after a key: one zero byte longer.
pub open spec fn key_after(key: Seq<u8>) -> Seq<u8> {
    key.push(0)
}

pub fn next_etcd_key_after(key: &[u8]) -> (next: Vec<u8>)
    ensures
        next@ == key_after(key@),
{
    let mut next = slice_to_vec(key);
    next.push(0);
    next
}

/// Going on from the key after the last one misses nothing and repeats nothing: a key comes after
/// another exactly when it is not before the other's next key.
pub proof fn next_keys_leave_no_gap(key: Seq<u8>, other: Seq<u8>)
    ensures
        text::bytes_before(key, other) <==> !text::bytes_before(other, key_after(key)),
    decreases key.len(),
{
    let next = key_after(key);
    if other.len() == 0 {
        assert(text::bytes_before(other, next));
        assert(!text::bytes_before(key, other));
    } else if key.len() == 0 {
        assert(next[0] == 0);
        if other[0] == 0 {
            assert(next.drop_first() =~= Seq::<u8>::empty());
            assert(!text::bytes_before(other.drop_first(), next.drop_first()));
        }
    } else {
        assert(next[0] == key[0]);
        assert(next.drop_first() =~= key_after(key.drop_first()));
        if key[0] == other[0] {
            next_keys_leave_no_gap(key.drop_first(), other.drop_first());
        }
    }
}

/// Whether a key is not before the end of a range.
pub fn reaches(key: &[u8], end: &[u8]) -> (answer: bool)
    ensures
        answer == !text::bytes_before(key@, end@),
{
    !text::bytes_less(key, end)
}

/// How many records are read at once for so many deletions: as many, within bounds.
pub open spec fn prune_fetch_limit(delete_limit: int) -> int {
    if delete_limit < REQUEST_RECORD_PRUNE_MIN_FETCH_LIMIT {
        REQUEST_RECORD_PRUNE_MIN_FETCH_LIMIT as int
    } else if delete_limit > REQUEST_RECORD_PRUNE_MAX_FETCH_LIMIT {
        REQUEST_RECORD_PRUNE_MAX_FETCH_LIMIT as int
    } else {
        delete_limit
    }
}

/// How many records are read at once for so many deletions.
pub fn request_record_prune_fetch_limit(delete_limit: usize) -> (limit: i64)
    ensures
        limit == prune_fetch_limit(delete_limit as int),
{
    if delete_limit < REQUEST_RECORD_PRUNE_MIN_FETCH_LIMIT {
        REQUEST_RECORD_PRUNE_MIN_FETCH_LIMIT as i64
    } else if delete_limit > REQUEST_RECORD_PRUNE_MAX_FETCH_LIMIT {
        REQUEST_RECORD_PRUNE_MAX_FETCH_LIMIT as i64
    } else {
        delete_limit as i64
    }
}

/// How many records are read for a page: one more than it holds, to see whether more follow, and
/// one more for the record that the page starts after.
pub open spec fn page_fetch_limit(limit: usize, continues: bool) -> int {
    let wanted = limit + 1 + if continues {
        1int
    } else {
        0int
    };
    if wanted <= i64::MAX && wanted <= usize::MAX {
        wanted
    } else if usize::MAX < i64::MAX {
        usize::MAX as int
    } else {
        i64::MAX as int
    }
}

pub fn fetch_limit_for_page(limit: usize, continues: bool) -> (fetch: i64)
    ensures
        fetch == page_fetch_limit(limit, continues),
{
    let extra: u128 = if continues {
        1
    } else {
        0
    };
    let wanted: u128 = limit as u128 + 1 + extra;
    let most: u128 = usize::MAX as u128;
    let bounded: u128 = if wanted <= most {
        wanted
    } else {
        most
    };
    if bounded <= i64::MAX as u128 {
        bounded as i64
    } else {
        i64::MAX
    }
}

} // verus!
