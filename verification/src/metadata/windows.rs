//! Windows over keys: the first keys of a set after a cursor, in ascending order.

use vstd::prelude::*;

use crate::metadata::maps;
use crate::text;
use crate::text::text_less;

verus! {

/// The texts ascend strictly.
pub open spec fn ascending(keys: Seq<Seq<char>>) -> bool {
    forall|i: int, j: int|
        0 <= i < j < keys.len() ==> text::text_before(#[trigger] keys[i], #[trigger] keys[j])
}

/// The key lies after the cursor.
pub open spec fn after(cursor: Option<Seq<char>>, key: Seq<char>) -> bool {
    cursor matches Some(start) ==> text::text_before(start, key)
}

/// The window holds the first `limit` members of the set after the cursor.
pub open spec fn is_window(
    window: Seq<Seq<char>>,
    members: Set<Seq<char>>,
    cursor: Option<Seq<char>>,
    limit: nat,
) -> bool {
    &&& window.len() <= limit
    &&& ascending(window)
    &&& forall|i: int|
        0 <= i < window.len() ==> members.contains(#[trigger] window[i]) && after(cursor, window[i])
    &&& forall|key: Seq<char>| #[trigger]
        members.contains(key) && after(cursor, key) && !window.contains(key) ==> window.len()
            == limit && (forall|i: int|
            0 <= i < window.len() ==> text::text_before(#[trigger] window[i], key))
}

/// All members of the set, in order.
pub open spec fn is_order_of(keys: Seq<Seq<char>>, members: Set<Seq<char>>) -> bool {
    &&& ascending(keys)
    &&& forall|i: int| 0 <= i < keys.len() ==> members.contains(#[trigger] keys[i])
    &&& forall|key: Seq<char>| #[trigger] members.contains(key) ==> keys.contains(key)
}

pub open spec fn texts_of(texts: Seq<String>) -> Seq<Seq<char>> {
    texts.map_values(|text: String| text@)
}

/// A window is determined by the set, the cursor and the limit.
pub proof fn windows_are_unique(
    a: Seq<Seq<char>>,
    b: Seq<Seq<char>>,
    members: Set<Seq<char>>,
    cursor: Option<Seq<char>>,
    limit: nat,
)
    requires
        is_window(a, members, cursor, limit),
        is_window(b, members, cursor, limit),
    ensures
        a == b,
{
    lemma_window_agrees(a, b, members, cursor, limit, a.len() as int);
    lemma_window_agrees(b, a, members, cursor, limit, b.len() as int);
    assert(a =~= b);
}

proof fn lemma_window_agrees(
    a: Seq<Seq<char>>,
    b: Seq<Seq<char>>,
    members: Set<Seq<char>>,
    cursor: Option<Seq<char>>,
    limit: nat,
    n: int,
)
    requires
        is_window(a, members, cursor, limit),
        is_window(b, members, cursor, limit),
        0 <= n <= a.len(),
    ensures
        n <= b.len(),
        forall|i: int| 0 <= i < n ==> a[i] == b[i],
    decreases n,
{
    if n > 0 {
        lemma_window_agrees(a, b, members, cursor, limit, n - 1);
        let at = n - 1;
        assert(members.contains(a[at]));
        if b.len() == at {
            assert(!b.contains(a[at])) by {
                if b.contains(a[at]) {
                    let i = choose|i: int| 0 <= i < b.len() && b[i] == a[at];
                    assert(text::text_before(a[i], a[at]));
                    text::text_order_is_total(a[at], a[at], a[at]);
                }
            }
            assert(b.len() == limit);
        } else {
            lemma_not_later(a, b, members, cursor, limit, at);
            lemma_not_later(b, a, members, cursor, limit, at);
            text::text_order_is_total(a[at], b[at], a[at]);
        }
    }
}

/// Where two windows agree so far, the next of the first does not come before the next of the
/// second.
proof fn lemma_not_later(
    a: Seq<Seq<char>>,
    b: Seq<Seq<char>>,
    members: Set<Seq<char>>,
    cursor: Option<Seq<char>>,
    limit: nat,
    at: int,
)
    requires
        is_window(a, members, cursor, limit),
        is_window(b, members, cursor, limit),
        0 <= at < a.len(),
        at < b.len(),
        forall|i: int| 0 <= i < at ==> a[i] == b[i],
    ensures
        !text::text_before(a[at], b[at]),
{
    if text::text_before(a[at], b[at]) {
        assert(members.contains(a[at]));
        if b.contains(a[at]) {
            let i = choose|i: int| 0 <= i < b.len() && b[i] == a[at];
            text::text_order_is_total(a[at], b[at], a[at]);
            if i < at {
                assert(text::text_before(a[i], a[at]));
            } else if i > at {
                assert(text::text_before(b[at], b[i]));
            }
        } else {
            assert(text::text_before(b[at], a[at]));
            text::text_order_is_total(a[at], b[at], a[at]);
        }
    }
}

/// Reading on from the last key of a full window neither skips nor repeats a key.
pub proof fn windows_continue_without_a_gap(
    first: Seq<Seq<char>>,
    second: Seq<Seq<char>>,
    members: Set<Seq<char>>,
    cursor: Option<Seq<char>>,
    first_limit: nat,
    second_limit: nat,
)
    requires
        0 < first_limit,
        first.len() == first_limit,
        is_window(first, members, cursor, first_limit),
        is_window(second, members, Some(first.last()), second_limit),
    ensures
        is_window(first + second, members, cursor, first_limit + second_limit),
{
    let both = first + second;
    assert forall|i: int, j: int| 0 <= i < j < both.len() implies text::text_before(
        #[trigger] both[i],
        #[trigger] both[j],
    ) by {
        if j >= first.len() && i < first.len() {
            assert(after(Some(first.last()), second[j - first.len()]));
            if i < first.len() - 1 {
                assert(text::text_before(first[i], first.last()));
            }
            text::text_order_is_total(first[i], first.last(), second[j - first.len()]);
        } else if i >= first.len() {
            assert(text::text_before(second[i - first.len()], second[j - first.len()]));
        }
    }
    assert forall|i: int| 0 <= i < both.len() implies members.contains(#[trigger] both[i]) && after(
        cursor,
        both[i],
    ) by {
        if i >= first.len() {
            let key = second[i - first.len()];
            assert(members.contains(key));
            assert(after(cursor, first.last()));
            if let Some(start) = cursor {
                text::text_order_is_total(start, first.last(), key);
            }
        }
    }
    assert forall|key: Seq<char>| #[trigger]
        members.contains(key) && after(cursor, key) && !both.contains(key) implies both.len()
        == first_limit + second_limit && (forall|i: int|
        0 <= i < both.len() ==> text::text_before(#[trigger] both[i], key)) by {
        assert(!first.contains(key)) by {
            if first.contains(key) {
                let i = choose|i: int| 0 <= i < first.len() && first[i] == key;
                assert(both[i] == key);
            }
        }
        assert(!second.contains(key)) by {
            if second.contains(key) {
                let i = choose|i: int| 0 <= i < second.len() && second[i] == key;
                assert(both[i + first.len()] == key);
            }
        }
        assert(text::text_before(first[first.len() - 1], key));
        assert(after(Some(first.last()), key));
    }
}

/// A window of all members in order, cut from a position on.
proof fn lemma_cut_is_window(
    keys: Seq<Seq<char>>,
    members: Set<Seq<char>>,
    cursor: Option<Seq<char>>,
    start: int,
    limit: nat,
)
    requires
        is_order_of(keys, members),
        0 <= start <= keys.len(),
        forall|i: int| 0 <= i < start ==> !after(cursor, #[trigger] keys[i]),
        forall|i: int| start <= i < keys.len() ==> after(cursor, #[trigger] keys[i]),
    ensures
        is_window(
            keys.subrange(
                start,
                if start + limit <= keys.len() {
                    start + limit
                } else {
                    keys.len() as int
                },
            ),
            members,
            cursor,
            limit,
        ),
{
    let end = if start + limit <= keys.len() {
        start + limit
    } else {
        keys.len() as int
    };
    let window = keys.subrange(start, end);
    assert forall|key: Seq<char>| #[trigger]
        members.contains(key) && after(cursor, key) && !window.contains(key) implies window.len()
        == limit && (forall|i: int|
        0 <= i < window.len() ==> text::text_before(#[trigger] window[i], key)) by {
        assert(keys.contains(key));
        let k = choose|k: int| 0 <= k < keys.len() && keys[k] == key;
        if k < end {
            assert(window[k - start] == key);
        }
    }
}

/// The position of the first key after the cursor.
pub fn first_after(keys: &Vec<String>, cursor: Option<&str>) -> (start: usize)
    requires
        ascending(texts_of(keys@)),
    ensures
        start <= keys@.len(),
        forall|i: int|
            0 <= i < start ==> !after(
                match cursor {
                    Some(text) => Some(text@),
                    None => None,
                },
                #[trigger] texts_of(keys@)[i],
            ),
        forall|i: int|
            start <= i < keys@.len() ==> after(
                match cursor {
                    Some(text) => Some(text@),
                    None => None,
                },
                #[trigger] texts_of(keys@)[i],
            ),
{
    let text = match cursor {
        None => {
            return 0;
        },
        Some(text) => text,
    };
    let ghost names = texts_of(keys@);
    let mut low: usize = 0;
    let mut high: usize = keys.len();
    while low < high
        invariant
            low <= high <= keys@.len(),
            names == texts_of(keys@),
            ascending(names),
            forall|i: int| 0 <= i < low ==> !text::text_before(text@, #[trigger] names[i]),
            forall|i: int| high <= i < keys@.len() ==> text::text_before(
                text@,
                #[trigger] names[i],
            ),
        decreases high - low,
    {
        let middle: usize = low + (high - low) / 2;
        if text_less(text, keys[middle].as_str()) {
            assert forall|i: int| middle <= i < keys@.len() implies text::text_before(
                text@,
                #[trigger] names[i],
            ) by {
                if i > middle {
                    assert(text::text_before(names[middle as int], names[i]));
                    text::text_order_is_total(text@, names[middle as int], names[i]);
                }
            }
            high = middle;
        } else {
            assert forall|i: int| 0 <= i <= middle implies !text::text_before(
                text@,
                #[trigger] names[i],
            ) by {
                if i < middle && text::text_before(text@, names[i]) {
                    assert(text::text_before(names[i], names[middle as int]));
                    text::text_order_is_total(text@, names[i], names[middle as int]);
                }
            }
            low = middle + 1;
        }
    }
    low
}

/// The window after the cursor, cut from all members in order.
pub(crate) fn cut_window(
    keys: &Vec<String>,
    Ghost(members): Ghost<Set<Seq<char>>>,
    cursor: Option<&str>,
    limit: usize,
) -> (range: (usize, usize))
    requires
        is_order_of(texts_of(keys@), members),
    ensures
        range.0 <= range.1 <= keys@.len(),
        is_window(
            texts_of(keys@).subrange(range.0 as int, range.1 as int),
            members,
            match cursor {
                Some(text) => Some(text@),
                None => None,
            },
            limit as nat,
        ),
{
    let start: usize = first_after(keys, cursor);
    let end: usize = if limit <= keys.len() - start {
        start + limit
    } else {
        keys.len()
    };
    proof {
        lemma_cut_is_window(
            texts_of(keys@),
            members,
            match cursor {
                Some(text) => Some(text@),
                None => None,
            },
            start as int,
            limit as nat,
        );
    }
    (start, end)
}

/// Sorting a list of all members puts them in order.
pub(crate) proof fn lemma_sorted_listing_is_order(
    listed: Seq<String>,
    sorted: Seq<String>,
    members: Set<Seq<char>>,
)
    requires
        maps::lists_texts(listed, members),
        sorted.to_multiset() == listed.to_multiset(),
        maps::texts_ascend(sorted),
    ensures
        is_order_of(texts_of(sorted), members),
{
    listed.to_multiset_ensures();
    sorted.to_multiset_ensures();
    let keys = texts_of(sorted);
    assert(listed.no_duplicates());
    listed.lemma_multiset_has_no_duplicates();
    sorted.lemma_multiset_has_no_duplicates_conv();
    assert forall|i: int, j: int| 0 <= i < j < keys.len() implies text::text_before(
        #[trigger] keys[i],
        #[trigger] keys[j],
    ) by {
        assert(sorted.to_multiset().count(sorted[i]) > 0) by {
            assert(sorted.contains(sorted[i]));
        }
        assert(sorted.to_multiset().count(sorted[j]) > 0) by {
            assert(sorted.contains(sorted[j]));
        }
        assert(listed.contains(sorted[i]));
        assert(listed.contains(sorted[j]));
        let a = choose|a: int| 0 <= a < listed.len() && listed[a] == sorted[i];
        let b = choose|b: int| 0 <= b < listed.len() && listed[b] == sorted[j];
        assert(sorted[i] != sorted[j]);
        assert(sorted[i]@ != sorted[j]@) by {
            if a < b {
                assert(listed[a]@ != listed[b]@);
            } else {
                assert(listed[b]@ != listed[a]@);
            }
        }
        assert(!text::text_before(sorted[j]@, sorted[i]@));
        text::text_order_is_total(sorted[i]@, sorted[j]@, sorted[i]@);
    }
    assert forall|i: int| 0 <= i < keys.len() implies members.contains(#[trigger] keys[i]) by {
        assert(sorted.contains(sorted[i]));
        assert(sorted.to_multiset().count(sorted[i]) > 0);
        assert(listed.contains(sorted[i]));
        let a = choose|a: int| 0 <= a < listed.len() && listed[a] == sorted[i];
        assert(members.contains(listed[a]@));
    }
    assert forall|key: Seq<char>| #[trigger] members.contains(key) implies keys.contains(key) by {
        let a = choose|a: int| 0 <= a < listed.len() && (#[trigger] listed[a])@ == key;
        assert(listed.contains(listed[a]));
        assert(listed.to_multiset().count(listed[a]) > 0);
        assert(sorted.contains(listed[a]));
        let i = choose|i: int| 0 <= i < sorted.len() && sorted[i] == listed[a];
        assert(keys[i] == key);
    }
}

} // verus!
