//! What holds of the keys: which never collide, which lie inside which range, and how they are
//! ordered.

use vstd::prelude::*;
use vstd::string::*;
use vstd::utf8::*;

use crate::metadata::keys;
use crate::model::TimelineLifecycleState;
use crate::text;

verus! {

/// One text begins with another.
pub open spec fn begins_with(whole: Seq<char>, prefix: Seq<char>) -> bool {
    prefix.is_prefix_of(whole)
}

proof fn lemma_namespaced_injective(prefix: Seq<char>, a: Seq<char>, b: Seq<char>)
    requires
        keys::namespaced(prefix, a) == keys::namespaced(prefix, b),
    ensures
        a == b,
{
    if prefix.len() > 0 {
        let head = prefix + "/"@;
        assert((head + a).skip(head.len() as int) =~= a);
        assert((head + b).skip(head.len() as int) =~= b);
    }
}

proof fn lemma_hex_injective(a: Seq<u8>, b: Seq<u8>)
    requires
        text::hex(a) == text::hex(b),
    ensures
        a == b,
{
    assert(text::hex(a).len() == 2 * a.len());
    assert(text::hex(b).len() == 2 * b.len());
    assert forall|i: int| 0 <= i < a.len() implies a[i] == b[i] by {
        let high = 2 * i;
        let low = 2 * i + 1;
        assert(high / 2 == i && high % 2 == 0 && low / 2 == i && low % 2 == 1);
        assert(text::hex(a)[high] == text::hex_char(a[i] as nat / 16));
        assert(text::hex(b)[high] == text::hex_char(b[i] as nat / 16));
        assert(text::hex(a)[low] == text::hex_char(a[i] as nat % 16));
        assert(text::hex(b)[low] == text::hex_char(b[i] as nat % 16));
        lemma_hex_char_injective(a[i] as nat / 16, b[i] as nat / 16);
        lemma_hex_char_injective(a[i] as nat % 16, b[i] as nat % 16);
    }
    assert(a =~= b);
}

proof fn lemma_hex_char_injective(a: nat, b: nat)
    requires
        a < 16,
        b < 16,
        text::hex_char(a) == text::hex_char(b),
    ensures
        a == b,
{
}

proof fn lemma_encoded_injective(a: Seq<char>, b: Seq<char>)
    requires
        keys::encoded(a) == keys::encoded(b),
    ensures
        a == b,
{
    lemma_hex_injective(encode_utf8(a), encode_utf8(b));
    encodings_never_collide(a, b);
}

/// Encoded components hold hexadecimal digits alone, so never the separator.
proof fn lemma_encoded_has_no_separator(component: Seq<char>)
    ensures
        !keys::encoded(component).contains('/'),
{
    let bytes = encode_utf8(component);
    assert forall|i: int| 0 <= i < text::hex(bytes).len() implies text::hex(bytes)[i] != '/' by {
        let half = if i % 2 == 0 {
            bytes[i / 2] as nat / 16
        } else {
            bytes[i / 2] as nat % 16
        };
        assert(text::hex(bytes)[i] == text::hex_char(half));
    }
}

/// Two texts joined by the separator come apart in one way when the first holds none.
proof fn lemma_split_at_separator(a: Seq<char>, b: Seq<char>, c: Seq<char>, d: Seq<char>)
    requires
        !a.contains('/'),
        !c.contains('/'),
        a + "/"@ + b == c + "/"@ + d,
    ensures
        a == c,
        b == d,
{
    reveal_strlit("/");
    let left = a + "/"@ + b;
    let right = c + "/"@ + d;
    if a.len() < c.len() {
        assert(left[a.len() as int] == '/');
        assert(right[a.len() as int] == c[a.len() as int]);
    }
    if c.len() < a.len() {
        assert(right[c.len() as int] == '/');
        assert(left[c.len() as int] == a[c.len() as int]);
    }
    assert forall|i: int| 0 <= i < a.len() implies a[i] == c[i] by {
        assert(left[i] == a[i] && right[i] == c[i]);
    }
    assert(a =~= c);
    let at = a.len() as int + 1;
    assert(left.skip(at) =~= b);
    assert(right.skip(at) =~= d);
}

/// Different timelines never share a record.
pub proof fn timeline_keys_never_collide(
    prefix: Seq<char>,
    first_timeline: Seq<char>,
    second_timeline: Seq<char>,
)
    requires
        keys::timeline_key_text(prefix, first_timeline) == keys::timeline_key_text(
            prefix,
            second_timeline,
        ),
    ensures
        first_timeline == second_timeline,
{
    let head = "routes/"@;
    lemma_namespaced_injective(prefix, head + first_timeline, head + second_timeline);
    assert((head + first_timeline).skip(head.len() as int) =~= first_timeline);
    assert((head + second_timeline).skip(head.len() as int) =~= second_timeline);
}

/// Different generators never share a record.
pub proof fn generator_keys_never_collide(prefix: Seq<char>, first_id: u32, second_id: u32)
    requires
        keys::generator_key_text(prefix, first_id) == keys::generator_key_text(prefix, second_id),
    ensures
        first_id == second_id,
{
    let head = "generators/"@;
    let a = text::decimal(first_id as nat);
    let b = text::decimal(second_id as nat);
    lemma_namespaced_injective(prefix, head + a, head + b);
    assert((head + a).skip(head.len() as int) =~= a);
    assert((head + b).skip(head.len() as int) =~= b);
    text::decimals_are_distinct(first_id as nat, second_id as nat);
}

/// Different timelines, or owners, never share an entry of the index by owner.
pub proof fn owner_index_keys_never_collide(
    prefix: Seq<char>,
    first_owner: Seq<char>,
    first_timeline: Seq<char>,
    second_owner: Seq<char>,
    second_timeline: Seq<char>,
)
    requires
        keys::timeline_status_owner_index_key_text(prefix, first_owner, first_timeline)
            == keys::timeline_status_owner_index_key_text(prefix, second_owner, second_timeline),
    ensures
        first_timeline == second_timeline,
        keys::normal_endpoint(first_owner) == keys::normal_endpoint(second_owner),
{
    let head = "timeline_status/by_owner/"@;
    let a = keys::encoded(keys::normal_endpoint(first_owner));
    let c = keys::encoded(keys::normal_endpoint(second_owner));
    let left = head + a + "/"@ + first_timeline;
    let right = head + c + "/"@ + second_timeline;
    lemma_namespaced_injective(prefix, left, right);
    assert(left.skip(head.len() as int) =~= a + "/"@ + first_timeline);
    assert(right.skip(head.len() as int) =~= c + "/"@ + second_timeline);
    lemma_encoded_has_no_separator(keys::normal_endpoint(first_owner));
    lemma_encoded_has_no_separator(keys::normal_endpoint(second_owner));
    lemma_split_at_separator(a, first_timeline, c, second_timeline);
    lemma_encoded_injective(
        keys::normal_endpoint(first_owner),
        keys::normal_endpoint(second_owner),
    );
}

/// The names of the states hold no separator and are told apart by their first letters.
proof fn lemma_state_names(state: TimelineLifecycleState)
    ensures
        !state.name().contains('/'),
        state.name().len() > 0,
        state.name()[0] == match state {
            TimelineLifecycleState::Creating => 'C',
            TimelineLifecycleState::Active => 'A',
            TimelineLifecycleState::Draining => 'D',
            TimelineLifecycleState::Locked => 'L',
            TimelineLifecycleState::Recovering => 'R',
        },
{
    reveal_strlit("Creating");
    reveal_strlit("Active");
    reveal_strlit("Draining");
    reveal_strlit("Locked");
    reveal_strlit("Recovering");
}

/// Different timelines, or states, never share an entry of the index by state.
pub proof fn state_index_keys_never_collide(
    prefix: Seq<char>,
    first_state: TimelineLifecycleState,
    first_timeline: Seq<char>,
    second_state: TimelineLifecycleState,
    second_timeline: Seq<char>,
)
    requires
        keys::timeline_status_state_index_key_text(prefix, first_state.name(), first_timeline)
            == keys::timeline_status_state_index_key_text(
            prefix,
            second_state.name(),
            second_timeline,
        ),
    ensures
        first_timeline == second_timeline,
        first_state == second_state,
{
    let head = "timeline_status/by_state/"@;
    let a = first_state.name();
    let c = second_state.name();
    let left = head + a + "/"@ + first_timeline;
    let right = head + c + "/"@ + second_timeline;
    lemma_namespaced_injective(prefix, left, right);
    assert(left.skip(head.len() as int) =~= a + "/"@ + first_timeline);
    assert(right.skip(head.len() as int) =~= c + "/"@ + second_timeline);
    lemma_state_names(first_state);
    lemma_state_names(second_state);
    lemma_split_at_separator(a, first_timeline, c, second_timeline);
}

/// The entries by owner and by state, the marker of the index and the records of the timelines
/// have keys of their own, and no record lies inside the index.
pub proof fn status_index_is_apart_from_the_timelines(
    prefix: Seq<char>,
    owner: Seq<char>,
    owned: Seq<char>,
    state: Seq<char>,
    stated: Seq<char>,
    timeline: Seq<char>,
)
    ensures
        keys::timeline_status_owner_index_key_text(prefix, owner, owned)
            != keys::timeline_status_state_index_key_text(prefix, state, stated),
        keys::timeline_status_owner_index_key_text(prefix, owner, owned)
            != keys::timeline_status_index_marker_key_text(prefix),
        keys::timeline_status_state_index_key_text(prefix, state, stated)
            != keys::timeline_status_index_marker_key_text(prefix),
        !begins_with(
            keys::timeline_key_text(prefix, timeline),
            keys::timeline_status_index_prefix_text(prefix),
        ),
{
    reveal_strlit("routes/");
    reveal_strlit("timeline_status/");
    reveal_strlit("timeline_status/by_owner/");
    reveal_strlit("timeline_status/by_state/");
    reveal_strlit("timeline_status/__ready");
    let by_owner = keys::timeline_status_owner_index_key_text(prefix, owner, owned);
    let by_state = keys::timeline_status_state_index_key_text(prefix, state, stated);
    let marker = keys::timeline_status_index_marker_key_text(prefix);
    let record = keys::timeline_key_text(prefix, timeline);
    let index = keys::timeline_status_index_prefix_text(prefix);
    let at = if prefix.len() == 0 {
        0
    } else {
        (prefix + "/"@).len() as int
    };
    assert(by_owner[at + 19] == 'o');
    assert(by_state[at + 19] == 's');
    assert(by_owner[at + 16] == 'b');
    assert(by_state[at + 16] == 'b');
    assert(marker[at + 16] == '_');
    assert(record[at] == 'r');
    assert(index[at] == 't');
}

/// Requests of different timelines, or with different ids, never share a record.
pub proof fn request_keys_never_collide(
    prefix: Seq<char>,
    first_timeline: Seq<char>,
    first_id: Seq<char>,
    second_timeline: Seq<char>,
    second_id: Seq<char>,
)
    requires
        keys::request_key_text(prefix, first_timeline, first_id) == keys::request_key_text(
            prefix,
            second_timeline,
            second_id,
        ),
    ensures
        first_timeline == second_timeline,
        first_id == second_id,
{
    let a = keys::encoded(first_timeline);
    let b = keys::encoded(first_id);
    let c = keys::encoded(second_timeline);
    let d = keys::encoded(second_id);
    let head = "requests_v2/"@;
    lemma_namespaced_injective(prefix, head + a + "/"@ + b, head + c + "/"@ + d);
    assert((head + a + "/"@ + b).skip(head.len() as int) =~= a + "/"@ + b);
    assert((head + c + "/"@ + d).skip(head.len() as int) =~= c + "/"@ + d);
    lemma_encoded_has_no_separator(first_timeline);
    lemma_encoded_has_no_separator(second_timeline);
    lemma_split_at_separator(a, b, c, d);
    lemma_encoded_injective(first_timeline, second_timeline);
    lemma_encoded_injective(first_id, second_id);
}

/// Under the older keys, requests are told apart when no component holds the separator.
pub proof fn unambiguous_legacy_request_keys_never_collide(
    prefix: Seq<char>,
    first_timeline: Seq<char>,
    first_id: Seq<char>,
    second_timeline: Seq<char>,
    second_id: Seq<char>,
)
    requires
        keys::legacy_unambiguous(first_timeline, first_id),
        keys::legacy_unambiguous(second_timeline, second_id),
        keys::legacy_request_key_text(prefix, first_timeline, first_id)
            == keys::legacy_request_key_text(prefix, second_timeline, second_id),
    ensures
        first_timeline == second_timeline,
        first_id == second_id,
{
    let head = "requests/"@;
    let left = head + first_timeline + "/"@ + first_id;
    let right = head + second_timeline + "/"@ + second_id;
    lemma_namespaced_injective(prefix, left, right);
    assert(left.skip(head.len() as int) =~= first_timeline + "/"@ + first_id);
    assert(right.skip(head.len() as int) =~= second_timeline + "/"@ + second_id);
    lemma_split_at_separator(first_timeline, first_id, second_timeline, second_id);
}

proof fn lemma_fixed_decimal_len(n: nat, width: nat)
    ensures
        text::fixed_decimal(n, width).len() == width,
    decreases width,
{
    if width > 0 {
        lemma_fixed_decimal_len(n / 10, (width - 1) as nat);
    }
}

proof fn lemma_digit_injective(a: nat, b: nat)
    requires
        a < 10,
        b < 10,
        text::digit_char(a) == text::digit_char(b),
    ensures
        a == b,
{
}

pub open spec fn pow10(n: nat) -> nat
    decreases n,
{
    if n == 0 {
        1
    } else {
        10 * pow10((n - 1) as nat)
    }
}

proof fn lemma_fixed_decimal_injective(a: nat, b: nat, width: nat)
    requires
        a < pow10(width),
        b < pow10(width),
        text::fixed_decimal(a, width) == text::fixed_decimal(b, width),
    ensures
        a == b,
    decreases width,
{
    if width > 0 {
        let shorter = (width - 1) as nat;
        let left = text::fixed_decimal(a, width);
        let right = text::fixed_decimal(b, width);
        assert(left.drop_last() =~= text::fixed_decimal(a / 10, shorter));
        assert(right.drop_last() =~= text::fixed_decimal(b / 10, shorter));
        assert(left.last() == text::digit_char(a % 10));
        assert(right.last() == text::digit_char(b % 10));
        lemma_digit_injective(a % 10, b % 10);
        lemma_fixed_decimal_injective(a / 10, b / 10, shorter);
    }
}

proof fn lemma_u64_fits_twenty_digits(n: u64)
    ensures
        n < pow10(20),
{
    reveal_with_fuel(pow10, 21);
}

/// Each completed request has an index entry of its own.
pub proof fn cleanup_index_keys_never_collide(
    prefix: Seq<char>,
    first_ms: u64,
    first_timeline: Seq<char>,
    first_id: Seq<char>,
    second_ms: u64,
    second_timeline: Seq<char>,
    second_id: Seq<char>,
)
    requires
        keys::request_cleanup_index_key_text(prefix, first_ms, first_timeline, first_id)
            == keys::request_cleanup_index_key_text(prefix, second_ms, second_timeline, second_id),
    ensures
        first_ms == second_ms,
        first_timeline == second_timeline,
        first_id == second_id,
{
    let head = "request_cleanup_v2/"@;
    let m = text::fixed_decimal(first_ms as nat, 20);
    let n = text::fixed_decimal(second_ms as nat, 20);
    let a = keys::encoded(first_timeline);
    let b = keys::encoded(first_id);
    let c = keys::encoded(second_timeline);
    let d = keys::encoded(second_id);
    let left = head + m + "/"@ + a + "/"@ + b;
    let right = head + n + "/"@ + c + "/"@ + d;
    lemma_namespaced_injective(prefix, left, right);
    lemma_fixed_decimal_len(first_ms as nat, 20);
    lemma_fixed_decimal_len(second_ms as nat, 20);
    let at = head.len() as int;
    assert(left.subrange(at, at + 20) =~= m);
    assert(right.subrange(at, at + 20) =~= n);
    lemma_u64_fits_twenty_digits(first_ms);
    lemma_u64_fits_twenty_digits(second_ms);
    lemma_fixed_decimal_injective(first_ms as nat, second_ms as nat, 20);
    reveal_strlit("/");
    assert(left.skip(at + 21) =~= a + "/"@ + b);
    assert(right.skip(at + 21) =~= c + "/"@ + d);
    lemma_encoded_has_no_separator(first_timeline);
    lemma_encoded_has_no_separator(second_timeline);
    lemma_split_at_separator(a, b, c, d);
    lemma_encoded_injective(first_timeline, second_timeline);
    lemma_encoded_injective(first_id, second_id);
}

/// A request record and an entry of the cleanup index never share a key.
pub proof fn cleanup_index_is_apart_from_the_requests(
    prefix: Seq<char>,
    timeline: Seq<char>,
    id: Seq<char>,
    updated_at_ms: u64,
    noted_timeline: Seq<char>,
    noted_id: Seq<char>,
)
    ensures
        keys::request_key_text(prefix, timeline, id) != keys::request_cleanup_index_key_text(
            prefix,
            updated_at_ms,
            noted_timeline,
            noted_id,
        ),
{
    reveal_strlit("requests_v2/");
    reveal_strlit("request_cleanup_v2/");
    let record = keys::request_key_text(prefix, timeline, id);
    let note = keys::request_cleanup_index_key_text(
        prefix,
        updated_at_ms,
        noted_timeline,
        noted_id,
    );
    let at = if prefix.len() == 0 {
        7
    } else {
        (prefix + "/"@).len() as int + 7
    };
    assert(record[at] == 's');
    assert(note[at] == '_');
}

/// The rebuild lock survives the deletion of the whole status index.
pub proof fn rebuild_lock_is_outside_the_status_index(prefix: Seq<char>)
    ensures
        !begins_with(
            keys::timeline_status_index_rebuild_lock_key_text(prefix),
            keys::timeline_status_index_prefix_text(prefix),
        ),
{
    reveal_strlit("cluster/timeline_status_index_rebuild_lock");
    reveal_strlit("timeline_status/");
    let lock = keys::timeline_status_index_rebuild_lock_key_text(prefix);
    let index = keys::timeline_status_index_prefix_text(prefix);
    let at = if prefix.len() == 0 {
        0
    } else {
        (prefix + "/"@).len() as int
    };
    assert(lock[at] == 'c');
    assert(index[at] == 't');
}

/// Every index entry and the marker lie inside the status index, and the entries of one owner
/// or state inside its range.
pub proof fn status_index_entries_lie_in_their_ranges(
    prefix: Seq<char>,
    owner: Seq<char>,
    state: Seq<char>,
    timeline: Seq<char>,
)
    ensures
        begins_with(
            keys::timeline_status_owner_index_key_text(prefix, owner, timeline),
            keys::timeline_status_owner_index_prefix_text(prefix, owner),
        ),
        begins_with(
            keys::timeline_status_state_index_key_text(prefix, state, timeline),
            keys::timeline_status_state_index_prefix_text(prefix, state),
        ),
        begins_with(
            keys::timeline_status_owner_index_prefix_text(prefix, owner),
            keys::timeline_status_index_prefix_text(prefix),
        ),
        begins_with(
            keys::timeline_status_state_index_prefix_text(prefix, state),
            keys::timeline_status_index_prefix_text(prefix),
        ),
        begins_with(
            keys::timeline_status_index_marker_key_text(prefix),
            keys::timeline_status_index_prefix_text(prefix),
        ),
{
    reveal_strlit("timeline_status/");
    reveal_strlit("timeline_status/by_owner/");
    reveal_strlit("timeline_status/by_state/");
    reveal_strlit("timeline_status/__ready");
    let endpoint = keys::encoded(keys::normal_endpoint(owner));
    let owner_range = "timeline_status/by_owner/"@ + endpoint + "/"@;
    let state_range = "timeline_status/by_state/"@ + state + "/"@;
    assert("timeline_status/by_owner/"@.take(16) =~= "timeline_status/"@);
    assert("timeline_status/by_state/"@.take(16) =~= "timeline_status/"@);
    assert("timeline_status/__ready"@.take(16) =~= "timeline_status/"@);
    assert forall|i: int| 0 <= i < 16 implies "timeline_status/by_owner/"@[i]
        == #[trigger] "timeline_status/"@[i] && "timeline_status/by_state/"@[i]
        == "timeline_status/"@[i] && "timeline_status/__ready"@[i] == "timeline_status/"@[i] by {
        assert("timeline_status/by_owner/"@.take(16)[i] == "timeline_status/"@[i]);
        assert("timeline_status/by_state/"@.take(16)[i] == "timeline_status/"@[i]);
        assert("timeline_status/__ready"@.take(16)[i] == "timeline_status/"@[i]);
    }
    lemma_namespaced_prefix(prefix, owner_range + timeline, owner_range);
    lemma_namespaced_prefix(prefix, state_range + timeline, state_range);
    lemma_namespaced_prefix(prefix, owner_range, "timeline_status/"@);
    lemma_namespaced_prefix(prefix, state_range, "timeline_status/"@);
    lemma_namespaced_prefix(prefix, "timeline_status/__ready"@, "timeline_status/"@);
}

proof fn lemma_namespaced_begins(prefix: Seq<char>, whole: Seq<char>, head: Seq<char>)
    requires
        begins_with(keys::namespaced(prefix, whole), keys::namespaced(prefix, head)),
    ensures
        begins_with(whole, head),
{
    if prefix.len() > 0 {
        let start = prefix + "/"@;
        let a = keys::namespaced(prefix, whole);
        let b = keys::namespaced(prefix, head);
        assert(b.len() == start.len() + head.len());
        assert forall|i: int| 0 <= i < head.len() implies whole[i] == head[i] by {
            assert(a[start.len() + i] == b[start.len() + i]);
        }
    }
}

/// Where a text begins with a component and a separator, that component is its first one.
proof fn lemma_first_component(head: Seq<char>, a: Seq<char>, c: Seq<char>, rest: Seq<char>)
    requires
        !a.contains('/'),
        !c.contains('/'),
        begins_with(head + c + "/"@ + rest, head + a + "/"@),
    ensures
        a == c,
{
    let whole = head + c + "/"@ + rest;
    let start = head + a + "/"@;
    let more = whole.skip(start.len() as int);
    let at = head.len() as int;
    assert(whole =~= start + more);
    assert(whole.skip(at) =~= c + "/"@ + rest);
    assert((start + more).skip(at) =~= a + "/"@ + more);
    lemma_split_at_separator(a, more, c, rest);
}

/// The range of an owner holds no entry of another owner, and none by state.
pub proof fn owner_ranges_hold_their_own_entries(
    prefix: Seq<char>,
    owner: Seq<char>,
    other: Seq<char>,
    state: Seq<char>,
    timeline: Seq<char>,
)
    ensures
        begins_with(
            keys::timeline_status_owner_index_key_text(prefix, other, timeline),
            keys::timeline_status_owner_index_prefix_text(prefix, owner),
        ) ==> keys::normal_endpoint(other) == keys::normal_endpoint(owner),
        !begins_with(
            keys::timeline_status_state_index_key_text(prefix, state, timeline),
            keys::timeline_status_owner_index_prefix_text(prefix, owner),
        ),
{
    reveal_strlit("timeline_status/by_owner/");
    reveal_strlit("timeline_status/by_state/");
    let head = "timeline_status/by_owner/"@;
    let a = keys::encoded(keys::normal_endpoint(owner));
    let c = keys::encoded(keys::normal_endpoint(other));
    let range = head + a + "/"@;
    let by_owner = head + c + "/"@ + timeline;
    let by_state = "timeline_status/by_state/"@ + state + "/"@ + timeline;
    if begins_with(keys::namespaced(prefix, by_owner), keys::namespaced(prefix, range)) {
        lemma_namespaced_begins(prefix, by_owner, range);
        lemma_encoded_has_no_separator(keys::normal_endpoint(owner));
        lemma_encoded_has_no_separator(keys::normal_endpoint(other));
        lemma_first_component(head, a, c, timeline);
        lemma_encoded_injective(keys::normal_endpoint(owner), keys::normal_endpoint(other));
    }
    if begins_with(keys::namespaced(prefix, by_state), keys::namespaced(prefix, range)) {
        lemma_namespaced_begins(prefix, by_state, range);
        assert(by_state[19] == 's');
        assert(range[19] == 'o');
    }
}

/// The range of a state holds no entry of another state, and none by owner.
pub proof fn state_ranges_hold_their_own_entries(
    prefix: Seq<char>,
    state: TimelineLifecycleState,
    other: TimelineLifecycleState,
    owner: Seq<char>,
    timeline: Seq<char>,
)
    ensures
        begins_with(
            keys::timeline_status_state_index_key_text(prefix, other.name(), timeline),
            keys::timeline_status_state_index_prefix_text(prefix, state.name()),
        ) ==> other == state,
        !begins_with(
            keys::timeline_status_owner_index_key_text(prefix, owner, timeline),
            keys::timeline_status_state_index_prefix_text(prefix, state.name()),
        ),
{
    reveal_strlit("timeline_status/by_owner/");
    reveal_strlit("timeline_status/by_state/");
    let head = "timeline_status/by_state/"@;
    let range = head + state.name() + "/"@;
    let by_state = head + other.name() + "/"@ + timeline;
    let by_owner = "timeline_status/by_owner/"@ + keys::encoded(keys::normal_endpoint(owner))
        + "/"@ + timeline;
    lemma_state_names(state);
    lemma_state_names(other);
    if begins_with(keys::namespaced(prefix, by_state), keys::namespaced(prefix, range)) {
        lemma_namespaced_begins(prefix, by_state, range);
        lemma_first_component(head, state.name(), other.name(), timeline);
    }
    if begins_with(keys::namespaced(prefix, by_owner), keys::namespaced(prefix, range)) {
        lemma_namespaced_begins(prefix, by_owner, range);
        assert(by_owner[19] == 'o');
        assert(range[19] == 's');
    }
}

proof fn lemma_namespaced_prefix(prefix: Seq<char>, whole: Seq<char>, head: Seq<char>)
    requires
        begins_with(whole, head),
    ensures
        begins_with(keys::namespaced(prefix, whole), keys::namespaced(prefix, head)),
{
    let a = keys::namespaced(prefix, whole);
    let b = keys::namespaced(prefix, head);
    if prefix.len() > 0 {
        let start = prefix + "/"@;
        assert forall|i: int| 0 <= i < b.len() implies a[i] == b[i] by {
            if i >= start.len() {
                assert(whole[i - start.len()] == head[i - start.len()]);
            }
        }
    }
}

/// Every request record lies in the range of the requests, and the cleanup index up to any time in
/// its own.
pub proof fn requests_and_their_index_lie_in_their_ranges(
    prefix: Seq<char>,
    timeline: Seq<char>,
    id: Seq<char>,
    older_than_ms: u64,
)
    ensures
        begins_with(
            keys::request_key_text(prefix, timeline, id),
            keys::request_prefix_text(prefix),
        ),
        begins_with(
            keys::request_cleanup_index_cutoff_text(prefix, older_than_ms),
            keys::request_cleanup_index_prefix_text(prefix),
        ),
{
    lemma_namespaced_prefix(
        prefix,
        "requests_v2/"@ + keys::encoded(timeline) + "/"@ + keys::encoded(id),
        "requests_v2/"@,
    );
    lemma_namespaced_prefix(
        prefix,
        "request_cleanup_v2/"@ + text::fixed_decimal(older_than_ms as nat, 20) + "/"@,
        "request_cleanup_v2/"@,
    );
}

/// The range of the requests and that of their cleanup index have nothing in common.
pub proof fn cleanup_index_range_is_apart_from_the_requests(prefix: Seq<char>)
    ensures
        !begins_with(
            keys::request_cleanup_index_prefix_text(prefix),
            keys::request_prefix_text(prefix),
        ),
        !begins_with(
            keys::request_prefix_text(prefix),
            keys::request_cleanup_index_prefix_text(prefix),
        ),
{
    reveal_strlit("requests_v2/");
    reveal_strlit("request_cleanup_v2/");
    let requests = keys::request_prefix_text(prefix);
    let index = keys::request_cleanup_index_prefix_text(prefix);
    let at = if prefix.len() == 0 {
        7int
    } else {
        (prefix + "/"@).len() as int + 7
    };
    assert(requests[at] == 's');
    assert(index[at] == '_');
}

proof fn lemma_common_head(head: Seq<u8>, a: Seq<u8>, b: Seq<u8>)
    ensures
        text::bytes_before(head + a, head + b) == text::bytes_before(a, b),
    decreases head.len(),
{
    if head.len() == 0 {
        assert(head + a =~= a);
        assert(head + b =~= b);
    } else {
        lemma_common_head(head.drop_first(), a, b);
        assert((head + a).drop_first() =~= head.drop_first() + a);
        assert((head + b).drop_first() =~= head.drop_first() + b);
    }
}

/// UTF-8 encodes a concatenation part by part.
pub proof fn encoding_distributes(a: Seq<char>, b: Seq<char>)
    ensures
        encode_utf8(a + b) == encode_utf8(a) + encode_utf8(b),
    decreases a.len(),
{
    if a.len() == 0 {
        assert(a + b =~= b);
        assert(encode_utf8(a) + encode_utf8(b) =~= encode_utf8(b));
    } else {
        encoding_distributes(a.drop_first(), b);
        assert((a + b).drop_first() =~= a.drop_first() + b);
        let first = encode_scalar(a[0] as u32);
        assert(encode_utf8(a + b) =~= first + (encode_utf8(a.drop_first()) + encode_utf8(b)));
        assert(encode_utf8(a) =~= first + encode_utf8(a.drop_first()));
    }
}

/// Texts with the same bytes are the same.
pub proof fn encodings_never_collide(a: Seq<char>, b: Seq<char>)
    requires
        encode_utf8(a) == encode_utf8(b),
    ensures
        a == b,
{
    encode_utf8_decode_utf8(a);
    encode_utf8_decode_utf8(b);
}

/// The bytes of a text begin with those of another exactly where the text begins with the other.
pub proof fn encodings_begin_as_texts_do(whole: Seq<char>, head: Seq<char>)
    ensures
        encode_utf8(head).is_prefix_of(encode_utf8(whole)) <==> begins_with(whole, head),
{
    let bytes = encode_utf8(whole);
    let start = encode_utf8(head);
    if begins_with(whole, head) {
        let rest = whole.skip(head.len() as int);
        assert(whole =~= head + rest);
        encoding_distributes(head, rest);
    }
    if start.is_prefix_of(bytes) {
        let at = start.len() as int;
        let rest = bytes.subrange(at, bytes.len() as int);
        assert(bytes =~= start + rest);
        assert(bytes.subrange(0, at) =~= start);
        encode_utf8_valid_utf8(whole);
        encode_utf8_valid_utf8(head);
        if !valid_utf8(rest) {
            partial_valid_partial_invalid_utf8(bytes, at);
        }
        decode_utf8_encode_utf8(rest);
        encoding_distributes(head, decode_utf8(rest));
        encodings_never_collide(whole, head + decode_utf8(rest));
    }
}

proof fn lemma_digit_order(a: nat, b: nat)
    requires
        a < 10,
        b < 10,
    ensures
        (text::digit_char(a) as u8) < (text::digit_char(b) as u8) <==> a < b,
        text::digit_char(a) as u32 <= 0x7f,
{
}

/// Digits of one width order as the numbers do, whatever follows.
proof fn lemma_fixed_decimal_order(
    a: nat,
    b: nat,
    width: nat,
    after_a: Seq<u8>,
    after_b: Seq<u8>,
)
    requires
        a < pow10(width),
        b < pow10(width),
        a != b,
    ensures
        text::bytes_before(
            encode_utf8(text::fixed_decimal(a, width)) + after_a,
            encode_utf8(text::fixed_decimal(b, width)) + after_b,
        ) <==> a < b,
    decreases width,
{
    if width > 0 {
        let shorter = (width - 1) as nat;
        let head_a = text::fixed_decimal(a / 10, shorter);
        let head_b = text::fixed_decimal(b / 10, shorter);
        let digit_a = seq![text::digit_char(a % 10)];
        let digit_b = seq![text::digit_char(b % 10)];
        assert(text::fixed_decimal(a, width) =~= head_a + digit_a);
        assert(text::fixed_decimal(b, width) =~= head_b + digit_b);
        encoding_distributes(head_a, digit_a);
        encoding_distributes(head_b, digit_b);
        let rest_a = encode_utf8(digit_a) + after_a;
        let rest_b = encode_utf8(digit_b) + after_b;
        assert(encode_utf8(text::fixed_decimal(a, width)) + after_a =~= encode_utf8(head_a)
            + rest_a);
        assert(encode_utf8(text::fixed_decimal(b, width)) + after_b =~= encode_utf8(head_b)
            + rest_b);
        if a / 10 != b / 10 {
            lemma_fixed_decimal_order(a / 10, b / 10, shorter, rest_a, rest_b);
        } else {
            lemma_common_head(encode_utf8(head_a), rest_a, rest_b);
            lemma_digit_order(a % 10, b % 10);
            lemma_digit_order(b % 10, a % 10);
            is_ascii_chars_encode_utf8(digit_a);
            is_ascii_chars_encode_utf8(digit_b);
            assert(rest_a[0] == text::digit_char(a % 10) as u8);
            assert(rest_b[0] == text::digit_char(b % 10) as u8);
        }
    }
}

/// An index entry comes before the cutoff exactly when its request is older than the cutoff.
pub proof fn cleanup_index_is_ordered_by_age(
    prefix: Seq<char>,
    updated_at_ms: u64,
    timeline: Seq<char>,
    id: Seq<char>,
    older_than_ms: u64,
)
    ensures
        text::text_before(
            keys::request_cleanup_index_key_text(prefix, updated_at_ms, timeline, id),
            keys::request_cleanup_index_cutoff_text(prefix, older_than_ms),
        ) <==> updated_at_ms < older_than_ms,
{
    let key = keys::request_cleanup_index_key_text(prefix, updated_at_ms, timeline, id);
    let cutoff = keys::request_cleanup_index_cutoff_text(prefix, older_than_ms);
    let head = keys::namespaced(prefix, "request_cleanup_v2/"@);
    let tail = keys::encoded(timeline) + "/"@ + keys::encoded(id);
    let m = text::fixed_decimal(updated_at_ms as nat, 20);
    let n = text::fixed_decimal(older_than_ms as nat, 20);
    assert(key =~= head + (m + ("/"@ + tail)));
    assert(cutoff =~= head + (n + "/"@));
    encoding_distributes(head, m + ("/"@ + tail));
    encoding_distributes(head, n + "/"@);
    encoding_distributes(m, "/"@ + tail);
    encoding_distributes(n, "/"@);
    let after_m = encode_utf8("/"@ + tail);
    let after_n = encode_utf8("/"@);
    lemma_common_head(encode_utf8(head), encode_utf8(m) + after_m, encode_utf8(n) + after_n);
    lemma_u64_fits_twenty_digits(updated_at_ms);
    lemma_u64_fits_twenty_digits(older_than_ms);
    if updated_at_ms != older_than_ms {
        lemma_fixed_decimal_order(updated_at_ms as nat, older_than_ms as nat, 20, after_m, after_n);
    } else {
        lemma_common_head(encode_utf8(m), after_m, after_n);
        encoding_distributes("/"@, tail);
        assert(after_n =~= after_n + Seq::<u8>::empty());
        lemma_common_head(after_n, encode_utf8(tail), Seq::<u8>::empty());
    }
}

/// The older cleanup index is ordered by age too, and lies in a range that has nothing in common
/// with that of the index in use.
pub proof fn legacy_cleanup_index_is_ordered_by_age(
    prefix: Seq<char>,
    updated_at_ms: u64,
    timeline: Seq<char>,
    id: Seq<char>,
    older_than_ms: u64,
)
    ensures
        text::text_before(
            keys::legacy_request_cleanup_index_key_text(prefix, updated_at_ms, timeline, id),
            keys::legacy_request_cleanup_index_cutoff_text(prefix, older_than_ms),
        ) <==> updated_at_ms < older_than_ms,
        begins_with(
            keys::legacy_request_cleanup_index_key_text(prefix, updated_at_ms, timeline, id),
            keys::legacy_request_cleanup_index_prefix_text(prefix),
        ),
        begins_with(
            keys::legacy_request_cleanup_index_cutoff_text(prefix, older_than_ms),
            keys::legacy_request_cleanup_index_prefix_text(prefix),
        ),
        !begins_with(
            keys::request_cleanup_index_prefix_text(prefix),
            keys::legacy_request_cleanup_index_prefix_text(prefix),
        ),
        !begins_with(
            keys::legacy_request_cleanup_index_prefix_text(prefix),
            keys::request_cleanup_index_prefix_text(prefix),
        ),
{
    let key = keys::legacy_request_cleanup_index_key_text(prefix, updated_at_ms, timeline, id);
    let cutoff = keys::legacy_request_cleanup_index_cutoff_text(prefix, older_than_ms);
    let head = keys::namespaced(prefix, "request_cleanup/"@);
    let tail = timeline + "/"@ + id;
    let m = text::fixed_decimal(updated_at_ms as nat, 20);
    let n = text::fixed_decimal(older_than_ms as nat, 20);
    assert(key =~= head + (m + ("/"@ + tail)));
    assert(cutoff =~= head + (n + "/"@));
    encoding_distributes(head, m + ("/"@ + tail));
    encoding_distributes(head, n + "/"@);
    encoding_distributes(m, "/"@ + tail);
    encoding_distributes(n, "/"@);
    let after_m = encode_utf8("/"@ + tail);
    let after_n = encode_utf8("/"@);
    lemma_common_head(encode_utf8(head), encode_utf8(m) + after_m, encode_utf8(n) + after_n);
    lemma_u64_fits_twenty_digits(updated_at_ms);
    lemma_u64_fits_twenty_digits(older_than_ms);
    if updated_at_ms != older_than_ms {
        lemma_fixed_decimal_order(updated_at_ms as nat, older_than_ms as nat, 20, after_m, after_n);
    } else {
        lemma_common_head(encode_utf8(m), after_m, after_n);
        encoding_distributes("/"@, tail);
        assert(after_n =~= after_n + Seq::<u8>::empty());
        lemma_common_head(after_n, encode_utf8(tail), Seq::<u8>::empty());
    }
    lemma_namespaced_prefix(
        prefix,
        "request_cleanup/"@ + m + "/"@ + timeline + "/"@ + id,
        "request_cleanup/"@,
    );
    lemma_namespaced_prefix(prefix, "request_cleanup/"@ + n + "/"@, "request_cleanup/"@);
    reveal_strlit("request_cleanup/");
    reveal_strlit("request_cleanup_v2/");
    let legacy = keys::legacy_request_cleanup_index_prefix_text(prefix);
    let index = keys::request_cleanup_index_prefix_text(prefix);
    let at = if prefix.len() == 0 {
        15int
    } else {
        (prefix + "/"@).len() as int + 15
    };
    assert(legacy[at] == '/');
    assert(index[at] == '_');
}

/// Every instance has a key of its own, in the range of the instances.
pub proof fn instance_keys_never_collide(prefix: Seq<char>, first: Seq<char>, second: Seq<char>)
    ensures
        keys::instance_identity_key_text(prefix, first) == keys::instance_identity_key_text(
            prefix,
            second,
        ) ==> first == second,
        begins_with(
            keys::instance_identity_key_text(prefix, first),
            keys::instance_identity_prefix_text(prefix),
        ),
        !begins_with(
            keys::timeline_creation_lock_key_text(prefix),
            keys::instance_identity_prefix_text(prefix),
        ),
        keys::timeline_creation_lock_key_text(prefix)
            != keys::timeline_status_index_rebuild_lock_key_text(prefix),
{
    let head = keys::instance_identity_prefix_text(prefix);
    let a = keys::instance_identity_key_text(prefix, first);
    let b = keys::instance_identity_key_text(prefix, second);
    assert(a =~= head + first);
    assert(b =~= head + second);
    if a == b {
        assert(first =~= a.skip(head.len() as int));
        assert(second =~= b.skip(head.len() as int));
    }
    lemma_namespaced_prefix(prefix, "identity/instances/"@ + first, "identity/instances/"@);
    reveal_strlit("identity/instances/");
    reveal_strlit("cluster/timeline_creation_lock");
    reveal_strlit("cluster/timeline_status_index_rebuild_lock");
    let lock = keys::timeline_creation_lock_key_text(prefix);
    let rebuild = keys::timeline_status_index_rebuild_lock_key_text(prefix);
    let at = if prefix.len() == 0 {
        0int
    } else {
        (prefix + "/"@).len() as int
    };
    assert(head[at] == 'i');
    assert(lock[at] == 'c');
    assert(lock[at + 17] == 'c');
    assert(rebuild[at + 17] == 's');
}

} // verus!
