//! Status list requests: filters, page sizes and page tokens.

use vstd::prelude::*;

use crate::model::TimelineLifecycleState;
use crate::rpc::proto::{ListTimelineStatusesRequest, ProtoTimelineState, Status, StatusCode};

verus! {

pub const DEFAULT_TIMELINE_STATUS_PAGE_SIZE: usize = 100;

pub const MAX_TIMELINE_STATUS_PAGE_SIZE: usize = 1000;

/// Where a listing goes on, and which filter it was made for.
#[derive(Debug)]
pub struct TimelineStatusPageToken {
    pub version: u8,
    pub states: Vec<i32>,
    pub owner_worker_endpoint: Option<String>,
    pub last_timeline_key: String,
}

/// A status list request whose filter is settled.
#[derive(Debug)]
pub struct NormalizedTimelineStatusListRequest {
    pub states: Vec<TimelineLifecycleState>,
    pub state_codes: Vec<i32>,
    pub owner_worker_endpoint: Option<String>,
    pub page_size: usize,
    pub start_after_timeline_key: Option<String>,
}

/// A plain refusal, without details.
pub open spec fn is_plain_refusal(status: Status, message: Seq<char>) -> bool {
    &&& status.code == StatusCode::InvalidArgument
    &&& status.message@ == message
    &&& status.details@.len() == 0
}

fn refusal(message: &str) -> (status: Status)
    ensures
        is_plain_refusal(status, message@),
{
    Status {
        code: StatusCode::InvalidArgument,
        message: message.to_owned(),
        details: Vec::new(),
    }
}

/// The state that a code of a filter stands for.
pub open spec fn state_of(code: i32) -> Option<TimelineLifecycleState> {
    if code == ProtoTimelineState::Creating.code() {
        Some(TimelineLifecycleState::Creating)
    } else if code == ProtoTimelineState::Active.code() {
        Some(TimelineLifecycleState::Active)
    } else if code == ProtoTimelineState::Draining.code() {
        Some(TimelineLifecycleState::Draining)
    } else if code == ProtoTimelineState::Locked.code() {
        Some(TimelineLifecycleState::Locked)
    } else if code == ProtoTimelineState::Recovering.code() {
        Some(TimelineLifecycleState::Recovering)
    } else {
        None
    }
}

pub fn decode_timeline_state_filter(state: i32) -> (decoded: Result<
    TimelineLifecycleState,
    Status,
>)
    ensures
        match decoded {
            Ok(value) => state_of(state) == Some(value),
            Err(status) => state_of(state) is None && is_plain_refusal(
                status,
                "states must not contain TIMELINE_STATE_UNSPECIFIED"@,
            ),
        },
{
    match ProtoTimelineState::from_number(state) {
        Some(ProtoTimelineState::Creating) => Ok(TimelineLifecycleState::Creating),
        Some(ProtoTimelineState::Active) => Ok(TimelineLifecycleState::Active),
        Some(ProtoTimelineState::Draining) => Ok(TimelineLifecycleState::Draining),
        Some(ProtoTimelineState::Locked) => Ok(TimelineLifecycleState::Locked),
        Some(ProtoTimelineState::Recovering) => Ok(TimelineLifecycleState::Recovering),
        found => {
            proof {
                assert(ProtoTimelineState::Creating.code() == 1);
                assert(ProtoTimelineState::Active.code() == 2);
                assert(ProtoTimelineState::Draining.code() == 3);
                assert(ProtoTimelineState::Locked.code() == 4);
                assert(ProtoTimelineState::Recovering.code() == 5);
            }
            Err(refusal("states must not contain TIMELINE_STATE_UNSPECIFIED"))
        },
    }
}

/// Each of the requested codes once, in ascending order.
pub open spec fn is_code_set(codes: Seq<i32>, requested: Seq<i32>) -> bool {
    &&& forall|i: int, j: int| 0 <= i < j < codes.len() ==> codes[i] < codes[j]
    &&& forall|code: i32| #[trigger] codes.contains(code) <==> requested.contains(code)
}

/// A set of codes has one ascending order.
proof fn lemma_code_sets_are_unique(a: Seq<i32>, b: Seq<i32>, requested: Seq<i32>)
    requires
        is_code_set(a, requested),
        is_code_set(b, requested),
    ensures
        a == b,
    decreases a.len(),
{
    if a.len() == 0 {
        if b.len() > 0 {
            assert(b.contains(b[0]));
            assert(a.contains(b[0]));
        }
    } else {
        assert(a.contains(a.last()));
        assert(b.contains(a.last()));
        assert(b.contains(b.last()));
        assert(a.contains(b.last()));
        let i = choose|i: int| 0 <= i < b.len() && b[i] == a.last();
        let j = choose|j: int| 0 <= j < a.len() && a[j] == b.last();
        assert(a.last() == b.last());
        let less = a.drop_last();
        assert(is_code_set(less, less));
        assert forall|code: i32| #[trigger] b.drop_last().contains(code) <==> less.contains(code) by {
            if b.drop_last().contains(code) {
                let k = choose|k: int| 0 <= k < b.len() - 1 && b[k] == code;
                assert(b.contains(code));
                assert(a.contains(code));
                let m = choose|m: int| 0 <= m < a.len() && a[m] == code;
                assert(b[k] < b[b.len() - 1]);
                assert(less[m] == code);
            }
            if less.contains(code) {
                let k = choose|k: int| 0 <= k < a.len() - 1 && a[k] == code;
                assert(a.contains(code));
                assert(b.contains(code));
                let m = choose|m: int| 0 <= m < b.len() && b[m] == code;
                assert(a[k] < a[a.len() - 1]);
                assert(b.drop_last()[m] == code);
            }
        }
        lemma_code_sets_are_unique(less, b.drop_last(), less);
        assert(a =~= less.push(a.last()));
        assert(b =~= b.drop_last().push(b.last()));
    }
}

/// Puts a code into its place unless it is there.
fn insert_code(codes: &mut Vec<i32>, code: i32)
    requires
        is_code_set(old(codes)@, old(codes)@),
    ensures
        is_code_set(final(codes)@, old(codes)@.push(code)),
{
    let mut at: usize = 0;
    while at < codes.len() && codes[at] < code
        invariant
            at <= codes@.len(),
            codes@ == old(codes)@,
            forall|k: int| 0 <= k < at ==> codes@[k] < code,
        decreases codes@.len() - at,
    {
        at = at + 1;
    }
    let ghost before = codes@;
    let ghost requested = before.push(code);
    if at < codes.len() && codes[at] == code {
        assert forall|other: i32| #[trigger] codes@.contains(other) <==> requested.contains(
            other,
        ) by {
            if codes@.contains(other) {
                let k = choose|k: int| 0 <= k < codes@.len() && codes@[k] == other;
                assert(requested[k] == other);
            }
            if requested.contains(other) {
                let k = choose|k: int| 0 <= k < requested.len() && requested[k] == other;
                if k < before.len() {
                    assert(codes@[k] == other);
                } else {
                    assert(codes@[at as int] == other);
                }
            }
        }
    } else {
        codes.insert(at, code);
        assert forall|other: i32| #[trigger] codes@.contains(other) <==> requested.contains(
            other,
        ) by {
            if codes@.contains(other) {
                let k = choose|k: int| 0 <= k < codes@.len() && codes@[k] == other;
                if k < at {
                    assert(requested[k] == other);
                } else if k == at {
                    assert(requested[before.len() as int] == other);
                } else {
                    assert(requested[k - 1] == other);
                }
            }
            if requested.contains(other) {
                let k = choose|k: int| 0 <= k < requested.len() && requested[k] == other;
                if k == before.len() {
                    assert(codes@[at as int] == other);
                } else if k < at {
                    assert(codes@[k] == other);
                } else {
                    assert(codes@[k + 1] == other);
                }
            }
        }
    }
}

/// The requested codes, sorted and without repetition.
fn sorted_codes(requested: &Vec<i32>) -> (codes: Vec<i32>)
    ensures
        is_code_set(codes@, requested@),
{
    let mut codes: Vec<i32> = Vec::new();
    let mut i: usize = 0;
    assert(requested@.take(0) =~= Seq::<i32>::empty());
    while i < requested.len()
        invariant
            i <= requested@.len(),
            is_code_set(codes@, requested@.take(i as int)),
        decreases requested@.len() - i,
    {
        let ghost before = codes@;
        insert_code(&mut codes, requested[i]);
        let ghost seen = requested@.take(i as int);
        let ghost next = requested@.take(i + 1);
        assert forall|code: i32| #[trigger] codes@.contains(code) <==> next.contains(code) by {
            let pushed = before.push(requested@[i as int]);
            assert(next =~= seen.push(requested@[i as int]));
            if pushed.contains(code) {
                let k = choose|k: int| 0 <= k < pushed.len() && pushed[k] == code;
                if k < before.len() {
                    assert(before.contains(code));
                    assert(seen.contains(code));
                    let m = choose|m: int| 0 <= m < seen.len() && seen[m] == code;
                    assert(next[m] == code);
                } else {
                    assert(next[i as int] == code);
                }
            }
            if next.contains(code) {
                let k = choose|k: int| 0 <= k < next.len() && next[k] == code;
                if k < i {
                    assert(seen[k] == code);
                    assert(before.contains(code));
                    let m = choose|m: int| 0 <= m < before.len() && before[m] == code;
                    assert(pushed[m] == code);
                } else {
                    assert(pushed[before.len() as int] == code);
                }
            }
        }
        i = i + 1;
    }
    assert(requested@.take(i as int) =~= requested@);
    codes
}

/// Two owner filters are the same.
pub open spec fn same_owner(a: Option<String>, b: Option<String>) -> bool {
    match (a, b) {
        (Some(x), Some(y)) => x@ == y@,
        (None, None) => true,
        _ => false,
    }
}

fn owners_equal(a: &Option<String>, b: &Option<String>) -> (equal: bool)
    ensures
        equal == same_owner(*a, *b),
{
    match (a, b) {
        (Some(x), Some(y)) => *x == *y,
        (None, None) => true,
        _ => false,
    }
}

fn codes_equal(a: &Vec<i32>, b: &Vec<i32>) -> (equal: bool)
    ensures
        equal == (a@ == b@),
{
    if a.len() != b.len() {
        return false;
    }
    let mut i: usize = 0;
    while i < a.len()
        invariant
            a@.len() == b@.len(),
            i <= a@.len(),
            forall|k: int| 0 <= k < i ==> a@[k] == b@[k],
        decreases a@.len() - i,
    {
        if a[i] != b[i] {
            return false;
        }
        i = i + 1;
    }
    assert(a@ =~= b@);
    true
}

/// The token was issued by this version of the service for this very filter.
pub open spec fn token_matches(
    token: TimelineStatusPageToken,
    requested: Seq<i32>,
    owner: Option<String>,
) -> bool {
    &&& token.version == 1
    &&& is_code_set(token.states@, requested)
    &&& same_owner(token.owner_worker_endpoint, owner)
    &&& token.last_timeline_key@.len() > 0
}

/// Why a status list request is refused. `token` is what its page token decodes to.
pub open spec fn list_request_fault(
    request: ListTimelineStatusesRequest,
    token: Option<TimelineStatusPageToken>,
) -> Option<Seq<char>> {
    if exists|i: int| 0 <= i < request.states@.len() && state_of(#[trigger] request.states@[i]) is None {
        Some("states must not contain TIMELINE_STATE_UNSPECIFIED"@)
    } else if request.owner_worker_endpoint matches Some(owner) && owner@.len() == 0 {
        Some("owner_worker_endpoint must not be empty when present"@)
    } else if request.page_token@.len() == 0 {
        None
    } else {
        match token {
            None => Some("page_token is malformed or not issued by this server"@),
            Some(found) => if token_matches(
                found,
                request.states@,
                request.owner_worker_endpoint,
            ) {
                None
            } else {
                Some("page_token is stale or does not match the current filter shape"@)
            },
        }
    }
}

/// How many statuses a page holds at most.
pub open spec fn page_size_of(requested: u32) -> nat {
    if requested == 0 {
        DEFAULT_TIMELINE_STATUS_PAGE_SIZE as nat
    } else if requested <= MAX_TIMELINE_STATUS_PAGE_SIZE {
        requested as nat
    } else {
        MAX_TIMELINE_STATUS_PAGE_SIZE as nat
    }
}

/// The states of the filter codes, in the same order.
pub open spec fn are_states_of(states: Seq<TimelineLifecycleState>, codes: Seq<i32>) -> bool {
    states.len() == codes.len() && forall|i: int|
        0 <= i < codes.len() ==> state_of(codes[i]) == Some(#[trigger] states[i])
}

/// What an accepted request comes down to.
pub open spec fn is_settled(
    settled: NormalizedTimelineStatusListRequest,
    request: ListTimelineStatusesRequest,
    token: Option<TimelineStatusPageToken>,
) -> bool {
    &&& is_code_set(settled.state_codes@, request.states@)
    &&& are_states_of(settled.states@, settled.state_codes@)
    &&& settled.owner_worker_endpoint == request.owner_worker_endpoint
    &&& settled.page_size == page_size_of(request.page_size)
    &&& match settled.start_after_timeline_key {
        Some(key) => request.page_token@.len() > 0 && token is Some && key@
            == token->Some_0.last_timeline_key@,
        None => request.page_token@.len() == 0,
    }
}

/// Settles the filter, the page size and the start of a status list request. `token` is what its
/// page token decodes to, and is looked at only where the page token is not empty.
pub fn normalize_timeline_status_list_request(
    request: ListTimelineStatusesRequest,
    token: Option<TimelineStatusPageToken>,
) -> (normalized: Result<NormalizedTimelineStatusListRequest, Status>)
    ensures
        match normalized {
            Ok(settled) => list_request_fault(request, token) is None && is_settled(
                settled,
                request,
                token,
            ),
            Err(status) => list_request_fault(request, token) matches Some(message)
                && is_plain_refusal(status, message),
        },
{
    let state_codes = sorted_codes(&request.states);
    let mut states: Vec<TimelineLifecycleState> = Vec::new();
    let mut i: usize = 0;
    while i < state_codes.len()
        invariant
            i <= state_codes@.len(),
            is_code_set(state_codes@, request.states@),
            states@.len() == i,
            forall|k: int|
                0 <= k < i ==> state_of(state_codes@[k]) == Some(#[trigger] states@[k]),
        decreases state_codes@.len() - i,
    {
        match decode_timeline_state_filter(state_codes[i]) {
            Ok(state) => states.push(state),
            Err(status) => {
                proof {
                    let code = state_codes@[i as int];
                    assert(state_codes@.contains(code));
                    assert(request.states@.contains(code));
                    let k = choose|k: int|
                        0 <= k < request.states@.len() && request.states@[k] == code;
                    assert(state_of(request.states@[k]) is None);
                }
                return Err(status);
            },
        }
        i = i + 1;
    }
    proof {
        assert forall|k: int| 0 <= k < request.states@.len() implies state_of(
            #[trigger] request.states@[k],
        ) is Some by {
            let code = request.states@[k];
            assert(request.states@.contains(code));
            assert(state_codes@.contains(code));
            let m = choose|m: int| 0 <= m < state_codes@.len() && state_codes@[m] == code;
            assert(state_of(state_codes@[m]) == Some(states@[m]));
        }
    }
    if let Some(owner) = &request.owner_worker_endpoint {
        let length: usize = owner.as_str().unicode_len();
        if length == 0 {
            return Err(refusal("owner_worker_endpoint must not be empty when present"));
        }
    }
    let page_size: usize = if request.page_size == 0 {
        DEFAULT_TIMELINE_STATUS_PAGE_SIZE
    } else if request.page_size <= 1000 {
        request.page_size as usize
    } else {
        MAX_TIMELINE_STATUS_PAGE_SIZE
    };
    let token_length: usize = request.page_token.as_str().unicode_len();
    let start_after_timeline_key = if token_length == 0 {
        None
    } else {
        match token {
            None => {
                return Err(refusal("page_token is malformed or not issued by this server"));
            },
            Some(found) => {
                let key_length: usize = found.last_timeline_key.as_str().unicode_len();
                let same_states = codes_equal(&found.states, &state_codes);
                proof {
                    if is_code_set(found.states@, request.states@) {
                        lemma_code_sets_are_unique(
                            found.states@,
                            state_codes@,
                            request.states@,
                        );
                    }
                }
                if found.version != 1 || !same_states || !owners_equal(
                    &found.owner_worker_endpoint,
                    &request.owner_worker_endpoint,
                ) || key_length == 0 {
                    return Err(
                        refusal("page_token is stale or does not match the current filter shape"),
                    );
                }
                Some(found.last_timeline_key)
            },
        }
    };
    Ok(
        NormalizedTimelineStatusListRequest {
            states,
            state_codes,
            owner_worker_endpoint: request.owner_worker_endpoint,
            page_size,
            start_after_timeline_key,
        },
    )
}

/// The token for a page of a filter that ended at a key.
pub open spec fn token_for(
    state_codes: Vec<i32>,
    owner_worker_endpoint: Option<String>,
    last_timeline_key: String,
) -> TimelineStatusPageToken {
    TimelineStatusPageToken {
        version: 1,
        states: state_codes,
        owner_worker_endpoint,
        last_timeline_key,
    }
}

/// The token that goes out with a page is one of the first version, and names the filter and the
/// key at which the page ended. A request that brings it back is accepted for just that filter.
pub proof fn tokens_name_their_filter_and_key(
    state_codes: Vec<i32>,
    owner_worker_endpoint: Option<String>,
    last_timeline_key: String,
    requested: Seq<i32>,
    owner: Option<String>,
)
    ensures
        ({
            let token = token_for(state_codes, owner_worker_endpoint, last_timeline_key);
            &&& token.version == 1
            &&& token.states@ == state_codes@
            &&& token.owner_worker_endpoint == owner_worker_endpoint
            &&& token.last_timeline_key@ == last_timeline_key@
            &&& token_matches(token, requested, owner) <==> is_code_set(state_codes@, requested)
                && same_owner(owner_worker_endpoint, owner) && last_timeline_key@.len() > 0
        }),
{
}

/// The token to hand out with a page that ended at a key.
pub fn timeline_status_page_token(
    state_codes: Vec<i32>,
    owner_worker_endpoint: Option<String>,
    last_timeline_key: String,
) -> (token: TimelineStatusPageToken)
    ensures
        token == token_for(state_codes, owner_worker_endpoint, last_timeline_key),
        token == (TimelineStatusPageToken {
            version: 1,
            states: state_codes,
            owner_worker_endpoint,
            last_timeline_key,
        }),
{
    TimelineStatusPageToken {
        version: 1,
        states: state_codes,
        owner_worker_endpoint,
        last_timeline_key,
    }
}

/// A token that was handed out for a request is accepted with the same filter, in whatever order
/// the filter names its states.
pub proof fn issued_tokens_are_accepted(
    first: ListTimelineStatusesRequest,
    settled: NormalizedTimelineStatusListRequest,
    first_token: Option<TimelineStatusPageToken>,
    last_timeline_key: String,
    next: ListTimelineStatusesRequest,
)
    requires
        list_request_fault(first, first_token) is None,
        is_settled(settled, first, first_token),
        last_timeline_key@.len() > 0,
        next.page_token@.len() > 0,
        same_owner(next.owner_worker_endpoint, first.owner_worker_endpoint),
        forall|code: i32|
            #[trigger] next.states@.contains(code) <==> first.states@.contains(code),
    ensures
        list_request_fault(
            next,
            Some(
                TimelineStatusPageToken {
                    version: 1,
                    states: settled.state_codes,
                    owner_worker_endpoint: settled.owner_worker_endpoint,
                    last_timeline_key,
                },
            ),
        ) is None,
{
    let token = TimelineStatusPageToken {
        version: 1,
        states: settled.state_codes,
        owner_worker_endpoint: settled.owner_worker_endpoint,
        last_timeline_key,
    };
    assert forall|i: int| 0 <= i < next.states@.len() implies state_of(
        #[trigger] next.states@[i],
    ) is Some by {
        let code = next.states@[i];
        assert(next.states@.contains(code));
        assert(first.states@.contains(code));
        let k = choose|k: int| 0 <= k < first.states@.len() && first.states@[k] == code;
        assert(state_of(first.states@[k]) is Some);
    }
    assert(is_code_set(settled.state_codes@, next.states@)) by {
        assert forall|code: i32| #[trigger] settled.state_codes@.contains(code) <==>
            next.states@.contains(code) by {
            assert(settled.state_codes@.contains(code) <==> first.states@.contains(code));
        }
    }
    assert(token_matches(token, next.states@, next.owner_worker_endpoint));
}

/// A token that was handed out for one filter is refused with another one.
pub proof fn tokens_of_other_filters_are_refused(
    request: ListTimelineStatusesRequest,
    token: TimelineStatusPageToken,
)
    requires
        request.page_token@.len() > 0,
        !is_code_set(token.states@, request.states@) || !same_owner(
            token.owner_worker_endpoint,
            request.owner_worker_endpoint,
        ),
    ensures
        list_request_fault(request, Some(token)) is Some,
{
}

} // verus!
