//! Choosing generators for timelines, and the floors that timestamps must stay above.

use std::collections::hash_map::DefaultHasher;
use std::hash::{Hash, Hasher};

use vstd::prelude::*;
use vstd::std_specs::hash::*;

use crate::error::TsoError;
use crate::metadata::types::{GeneratorRecord, TimelineRecord};
use crate::model::{ResourceTier, TransferReason};
use crate::tso::MAX_GENERATORS;

verus! {

/// Where a timeline is to go.
#[derive(Debug)]
pub struct TransferPlan {
    pub resource_tier: ResourceTier,
    pub owner_endpoint: String,
    pub generator_id: Option<u32>,
    pub reason: TransferReason,
}

/// The tier of a generator: the shared ones come first, then the warm ones.
pub open spec fn tier_of(generator_id: u32, shared: u32, warm: u32) -> ResourceTier {
    if generator_id < shared {
        ResourceTier::Shared
    } else if generator_id < shared + warm {
        ResourceTier::Warm
    } else {
        ResourceTier::Dedicated
    }
}

/// What asking for the tier of a generator comes to.
pub open spec fn tells_tier(
    generator_id: u32,
    shared: u32,
    warm: u32,
    result: Result<ResourceTier, TsoError>,
) -> bool {
    result == if generator_id >= MAX_GENERATORS {
        Err::<ResourceTier, TsoError>(TsoError::GeneratorIdOutOfRange { generator_id })
    } else {
        Ok::<ResourceTier, TsoError>(tier_of(generator_id, shared, warm))
    }
}

/// The 1024 generators have a tier, and no others: the shared ones first, then the warm ones, then
/// the dedicated ones.
pub proof fn generators_have_their_tiers(
    generator_id: u32,
    shared: u32,
    warm: u32,
    result: Result<ResourceTier, TsoError>,
)
    requires
        tells_tier(generator_id, shared, warm, result),
    ensures
        generator_id >= 1024 <==> result == Err::<ResourceTier, TsoError>(
            TsoError::GeneratorIdOutOfRange { generator_id },
        ),
        generator_id < 1024 && generator_id < shared <==> result == Ok::<ResourceTier, TsoError>(
            ResourceTier::Shared,
        ),
        generator_id < 1024 && shared <= generator_id < shared + warm <==> result == Ok::<
            ResourceTier,
            TsoError,
        >(ResourceTier::Warm),
        generator_id < 1024 && shared + warm <= generator_id <==> result == Ok::<
            ResourceTier,
            TsoError,
        >(ResourceTier::Dedicated),
{
}

pub fn resource_tier_for_generator_id(
    generator_id: u32,
    shared_generators: u32,
    warm_generators: u32,
) -> (result: Result<ResourceTier, TsoError>)
    requires
        generator_id < MAX_GENERATORS ==> shared_generators + warm_generators <= u32::MAX,
    ensures
        tells_tier(generator_id, shared_generators, warm_generators, result),
        result == if generator_id >= MAX_GENERATORS {
            Err::<ResourceTier, TsoError>(TsoError::GeneratorIdOutOfRange { generator_id })
        } else {
            Ok::<ResourceTier, TsoError>(tier_of(generator_id, shared_generators, warm_generators))
        },
{
    if generator_id >= MAX_GENERATORS {
        return Err(TsoError::GeneratorIdOutOfRange { generator_id });
    }
    let dedicated_start: u32 = shared_generators + warm_generators;
    if generator_id < shared_generators {
        Ok(ResourceTier::Shared)
    } else if generator_id < dedicated_start {
        Ok(ResourceTier::Warm)
    } else {
        Ok(ResourceTier::Dedicated)
    }
}

/// What a hasher was fed once a text is hashed into it.
pub uninterp spec fn fed_with_text(fed: Seq<Seq<u8>>, text: Seq<char>) -> Seq<Seq<u8>>;

/// Hashes a text with `<str as Hash>::hash`. What the hasher was fed afterwards depends on what it
/// was fed before and on the text alone.
#[verifier::external_body]
fn feed_text(hasher: &mut DefaultHasher, text: &str)
    ensures
        final(hasher)@ == fed_with_text(old(hasher)@, text@),
{
    text.hash(hasher);
}

/// The hash of a timeline.
pub open spec fn timeline_hash(timeline_key: Seq<char>) -> u64 {
    DefaultHasher::spec_finish(fed_with_text(Seq::empty(), timeline_key))
}

fn hash_timeline(timeline_key: &str) -> (hash: u64)
    ensures
        hash == timeline_hash(timeline_key@),
{
    let mut hasher = DefaultHasher::new();
    feed_text(&mut hasher, timeline_key);
    hasher.finish()
}

/// Where a range of generators ends.
pub open spec fn range_end(start: u32, width: u32) -> int {
    if start + width > u32::MAX {
        u32::MAX as int
    } else {
        start + width
    }
}

/// The answers to the question which generators of a range are owned.
pub open spec fn answered<F: Fn(u32) -> bool>(
    owns_generator_id: F,
    start: u32,
    answers: Seq<bool>,
) -> bool {
    forall|i: int|
        0 <= i < answers.len() ==> owns_generator_id.ensures(
            ((start + i) as u32,),
            #[trigger] answers[i],
        )
}

/// The generators that are owned, in order.
pub open spec fn owned_ids(start: u32, answers: Seq<bool>) -> Seq<u32>
    decreases answers.len(),
{
    if answers.len() == 0 {
        Seq::empty()
    } else if answers.last() {
        owned_ids(start, answers.drop_last()).push((start + answers.len() - 1) as u32)
    } else {
        owned_ids(start, answers.drop_last())
    }
}

/// The owned generator that a hash falls on.
pub open spec fn pick(hash: u64, owned: Seq<u32>) -> Result<u32, TsoError> {
    if owned.len() == 0 {
        Err(TsoError::GeneratorPoolExhausted)
    } else {
        Ok(owned[(hash as usize) as int % owned.len() as int])
    }
}

/// A generator was picked after every generator of the range was asked about.
pub open spec fn picks<F: Fn(u32) -> bool>(
    hash: u64,
    start: u32,
    width: u32,
    owns_generator_id: F,
    answers: Seq<bool>,
    result: Result<u32, TsoError>,
) -> bool {
    &&& answers.len() == range_end(start, width) - start
    &&& answered(owns_generator_id, start, answers)
    &&& result == pick(hash, owned_ids(start, answers))
}

/// Picks one of the owned generators of a range by a hash.
pub fn pick_owned_generator<F: Fn(u32) -> bool>(
    hash: u64,
    start: u32,
    width: u32,
    owns_generator_id: F,
) -> (result: Result<u32, TsoError>)
    requires
        forall|id: u32|
            start <= id < range_end(start, width) ==> #[trigger] owns_generator_id.requires((id,)),
    ensures
        exists|answers: Seq<bool>|
            #[trigger] picks(hash, start, width, owns_generator_id, answers, result),
{
    let end: u32 = start.saturating_add(width);
    let mut owned: Vec<u32> = Vec::new();
    let ghost mut answers: Seq<bool> = Seq::empty();
    let mut generator_id: u32 = start;
    assert(owned@ =~= owned_ids(start, answers));
    while generator_id < end
        invariant
            start <= generator_id <= end,
            end == range_end(start, width),
            forall|id: u32|
                start <= id < range_end(start, width) ==> #[trigger] owns_generator_id.requires(
                    (id,),
                ),
            answers.len() == generator_id - start,
            answered(owns_generator_id, start, answers),
            owned@ == owned_ids(start, answers),
        decreases end - generator_id,
    {
        let owns = owns_generator_id(generator_id);
        if owns {
            owned.push(generator_id);
        }
        proof {
            let before = answers;
            answers = answers.push(owns);
            assert(answers.drop_last() =~= before);
            assert forall|i: int| 0 <= i < answers.len() implies owns_generator_id.ensures(
                ((start + i) as u32,),
                #[trigger] answers[i],
            ) by {
                if i < before.len() {
                    assert(answers[i] == before[i]);
                }
            }
        }
        generator_id = generator_id + 1;
    }
    let result = if owned.len() == 0 {
        Err(TsoError::GeneratorPoolExhausted)
    } else {
        let offset: usize = (#[verifier::truncate] (hash as usize)) % owned.len();
        Ok(owned[offset])
    };
    assert(picks(hash, start, width, owns_generator_id, answers, result));
    result
}

/// Picks one of the owned generators of a range by the hash of a timeline.
pub fn pick_owned_generator_by_hash<F: Fn(u32) -> bool>(
    timeline_key: &str,
    start: u32,
    width: u32,
    owns_generator_id: F,
) -> (result: Result<u32, TsoError>)
    requires
        forall|id: u32|
            start <= id < range_end(start, width) ==> #[trigger] owns_generator_id.requires((id,)),
    ensures
        exists|answers: Seq<bool>|
            #[trigger] picks(
                timeline_hash(timeline_key@),
                start,
                width,
                owns_generator_id,
                answers,
                result,
            ),
{
    pick_owned_generator(hash_timeline(timeline_key), start, width, owns_generator_id)
}

proof fn lemma_owned_ids(start: u32, answers: Seq<bool>)
    requires
        start + answers.len() <= u32::MAX,
    ensures
        forall|k: int|
            0 <= k < owned_ids(start, answers).len() ==> {
                let id = #[trigger] owned_ids(start, answers)[k];
                start <= id < start + answers.len() && answers[id - start]
            },
        forall|i: int|
            0 <= i < answers.len() && #[trigger] answers[i] ==> owned_ids(start, answers).len() > 0,
    decreases answers.len(),
{
    if answers.len() > 0 {
        let before = answers.drop_last();
        lemma_owned_ids(start, before);
        let earlier = owned_ids(start, before);
        let all = owned_ids(start, answers);
        assert forall|k: int| 0 <= k < all.len() implies {
            let id = #[trigger] all[k];
            start <= id < start + answers.len() && answers[id - start]
        } by {
            if k < earlier.len() {
                assert(all[k] == earlier[k]);
                assert(before[earlier[k] - start]);
            }
        }
        assert forall|i: int| 0 <= i < answers.len() && #[trigger] answers[i] implies all.len()
            > 0 by {
            if i < before.len() {
                assert(before[i]);
            }
        }
    }
}

/// A generator that is picked lies in the range and is owned, and none is picked only where none
/// is owned.
pub proof fn picked_generators_are_owned<F: Fn(u32) -> bool>(
    hash: u64,
    start: u32,
    width: u32,
    owns_generator_id: F,
    answers: Seq<bool>,
    result: Result<u32, TsoError>,
)
    requires
        picks(hash, start, width, owns_generator_id, answers, result),
    ensures
        match result {
            Ok(id) => start <= id < range_end(start, width) && owns_generator_id.ensures(
                (id,),
                true,
            ),
            Err(error) => error == TsoError::GeneratorPoolExhausted && forall|i: int|
                0 <= i < answers.len() ==> !#[trigger] answers[i],
        },
{
    lemma_owned_ids(start, answers);
    let owned = owned_ids(start, answers);
    if owned.len() > 0 {
        let at = (hash as usize) as int % owned.len() as int;
        assert(0 <= at < owned.len()) by (nonlinear_arith)
            requires
                owned.len() > 0,
                at == (hash as usize) as int % owned.len() as int,
        ;
        let id = owned[at];
        assert(answers[id - start]);
        assert((start + (id - start)) as u32 == id);
    }
}

/// The owned generators of a range are those whose answer was yes, each once and in ascending order.
pub proof fn owned_generators_are_listed_in_order(start: u32, answers: Seq<bool>, i: int)
    requires
        start + answers.len() <= u32::MAX,
        0 <= i < answers.len(),
    ensures
        answers[i] <==> owned_ids(start, answers).contains((start + i) as u32),
        forall|k: int, l: int|
            0 <= k < l < owned_ids(start, answers).len() ==> owned_ids(start, answers)[k]
                < owned_ids(start, answers)[l],
        forall|k: int|
            0 <= k < owned_ids(start, answers).len() ==> start <= #[trigger] owned_ids(
                start,
                answers,
            )[k] < start + answers.len(),
    decreases answers.len(),
{
    let shorter = answers.drop_last();
    let ids = owned_ids(start, answers);
    let before = owned_ids(start, shorter);
    let last = answers.len() - 1;
    if shorter.len() > 0 {
        owned_generators_are_listed_in_order(
            start,
            shorter,
            if i < last {
                i
            } else {
                0
            },
        );
    }
    assert forall|k: int| 0 <= k < before.len() implies #[trigger] before[k] < start + last by {}
    if i < last {
        assert(answers[i] == shorter[i]);
        if before.contains((start + i) as u32) {
            let k = choose|k: int| 0 <= k < before.len() && before[k] == (start + i) as u32;
            assert(ids[k] == (start + i) as u32);
        }
        if ids.contains((start + i) as u32) {
            let k = choose|k: int| 0 <= k < ids.len() && ids[k] == (start + i) as u32;
            assert(k < before.len());
            assert(before[k] == (start + i) as u32);
        }
    } else if answers[i] {
        assert(ids[before.len() as int] == (start + i) as u32);
    } else {
        assert(ids == before);
    }
}

/// A hash picks the generator whose place among the owned ones is the remainder of the hash by
/// their number: hashes that leave the same remainder pick the same generator, and others another
/// one.
pub proof fn hashes_spread_over_the_owned_generators(hash: u64, other: u64, owned: Seq<u32>)
    requires
        owned.len() > 0,
        owned.no_duplicates(),
    ensures
        pick(hash, owned) is Ok,
        pick(hash, owned) == pick(other, owned) <==> (hash as usize) as int % owned.len() as int == (
        other as usize) as int % owned.len() as int,
        (hash as usize) < owned.len() ==> pick(hash, owned) == Ok::<u32, TsoError>(
            owned[(hash as usize) as int],
        ),
        pick(hash, Seq::empty()) == Err::<u32, TsoError>(TsoError::GeneratorPoolExhausted),
{
    let length = owned.len() as int;
    assert(0 <= (hash as usize) as int % length < length);
    assert(0 <= (other as usize) as int % length < length);
    if (hash as usize) < owned.len() {
        vstd::arithmetic::div_mod::lemma_small_mod((hash as usize) as nat, owned.len());
    }
}

/// A dedicated generator that was claimed is given back.
pub open spec fn gives_claim_back(
    claimed: bool,
    previous_resource_tier: ResourceTier,
    previous_generator_id: u32,
    claimed_generator_id: u32,
) -> bool {
    claimed && !(previous_resource_tier == ResourceTier::Dedicated && previous_generator_id
        == claimed_generator_id)
}

/// The dedicated generator that a timeline was on is given back.
pub open spec fn gives_previous_back(
    previous_resource_tier: ResourceTier,
    previous_generator_id: u32,
    target_resource_tier: ResourceTier,
    new_generator_id: u32,
) -> bool {
    previous_resource_tier == ResourceTier::Dedicated && !(target_resource_tier
        == ResourceTier::Dedicated && previous_generator_id == new_generator_id)
}

/// No generator is given back that the timeline stays on as a dedicated one, or that was not
/// dedicated to it; every other one is. Of a claim that is withdrawn only what was not the
/// timeline's own before goes back.
pub proof fn generators_that_are_left_go_back(
    claimed: bool,
    previous: ResourceTier,
    previous_id: u32,
    target: ResourceTier,
    target_id: u32,
)
    ensures
        gives_previous_back(previous, previous_id, target, target_id) ==> previous
            == ResourceTier::Dedicated,
        previous_id != target_id ==> (gives_previous_back(previous, previous_id, target, target_id)
            <==> previous == ResourceTier::Dedicated),
        !gives_previous_back(previous, previous_id, ResourceTier::Dedicated, previous_id),
        target != ResourceTier::Dedicated ==> (gives_previous_back(
            previous,
            previous_id,
            target,
            target_id,
        ) <==> previous == ResourceTier::Dedicated),
        !gives_claim_back(false, previous, previous_id, target_id),
        !gives_claim_back(claimed, ResourceTier::Dedicated, previous_id, previous_id),
        previous != ResourceTier::Dedicated || previous_id != target_id ==> gives_claim_back(
            true,
            previous,
            previous_id,
            target_id,
        ),
{
}

/// Whether a dedicated generator that was claimed for a transfer is to be given back: unless the
/// timeline was on it before.
pub fn should_release_claimed_dedicated_generator(
    claimed: bool,
    previous_resource_tier: ResourceTier,
    previous_generator_id: u32,
    claimed_generator_id: u32,
) -> (answer: bool)
    ensures
        answer == gives_claim_back(
            claimed,
            previous_resource_tier,
            previous_generator_id,
            claimed_generator_id,
        ),
        answer == (claimed && !(previous_resource_tier == ResourceTier::Dedicated
            && previous_generator_id == claimed_generator_id)),
{
    claimed && (previous_resource_tier != ResourceTier::Dedicated || previous_generator_id
        != claimed_generator_id)
}

/// Whether the dedicated generator that a timeline was on is to be given back: unless the timeline
/// stays on it.
pub fn should_release_previous_dedicated_generator_after_route_change(
    previous_resource_tier: ResourceTier,
    previous_generator_id: u32,
    target_resource_tier: ResourceTier,
    new_generator_id: u32,
) -> (answer: bool)
    ensures
        answer == gives_previous_back(
            previous_resource_tier,
            previous_generator_id,
            target_resource_tier,
            new_generator_id,
        ),
        answer == (previous_resource_tier == ResourceTier::Dedicated && !(target_resource_tier
            == ResourceTier::Dedicated && previous_generator_id == new_generator_id)),
{
    previous_resource_tier == ResourceTier::Dedicated && (target_resource_tier
        != ResourceTier::Dedicated || previous_generator_id != new_generator_id)
}

/// The higher of two floors, as far as there are any.
pub open spec fn higher_floor(a: Option<u64>, b: Option<u64>) -> Option<u64> {
    match (a, b) {
        (Some(x), Some(y)) => Some(
            if x > y {
                x
            } else {
                y
            },
        ),
        (Some(x), None) => Some(x),
        (None, y) => y,
    }
}

fn max_floor(a: Option<u64>, b: Option<u64>) -> (floor: Option<u64>)
    ensures
        floor == higher_floor(a, b),
        floor == a || floor == b,
        a matches Some(x) ==> floor matches Some(f) && f >= x,
        b matches Some(y) ==> floor matches Some(f) && f >= y,
{
    match (a, b) {
        (Some(x), Some(y)) => Some(
            if x > y {
                x
            } else {
                y
            },
        ),
        (Some(x), None) => Some(x),
        (None, y) => y,
    }
}

/// The floor of a timeline after a transfer. A failover does not go by what the previous owner
/// says it issued.
pub open spec fn transfer_floor(
    reason: TransferReason,
    last_graceful_issued: Option<u64>,
    previous_generator_floor: Option<u64>,
) -> Option<u64> {
    if reason == TransferReason::Failover {
        previous_generator_floor
    } else {
        higher_floor(last_graceful_issued, previous_generator_floor)
    }
}

pub fn safe_floor_for_transfer_reason(
    transfer_reason: TransferReason,
    last_graceful_issued: Option<u64>,
    previous_generator_floor_tso: Option<u64>,
) -> (floor: Option<u64>)
    ensures
        floor == transfer_floor(
            transfer_reason,
            last_graceful_issued,
            previous_generator_floor_tso,
        ),
        floor == previous_generator_floor_tso || floor == last_graceful_issued,
        previous_generator_floor_tso matches Some(t) ==> floor matches Some(f) && f >= t,
        transfer_reason == TransferReason::Failover ==> floor == previous_generator_floor_tso,
        transfer_reason != TransferReason::Failover ==> (last_graceful_issued matches Some(t)
            ==> floor matches Some(f) && f >= t),
{
    match transfer_reason {
        TransferReason::Failover => previous_generator_floor_tso,
        _ => max_floor(last_graceful_issued, previous_generator_floor_tso),
    }
}

/// The floor that a generator left behind.
pub fn generator_recovery_floor_tso(generator_record: &GeneratorRecord) -> (floor: Option<u64>)
    ensures
        floor == higher_floor(
            generator_record.last_issued_tso,
            generator_record.issued_upper_bound,
        ),
        floor == generator_record.last_issued_tso || floor == generator_record.issued_upper_bound,
        generator_record.last_issued_tso matches Some(t) ==> floor matches Some(f) && f >= t,
        generator_record.issued_upper_bound matches Some(t) ==> floor matches Some(f) && f >= t,
{
    max_floor(generator_record.last_issued_tso, generator_record.issued_upper_bound)
}

/// The floor that a timeline left behind.
pub fn recovered_timeline_floor_tso(timeline_record: &TimelineRecord) -> (floor: Option<u64>)
    ensures
        floor == higher_floor(
            timeline_record.last_graceful_issued,
            timeline_record.recovery_floor_tso,
        ),
        floor == timeline_record.last_graceful_issued || floor == timeline_record.recovery_floor_tso,
        timeline_record.last_graceful_issued matches Some(t) ==> floor matches Some(f) && f >= t,
        timeline_record.recovery_floor_tso matches Some(t) ==> floor matches Some(f) && f >= t,
{
    max_floor(timeline_record.last_graceful_issued, timeline_record.recovery_floor_tso)
}

/// The floor is at or above a timestamp.
pub open spec fn covers(floor: Option<u64>, tso: u64) -> bool {
    floor matches Some(value) && value >= tso
}

/// What is recovered from two floors covers both of them and is one of them, whichever comes first.
pub proof fn recovered_floors_cover_what_was_left(a: Option<u64>, b: Option<u64>)
    ensures
        higher_floor(a, b) == a || higher_floor(a, b) == b,
        a matches Some(t) ==> higher_floor(a, b) matches Some(f) && f >= t,
        b matches Some(t) ==> higher_floor(a, b) matches Some(f) && f >= t,
        higher_floor(a, b) == higher_floor(b, a),
{
}

/// The floor after a transfer is one of the two that are known. A failover goes by the generator
/// alone: what the previous owner says it issued makes no difference to it.
pub proof fn transfer_floors_are_known_floors(
    reason: TransferReason,
    issued: Option<u64>,
    other_issued: Option<u64>,
    generator_floor: Option<u64>,
)
    ensures
        transfer_floor(reason, issued, generator_floor) == issued || transfer_floor(
            reason,
            issued,
            generator_floor,
        ) == generator_floor,
        reason == TransferReason::Failover ==> transfer_floor(reason, issued, generator_floor)
            == transfer_floor(reason, other_issued, generator_floor) && transfer_floor(
            reason,
            issued,
            generator_floor,
        ) == generator_floor,
{
}

/// The generators below the first bound are shared, those from there up to the second are warm, and
/// all others dedicated: the tiers follow each other and leave none out.
pub proof fn tiers_divide_the_generators(generator_id: u32, shared: u32, warm: u32)
    ensures
        tier_of(generator_id, shared, warm) == ResourceTier::Shared <==> generator_id < shared,
        tier_of(generator_id, shared, warm) == ResourceTier::Dedicated <==> generator_id >= shared
            + warm,
        tier_of(generator_id, shared, warm) == ResourceTier::Warm <==> shared <= generator_id
            < shared + warm,
{
}

/// A transfer never lowers the floor below what the previous generator left behind, and without a
/// failover not below what was issued either.
pub proof fn transfers_keep_the_floor(
    reason: TransferReason,
    last_graceful_issued: Option<u64>,
    previous_generator_floor: Option<u64>,
)
    ensures
        previous_generator_floor matches Some(tso) ==> covers(
            transfer_floor(reason, last_graceful_issued, previous_generator_floor),
            tso,
        ),
        reason != TransferReason::Failover ==> (last_graceful_issued matches Some(tso) ==> covers(
            transfer_floor(reason, last_graceful_issued, previous_generator_floor),
            tso,
        )),
{
}

} // verus!
