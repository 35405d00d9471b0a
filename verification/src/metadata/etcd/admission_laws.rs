//! What holds of the ownership plan that workers join.

use vstd::prelude::*;
use vstd::utf8::*;

use crate::error::TsoError;
use crate::metadata::etcd::admission;
use crate::metadata::etcd::admission::{
    AdmissionDecision, AdmissionRequest, AdmissionRun, AdmissionStep, AdmissionWait,
};
use crate::metadata::etcd::json;
use crate::metadata::etcd::store;
use crate::metadata::etcd::store::StoreView;
use crate::metadata::etcd::txn::{
    InstanceIdentityLeaseRecord, OperationView, PayloadView, Transaction, TxnReply,
};
use crate::metadata::identity;
use crate::metadata::keys;
use crate::metadata::ownership;
use crate::metadata::ownership::{OwnershipPlanMember, OwnershipPlanRecord};
use crate::text;

verus! {

/// The worker owns the remainder in the plan.
pub open spec fn has_member(plan: OwnershipPlanRecord, member: OwnershipPlanMember) -> bool {
    exists|i: int|
        0 <= i < plan.members@.len() && (#[trigger] plan.members@[i]).remainder == member.remainder
            && plan.members@[i].same_worker(member)
}

/// The plan is the one that is meant, every remainder in it has one owner, and the worker owns all
/// that it wants.
pub open spec fn serves(plan: OwnershipPlanRecord, request: AdmissionRequest) -> bool {
    &&& plan.is_integral()
    &&& plan.plan_id@ == request.plan()
    &&& plan.modulo == request.modulo
    &&& forall|i: int|
        0 <= i < request.members().len() ==> has_member(plan, #[trigger] request.members()[i])
}

/// Admitting a member leaves it in an integral plan, with all the members that were there.
proof fn lemma_admitted(
    before: OwnershipPlanRecord,
    plan_id: Seq<char>,
    modulo: u32,
    member: OwnershipPlanMember,
    now_ms: u64,
    result: Result<bool, TsoError>,
    after: OwnershipPlanRecord,
)
    requires
        ownership::admits(before, plan_id, modulo, member, now_ms, result, after),
        result is Ok,
    ensures
        after.is_integral(),
        after.plan_id@ == plan_id,
        after.modulo == modulo,
        has_member(after, member),
        forall|other: OwnershipPlanMember|
            has_member(before, other) ==> #[trigger] has_member(after, other),
{
    ownership::faultless_plans_are_integral(before);
    if ownership::remainder_taken(before.members@, member.remainder) {
        let i = choose|i: int|
            0 <= i < before.members@.len() && (#[trigger] before.members@[i]).remainder
                == member.remainder;
        assert(before.members@[i] == before.holder(member.remainder));
    } else {
        broadcast use vstd::seq_lib::group_to_multiset_ensures;

        let all = before.members@.push(member);
        assert(all[before.members@.len() as int] == member);
        assert(all.contains(member));
        assert(after.members@.to_multiset().contains(member));
        assert(after.members@.contains(member));
        assert forall|other: OwnershipPlanMember| has_member(before, other) implies
            #[trigger] has_member(after, other) by {
            let i = choose|i: int|
                0 <= i < before.members@.len() && (#[trigger] before.members@[i]).remainder
                    == other.remainder && before.members@[i].same_worker(other);
            assert(all[i] == before.members@[i]);
            assert(all.contains(before.members@[i]));
            assert(after.members@.to_multiset().contains(before.members@[i]));
            assert(after.members@.contains(before.members@[i]));
        }
    }
}

/// Admitting members in turn leaves all of them in an integral plan.
proof fn lemma_all_admitted(
    before: OwnershipPlanRecord,
    plan_id: Seq<char>,
    modulo: u32,
    members: Seq<OwnershipPlanMember>,
    now_ms: u64,
    plans: Seq<OwnershipPlanRecord>,
    results: Seq<Result<bool, TsoError>>,
    n: int,
)
    requires
        admission::admission_chain(before, plan_id, modulo, members, now_ms, plans, results),
        admission::chain_result(results) is Ok,
        0 <= n <= members.len(),
    ensures
        results.len() == members.len(),
        n > 0 ==> plans[n].is_integral() && plans[n].plan_id@ == plan_id && plans[n].modulo
            == modulo,
        forall|i: int| 0 <= i < n ==> has_member(plans[n], #[trigger] members[i]),
        forall|other: OwnershipPlanMember|
            has_member(before, other) ==> #[trigger] has_member(plans[n], other),
    decreases n,
{
    if n > 0 {
        lemma_all_admitted(before, plan_id, modulo, members, now_ms, plans, results, n - 1);
        assert(results[n - 1] is Ok) by {
            if n < results.len() {
                assert(results[n - 1] is Ok);
            }
        }
        lemma_admitted(
            plans[n - 1],
            plan_id,
            modulo,
            members[n - 1],
            now_ms,
            results[n - 1],
            plans[n],
        );
    }
}

proof fn lemma_admits_all(
    before: OwnershipPlanRecord,
    plan_id: Seq<char>,
    modulo: u32,
    members: Seq<OwnershipPlanMember>,
    now_ms: u64,
    result: Result<bool, TsoError>,
    after: OwnershipPlanRecord,
)
    requires
        admission::admits_all(before, plan_id, modulo, members, now_ms, result, after),
        result is Ok,
    ensures
        members.len() == 0 ==> after == before,
        members.len() > 0 ==> after.is_integral() && after.plan_id@ == plan_id && after.modulo
            == modulo,
        forall|i: int| 0 <= i < members.len() ==> has_member(after, #[trigger] members[i]),
        forall|other: OwnershipPlanMember|
            has_member(before, other) ==> #[trigger] has_member(after, other),
{
    let (plans, results) = choose|
        plans: Seq<OwnershipPlanRecord>,
        results: Seq<Result<bool, TsoError>>,
    |
        #[trigger] admission::admission_chain(
            before,
            plan_id,
            modulo,
            members,
            now_ms,
            plans,
            results,
        ) && after == plans.last() && result == admission::chain_result(results);
    lemma_all_admitted(
        before,
        plan_id,
        modulo,
        members,
        now_ms,
        plans,
        results,
        members.len() as int,
    );
}

/// A plan that a worker rewrites in order to join serves it, and is written over the plan that it
/// was made from.
pub proof fn rewritten_plans_serve_the_worker(
    request: AdmissionRequest,
    identities: Seq<InstanceIdentityLeaseRecord>,
    plan: OwnershipPlanRecord,
    revision: u64,
    now_ms: u64,
    decision: AdmissionDecision,
)
    requires
        request.remainders@.len() > 0,
        admission::revises(request, identities, plan, revision, now_ms, Ok(decision)),
    ensures
        match decision {
            AdmissionDecision::Replace { record, revision: at } => serves(record, request) && at
                == revision,
            AdmissionDecision::Settled => serves(plan, request),
            AdmissionDecision::Create { .. } => false,
        },
{
    let active = admission::active_workers(identities, plan.plan_id@, plan.modulo);
    let result = Ok::<AdmissionDecision, TsoError>(decision);
    let (pruned, kept) = choose|pruned: Result<usize, TsoError>, kept: OwnershipPlanRecord|
        #[trigger] ownership::prunes(plan, active, now_ms, pruned, kept) && match pruned {
            Err(error) => result == Err::<AdmissionDecision, TsoError>(error),
            Ok(count) => admission::takes_over(request, kept, count, revision, now_ms, result),
        };
    ownership::faultless_plans_are_integral(plan);
    ownership::pruning_keeps_plans_integral(plan, kept, active);
    let (replaced, taken) = choose|replaced: Result<bool, TsoError>, taken: OwnershipPlanRecord|
        #[trigger] ownership::replaces(
            kept,
            request.plan(),
            request.modulo,
            now_ms,
            replaced,
            taken,
        ) && match replaced {
            Err(error) => result == Err::<AdmissionDecision, TsoError>(error),
            Ok(changed) => admission::joins(
                request,
                taken,
                pruned->Ok_0 > 0 || changed,
                revision,
                now_ms,
                result,
            ),
        };
    let (admitted, after) = choose|admitted: Result<bool, TsoError>, after: OwnershipPlanRecord|
        #[trigger] admission::admits_all(
            taken,
            request.plan(),
            request.modulo,
            request.members(),
            now_ms,
            admitted,
            after,
        ) && match admitted {
            Err(error) => result == Err::<AdmissionDecision, TsoError>(error),
            Ok(joined) => if !(pruned->Ok_0 > 0 || replaced->Ok_0) && !joined {
                result == Ok::<AdmissionDecision, TsoError>(AdmissionDecision::Settled)
            } else {
                result == Ok::<AdmissionDecision, TsoError>(
                    AdmissionDecision::Replace { record: after, revision },
                )
            },
        };
    lemma_admits_all(
        taken,
        request.plan(),
        request.modulo,
        request.members(),
        now_ms,
        admitted,
        after,
    );
    if decision is Settled {
        lemma_unchanged(taken, request, now_ms, admitted, after);
        assert forall|i: int| 0 <= i < request.members().len() implies has_member(
            plan,
            #[trigger] request.members()[i],
        ) by {
            let member = request.members()[i];
            assert(has_member(kept, member));
            let k = choose|k: int|
                0 <= k < kept.members@.len() && (#[trigger] kept.members@[k]).remainder
                    == member.remainder && kept.members@[k].same_worker(member);
            assert(plan.members@.contains(kept.members@[k]));
            let there = choose|there: int|
                0 <= there < plan.members@.len() && plan.members@[there] == kept.members@[k];
            assert(plan.members@[there].remainder == member.remainder);
        }
    }
}

/// Where no member joins, the plan stays as it is.
proof fn lemma_unchanged(
    before: OwnershipPlanRecord,
    request: AdmissionRequest,
    now_ms: u64,
    admitted: Result<bool, TsoError>,
    after: OwnershipPlanRecord,
)
    requires
        admission::admits_all(
            before,
            request.plan(),
            request.modulo,
            request.members(),
            now_ms,
            admitted,
            after,
        ),
        admitted == Ok::<bool, TsoError>(false),
    ensures
        after == before,
{
    let members = request.members();
    let (plans, results) = choose|
        plans: Seq<OwnershipPlanRecord>,
        results: Seq<Result<bool, TsoError>>,
    |
        #[trigger] admission::admission_chain(
            before,
            request.plan(),
            request.modulo,
            members,
            now_ms,
            plans,
            results,
        ) && after == plans.last() && admitted == admission::chain_result(results);
    lemma_unchanged_through(
        before,
        request.plan(),
        request.modulo,
        members,
        now_ms,
        plans,
        results,
        results.len() as int,
    );
}

proof fn lemma_unchanged_through(
    before: OwnershipPlanRecord,
    plan_id: Seq<char>,
    modulo: u32,
    members: Seq<OwnershipPlanMember>,
    now_ms: u64,
    plans: Seq<OwnershipPlanRecord>,
    results: Seq<Result<bool, TsoError>>,
    n: int,
)
    requires
        admission::admission_chain(before, plan_id, modulo, members, now_ms, plans, results),
        !admission::any_joined(results),
        0 <= n <= results.len(),
    ensures
        plans[n] == before,
    decreases n,
{
    if n > 0 {
        lemma_unchanged_through(
            before,
            plan_id,
            modulo,
            members,
            now_ms,
            plans,
            results,
            n - 1,
        );
        assert(results[n - 1] != Ok::<bool, TsoError>(true));
        assert(ownership::admits(
            plans[n - 1],
            plan_id,
            modulo,
            members[n - 1],
            now_ms,
            results[n - 1],
            plans[n - 1 + 1],
        ));
    }
}

/// A plan that a worker founds serves it.
pub proof fn founded_plans_serve_the_worker(
    request: AdmissionRequest,
    now_ms: u64,
    decision: AdmissionDecision,
)
    requires
        request.remainders@.len() > 0,
        request.remainders@[0] < request.modulo,
        !text::blank(request.plan()),
        admission::founds(request, now_ms, Ok(decision)),
    ensures
        decision matches AdmissionDecision::Create { record } && serves(record, request),
{
    let result = Ok::<AdmissionDecision, TsoError>(decision);
    let plan = choose|plan: OwnershipPlanRecord| #[trigger]
        admission::is_founded(plan, request, now_ms) && admission::founded_and_joined(
            plan,
            request,
            now_ms,
            result,
        );
    let others = request.members().skip(1);
    let (admitted, after) = choose|admitted: Result<bool, TsoError>, after: OwnershipPlanRecord|
        #[trigger] admission::admits_all(
            plan,
            request.plan(),
            request.modulo,
            others,
            now_ms,
            admitted,
            after,
        ) && match admitted {
            Err(error) => result == Err::<AdmissionDecision, TsoError>(error),
            Ok(_) => result == Ok::<AdmissionDecision, TsoError>(
                AdmissionDecision::Create { record: after },
            ),
        };
    lemma_admits_all(
        plan,
        request.plan(),
        request.modulo,
        others,
        now_ms,
        admitted,
        after,
    );
    assert(plan.members@[0] == request.members()[0]);
    assert(has_member(plan, request.members()[0]));
    assert forall|i: int| 0 <= i < request.members().len() implies has_member(
        after,
        #[trigger] request.members()[i],
    ) by {
        if i > 0 {
            assert(others[i - 1] == request.members()[i]);
        }
    }
}

/// Every member of the plan has one of these identities, and the identity is in the plan or in
/// none.
pub open spec fn all_active(
    plan: OwnershipPlanRecord,
    identities: Seq<InstanceIdentityLeaseRecord>,
) -> bool {
    forall|i: int|
        0 <= i < plan.members@.len() ==> (#[trigger] plan.members@[i]).is_active(
            admission::active_workers(identities, plan.plan_id@, plan.modulo),
        )
}

proof fn lemma_active(
    identities: Seq<InstanceIdentityLeaseRecord>,
    plan_id: Seq<char>,
    modulo: u32,
    i: int,
    member: OwnershipPlanMember,
)
    requires
        0 <= i < identities.len(),
        identity::belongs_to_plan(identities[i]@, plan_id, modulo),
        identities[i].worker_id@ == member.worker_id@,
        identities[i].advertise_endpoint@ == member.advertise_endpoint@,
    ensures
        member.is_active(admission::active_workers(identities, plan_id, modulo)),
    decreases identities.len(),
{
    let all = admission::active_workers(identities, plan_id, modulo);
    let before = admission::active_workers(identities.drop_last(), plan_id, modulo);
    if i == identities.len() - 1 {
        assert(all[before.len() as int].0@ == member.worker_id@);
    } else {
        assert(identities.drop_last()[i] == identities[i]);
        lemma_active(identities.drop_last(), plan_id, modulo, i, member);
        let k = choose|k: int|
            0 <= k < before.len() && (#[trigger] before[k]).0@ == member.worker_id@ && before[k].1@
                == member.advertise_endpoint@;
        assert(all[k] == before[k]);
    }
}

/// A worker whose identities are in order is active in the plan that it wants to join.
proof fn lemma_requester_is_active(
    request: AdmissionRequest,
    identities: Seq<InstanceIdentityLeaseRecord>,
    member: OwnershipPlanMember,
)
    requires
        request.identity_fault(identities) is None,
        request.members().contains(member),
    ensures
        member.is_active(
            admission::active_workers(identities, request.plan(), request.modulo),
        ),
{
    let i = choose|i: int|
        0 <= i < identities.len() && request.declares(#[trigger] identities[i]);
    lemma_active(identities, request.plan(), request.modulo, i, member);
}

/// Admissions in turn keep the name of the plan, and add none but the members that are admitted.
proof fn lemma_chain_adds_members(
    before: OwnershipPlanRecord,
    plan_id: Seq<char>,
    modulo: u32,
    members: Seq<OwnershipPlanMember>,
    now_ms: u64,
    plans: Seq<OwnershipPlanRecord>,
    results: Seq<Result<bool, TsoError>>,
    n: int,
)
    requires
        admission::admission_chain(before, plan_id, modulo, members, now_ms, plans, results),
        0 <= n <= results.len(),
    ensures
        plans[n].plan_id == before.plan_id,
        plans[n].modulo == before.modulo,
        forall|i: int|
            0 <= i < plans[n].members@.len() ==> before.members@.contains(
                #[trigger] plans[n].members@[i],
            ) || members.contains(plans[n].members@[i]),
    decreases n,
{
    if n > 0 {
        lemma_chain_adds_members(
            before,
            plan_id,
            modulo,
            members,
            now_ms,
            plans,
            results,
            n - 1,
        );
        let earlier = plans[n - 1];
        let later = plans[n];
        let member = members[n - 1];
        assert(ownership::admits(
            earlier,
            plan_id,
            modulo,
            member,
            now_ms,
            results[n - 1],
            plans[n - 1 + 1],
        ));
        assert forall|i: int| 0 <= i < later.members@.len() implies before.members@.contains(
            #[trigger] later.members@[i],
        ) || members.contains(later.members@[i]) by {
            if later != earlier {
                broadcast use vstd::seq_lib::group_to_multiset_ensures;

                let one = later.members@[i];
                let all = earlier.members@.push(member);
                assert(later.members@.to_multiset().contains(one));
                assert(all.to_multiset().contains(one));
                assert(all.contains(one));
                let k = choose|k: int| 0 <= k < all.len() && all[k] == one;
                if k < earlier.members@.len() {
                    assert(earlier.members@[k] == one);
                } else {
                    assert(members[n - 1] == one);
                }
            }
        }
    }
}

proof fn lemma_adds_members(
    before: OwnershipPlanRecord,
    plan_id: Seq<char>,
    modulo: u32,
    members: Seq<OwnershipPlanMember>,
    now_ms: u64,
    result: Result<bool, TsoError>,
    after: OwnershipPlanRecord,
)
    requires
        admission::admits_all(before, plan_id, modulo, members, now_ms, result, after),
    ensures
        after.plan_id == before.plan_id,
        after.modulo == before.modulo,
        forall|i: int|
            0 <= i < after.members@.len() ==> before.members@.contains(
                #[trigger] after.members@[i],
            ) || members.contains(after.members@[i]),
{
    let (plans, results) = choose|
        plans: Seq<OwnershipPlanRecord>,
        results: Seq<Result<bool, TsoError>>,
    |
        #[trigger] admission::admission_chain(
            before,
            plan_id,
            modulo,
            members,
            now_ms,
            plans,
            results,
        ) && after == plans.last() && result == admission::chain_result(results);
    lemma_chain_adds_members(
        before,
        plan_id,
        modulo,
        members,
        now_ms,
        plans,
        results,
        results.len() as int,
    );
}

proof fn lemma_none_dropped(
    members: Seq<OwnershipPlanMember>,
    keeps: spec_fn(OwnershipPlanMember) -> bool,
)
    ensures
        members.filter(keeps).len() <= members.len(),
        members.filter(keeps).len() == members.len() ==> forall|i: int|
            0 <= i < members.len() ==> keeps(#[trigger] members[i]),
    decreases members.len(),
{
    reveal(Seq::filter);
    if members.len() > 0 {
        lemma_none_dropped(members.drop_last(), keeps);
        assert forall|i: int|
            members.filter(keeps).len() == members.len() && 0 <= i < members.len() implies keeps(
            #[trigger] members[i],
        ) by {
            if i < members.len() - 1 {
                assert(members.drop_last()[i] == members[i]);
            }
        }
    }
}

/// A plan that a worker rewrites in order to join, or that it leaves as it is because it is in it,
/// holds no member without an active identity.
pub proof fn rewritten_plans_hold_active_members(
    request: AdmissionRequest,
    identities: Seq<InstanceIdentityLeaseRecord>,
    plan: OwnershipPlanRecord,
    revision: u64,
    now_ms: u64,
    decision: AdmissionDecision,
)
    requires
        request.identity_fault(identities) is None,
        admission::revises(request, identities, plan, revision, now_ms, Ok(decision)),
    ensures
        match decision {
            AdmissionDecision::Replace { record, .. } => all_active(record, identities),
            AdmissionDecision::Settled => all_active(plan, identities),
            AdmissionDecision::Create { .. } => false,
        },
{
    let active = admission::active_workers(identities, plan.plan_id@, plan.modulo);
    let result = Ok::<AdmissionDecision, TsoError>(decision);
    let (pruned, kept) = choose|pruned: Result<usize, TsoError>, kept: OwnershipPlanRecord|
        #[trigger] ownership::prunes(plan, active, now_ms, pruned, kept) && match pruned {
            Err(error) => result == Err::<AdmissionDecision, TsoError>(error),
            Ok(count) => admission::takes_over(request, kept, count, revision, now_ms, result),
        };
    ownership::faultless_plans_are_integral(plan);
    ownership::pruning_keeps_plans_integral(plan, kept, active);
    let (replaced, taken) = choose|replaced: Result<bool, TsoError>, taken: OwnershipPlanRecord|
        #[trigger] ownership::replaces(
            kept,
            request.plan(),
            request.modulo,
            now_ms,
            replaced,
            taken,
        ) && match replaced {
            Err(error) => result == Err::<AdmissionDecision, TsoError>(error),
            Ok(changed) => admission::joins(
                request,
                taken,
                pruned->Ok_0 > 0 || changed,
                revision,
                now_ms,
                result,
            ),
        };
    let (admitted, after) = choose|admitted: Result<bool, TsoError>, after: OwnershipPlanRecord|
        #[trigger] admission::admits_all(
            taken,
            request.plan(),
            request.modulo,
            request.members(),
            now_ms,
            admitted,
            after,
        ) && match admitted {
            Err(error) => result == Err::<AdmissionDecision, TsoError>(error),
            Ok(joined) => if !(pruned->Ok_0 > 0 || replaced->Ok_0) && !joined {
                result == Ok::<AdmissionDecision, TsoError>(AdmissionDecision::Settled)
            } else {
                result == Ok::<AdmissionDecision, TsoError>(
                    AdmissionDecision::Replace { record: after, revision },
                )
            },
        };
    lemma_adds_members(
        taken,
        request.plan(),
        request.modulo,
        request.members(),
        now_ms,
        admitted,
        after,
    );
    lemma_admits_all(
        taken,
        request.plan(),
        request.modulo,
        request.members(),
        now_ms,
        admitted,
        after,
    );
    assert forall|i: int| 0 <= i < after.members@.len() implies (
    #[trigger] after.members@[i]).is_active(
        admission::active_workers(identities, after.plan_id@, after.modulo),
    ) by {
        let member = after.members@[i];
        if taken.members@.contains(member) {
            let k = choose|k: int| 0 <= k < taken.members@.len() && taken.members@[k] == member;
            assert(taken == kept);
            assert(kept.members@[k].is_active(active));
        } else {
            lemma_requester_is_active(request, identities, member);
        }
    }
    if decision is Settled {
        lemma_none_dropped(
            plan.members@,
            |member: OwnershipPlanMember| member.is_active(active),
        );
        assert forall|i: int| 0 <= i < plan.members@.len() implies (
        #[trigger] plan.members@[i]).is_active(active) by {
            let keeps = |member: OwnershipPlanMember| member.is_active(active);
            assert(keeps(plan.members@[i]));
        }
    }
}

/// A plan that a worker founds holds no member without an active identity.
pub proof fn founded_plans_hold_active_members(
    request: AdmissionRequest,
    identities: Seq<InstanceIdentityLeaseRecord>,
    now_ms: u64,
    record: OwnershipPlanRecord,
)
    requires
        request.identity_fault(identities) is None,
        admission::founds(request, now_ms, Ok(AdmissionDecision::Create { record })),
    ensures
        all_active(record, identities),
{
    let result = Ok::<AdmissionDecision, TsoError>(AdmissionDecision::Create { record });
    let plan = choose|plan: OwnershipPlanRecord| #[trigger]
        admission::is_founded(plan, request, now_ms) && admission::founded_and_joined(
            plan,
            request,
            now_ms,
            result,
        );
    let others = request.members().skip(1);
    let (admitted, after) = choose|admitted: Result<bool, TsoError>, after: OwnershipPlanRecord|
        #[trigger] admission::admits_all(
            plan,
            request.plan(),
            request.modulo,
            others,
            now_ms,
            admitted,
            after,
        ) && match admitted {
            Err(error) => result == Err::<AdmissionDecision, TsoError>(error),
            Ok(_) => result == Ok::<AdmissionDecision, TsoError>(
                AdmissionDecision::Create { record: after },
            ),
        };
    lemma_adds_members(plan, request.plan(), request.modulo, others, now_ms, admitted, after);
    assert forall|i: int| 0 <= i < record.members@.len() implies (
    #[trigger] record.members@[i]).is_active(
        admission::active_workers(identities, record.plan_id@, record.modulo),
    ) by {
        let member = record.members@[i];
        assert(request.members().contains(member)) by {
            if others.contains(member) {
                let k = choose|k: int| 0 <= k < others.len() && others[k] == member;
                assert(request.members()[k + 1] == member);
            } else {
                assert(plan.members@[0] == request.members()[0]);
            }
        }
        lemma_requester_is_active(request, identities, member);
    }
}

/// What a worker writes when it joins is a plan that serves it; a worker that comes too late
/// changes nothing.
pub proof fn stored_plans_serve_the_worker(
    run: AdmissionRun,
    before: AdmissionRun,
    plan: Option<(OwnershipPlanRecord, u64)>,
    txn: Transaction,
    store: StoreView,
    revision: i64,
    after: StoreView,
    reply: TxnReply,
)
    requires
        before.request.remainders@.len() > 0,
        before.request.remainders@[0] < before.request.modulo,
        !text::blank(before.request.plan()),
        run.decides(before, plan, AdmissionStep::Commit { txn }),
        store::commits(store, txn@, revision, after, reply),
    ensures
        reply.succeeded ==> {
            let key = encode_utf8(run.plan_key());
            &&& after.contains_key(key)
            &&& after[key].value matches PayloadView::OwnershipPlan(record)
            &&& serves(record, before.request)
        },
        !reply.succeeded ==> after == store,
{
    let step = AdmissionStep::Commit { txn };
    let decision = choose|decision: Result<AdmissionDecision, TsoError>|
        #[trigger] run.acts_on(decision, step) && match plan {
            Some((record, at)) => admission::revises(
                before.request,
                before.identities@,
                record,
                at,
                before.now_ms,
                decision,
            ),
            None => admission::founds(before.request, before.now_ms, decision),
        };
    match plan {
        Some((record, at)) => {
            rewritten_plans_serve_the_worker(
                before.request,
                before.identities@,
                record,
                at,
                before.now_ms,
                decision->Ok_0,
            );
        },
        None => {
            founded_plans_serve_the_worker(before.request, before.now_ms, decision->Ok_0);
        },
    }
    let none = Seq::<OperationView>::empty();
    assert(txn@.operations =~= none.push(txn@.operations[0]));
    store::lemma_last_operation(store, none, txn@.operations[0], revision);
}

/// A plan that a worker wrote in order to join holds no member without one of the identities that
/// the worker had read.
pub proof fn stored_plans_hold_active_members(
    run: AdmissionRun,
    before: AdmissionRun,
    plan: Option<(OwnershipPlanRecord, u64)>,
    txn: Transaction,
    store: StoreView,
    revision: i64,
    after: StoreView,
    reply: TxnReply,
)
    requires
        before.valid(),
        before.wait == AdmissionWait::Plan,
        run.decides(before, plan, AdmissionStep::Commit { txn }),
        store::commits(store, txn@, revision, after, reply),
        reply.succeeded,
    ensures
        ({
            let key = encode_utf8(run.plan_key());
            &&& after.contains_key(key)
            &&& after[key].value matches PayloadView::OwnershipPlan(record)
            &&& all_active(record, before.identities@)
        }),
{
    let step = AdmissionStep::Commit { txn };
    let decision = choose|decision: Result<AdmissionDecision, TsoError>|
        #[trigger] run.acts_on(decision, step) && match plan {
            Some((record, at)) => admission::revises(
                before.request,
                before.identities@,
                record,
                at,
                before.now_ms,
                decision,
            ),
            None => admission::founds(before.request, before.now_ms, decision),
        };
    match plan {
        Some((record, at)) => {
            rewritten_plans_hold_active_members(
                before.request,
                before.identities@,
                record,
                at,
                before.now_ms,
                decision->Ok_0,
            );
        },
        None => {
            match decision->Ok_0 {
                AdmissionDecision::Create { record } => {
                    founded_plans_hold_active_members(
                        before.request,
                        before.identities@,
                        before.now_ms,
                        record,
                    );
                },
                _ => {
                    lemma_founding_creates(before.request, before.now_ms, decision->Ok_0);
                },
            }
        },
    }
    let none = Seq::<OperationView>::empty();
    assert(txn@.operations =~= none.push(txn@.operations[0]));
    store::lemma_last_operation(store, none, txn@.operations[0], revision);
}

/// Founding a plan never replaces one.
proof fn lemma_founding_creates(
    request: AdmissionRequest,
    now_ms: u64,
    decision: AdmissionDecision,
)
    requires
        admission::founds(request, now_ms, Ok(decision)),
    ensures
        decision !is Replace,
{
    if request.remainders@.len() > 0 {
        let result = Ok::<AdmissionDecision, TsoError>(decision);
        let plan = choose|plan: OwnershipPlanRecord| #[trigger]
            admission::is_founded(plan, request, now_ms) && admission::founded_and_joined(
                plan,
                request,
                now_ms,
                result,
            );
        assert(admission::founded_and_joined(plan, request, now_ms, result));
    }
}

/// A worker may join only with exactly one identity of its own, which says that it is in the plan.
pub proof fn joining_takes_one_identity(
    request: AdmissionRequest,
    identities: Seq<InstanceIdentityLeaseRecord>,
)
    requires
        request.identity_fault(identities) is None,
    ensures
        exists|i: int|
            0 <= i < identities.len() && (#[trigger] identities[i]).worker_id@
                == request.worker_id@ && identities[i].advertise_endpoint@
                == request.advertise_endpoint@ && identities[i].ownership_plan_id@ == text::trimmed(
                request.plan_id@,
            ) && identities[i].ownership_modulo == request.modulo,
        forall|i: int, j: int|
            0 <= i < j < identities.len() ==> !((#[trigger] identities[i]).worker_id@
                == request.worker_id@ && identities[i].advertise_endpoint@
                == request.advertise_endpoint@ && (#[trigger] identities[j]).worker_id@
                == request.worker_id@ && identities[j].advertise_endpoint@
                == request.advertise_endpoint@),
{
    let i = choose|i: int|
        0 <= i < identities.len() && request.declares(#[trigger] identities[i]);
    assert(identities[i].worker_id@ == request.worker_id@);
    assert forall|i: int, j: int| 0 <= i < j < identities.len() implies !((
    #[trigger] identities[i]).worker_id@ == request.worker_id@ && identities[i].advertise_endpoint@
        == request.advertise_endpoint@ && (#[trigger] identities[j]).worker_id@
        == request.worker_id@ && identities[j].advertise_endpoint@
        == request.advertise_endpoint@) by {
        if request.owns(identities[i]) && request.owns(identities[j]) {
            lemma_own_pair(request, identities, i, j);
        }
    }
}

proof fn lemma_own_one(
    request: AdmissionRequest,
    identities: Seq<InstanceIdentityLeaseRecord>,
    i: int,
)
    requires
        0 <= i < identities.len(),
        request.owns(identities[i]),
    ensures
        request.own_count(identities) >= 1,
    decreases identities.len(),
{
    if i < identities.len() - 1 {
        lemma_own_one(request, identities.drop_last(), i);
    }
}

proof fn lemma_own_pair(
    request: AdmissionRequest,
    identities: Seq<InstanceIdentityLeaseRecord>,
    i: int,
    j: int,
)
    requires
        0 <= i < j < identities.len(),
        request.owns(identities[i]),
        request.owns(identities[j]),
    ensures
        request.own_count(identities) >= 2,
    decreases identities.len(),
{
    if j < identities.len() - 1 {
        lemma_own_pair(request, identities.drop_last(), i, j);
    } else {
        lemma_own_one(request, identities.drop_last(), i);
    }
}

/// The workers that count as active for a plan are those of the identities that name it with its
/// modulo, or no plan at all, in their order.
pub proof fn active_workers_are_those_of_the_plan(
    identities: Seq<InstanceIdentityLeaseRecord>,
    plan_id: Seq<char>,
    modulo: u32,
)
    ensures
        admission::active_workers(identities, plan_id, modulo) == identities.filter(
            |identity: InstanceIdentityLeaseRecord|
                identity.ownership_plan_id@.len() == 0 || (identity.ownership_plan_id@ == plan_id
                    && identity.ownership_modulo == modulo),
        ).map_values(
            |identity: InstanceIdentityLeaseRecord|
                (identity.worker_id, identity.advertise_endpoint),
        ),
    decreases identities.len(),
{
    reveal(Seq::filter);
    let counts = |identity: InstanceIdentityLeaseRecord|
        identity.ownership_plan_id@.len() == 0 || (identity.ownership_plan_id@ == plan_id
            && identity.ownership_modulo == modulo);
    let worker = |identity: InstanceIdentityLeaseRecord|
        (identity.worker_id, identity.advertise_endpoint);
    if identities.len() > 0 {
        active_workers_are_those_of_the_plan(identities.drop_last(), plan_id, modulo);
    }
    assert(admission::active_workers(identities, plan_id, modulo) =~= identities.filter(
        counts,
    ).map_values(worker));
}

/// A worker is in the plan once its write was taken, tries again where somebody else was faster, and
/// gives up after the eighth attempt.
pub proof fn joining_is_tried_eight_times(
    before: AdmissionRun,
    after: AdmissionRun,
    reply: Result<TxnReply, String>,
    step: AdmissionStep,
)
    requires
        before.valid(),
        after.takes_commit(before, reply, step),
    ensures
        step is Done <==> (reply matches Ok(answer) && answer.succeeded
            && answer.first_put_revision is Some),
        step is ListIdentities <==> (reply matches Ok(answer) && !answer.succeeded)
            && before.attempts < 8,
        step is ListIdentities ==> after.attempts == before.attempts + 1,
        (reply matches Ok(answer) && !answer.succeeded) && before.attempts == 8 ==> step is Failed
            && step->error == TsoError::CasFailed,
        before.attempts <= 8,
{
}

/// The plan is asked for only once the identities were read and this worker may join by them; it is
/// written only on the ground of a plan that was read, or of none.
pub proof fn plans_are_read_after_the_identities(
    before: AdmissionRun,
    after: AdmissionRun,
    now_ms: u64,
    listed: Result<Vec<identity::IdentityEntry>, String>,
    step: AdmissionStep,
    read: AdmissionRun,
    reply: Result<Option<json::Found<OwnershipPlanRecord>>, String>,
    next: AdmissionStep,
)
    requires
        after.takes_identities(before, now_ms, listed, step),
        read.takes_plan(after, reply, next),
    ensures
        step is ReadPlan || step is Failed,
        step is ReadPlan ==> {
            &&& listed is Ok
            &&& before.request.identity_fault(after.identities@) is None
            &&& after.identities@ == identity::kept_identities(listed->Ok_0@)
            &&& after.now_ms == now_ms
            &&& after.attempts == before.attempts
            &&& after.wait == AdmissionWait::Plan
        },
        step matches AdmissionStep::ReadPlan { key } ==> key@ == keys::ownership_plan_key_text(
            before.prefix@,
        ) || after.prefix != before.prefix,
        listed is Err ==> step is Failed,
        reply is Err ==> next is Failed,
        (reply matches Ok(Some(found)) && found.value is Err) ==> next is Failed,
        next is Commit || next is Done || next is Failed,
        next is Commit ==> read.wait == AdmissionWait::Created || read.wait
            == AdmissionWait::Replaced,
{
}

} // verus!
