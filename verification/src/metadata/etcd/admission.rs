//! Joining the ownership plan: which worker owns which generators.

use vstd::prelude::*;
use vstd::utf8::*;

use crate::error::TsoError;
use crate::metadata::etcd::json;
use crate::metadata::etcd::json::{record_of, Found};
use crate::metadata::etcd::txn;
use crate::metadata::etcd::txn::{
    cas_result, create_result, guarded, put, written_at, ConditionView,
    InstanceIdentityLeaseRecord, OperationView, Payload, PayloadView, Transaction, TxnReply,
};
use crate::metadata::identity;
use crate::metadata::identity::{
    active_identity_records, identity_record_belongs_to_ownership_plan, IdentityEntry,
};
use crate::metadata::keys;
use crate::metadata::keys::ownership_plan_key;
use crate::metadata::ownership;
use crate::metadata::ownership::{OwnershipPlanMember, OwnershipPlanRecord};
use crate::metadata::types::CURRENT_METADATA_SCHEMA_VERSION;
use crate::text;
use crate::text::{decimal_text, join4, join5, trim};

verus! {

/// How often a worker tries to join before it gives up.
pub const OWNERSHIP_ADMISSION_ATTEMPTS: u32 = 8;

/// A worker that wants to join, and what it wants to own.
#[derive(Debug)]
pub struct AdmissionRequest {
    pub worker_id: String,
    pub advertise_endpoint: String,
    pub plan_id: String,
    pub modulo: u32,
    pub remainders: Vec<u32>,
}

impl AdmissionRequest {
    /// The plan that is meant: its name without surrounding whitespace.
    pub open spec fn plan(self) -> Seq<char> {
        text::trimmed(self.plan_id@)
    }

    /// The identity is one of this worker.
    pub open spec fn owns(self, identity: InstanceIdentityLeaseRecord) -> bool {
        identity.worker_id@ == self.worker_id@ && identity.advertise_endpoint@
            == self.advertise_endpoint@
    }

    /// The identity says that it is in this plan.
    pub open spec fn declares(self, identity: InstanceIdentityLeaseRecord) -> bool {
        self.owns(identity) && identity.ownership_plan_id@ == self.plan()
            && identity.ownership_modulo == self.modulo
    }

    /// How many of the identities are this worker's.
    pub open spec fn own_count(self, identities: Seq<InstanceIdentityLeaseRecord>) -> nat
        decreases identities.len(),
    {
        if identities.len() == 0 {
            0
        } else {
            self.own_count(identities.drop_last()) + if self.owns(identities.last()) {
                1nat
            } else {
                0nat
            }
        }
    }

    pub open spec fn member(self, remainder: u32) -> OwnershipPlanMember {
        OwnershipPlanMember {
            remainder,
            worker_id: self.worker_id,
            advertise_endpoint: self.advertise_endpoint,
        }
    }

    /// The memberships that it wants.
    pub open spec fn members(self) -> Seq<OwnershipPlanMember> {
        Seq::new(self.remainders@.len(), |i: int| self.member(self.remainders@[i]))
    }

    /// Why it may not join: it has several identities, or none that says it is in the plan.
    pub open spec fn identity_fault(
        self,
        identities: Seq<InstanceIdentityLeaseRecord>,
    ) -> Option<Seq<char>> {
        if self.own_count(identities) > 1 {
            Some(
                "ownership plan worker_id="@ + self.worker_id@ + " advertise_endpoint="@
                    + self.advertise_endpoint@ + " has multiple active identity leases"@,
            )
        } else if !(exists|i: int| 0 <= i < identities.len() && self.declares(#[trigger] identities[i])) {
            Some(
                "active identity for worker_id="@ + self.worker_id@ + " advertise_endpoint="@
                    + self.advertise_endpoint@ + " does not declare ownership plan_id="@
                    + self.plan() + " modulo="@ + text::decimal(self.modulo as nat),
            )
        } else {
            None
        }
    }

    fn check_identities(&self, identities: &Vec<InstanceIdentityLeaseRecord>) -> (result: Result<
        (),
        TsoError,
    >)
        ensures
            match result {
                Ok(()) => self.identity_fault(identities@) is None,
                Err(error) => self.identity_fault(identities@) matches Some(message)
                    && error.is_internal(message),
            },
    {
        let plan = trim(self.plan_id.as_str()).to_owned();
        let mut count: usize = 0;
        let mut declared = false;
        let mut i: usize = 0;
        assert(identities@.take(0) =~= Seq::<InstanceIdentityLeaseRecord>::empty());
        while i < identities.len()
            invariant
                i <= identities@.len(),
                plan@ == self.plan(),
                count <= i,
                count == self.own_count(identities@.take(i as int)),
                declared == (exists|k: int|
                    0 <= k < i && self.declares(#[trigger] identities@[k])),
            decreases identities@.len() - i,
        {
            let identity = &identities[i];
            assert(identities@.take(i + 1).drop_last() =~= identities@.take(i as int));
            assert(identities@.take(i + 1).last() == identities@[i as int]);
            if identity.worker_id == self.worker_id && identity.advertise_endpoint
                == self.advertise_endpoint {
                count = count + 1;
                if identity.ownership_plan_id == plan && identity.ownership_modulo == self.modulo {
                    assert(self.declares(identities@[i as int]));
                    declared = true;
                }
            }
            i = i + 1;
        }
        assert(identities@.take(i as int) =~= identities@);
        if count > 1 {
            return Err(
                TsoError::Internal(
                    join5(
                        "ownership plan worker_id=",
                        self.worker_id.as_str(),
                        " advertise_endpoint=",
                        self.advertise_endpoint.as_str(),
                        " has multiple active identity leases",
                    ),
                ),
            );
        }
        if !declared {
            let head = join4(
                "active identity for worker_id=",
                self.worker_id.as_str(),
                " advertise_endpoint=",
                self.advertise_endpoint.as_str(),
            );
            return Err(
                TsoError::Internal(
                    join5(
                        head.as_str(),
                        " does not declare ownership plan_id=",
                        plan.as_str(),
                        " modulo=",
                        decimal_text(self.modulo as u64).as_str(),
                    ),
                ),
            );
        }
        Ok(())
    }

    fn wanted_members(&self) -> (members: Vec<OwnershipPlanMember>)
        ensures
            members@ == self.members(),
    {
        let mut members: Vec<OwnershipPlanMember> = Vec::new();
        let mut i: usize = 0;
        while i < self.remainders.len()
            invariant
                i <= self.remainders@.len(),
                members@ == self.members().take(i as int),
            decreases self.remainders@.len() - i,
        {
            members.push(
                OwnershipPlanMember {
                    remainder: self.remainders[i],
                    worker_id: self.worker_id.clone(),
                    advertise_endpoint: self.advertise_endpoint.clone(),
                },
            );
            assert(self.members().take(i + 1) =~= self.members().take(i as int).push(
                self.members()[i as int],
            ));
            i = i + 1;
        }
        assert(self.members().take(i as int) =~= self.members());
        members
    }
}

/// The workers whose identities count as active for a plan.
pub open spec fn active_workers(
    identities: Seq<InstanceIdentityLeaseRecord>,
    plan_id: Seq<char>,
    modulo: u32,
) -> Seq<(String, String)>
    decreases identities.len(),
{
    if identities.len() == 0 {
        Seq::empty()
    } else {
        let before = active_workers(identities.drop_last(), plan_id, modulo);
        let last = identities.last();
        if identity::belongs_to_plan(last@, plan_id, modulo) {
            before.push((last.worker_id, last.advertise_endpoint))
        } else {
            before
        }
    }
}

fn collect_active_workers(
    identities: &Vec<InstanceIdentityLeaseRecord>,
    plan_id: &str,
    modulo: u32,
) -> (workers: Vec<(String, String)>)
    ensures
        workers@ == active_workers(identities@, plan_id@, modulo),
{
    let mut workers: Vec<(String, String)> = Vec::new();
    let mut i: usize = 0;
    assert(identities@.take(0) =~= Seq::<InstanceIdentityLeaseRecord>::empty());
    while i < identities.len()
        invariant
            i <= identities@.len(),
            workers@ == active_workers(identities@.take(i as int), plan_id@, modulo),
        decreases identities@.len() - i,
    {
        assert(identities@.take(i + 1).drop_last() =~= identities@.take(i as int));
        assert(identities@.take(i + 1).last() == identities@[i as int]);
        if identity_record_belongs_to_ownership_plan(&identities[i], plan_id, modulo) {
            workers.push(
                (identities[i].worker_id.clone(), identities[i].advertise_endpoint.clone()),
            );
        }
        i = i + 1;
    }
    assert(identities@.take(i as int) =~= identities@);
    workers
}

/// Members are admitted in turn up to the first that is refused: the plan after each, and what each
/// came to.
pub open spec fn admission_chain(
    before: OwnershipPlanRecord,
    plan_id: Seq<char>,
    modulo: u32,
    members: Seq<OwnershipPlanMember>,
    now_ms: u64,
    plans: Seq<OwnershipPlanRecord>,
    results: Seq<Result<bool, TsoError>>,
) -> bool {
    &&& results.len() <= members.len()
    &&& plans.len() == results.len() + 1
    &&& plans[0] == before
    &&& forall|i: int|
        0 <= i < results.len() ==> ownership::admits(
            plans[i],
            plan_id,
            modulo,
            members[i],
            now_ms,
            #[trigger] results[i],
            plans[i + 1],
        )
    &&& forall|i: int| 0 <= i < results.len() - 1 ==> (#[trigger] results[i]) is Ok
    &&& results.len() < members.len() ==> results.len() > 0 && results.last() is Err
}

/// Some member joined.
pub open spec fn any_joined(results: Seq<Result<bool, TsoError>>) -> bool {
    exists|i: int| 0 <= i < results.len() && #[trigger] results[i] == Ok::<bool, TsoError>(true)
}

/// What admissions in turn come to: the refusal, or whether any member joined.
pub open spec fn chain_result(results: Seq<Result<bool, TsoError>>) -> Result<bool, TsoError> {
    if results.len() > 0 && results.last() is Err {
        results.last()
    } else {
        Ok(any_joined(results))
    }
}

/// What admitting several members in turn comes to.
pub open spec fn admits_all(
    before: OwnershipPlanRecord,
    plan_id: Seq<char>,
    modulo: u32,
    members: Seq<OwnershipPlanMember>,
    now_ms: u64,
    result: Result<bool, TsoError>,
    after: OwnershipPlanRecord,
) -> bool {
    exists|plans: Seq<OwnershipPlanRecord>, results: Seq<Result<bool, TsoError>>|
        #[trigger] admission_chain(before, plan_id, modulo, members, now_ms, plans, results)
            && after == plans.last() && result == chain_result(results)
}

/// Admits several members in turn.
fn admit_all(
    plan: &mut OwnershipPlanRecord,
    plan_id: &str,
    modulo: u32,
    members: &Vec<OwnershipPlanMember>,
    first: usize,
    now_ms: u64,
) -> (result: Result<bool, TsoError>)
    requires
        first <= members@.len(),
    ensures
        admits_all(
            *old(plan),
            plan_id@,
            modulo,
            members@.skip(first as int),
            now_ms,
            result,
            *final(plan),
        ),
{
    let ghost wanted = members@.skip(first as int);
    let ghost before = *plan;
    let ghost mut plans = seq![before];
    let ghost mut results = Seq::<Result<bool, TsoError>>::empty();
    let mut joined = false;
    let mut i: usize = first;
    while i < members.len()
        invariant
            first <= i <= members@.len(),
            wanted == members@.skip(first as int),
            before == *old(plan),
            results.len() == i - first,
            plans.len() == results.len() + 1,
            plans[0] == before,
            plans.last() == *plan,
            forall|k: int|
                0 <= k < results.len() ==> ownership::admits(
                    plans[k],
                    plan_id@,
                    modulo,
                    wanted[k],
                    now_ms,
                    #[trigger] results[k],
                    plans[k + 1],
                ),
            forall|k: int| 0 <= k < results.len() ==> (#[trigger] results[k]) is Ok,
            joined == any_joined(results),
        decreases members@.len() - i,
    {
        let ghost at = results.len() as int;
        let ghost plans_before = plans;
        let ghost results_before = results;
        let admitted = plan.admit_member(plan_id, modulo, members[i].clone(), now_ms);
        proof {
            plans = plans.push(*plan);
            results = results.push(admitted);
            assert(ownership::admits(
                plans[at],
                plan_id@,
                modulo,
                wanted[at],
                now_ms,
                results[at],
                plans[at + 1],
            ));
            assert forall|k: int| 0 <= k < results.len() implies ownership::admits(
                plans[k],
                plan_id@,
                modulo,
                wanted[k],
                now_ms,
                #[trigger] results[k],
                plans[k + 1],
            ) by {
                if k < at {
                    assert(results[k] == results_before[k]);
                    assert(plans[k] == plans_before[k]);
                    assert(plans[k + 1] == plans_before[k + 1]);
                }
            }
            assert forall|k: int| 0 <= k < results.len() - 1 implies (#[trigger] results[k]) is Ok by {
                assert(results[k] == results_before[k]);
            }
        }
        match admitted {
            Err(error) => {
                assert(admission_chain(
                    before,
                    plan_id@,
                    modulo,
                    wanted,
                    now_ms,
                    plans,
                    results,
                ));
                return Err(error);
            },
            Ok(joins) => {
                proof {
                    if any_joined(results_before) {
                        let k = choose|k: int|
                            0 <= k < results_before.len() && #[trigger] results_before[k] == Ok::<
                                bool,
                                TsoError,
                            >(true);
                        assert(results[k] == Ok::<bool, TsoError>(true));
                    }
                    if joins {
                        assert(results[at] == Ok::<bool, TsoError>(true));
                    }
                    if any_joined(results) {
                        let k = choose|k: int|
                            0 <= k < results.len() && #[trigger] results[k] == Ok::<bool, TsoError>(
                                true,
                            );
                        if k < at {
                            assert(results_before[k] == Ok::<bool, TsoError>(true));
                        }
                    }
                }
                joined = joined || joins;
            },
        }
        i = i + 1;
    }
    assert(admission_chain(before, plan_id@, modulo, wanted, now_ms, plans, results));
    Ok(joined)
}

/// What is to be done about the plan.
pub enum AdmissionDecision {
    /// Nothing: the worker has what it wants.
    Settled,
    Create { record: OwnershipPlanRecord },
    Replace { record: OwnershipPlanRecord, revision: u64 },
}

/// What joining a plan that is there comes to after it was pruned and taken over: members join, and
/// the plan is written unless nothing changed.
pub open spec fn joins(
    request: AdmissionRequest,
    plan: OwnershipPlanRecord,
    changed: bool,
    revision: u64,
    now_ms: u64,
    result: Result<AdmissionDecision, TsoError>,
) -> bool {
    exists|admitted: Result<bool, TsoError>, after: OwnershipPlanRecord|
        #[trigger] admits_all(
            plan,
            request.plan(),
            request.modulo,
            request.members(),
            now_ms,
            admitted,
            after,
        ) && match admitted {
            Err(error) => result == Err::<AdmissionDecision, TsoError>(error),
            Ok(joined) => if !changed && !joined {
                result == Ok::<AdmissionDecision, TsoError>(AdmissionDecision::Settled)
            } else {
                result == Ok::<AdmissionDecision, TsoError>(
                    AdmissionDecision::Replace { record: after, revision },
                )
            },
        }
}

/// What taking over a plan that was pruned comes to.
pub open spec fn takes_over(
    request: AdmissionRequest,
    plan: OwnershipPlanRecord,
    pruned: usize,
    revision: u64,
    now_ms: u64,
    result: Result<AdmissionDecision, TsoError>,
) -> bool {
    exists|replaced: Result<bool, TsoError>, after: OwnershipPlanRecord|
        #[trigger] ownership::replaces(
            plan,
            request.plan(),
            request.modulo,
            now_ms,
            replaced,
            after,
        ) && match replaced {
            Err(error) => result == Err::<AdmissionDecision, TsoError>(error),
            Ok(taken) => joins(request, after, pruned > 0 || taken, revision, now_ms, result),
        }
}

/// What joining a plan that is there comes to: members without an active identity leave it, it is
/// taken over where that leaves it empty, and then the worker joins.
pub open spec fn revises(
    request: AdmissionRequest,
    identities: Seq<InstanceIdentityLeaseRecord>,
    plan: OwnershipPlanRecord,
    revision: u64,
    now_ms: u64,
    result: Result<AdmissionDecision, TsoError>,
) -> bool {
    exists|pruned: Result<usize, TsoError>, after: OwnershipPlanRecord|
        #[trigger] ownership::prunes(
            plan,
            active_workers(identities, plan.plan_id@, plan.modulo),
            now_ms,
            pruned,
            after,
        ) && match pruned {
            Err(error) => result == Err::<AdmissionDecision, TsoError>(error),
            Ok(count) => takes_over(request, after, count, revision, now_ms, result),
        }
}

fn revise_plan(
    request: &AdmissionRequest,
    identities: &Vec<InstanceIdentityLeaseRecord>,
    record: OwnershipPlanRecord,
    revision: u64,
    now_ms: u64,
) -> (result: Result<AdmissionDecision, TsoError>)
    ensures
        revises(*request, identities@, record, revision, now_ms, result),
{
    let mut record = record;
    let ghost given = record;
    let plan_id = trim(request.plan_id.as_str()).to_owned();
    let active = collect_active_workers(identities, record.plan_id.as_str(), record.modulo);
    let pruned = record.prune_inactive_members(&active, now_ms);
    let ghost pruned_plan = record;
    assert(ownership::prunes(
        given,
        active_workers(identities@, given.plan_id@, given.modulo),
        now_ms,
        pruned,
        pruned_plan,
    ));
    let count: usize = match pruned {
        Err(error) => {
            return Err(error);
        },
        Ok(count) => count,
    };
    let replaced = record.replace_if_empty(plan_id.as_str(), request.modulo, now_ms);
    let ghost taken_plan = record;
    assert(ownership::replaces(
        pruned_plan,
        request.plan(),
        request.modulo,
        now_ms,
        replaced,
        taken_plan,
    ));
    let taken: bool = match replaced {
        Err(error) => {
            let result = Err(error);
            assert(takes_over(*request, pruned_plan, count, revision, now_ms, result));
            return result;
        },
        Ok(taken) => taken,
    };
    let members = request.wanted_members();
    assert(members@.skip(0) =~= members@);
    let admitted = admit_all(
        &mut record,
        plan_id.as_str(),
        request.modulo,
        &members,
        0,
        now_ms,
    );
    let ghost joined_plan = record;
    assert(admits_all(
        taken_plan,
        request.plan(),
        request.modulo,
        request.members(),
        now_ms,
        admitted,
        joined_plan,
    ));
    let result = match admitted {
        Err(error) => Err(error),
        Ok(joined) => {
            if count == 0 && !taken && !joined {
                Ok(AdmissionDecision::Settled)
            } else {
                Ok(AdmissionDecision::Replace { record, revision })
            }
        },
    };
    assert(joins(*request, taken_plan, count > 0 || taken, revision, now_ms, result));
    assert(takes_over(*request, pruned_plan, count, revision, now_ms, result));
    result
}

/// A plan with one member.
pub open spec fn is_founded(
    plan: OwnershipPlanRecord,
    request: AdmissionRequest,
    now_ms: u64,
) -> bool {
    &&& plan.schema_version == CURRENT_METADATA_SCHEMA_VERSION
    &&& plan.plan_id@ == request.plan()
    &&& plan.modulo == request.modulo
    &&& plan.members@ == seq![request.members()[0]]
    &&& plan.updated_at_ms == now_ms
}

/// What founding a plan comes to: the first membership founds it, the others join.
pub open spec fn founds(
    request: AdmissionRequest,
    now_ms: u64,
    result: Result<AdmissionDecision, TsoError>,
) -> bool {
    if request.remainders@.len() == 0 {
        result == Ok::<AdmissionDecision, TsoError>(AdmissionDecision::Settled)
    } else {
        exists|plan: OwnershipPlanRecord| #[trigger] is_founded(plan, request, now_ms)
            && founded_and_joined(plan, request, now_ms, result)
    }
}

pub open spec fn founded_and_joined(
    plan: OwnershipPlanRecord,
    request: AdmissionRequest,
    now_ms: u64,
    result: Result<AdmissionDecision, TsoError>,
) -> bool {
    exists|admitted: Result<bool, TsoError>, after: OwnershipPlanRecord|
        #[trigger] admits_all(
            plan,
            request.plan(),
            request.modulo,
            request.members().skip(1),
            now_ms,
            admitted,
            after,
        ) && match admitted {
            Err(error) => result == Err::<AdmissionDecision, TsoError>(error),
            Ok(_) => result == Ok::<AdmissionDecision, TsoError>(
                AdmissionDecision::Create { record: after },
            ),
        }
}

fn found_plan(request: &AdmissionRequest, now_ms: u64) -> (result: Result<
    AdmissionDecision,
    TsoError,
>)
    ensures
        founds(*request, now_ms, result),
{
    let members = request.wanted_members();
    if members.len() == 0 {
        return Ok(AdmissionDecision::Settled);
    }
    let plan_id = trim(request.plan_id.as_str()).to_owned();
    let mut plan = OwnershipPlanRecord::new(
        plan_id.clone(),
        request.modulo,
        members[0].clone(),
        now_ms,
    );
    let ghost founded = plan;
    assert(is_founded(founded, *request, now_ms));
    let admitted = admit_all(&mut plan, plan_id.as_str(), request.modulo, &members, 1, now_ms);
    let ghost after = plan;
    assert(admits_all(
        founded,
        request.plan(),
        request.modulo,
        request.members().skip(1),
        now_ms,
        admitted,
        after,
    ));
    let result = match admitted {
        Err(error) => Err(error),
        Ok(_) => Ok(AdmissionDecision::Create { record: plan }),
    };
    assert(founded_and_joined(founded, *request, now_ms, result));
    result
}

/// What is to be done about the plan as it was found.
pub fn decide_admission(
    request: &AdmissionRequest,
    identities: &Vec<InstanceIdentityLeaseRecord>,
    found: Option<(OwnershipPlanRecord, u64)>,
    now_ms: u64,
) -> (result: Result<AdmissionDecision, TsoError>)
    ensures
        match found {
            Some((plan, revision)) => revises(
                *request,
                identities@,
                plan,
                revision,
                now_ms,
                result,
            ),
            None => founds(*request, now_ms, result),
        },
{
    match found {
        Some((plan, revision)) => revise_plan(request, identities, plan, revision, now_ms),
        None => found_plan(request, now_ms),
    }
}

/// What the worker waits for.
#[derive(Debug, Clone, Copy, PartialEq, Eq, Structural)]
pub enum AdmissionWait {
    Identities,
    Plan,
    Created,
    Replaced,
    Nothing,
}

/// What it asks for.
pub enum AdmissionStep {
    ListIdentities,
    ReadPlan { key: String },
    Commit { txn: Transaction },
    Done,
    Failed { error: TsoError },
}

/// What it is answered.
pub enum AdmissionReply {
    Identities { now_ms: u64, listed: Result<Vec<IdentityEntry>, String> },
    Plan(Result<Option<Found<OwnershipPlanRecord>>, String>),
    Committed(Result<TxnReply, String>),
}

/// A worker on its way into the plan.
pub struct AdmissionRun {
    pub prefix: String,
    pub request: AdmissionRequest,
    pub identities: Vec<InstanceIdentityLeaseRecord>,
    pub now_ms: u64,
    /// How many attempts have begun.
    pub attempts: u32,
    pub wait: AdmissionWait,
}

impl AdmissionRun {
    /// Once it asks for the plan, its identity is among those that it knows.
    pub open spec fn valid(self) -> bool {
        &&& self.attempts <= OWNERSHIP_ADMISSION_ATTEMPTS
        &&& self.wait == AdmissionWait::Plan ==> self.request.identity_fault(self.identities@)
            is None
    }

    pub open spec fn awaits(self, reply: AdmissionReply) -> bool {
        match self.wait {
            AdmissionWait::Identities => reply is Identities,
            AdmissionWait::Plan => reply is Plan,
            AdmissionWait::Created | AdmissionWait::Replaced => reply is Committed,
            AdmissionWait::Nothing => false,
        }
    }

    pub open spec fn same_task(self, other: AdmissionRun) -> bool {
        self.prefix == other.prefix && self.request == other.request
    }

    pub open spec fn is_failed(self, step: AdmissionStep) -> bool {
        step is Failed && self.wait == AdmissionWait::Nothing
    }

    pub open spec fn is_done(self, step: AdmissionStep) -> bool {
        step is Done && self.wait == AdmissionWait::Nothing
    }

    pub open spec fn plan_key(self) -> Seq<char> {
        keys::ownership_plan_key_text(self.prefix@)
    }

    /// It tries once more, or gives up after the last attempt.
    pub open spec fn tries_again(self, before: AdmissionRun, step: AdmissionStep) -> bool {
        if before.attempts >= OWNERSHIP_ADMISSION_ATTEMPTS {
            self.is_failed(step) && step->error == TsoError::CasFailed
        } else {
            &&& step is ListIdentities
            &&& self.wait == AdmissionWait::Identities
            &&& self.attempts == before.attempts + 1
        }
    }

    fn try_again(&mut self) -> (step: AdmissionStep)
        requires
            old(self).valid(),
        ensures
            final(self).valid(),
            final(self).same_task(*old(self)),
            final(self).tries_again(*old(self), step),
    {
        if self.attempts >= OWNERSHIP_ADMISSION_ATTEMPTS {
            self.wait = AdmissionWait::Nothing;
            return AdmissionStep::Failed { error: TsoError::CasFailed };
        }
        self.attempts = self.attempts + 1;
        self.wait = AdmissionWait::Identities;
        AdmissionStep::ListIdentities
    }

    fn fail(&mut self, error: TsoError) -> (step: AdmissionStep)
        requires
            old(self).valid(),
        ensures
            final(self).valid(),
            final(self).same_task(*old(self)),
            final(self).is_failed(step),
            step == (AdmissionStep::Failed { error }),
    {
        self.wait = AdmissionWait::Nothing;
        AdmissionStep::Failed { error }
    }

    /// Begins to join. With one share there is nothing to share out.
    pub fn start(prefix: &str, request: AdmissionRequest) -> (begun: (Self, AdmissionStep))
        ensures
            begun.0.valid(),
            begun.0.prefix@ == prefix@,
            begun.0.request == request,
            if request.modulo <= 1 {
                begun.0.is_done(begun.1)
            } else {
                &&& begun.1 is ListIdentities
                &&& begun.0.wait == AdmissionWait::Identities
                &&& begun.0.attempts == 1
            },
    {
        let mut run = AdmissionRun {
            prefix: prefix.to_owned(),
            request,
            identities: Vec::new(),
            now_ms: 0,
            attempts: 0,
            wait: AdmissionWait::Nothing,
        };
        if run.request.modulo <= 1 {
            return (run, AdmissionStep::Done);
        }
        let step = run.try_again();
        (run, step)
    }

    /// What the identities come to.
    pub open spec fn takes_identities(
        self,
        before: AdmissionRun,
        now_ms: u64,
        listed: Result<Vec<IdentityEntry>, String>,
        step: AdmissionStep,
    ) -> bool {
        match listed {
            Err(report) => self.is_failed(step) && txn::is_reported(
                step->error,
                "Etcd list_identity_leases failed"@,
                report@,
            ),
            Ok(entries) => exists|read: Result<Vec<InstanceIdentityLeaseRecord>, TsoError>|
                #[trigger] identity::reads_identities(entries@, read) && match read {
                    Err(error) => self.is_failed(step) && step->error == error,
                    Ok(identities) => match before.request.identity_fault(identities@) {
                        Some(message) => self.is_failed(step) && step->error.is_internal(message),
                        None => {
                            &&& self.identities@ == identities@
                            &&& self.now_ms == now_ms
                            &&& self.attempts == before.attempts
                            &&& self.wait == AdmissionWait::Plan
                            &&& step matches AdmissionStep::ReadPlan { key }
                            &&& key@ == self.plan_key()
                        },
                    },
                },
        }
    }

    /// What a decision comes to.
    pub open spec fn acts_on(
        self,
        decision: Result<AdmissionDecision, TsoError>,
        step: AdmissionStep,
    ) -> bool {
        let key = encode_utf8(self.plan_key());
        match decision {
            Err(error) => self.is_failed(step) && step->error == error,
            Ok(AdmissionDecision::Settled) => self.is_done(step),
            Ok(AdmissionDecision::Create { record }) => {
                &&& self.wait == AdmissionWait::Created
                &&& step matches AdmissionStep::Commit { txn }
                &&& txn@.conditions == seq![ConditionView::ModRevision { key, revision: 0 }]
                &&& txn@.operations == seq![
                    OperationView::Put {
                        key,
                        value: PayloadView::OwnershipPlan(record),
                        lease: None,
                    },
                ]
            },
            Ok(AdmissionDecision::Replace { record, revision }) => {
                &&& self.wait == AdmissionWait::Replaced
                &&& step matches AdmissionStep::Commit { txn }
                &&& txn@.conditions == seq![
                    ConditionView::ModRevision {
                        key,
                        revision: txn::as_store_revision(revision),
                    },
                ]
                &&& txn@.operations == seq![
                    OperationView::Put {
                        key,
                        value: PayloadView::OwnershipPlan(record),
                        lease: None,
                    },
                ]
            },
        }
    }

    /// What the plan comes to.
    pub open spec fn takes_plan(
        self,
        before: AdmissionRun,
        reply: Result<Option<Found<OwnershipPlanRecord>>, String>,
        step: AdmissionStep,
    ) -> bool {
        exists|found: Result<Option<(OwnershipPlanRecord, u64)>, TsoError>|
            #[trigger] json::looked_up(
                reply,
                "Etcd get_ownership_plan failed"@,
                "Ownership plan record deserialization failed"@,
                found,
            ) && match found {
                Err(error) => self.is_failed(step) && step->error == error,
                Ok(plan) => self.attempts == before.attempts && self.decides(before, plan, step),
            }
    }

    pub open spec fn decides(
        self,
        before: AdmissionRun,
        plan: Option<(OwnershipPlanRecord, u64)>,
        step: AdmissionStep,
    ) -> bool {
        exists|decision: Result<AdmissionDecision, TsoError>|
            #[trigger] self.acts_on(decision, step) && match plan {
                Some((record, revision)) => revises(
                    before.request,
                    before.identities@,
                    record,
                    revision,
                    before.now_ms,
                    decision,
                ),
                None => founds(before.request, before.now_ms, decision),
            }
    }

    /// What the answer to a write comes to: a lost race leads to another attempt.
    pub open spec fn takes_commit(
        self,
        before: AdmissionRun,
        reply: Result<TxnReply, String>,
        step: AdmissionStep,
    ) -> bool {
        if reply matches Ok(answer) && !answer.succeeded {
            self.tries_again(before, step)
        } else if reply matches Ok(answer) && answer.first_put_revision is Some {
            self.is_done(step)
        } else {
            &&& self.is_failed(step)
            &&& match reply {
                Err(report) => txn::is_reported(
                    step->error,
                    if before.wait == AdmissionWait::Created {
                        "Etcd ownership plan create txn failed"@
                    } else {
                        "Etcd ownership plan CAS txn failed"@
                    },
                    report@,
                ),
                Ok(_) => step->error.is_internal(
                    if before.wait == AdmissionWait::Created {
                        "invalid ownership plan create response"@
                    } else {
                        "invalid ownership plan CAS response"@
                    },
                ),
            }
        }
    }

    fn act_on(&mut self, decision: Result<AdmissionDecision, TsoError>) -> (step: AdmissionStep)
        requires
            old(self).valid(),
        ensures
            final(self).valid(),
            final(self).same_task(*old(self)),
            final(self).attempts == old(self).attempts,
            final(self).acts_on(decision, step),
    {
        let key = ownership_plan_key(self.prefix.as_str());
        match decision {
            Err(error) => {
                self.wait = AdmissionWait::Nothing;
                AdmissionStep::Failed { error }
            },
            Ok(AdmissionDecision::Settled) => {
                self.wait = AdmissionWait::Nothing;
                AdmissionStep::Done
            },
            Ok(AdmissionDecision::Create { record }) => {
                self.wait = AdmissionWait::Created;
                AdmissionStep::Commit {
                    txn: guarded(
                        written_at(key.as_str(), 0),
                        put(key.as_str(), Payload::OwnershipPlan(record)),
                    ),
                }
            },
            Ok(AdmissionDecision::Replace { record, revision }) => {
                self.wait = AdmissionWait::Replaced;
                let at: i64 = #[verifier::truncate] (revision as i64);
                AdmissionStep::Commit {
                    txn: guarded(
                        written_at(key.as_str(), at),
                        put(key.as_str(), Payload::OwnershipPlan(record)),
                    ),
                }
            },
        }
    }

    fn take_identities(&mut self, now_ms: u64, listed: Result<Vec<IdentityEntry>, String>) -> (step:
        AdmissionStep)
        requires
            old(self).valid(),
        ensures
            final(self).valid(),
            final(self).same_task(*old(self)),
            final(self).takes_identities(*old(self), now_ms, listed, step),
    {
        let read = active_identity_records(listed);
        match read {
            Err(error) => self.fail(error),
            Ok(identities) => {
                let ghost known = identities;
                assert(listed matches Ok(entries) && identity::reads_identities(
                    entries@,
                    Ok(known),
                ));
                match self.request.check_identities(&identities) {
                    Err(error) => self.fail(error),
                    Ok(()) => {
                        self.identities = identities;
                        self.now_ms = now_ms;
                        self.wait = AdmissionWait::Plan;
                        AdmissionStep::ReadPlan { key: ownership_plan_key(self.prefix.as_str()) }
                    },
                }
            },
        }
    }

    fn take_plan(&mut self, reply: Result<Option<Found<OwnershipPlanRecord>>, String>) -> (step:
        AdmissionStep)
        requires
            old(self).valid(),
        ensures
            final(self).valid(),
            final(self).same_task(*old(self)),
            final(self).takes_plan(*old(self), reply, step),
    {
        let found = record_of(
            reply,
            "Etcd get_ownership_plan failed",
            "Ownership plan record deserialization failed",
        );
        let ghost known = found;
        assert(json::looked_up(
            reply,
            "Etcd get_ownership_plan failed"@,
            "Ownership plan record deserialization failed"@,
            known,
        ));
        match found {
            Err(error) => self.fail(error),
            Ok(plan) => {
                let ghost seen = plan;
                let decision = decide_admission(
                    &self.request,
                    &self.identities,
                    plan,
                    self.now_ms,
                );
                let ghost decided = decision;
                let step = self.act_on(decision);
                assert(self.acts_on(decided, step));
                assert(self.decides(*old(self), seen, step));
                step
            },
        }
    }

    fn take_commit(&mut self, reply: Result<TxnReply, String>) -> (step: AdmissionStep)
        requires
            old(self).valid(),
            old(self).wait == AdmissionWait::Created || old(self).wait == AdmissionWait::Replaced,
        ensures
            final(self).valid(),
            final(self).same_task(*old(self)),
            final(self).takes_commit(*old(self), reply, step),
    {
        let refused = match &reply {
            Ok(answer) => !answer.succeeded,
            Err(_) => false,
        };
        if refused {
            return self.try_again();
        }
        let result = if self.wait == AdmissionWait::Created {
            create_result(
                reply,
                "Etcd ownership plan create txn failed",
                "invalid ownership plan create response",
            )
        } else {
            cas_result(
                reply,
                "Etcd ownership plan CAS txn failed",
                "invalid ownership plan CAS response",
            )
        };
        match result {
            Ok(_) => {
                self.wait = AdmissionWait::Nothing;
                AdmissionStep::Done
            },
            Err(error) => self.fail(error),
        }
    }

    /// Takes a reply and says what to ask for next.
    pub fn on_reply(&mut self, reply: AdmissionReply) -> (step: AdmissionStep)
        requires
            old(self).valid(),
            old(self).awaits(reply),
        ensures
            final(self).valid(),
            final(self).same_task(*old(self)),
            match reply {
                AdmissionReply::Identities { now_ms, listed } => final(self).takes_identities(
                    *old(self),
                    now_ms,
                    listed,
                    step,
                ),
                AdmissionReply::Plan(found) => final(self).takes_plan(*old(self), found, step),
                AdmissionReply::Committed(answer) => final(self).takes_commit(
                    *old(self),
                    answer,
                    step,
                ),
            },
    {
        match reply {
            AdmissionReply::Identities { now_ms, listed } => self.take_identities(now_ms, listed),
            AdmissionReply::Plan(found) => self.take_plan(found),
            AdmissionReply::Committed(answer) => self.take_commit(answer),
        }
    }
}

} // verus!
