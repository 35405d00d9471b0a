//! The ownership plan: which worker owns which share of the generators.

use std::collections::HashSet;

use vstd::prelude::*;
use vstd::string::*;

use crate::error::{internal, TsoError};
use crate::metadata::types::CURRENT_METADATA_SCHEMA_VERSION;
use crate::text;
use crate::text::{is_blank, push_decimal};

verus! {

broadcast use vstd::std_specs::hash::group_hash_axioms;

/// A worker and the remainder that it owns.
#[derive(Debug, PartialEq, Eq)]
pub struct OwnershipPlanMember {
    pub remainder: u32,
    pub worker_id: String,
    pub advertise_endpoint: String,
}

impl Clone for OwnershipPlanMember {
    fn clone(&self) -> (copy: Self)
        ensures
            copy == *self,
    {
        OwnershipPlanMember {
            remainder: self.remainder,
            worker_id: self.worker_id.clone(),
            advertise_endpoint: self.advertise_endpoint.clone(),
        }
    }
}

impl OwnershipPlanMember {
    /// The two members are the same worker.
    pub open spec fn same_worker(self, other: OwnershipPlanMember) -> bool {
        self.worker_id@ == other.worker_id@ && self.advertise_endpoint@ == other.advertise_endpoint@
    }

    /// The worker is one of the active ones.
    pub open spec fn is_active(self, active: Seq<(String, String)>) -> bool {
        exists|i: int|
            0 <= i < active.len() && (#[trigger] active[i]).0@ == self.worker_id@ && active[i].1@
                == self.advertise_endpoint@
    }
}

#[derive(Debug, PartialEq, Eq)]
pub struct OwnershipPlanRecord {
    pub schema_version: u32,
    pub plan_id: String,
    pub modulo: u32,
    pub members: Vec<OwnershipPlanMember>,
    pub updated_at_ms: u64,
}

pub open spec fn outside_modulo(remainder: u32, modulo: u32) -> Seq<char> {
    "ownership plan member remainder "@ + text::decimal(remainder as nat) + " is outside modulo "@
        + text::decimal(modulo as nat)
}

fn outside_modulo_error(remainder: u32, modulo: u32) -> (error: TsoError)
    ensures
        error.is_internal(outside_modulo(remainder, modulo)),
{
    let mut message = "ownership plan member remainder ".to_owned();
    push_decimal(&mut message, remainder as u64);
    message.append(" is outside modulo ");
    push_decimal(&mut message, modulo as u64);
    TsoError::Internal(message)
}

/// Members are in ascending order of their remainders.
pub open spec fn sorted_by_remainder(members: Seq<OwnershipPlanMember>) -> bool {
    forall|i: int, j: int|
        0 <= i < j < members.len() ==> (#[trigger] members[i]).remainder <= (
        #[trigger] members[j]).remainder
}

/// No two members own the same remainder.
pub open spec fn remainders_distinct(members: Seq<OwnershipPlanMember>) -> bool {
    forall|i: int, j: int|
        0 <= i < j < members.len() ==> (#[trigger] members[i]).remainder != (
        #[trigger] members[j]).remainder
}

/// Some member owns the remainder.
pub open spec fn remainder_taken(members: Seq<OwnershipPlanMember>, remainder: u32) -> bool {
    exists|i: int| 0 <= i < members.len() && (#[trigger] members[i]).remainder == remainder
}

/// What is wrong with the first faulty member from `from` on.
pub open spec fn first_member_fault(
    members: Seq<OwnershipPlanMember>,
    modulo: u32,
    from: int,
) -> Option<Seq<char>>
    decreases members.len() - from,
{
    if from < 0 || from >= members.len() {
        None
    } else if members[from].remainder >= modulo {
        Some(outside_modulo(members[from].remainder, modulo))
    } else if remainder_taken(members.take(from), members[from].remainder) {
        Some(
            "ownership plan contains duplicate remainder "@ + text::decimal(
                members[from].remainder as nat,
            ),
        )
    } else {
        first_member_fault(members, modulo, from + 1)
    }
}

impl OwnershipPlanRecord {
    /// Every remainder lies below the modulo and has one owner.
    pub open spec fn is_integral(self) -> bool {
        &&& !text::blank(self.plan_id@)
        &&& self.modulo > 0
        &&& forall|i: int|
            0 <= i < self.members@.len() ==> (#[trigger] self.members@[i]).remainder < self.modulo
        &&& remainders_distinct(self.members@)
    }

    /// What is wrong with the plan itself.
    pub open spec fn integrity_fault(self) -> Option<Seq<char>> {
        if text::blank(self.plan_id@) {
            Some("ownership plan metadata plan_id must not be blank"@)
        } else if self.modulo == 0 {
            Some("ownership plan metadata modulo must be greater than 0"@)
        } else {
            first_member_fault(self.members@, self.modulo, 0)
        }
    }

    /// What is wrong with the record as it was read.
    pub open spec fn record_fault(self) -> Option<Seq<char>> {
        if self.schema_version != CURRENT_METADATA_SCHEMA_VERSION {
            Some(
                crate::metadata::types::unsupported_schema("ownership plan"@, self.schema_version),
            )
        } else {
            self.integrity_fault()
        }
    }

    /// A member that owns the remainder.
    pub open spec fn holder(self, remainder: u32) -> OwnershipPlanMember {
        let i = choose|i: int|
            0 <= i < self.members@.len() && (#[trigger] self.members@[i]).remainder == remainder;
        self.members@[i]
    }

    /// Why the member cannot be admitted.
    pub open spec fn admission_fault(
        self,
        plan_id: Seq<char>,
        modulo: u32,
        member: OwnershipPlanMember,
    ) -> Option<Seq<char>> {
        if self.record_fault() is Some {
            self.record_fault()
        } else if self.plan_id@ != plan_id {
            Some(
                "ownership plan mismatch: metadata plan_id="@ + self.plan_id@ + " local plan_id="@
                    + plan_id,
            )
        } else if self.modulo != modulo {
            Some(
                "ownership plan modulo mismatch: metadata modulo="@ + text::decimal(
                    self.modulo as nat,
                ) + " local modulo="@ + text::decimal(modulo as nat),
            )
        } else if member.remainder >= self.modulo {
            Some(outside_modulo(member.remainder, self.modulo))
        } else if remainder_taken(self.members@, member.remainder) && !self.holder(
            member.remainder,
        ).same_worker(member) {
            let holder = self.holder(member.remainder);
            Some(
                "ownership plan remainder "@ + text::decimal(holder.remainder as nat)
                    + " is already assigned to worker_id="@ + holder.worker_id@
                    + " advertise_endpoint="@ + holder.advertise_endpoint@,
            )
        } else {
            None
        }
    }

    pub fn new(
        plan_id: String,
        modulo: u32,
        member: OwnershipPlanMember,
        updated_at_ms: u64,
    ) -> (plan: Self)
        ensures
            plan.schema_version == CURRENT_METADATA_SCHEMA_VERSION,
            plan.plan_id == plan_id,
            plan.modulo == modulo,
            plan.members@ == seq![member],
            plan.updated_at_ms == updated_at_ms,
    {
        let mut members: Vec<OwnershipPlanMember> = Vec::new();
        members.push(member);
        assert(members@ =~= seq![member]);
        OwnershipPlanRecord {
            schema_version: CURRENT_METADATA_SCHEMA_VERSION,
            plan_id,
            modulo,
            members,
            updated_at_ms,
        }
    }

    pub fn validate_schema_version(&self) -> (result: Result<(), TsoError>)
        ensures
            result is Ok <==> self.schema_version == CURRENT_METADATA_SCHEMA_VERSION,
            result matches Err(error) ==> error.is_internal(
                crate::metadata::types::unsupported_schema("ownership plan"@, self.schema_version),
            ),
    {
        if self.schema_version == CURRENT_METADATA_SCHEMA_VERSION {
            Ok(())
        } else {
            let mut message = "unsupported ".to_owned();
            message.append("ownership plan");
            message.append(" metadata schema_version ");
            push_decimal(&mut message, self.schema_version as u64);
            Err(TsoError::Internal(message))
        }
    }

    pub fn validate_integrity(&self) -> (result: Result<(), TsoError>)
        ensures
            match self.integrity_fault() {
                None => result is Ok && self.is_integral(),
                Some(message) => result matches Err(error) && error.is_internal(message),
            },
    {
        if is_blank(self.plan_id.as_str()) {
            return Err(internal("ownership plan metadata plan_id must not be blank"));
        }
        if self.modulo == 0 {
            return Err(internal("ownership plan metadata modulo must be greater than 0"));
        }
        let mut remainders: HashSet<u32> = HashSet::new();
        let mut i: usize = 0;
        while i < self.members.len()
            invariant
                i <= self.members@.len(),
                forall|r: u32|
                    remainders@.contains(r) <==> #[trigger] remainder_taken(
                        self.members@.take(i as int),
                        r,
                    ),
                first_member_fault(self.members@, self.modulo, 0) == first_member_fault(
                    self.members@,
                    self.modulo,
                    i as int,
                ),
                forall|k: int|
                    0 <= k < i ==> (#[trigger] self.members@[k]).remainder < self.modulo,
                remainders_distinct(self.members@.take(i as int)),
                !text::blank(self.plan_id@),
                self.modulo > 0,
            decreases self.members@.len() - i,
        {
            let remainder: u32 = self.members[i].remainder;
            if remainder >= self.modulo {
                return Err(outside_modulo_error(remainder, self.modulo));
            }
            let ghost before = self.members@.take(i as int);
            let ghost after = self.members@.take(i + 1);
            assert(after =~= before.push(self.members@[i as int]));
            if !remainders.insert(remainder) {
                let mut message = "ownership plan contains duplicate remainder ".to_owned();
                push_decimal(&mut message, remainder as u64);
                return Err(TsoError::Internal(message));
            }
            assert(!remainder_taken(before, remainder));
            assert forall|r: u32|
                remainders@.contains(r) <==> #[trigger] remainder_taken(after, r) by {
                if remainder_taken(before, r) {
                    let k = choose|k: int|
                        0 <= k < before.len() && (#[trigger] before[k]).remainder == r;
                    assert(after[k].remainder == r);
                }
                if r == remainder {
                    assert(after[i as int].remainder == r);
                }
                if remainder_taken(after, r) && r != remainder {
                    let k = choose|k: int|
                        0 <= k < after.len() && (#[trigger] after[k]).remainder == r;
                    assert(before[k].remainder == r);
                }
            }
            assert(remainders_distinct(after)) by {
                assert forall|a: int, b: int| 0 <= a < b < after.len() implies (
                #[trigger] after[a]).remainder != (#[trigger] after[b]).remainder by {
                    assert(before[a].remainder == after[a].remainder);
                    if b < i {
                        assert(before[b].remainder == after[b].remainder);
                    }
                }
            }
            i = i + 1;
        }
        assert(self.members@.take(i as int) =~= self.members@);
        Ok(())
    }

    /// Schema first, then integrity.
    fn validate(&self) -> (result: Result<(), TsoError>)
        ensures
            match self.record_fault() {
                None => result is Ok && self.is_integral(),
                Some(message) => result matches Err(error) && error.is_internal(message),
            },
    {
        match self.validate_schema_version() {
            Ok(()) => self.validate_integrity(),
            Err(error) => Err(error),
        }
    }

    /// Admits a member: `Ok(true)` when it joined, `Ok(false)` when it was there already.
    pub fn admit_member(
        &mut self,
        expected_plan_id: &str,
        expected_modulo: u32,
        member: OwnershipPlanMember,
        updated_at_ms: u64,
    ) -> (result: Result<bool, TsoError>)
        ensures
            admits(
                *old(self),
                expected_plan_id@,
                expected_modulo,
                member,
                updated_at_ms,
                result,
                *final(self),
            ),
    {
        match self.validate() {
            Ok(()) => {},
            Err(error) => {
                return Err(error);
            },
        }
        if self.plan_id != expected_plan_id.to_owned() {
            let mut message = "ownership plan mismatch: metadata plan_id=".to_owned();
            message.append(self.plan_id.as_str());
            message.append(" local plan_id=");
            message.append(expected_plan_id);
            return Err(TsoError::Internal(message));
        }
        if self.modulo != expected_modulo {
            let mut message = "ownership plan modulo mismatch: metadata modulo=".to_owned();
            push_decimal(&mut message, self.modulo as u64);
            message.append(" local modulo=");
            push_decimal(&mut message, expected_modulo as u64);
            return Err(TsoError::Internal(message));
        }
        if member.remainder >= self.modulo {
            return Err(outside_modulo_error(member.remainder, self.modulo));
        }
        let mut i: usize = 0;
        while i < self.members.len()
            invariant
                *self == *old(self),
                i <= self.members@.len(),
                forall|k: int|
                    0 <= k < i ==> (#[trigger] self.members@[k]).remainder != member.remainder,
                self.is_integral(),
                self.record_fault() is None,
                self.plan_id@ == expected_plan_id@,
                self.modulo == expected_modulo,
                member.remainder < self.modulo,
            decreases self.members@.len() - i,
        {
            if self.members[i].remainder == member.remainder {
                assert(self.holder(member.remainder) == self.members@[i as int]) by {
                    let k = choose|k: int|
                        0 <= k < self.members@.len() && (#[trigger] self.members@[k]).remainder
                            == member.remainder;
                    assert(self.members@[i as int].remainder == member.remainder);
                    assert(k == i);
                }
                if self.members[i].worker_id == member.worker_id
                    && self.members[i].advertise_endpoint == member.advertise_endpoint {
                    return Ok(false);
                }
                let mut message = "ownership plan remainder ".to_owned();
                push_decimal(&mut message, self.members[i].remainder as u64);
                message.append(" is already assigned to worker_id=");
                message.append(self.members[i].worker_id.as_str());
                message.append(" advertise_endpoint=");
                message.append(self.members[i].advertise_endpoint.as_str());
                return Err(TsoError::Internal(message));
            }
            i = i + 1;
        }
        let ghost before = self.members@;
        self.members.push(member);
        let ghost pushed = self.members@;
        proof {
            assert(pushed == before.push(member));
            assert(remainders_distinct(pushed));
        }
        sort_members(&mut self.members);
        self.updated_at_ms = updated_at_ms;
        proof {
            lemma_permuted_members(pushed, self.members@, self.modulo);
        }
        Ok(true)
    }

    /// Takes over an empty plan under a new identity: `Ok(true)` when it changed.
    pub fn replace_if_empty(
        &mut self,
        expected_plan_id: &str,
        expected_modulo: u32,
        updated_at_ms: u64,
    ) -> (result: Result<bool, TsoError>)
        ensures
            replaces(
                *old(self),
                expected_plan_id@,
                expected_modulo,
                updated_at_ms,
                result,
                *final(self),
            ),
    {
        match self.validate() {
            Ok(()) => {},
            Err(error) => {
                return Err(error);
            },
        }
        if self.members.len() > 0 || (self.plan_id == expected_plan_id.to_owned() && self.modulo
            == expected_modulo) {
            return Ok(false);
        }
        self.plan_id = expected_plan_id.to_owned();
        self.modulo = expected_modulo;
        self.updated_at_ms = updated_at_ms;
        Ok(true)
    }

    /// Drops the members that are not active and says how many were dropped.
    pub fn prune_inactive_members(
        &mut self,
        active_members: &Vec<(String, String)>,
        updated_at_ms: u64,
    ) -> (result: Result<usize, TsoError>)
        ensures
            prunes(*old(self), active_members@, updated_at_ms, result, *final(self)),
    {
        match self.validate() {
            Ok(()) => {},
            Err(error) => {
                return Err(error);
            },
        }
        let ghost keeps = |member: OwnershipPlanMember| member.is_active(active_members@);
        let mut kept: Vec<OwnershipPlanMember> = Vec::new();
        let mut i: usize = 0;
        assert(self.members@.take(0).filter(keeps) =~= Seq::empty()) by {
            reveal(Seq::filter);
        }
        while i < self.members.len()
            invariant
                *self == *old(self),
                i <= self.members@.len(),
                keeps == (|member: OwnershipPlanMember| member.is_active(active_members@)),
                kept@ == self.members@.take(i as int).filter(keeps),
                kept@.len() <= i,
            decreases self.members@.len() - i,
        {
            let active = member_is_active(&self.members[i], active_members);
            assert(self.members@.take(i + 1).filter(keeps) == if active {
                kept@.push(self.members@[i as int])
            } else {
                kept@
            }) by {
                reveal(Seq::filter);
                assert(self.members@.take(i + 1).drop_last() =~= self.members@.take(i as int));
            }
            if active {
                kept.push(self.members[i].clone());
            }
            i = i + 1;
        }
        assert(self.members@.take(i as int) =~= self.members@);
        let pruned: usize = self.members.len() - kept.len();
        self.members = kept;
        if pruned > 0 {
            self.updated_at_ms = updated_at_ms;
        }
        Ok(pruned)
    }
}

fn member_is_active(member: &OwnershipPlanMember, active: &Vec<(String, String)>) -> (answer: bool)
    ensures
        answer == member.is_active(active@),
{
    let mut i: usize = 0;
    while i < active.len()
        invariant
            i <= active@.len(),
            forall|k: int|
                0 <= k < i ==> !((#[trigger] active@[k]).0@ == member.worker_id@ && active@[k].1@
                    == member.advertise_endpoint@),
        decreases active@.len() - i,
    {
        if active[i].0 == member.worker_id && active[i].1 == member.advertise_endpoint {
            return true;
        }
        i = i + 1;
    }
    false
}

/// Puts members into ascending order of their remainders.
fn sort_members(members: &mut Vec<OwnershipPlanMember>)
    ensures
        final(members)@.to_multiset() == old(members)@.to_multiset(),
        sorted_by_remainder(final(members)@),
{
    let mut sorted: Vec<OwnershipPlanMember> = Vec::new();
    let mut i: usize = 0;
    proof {
        members@.to_multiset_ensures();
        assert(members@.take(0) =~= sorted@);
    }
    while i < members.len()
        invariant
            *members == *old(members),
            i <= members@.len(),
            sorted@.len() == i,
            sorted@.to_multiset() == members@.take(i as int).to_multiset(),
            sorted_by_remainder(sorted@),
        decreases members@.len() - i,
    {
        let member = members[i].clone();
        let mut at: usize = sorted.len();
        while at > 0 && sorted[at - 1].remainder > member.remainder
            invariant
                at <= sorted@.len(),
                forall|k: int|
                    at <= k < sorted@.len() ==> (#[trigger] sorted@[k]).remainder
                        > member.remainder,
            decreases at,
        {
            at = at - 1;
        }
        proof {
            sorted@.to_multiset_ensures();
            assert(members@.take(i + 1) =~= members@.take(i as int).push(members@[i as int]));
            members@.take(i as int).to_multiset_ensures();
        }
        let ghost before = sorted@;
        sorted.insert(at, member);
        proof {
            crate::seqs::lemma_insert_multiset(before, at as int, member);
            assert(sorted@ == before.insert(at as int, member));
            assert forall|a: int, b: int| 0 <= a < b < sorted@.len() implies (
            #[trigger] sorted@[a]).remainder <= (#[trigger] sorted@[b]).remainder by {
                if a < at && at > 0 {
                    assert(before[a].remainder <= before[at - 1].remainder);
                }
            }
        }
        i = i + 1;
    }
    assert(members@.take(i as int) =~= members@);
    *members = sorted;
}

/// Reordering members keeps them distinct and below the modulo.
proof fn lemma_permuted_members(
    before: Seq<OwnershipPlanMember>,
    after: Seq<OwnershipPlanMember>,
    modulo: u32,
)
    requires
        before.to_multiset() == after.to_multiset(),
        remainders_distinct(before),
        forall|i: int| 0 <= i < before.len() ==> (#[trigger] before[i]).remainder < modulo,
    ensures
        remainders_distinct(after),
        forall|i: int| 0 <= i < after.len() ==> (#[trigger] after[i]).remainder < modulo,
{
    before.to_multiset_ensures();
    after.to_multiset_ensures();
    assert forall|i: int| 0 <= i < after.len() implies (#[trigger] after[i]).remainder
        < modulo by {
        assert(after.to_multiset().contains(after[i]));
        assert(before.contains(after[i]));
    }
    assert(before.no_duplicates()) by {
        assert forall|i: int, j: int| 0 <= i < before.len() && 0 <= j < before.len() && i
            != j implies before[i] != before[j] by {
            if i < j {
                assert(before[i].remainder != before[j].remainder);
            } else {
                assert(before[j].remainder != before[i].remainder);
            }
        }
    }
    before.lemma_multiset_has_no_duplicates();
    assert forall|i: int, j: int| 0 <= i < j < after.len() implies (
    #[trigger] after[i]).remainder != (#[trigger] after[j]).remainder by {
        assert(after.to_multiset().contains(after[i]));
        assert(after.to_multiset().contains(after[j]));
        let a = choose|a: int| 0 <= a < before.len() && before[a] == after[i];
        let b = choose|b: int| 0 <= b < before.len() && before[b] == after[j];
        assert(before.contains(after[i]) && before.contains(after[j]));
        if a == b {
            assert(after[i] == after[j]);
            after.lemma_multiset_has_no_duplicates_conv();
        } else if a < b {
            assert(before[a].remainder != before[b].remainder);
        } else {
            assert(before[b].remainder != before[a].remainder);
        }
    }
}

proof fn lemma_no_member_fault(members: Seq<OwnershipPlanMember>, modulo: u32, from: int)
    requires
        0 <= from <= members.len(),
        remainders_distinct(members),
        forall|i: int| 0 <= i < members.len() ==> (#[trigger] members[i]).remainder < modulo,
    ensures
        first_member_fault(members, modulo, from) is None,
    decreases members.len() - from,
{
    if from < members.len() {
        assert(!remainder_taken(members.take(from), members[from].remainder)) by {
            if remainder_taken(members.take(from), members[from].remainder) {
                let i = choose|i: int|
                    0 <= i < members.take(from).len() && (#[trigger] members.take(
                        from,
                    )[i]).remainder == members[from].remainder;
                assert(members[i].remainder == members[from].remainder);
            }
        }
        lemma_no_member_fault(members, modulo, from + 1);
    }
}

/// What admitting a member comes to.
pub open spec fn admits(
    before: OwnershipPlanRecord,
    expected_plan_id: Seq<char>,
    expected_modulo: u32,
    member: OwnershipPlanMember,
    updated_at_ms: u64,
    result: Result<bool, TsoError>,
    after: OwnershipPlanRecord,
) -> bool {
    match before.admission_fault(expected_plan_id, expected_modulo, member) {
        Some(message) => {
            &&& result matches Err(error) && error.is_internal(message)
            &&& after == before
        },
        None => if remainder_taken(before.members@, member.remainder) {
            &&& result matches Ok(joined) && !joined
            &&& after == before
        } else {
            &&& result matches Ok(joined) && joined
            &&& after.members@.to_multiset() == before.members@.push(
                member,
            ).to_multiset()
            &&& sorted_by_remainder(after.members@)
            &&& after.schema_version == before.schema_version
            &&& after.plan_id == before.plan_id
            &&& after.modulo == before.modulo
            &&& after.updated_at_ms == updated_at_ms
            &&& after.is_integral()
        },
    }
}

/// What taking over an empty plan comes to.
pub open spec fn replaces(
    before: OwnershipPlanRecord,
    expected_plan_id: Seq<char>,
    expected_modulo: u32,
    updated_at_ms: u64,
    result: Result<bool, TsoError>,
    after: OwnershipPlanRecord,
) -> bool {
    match before.record_fault() {
        Some(message) => {
            &&& result matches Err(error) && error.is_internal(message)
            &&& after == before
        },
        None => if before.members@.len() > 0 || (before.plan_id@ == expected_plan_id
            && before.modulo == expected_modulo) {
            &&& result matches Ok(replaced) && !replaced
            &&& after == before
        } else {
            &&& result matches Ok(replaced) && replaced
            &&& after.plan_id@ == expected_plan_id
            &&& after.modulo == expected_modulo
            &&& after.updated_at_ms == updated_at_ms
            &&& after.members@.len() == 0
            &&& after.schema_version == before.schema_version
        },
    }
}

/// What dropping the members that are not active comes to.
pub open spec fn prunes(
    before: OwnershipPlanRecord,
    active_members: Seq<(String, String)>,
    updated_at_ms: u64,
    result: Result<usize, TsoError>,
    after: OwnershipPlanRecord,
) -> bool {
    match before.record_fault() {
        Some(message) => {
            &&& result matches Err(error) && error.is_internal(message)
            &&& after == before
        },
        None => {
            let kept = before.members@.filter(
                |member: OwnershipPlanMember| member.is_active(active_members),
            );
            &&& result matches Ok(pruned) && pruned == before.members@.len()
                - kept.len()
            &&& after.members@ == kept
            &&& after.updated_at_ms == if kept.len() < before.members@.len() {
                updated_at_ms
            } else {
                before.updated_at_ms
            }
            &&& after.schema_version == before.schema_version
            &&& after.plan_id == before.plan_id
            &&& after.modulo == before.modulo
        },
    }
}

/// An integral plan has no fault.
pub proof fn integral_plans_have_no_fault(plan: OwnershipPlanRecord)
    requires
        plan.is_integral(),
    ensures
        plan.integrity_fault() is None,
{
    lemma_no_member_fault(plan.members@, plan.modulo, 0);
}

/// A plan without a fault is integral.
pub proof fn faultless_plans_are_integral(plan: OwnershipPlanRecord)
    requires
        plan.integrity_fault() is None,
    ensures
        plan.is_integral(),
{
    lemma_no_fault_from(plan.members@, plan.modulo, 0);
}

proof fn lemma_no_fault_from(members: Seq<OwnershipPlanMember>, modulo: u32, from: int)
    requires
        0 <= from <= members.len(),
        first_member_fault(members, modulo, from) is None,
    ensures
        forall|i: int| from <= i < members.len() ==> (#[trigger] members[i]).remainder < modulo,
        forall|i: int, j: int|
            0 <= i < j < members.len() && from <= j ==> (#[trigger] members[i]).remainder != (
            #[trigger] members[j]).remainder,
    decreases members.len() - from,
{
    if from < members.len() {
        lemma_no_fault_from(members, modulo, from + 1);
        assert forall|i: int, j: int| 0 <= i < j < members.len() && from <= j implies (
        #[trigger] members[i]).remainder != (#[trigger] members[j]).remainder by {
            if j == from {
                assert(members.take(from)[i].remainder == members[i].remainder);
            }
        }
    }
}

/// Admitting a worker that already holds its remainder is never refused and changes nothing.
pub proof fn admission_is_idempotent(plan: OwnershipPlanRecord, member: OwnershipPlanMember, i: int)
    requires
        plan.schema_version == CURRENT_METADATA_SCHEMA_VERSION,
        plan.is_integral(),
        0 <= i < plan.members@.len(),
        plan.members@[i].remainder == member.remainder,
        plan.members@[i].same_worker(member),
    ensures
        plan.admission_fault(plan.plan_id@, plan.modulo, member) is None,
        remainder_taken(plan.members@, member.remainder),
{
    integral_plans_have_no_fault(plan);
    assert(remainder_taken(plan.members@, member.remainder));
    let k = choose|k: int|
        0 <= k < plan.members@.len() && (#[trigger] plan.members@[k]).remainder
            == member.remainder;
    assert(k == i);
}

/// A remainder with an owner is refused to every other worker.
pub proof fn owned_remainders_are_refused_to_others(
    plan: OwnershipPlanRecord,
    member: OwnershipPlanMember,
    i: int,
)
    requires
        plan.is_integral(),
        0 <= i < plan.members@.len(),
        plan.members@[i].remainder == member.remainder,
        !plan.members@[i].same_worker(member),
    ensures
        plan.admission_fault(plan.plan_id@, plan.modulo, member) is Some,
{
    integral_plans_have_no_fault(plan);
    assert(remainder_taken(plan.members@, member.remainder));
    let k = choose|k: int|
        0 <= k < plan.members@.len() && (#[trigger] plan.members@[k]).remainder
            == member.remainder;
    assert(k == i);
}

/// A worker is admitted exactly to the plan that it means, with a share below the modulo that no
/// other worker owns. It then owns the share, every other member stays, and there is one member more
/// exactly where it was not there before. A refusal changes nothing.
pub proof fn admitted_workers_own_their_share(
    before: OwnershipPlanRecord,
    plan_id: Seq<char>,
    modulo: u32,
    member: OwnershipPlanMember,
    now_ms: u64,
    result: Result<bool, TsoError>,
    after: OwnershipPlanRecord,
    other: OwnershipPlanMember,
)
    requires
        before.schema_version == CURRENT_METADATA_SCHEMA_VERSION,
        before.is_integral(),
        admits(before, plan_id, modulo, member, now_ms, result, after),
    ensures
        result is Ok <==> {
            &&& before.plan_id@ == plan_id
            &&& before.modulo == modulo
            &&& member.remainder < modulo
            &&& forall|i: int|
                0 <= i < before.members@.len() && (#[trigger] before.members@[i]).remainder
                    == member.remainder ==> before.members@[i].worker_id@ == member.worker_id@
                    && before.members@[i].advertise_endpoint@ == member.advertise_endpoint@
        },
        result is Ok ==> exists|i: int|
            0 <= i < after.members@.len() && (#[trigger] after.members@[i]).remainder
                == member.remainder && after.members@[i].worker_id@ == member.worker_id@
                && after.members@[i].advertise_endpoint@ == member.advertise_endpoint@,
        before.members@.contains(other) ==> after.members@.contains(other),
        after.members@.contains(other) ==> before.members@.contains(other) || other == member,
        after.members@.len() == before.members@.len() + if result == Ok::<bool, TsoError>(true) {
            1int
        } else {
            0
        },
        result == Ok::<bool, TsoError>(true) ==> forall|i: int|
            0 <= i < before.members@.len() ==> (#[trigger] before.members@[i]).remainder
                != member.remainder,
        result != Ok::<bool, TsoError>(true) ==> after == before,
        after.plan_id == before.plan_id,
        after.modulo == before.modulo,
        result == Ok::<bool, TsoError>(true) ==> after.updated_at_ms == now_ms,
{
    integral_plans_have_no_fault(before);
    broadcast use vstd::seq_lib::group_to_multiset_ensures;

    let taken = remainder_taken(before.members@, member.remainder);
    if taken {
        let holder = before.holder(member.remainder);
        let i = choose|i: int|
            0 <= i < before.members@.len() && (#[trigger] before.members@[i]).remainder
                == member.remainder;
        assert(before.members@[i] == holder);
        assert forall|j: int|
            0 <= j < before.members@.len() && (#[trigger] before.members@[j]).remainder
                == member.remainder implies j == i by {
            if i < j {
                assert(before.members@[i].remainder != before.members@[j].remainder);
            } else if j < i {
                assert(before.members@[j].remainder != before.members@[i].remainder);
            }
        }
    } else {
        let all = before.members@.push(member);
        if after != before {
            assert(all[before.members@.len() as int] == member);
            assert(all.contains(member));
            assert(after.members@.to_multiset().contains(member));
            assert(after.members@.contains(member));
            let k = choose|k: int| 0 <= k < after.members@.len() && after.members@[k] == member;
            assert(after.members@[k].remainder == member.remainder);
            if before.members@.contains(other) {
                let j = choose|j: int|
                    0 <= j < before.members@.len() && before.members@[j] == other;
                assert(all[j] == other);
                assert(after.members@.to_multiset().contains(other));
            }
            if after.members@.contains(other) {
                assert(after.members@.to_multiset().contains(other));
                assert(all.contains(other));
                let j = choose|j: int| 0 <= j < all.len() && all[j] == other;
                if j < before.members@.len() {
                    assert(before.members@[j] == other);
                }
            }
            assert(after.members@.to_multiset().len() == all.to_multiset().len());
        }
    }
}

/// Pruning drops the members whose worker is not among the active ones, all of them and no others,
/// and says how many they were; who the plan belongs to stays.
pub proof fn pruning_drops_just_the_inactive(
    before: OwnershipPlanRecord,
    active: Seq<(String, String)>,
    now_ms: u64,
    result: Result<usize, TsoError>,
    after: OwnershipPlanRecord,
    i: int,
)
    requires
        before.schema_version == CURRENT_METADATA_SCHEMA_VERSION,
        before.is_integral(),
        prunes(before, active, now_ms, result, after),
        0 <= i < before.members@.len(),
    ensures
        result matches Ok(dropped) && after.members@.len() == before.members@.len() - dropped,
        after.members@.contains(before.members@[i]) <==> exists|k: int|
            0 <= k < active.len() && (#[trigger] active[k]).0@ == before.members@[i].worker_id@
                && active[k].1@ == before.members@[i].advertise_endpoint@,
        after.plan_id == before.plan_id,
        after.modulo == before.modulo,
        result != Ok::<usize, TsoError>(0) ==> after.updated_at_ms == now_ms,
        result == Ok::<usize, TsoError>(0) ==> after.updated_at_ms == before.updated_at_ms,
{
    integral_plans_have_no_fault(before);
    let keeps = |member: OwnershipPlanMember| member.is_active(active);
    let one = before.members@[i];
    if keeps(one) {
        before.members@.lemma_filter_contains(keeps, i);
    }
    if after.members@.contains(one) {
        let k = choose|k: int| 0 <= k < after.members@.len() && after.members@[k] == one;
        before.members@.lemma_filter_pred(keeps, k);
        assert(keeps(after.members@[k]));
    }
}

/// A plan changes hands only where nobody is in it: a plan with members stays what it is, and an
/// empty one becomes the plan that is meant.
pub proof fn plans_with_members_keep_their_name(
    before: OwnershipPlanRecord,
    plan_id: Seq<char>,
    modulo: u32,
    now_ms: u64,
    result: Result<bool, TsoError>,
    after: OwnershipPlanRecord,
)
    requires
        before.schema_version == CURRENT_METADATA_SCHEMA_VERSION,
        before.is_integral(),
        replaces(before, plan_id, modulo, now_ms, result, after),
    ensures
        result is Ok,
        before.members@.len() > 0 ==> after == before && result == Ok::<bool, TsoError>(false),
        before.members@.len() == 0 ==> after.plan_id@ == plan_id && after.modulo == modulo
            && after.members@.len() == 0,
        result == Ok::<bool, TsoError>(true) <==> before.members@.len() == 0 && (before.plan_id@
            != plan_id || before.modulo != modulo),
{
    integral_plans_have_no_fault(before);
}

/// A plan that only lost members is still integral.
pub proof fn pruning_keeps_plans_integral(
    before: OwnershipPlanRecord,
    after: OwnershipPlanRecord,
    active: Seq<(String, String)>,
)
    requires
        before.is_integral(),
        after.plan_id == before.plan_id,
        after.modulo == before.modulo,
        after.members@ == before.members@.filter(
            |member: OwnershipPlanMember| member.is_active(active),
        ),
    ensures
        after.is_integral(),
        forall|i: int|
            0 <= i < after.members@.len() ==> (#[trigger] after.members@[i]).is_active(active)
                && before.members@.contains(after.members@[i]),
{
    lemma_filtered_members(
        before.members@,
        |member: OwnershipPlanMember| member.is_active(active),
        before.modulo,
    );
}

proof fn lemma_filtered_members(
    members: Seq<OwnershipPlanMember>,
    keeps: spec_fn(OwnershipPlanMember) -> bool,
    modulo: u32,
)
    requires
        remainders_distinct(members),
        forall|i: int| 0 <= i < members.len() ==> (#[trigger] members[i]).remainder < modulo,
    ensures
        remainders_distinct(members.filter(keeps)),
        forall|i: int|
            0 <= i < members.filter(keeps).len() ==> {
                let kept = #[trigger] members.filter(keeps)[i];
                keeps(kept) && kept.remainder < modulo && members.contains(kept)
            },
    decreases members.len(),
{
    reveal(Seq::filter);
    if members.len() > 0 {
        let shorter = members.drop_last();
        let kept = members.filter(keeps);
        assert(forall|i: int| 0 <= i < shorter.len() ==> #[trigger] shorter[i] == members[i]);
        lemma_filtered_members(shorter, keeps, modulo);
        let kept_before = shorter.filter(keeps);
        assert forall|i: int| 0 <= i < kept.len() implies keeps(#[trigger] kept[i])
            && kept[i].remainder < modulo && members.contains(kept[i]) by {
            if i < kept_before.len() {
                assert(kept[i] == kept_before[i]);
                let k = choose|k: int| 0 <= k < shorter.len() && shorter[k] == kept_before[i];
                assert(members[k] == kept[i]);
            } else {
                assert(kept[i] == members.last());
            }
        }
        assert forall|i: int, j: int| 0 <= i < j < kept.len() implies (
        #[trigger] kept[i]).remainder != (#[trigger] kept[j]).remainder by {
            assert(kept[i] == kept_before[i]);
            if j < kept_before.len() {
                assert(kept[j] == kept_before[j]);
            } else {
                let k = choose|k: int| 0 <= k < shorter.len() && shorter[k] == kept_before[i];
                assert(members[k].remainder != members[members.len() - 1].remainder);
            }
        }
    }
}

/// A plan of another schema, or one that is not integral, is left as it is: nobody joins it, nobody
/// takes it over and no member leaves it.
pub proof fn broken_plans_are_left_alone(
    before: OwnershipPlanRecord,
    plan_id: Seq<char>,
    modulo: u32,
    member: OwnershipPlanMember,
    active: Seq<(String, String)>,
    now_ms: u64,
    joined: Result<bool, TsoError>,
    after_joining: OwnershipPlanRecord,
    taken: Result<bool, TsoError>,
    after_taking: OwnershipPlanRecord,
    pruned: Result<usize, TsoError>,
    after_pruning: OwnershipPlanRecord,
)
    requires
        before.schema_version != 1 || !before.is_integral(),
        admits(before, plan_id, modulo, member, now_ms, joined, after_joining),
        replaces(before, plan_id, modulo, now_ms, taken, after_taking),
        prunes(before, active, now_ms, pruned, after_pruning),
    ensures
        joined is Err && after_joining == before,
        taken is Err && after_taking == before,
        pruned is Err && after_pruning == before,
{
    if before.schema_version == 1 && before.integrity_fault() is None {
        faultless_plans_are_integral(before);
    }
}

/// Whatever is done about a plan keeps its schema, and a change is noted with its time.
pub proof fn plans_keep_their_schema(
    before: OwnershipPlanRecord,
    plan_id: Seq<char>,
    modulo: u32,
    member: OwnershipPlanMember,
    active: Seq<(String, String)>,
    now_ms: u64,
    joined: Result<bool, TsoError>,
    after_joining: OwnershipPlanRecord,
    taken: Result<bool, TsoError>,
    after_taking: OwnershipPlanRecord,
    pruned: Result<usize, TsoError>,
    after_pruning: OwnershipPlanRecord,
)
    requires
        admits(before, plan_id, modulo, member, now_ms, joined, after_joining),
        replaces(before, plan_id, modulo, now_ms, taken, after_taking),
        prunes(before, active, now_ms, pruned, after_pruning),
    ensures
        after_joining.schema_version == before.schema_version,
        after_taking.schema_version == before.schema_version,
        after_pruning.schema_version == before.schema_version,
        joined == Ok::<bool, TsoError>(true) ==> after_joining.updated_at_ms == now_ms,
        taken == Ok::<bool, TsoError>(true) ==> after_taking.updated_at_ms == now_ms,
        pruned matches Ok(count) && count > 0 ==> after_pruning.updated_at_ms == now_ms,
        pruned == Ok::<usize, TsoError>(0) ==> after_pruning.updated_at_ms == before.updated_at_ms,
        after_pruning.plan_id@ == before.plan_id@,
        after_pruning.modulo == before.modulo,
        after_joining.plan_id@ == before.plan_id@,
        after_joining.modulo == before.modulo,
{
}

} // verus!
