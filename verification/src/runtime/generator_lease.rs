//! Generator leases and dedicated claims of a worker.

use dashmap::DashMap;
use vstd::prelude::*;

use crate::error::TsoError;
use crate::metadata::maps;
use crate::runtime::generator::Generator;

verus! {

/// What a worker knows of its lease on a generator.
#[derive(Debug)]
pub struct GeneratorLeaseState {
    pub revision: u64,
    pub owner_instance_id: String,
    pub generator_lease_token: u64,
    pub lease_expire_at_ms: u64,
    pub last_persisted_tso: Option<u64>,
    pub issued_upper_bound: Option<u64>,
}

/// The content of a lease.
pub struct LeaseView {
    pub revision: u64,
    pub owner_instance_id: Seq<char>,
    pub generator_lease_token: u64,
    pub lease_expire_at_ms: u64,
    pub last_persisted_tso: Option<u64>,
    pub issued_upper_bound: Option<u64>,
}

impl View for GeneratorLeaseState {
    type V = LeaseView;

    open spec fn view(&self) -> LeaseView {
        LeaseView {
            revision: self.revision,
            owner_instance_id: self.owner_instance_id@,
            generator_lease_token: self.generator_lease_token,
            lease_expire_at_ms: self.lease_expire_at_ms,
            last_persisted_tso: self.last_persisted_tso,
            issued_upper_bound: self.issued_upper_bound,
        }
    }
}

impl Clone for GeneratorLeaseState {
    fn clone(&self) -> (copy: Self)
        ensures
            copy == *self,
    {
        GeneratorLeaseState {
            revision: self.revision,
            owner_instance_id: self.owner_instance_id.clone(),
            generator_lease_token: self.generator_lease_token,
            lease_expire_at_ms: self.lease_expire_at_ms,
            last_persisted_tso: self.last_persisted_tso,
            issued_upper_bound: self.issued_upper_bound,
        }
    }
}

impl LeaseView {
    /// The lease is held by the owner and has not run out.
    pub open spec fn is_valid_for(self, owner_instance_id: Seq<char>, now_ms: u64) -> bool {
        self.lease_expire_at_ms > now_ms && self.owner_instance_id == owner_instance_id
    }
}

/// A lease is good for the instance that holds it and for no other, up to its expiry and not from
/// then on; what it was good for it was good for before.
pub proof fn leases_are_good_for_their_owner_until_they_expire(
    lease: LeaseView,
    owner: Seq<char>,
    now_ms: u64,
    earlier_ms: u64,
)
    ensures
        lease.is_valid_for(owner, now_ms) <==> owner == lease.owner_instance_id && now_ms
            < lease.lease_expire_at_ms,
        !lease.is_valid_for(lease.owner_instance_id, lease.lease_expire_at_ms),
        lease.is_valid_for(owner, now_ms) && earlier_ms <= now_ms ==> lease.is_valid_for(
            owner,
            earlier_ms,
        ),
{
}

/// The bound under which an owner may issue timestamps of a generator.
pub open spec fn bound_for(
    leases: Map<u32, LeaseView>,
    generator_id: u32,
    owner: Seq<char>,
    now_ms: u64,
) -> Option<u64> {
    if leases.contains_key(generator_id) && leases[generator_id].is_valid_for(owner, now_ms) {
        leases[generator_id].issued_upper_bound
    } else {
        None
    }
}

/// There is a bound only under a lease on just that generator, held by the owner and not expired,
/// and it is the one of that lease.
pub proof fn bounds_come_from_good_leases(
    leases: Map<u32, LeaseView>,
    generator_id: u32,
    owner: Seq<char>,
    now_ms: u64,
)
    ensures
        bound_for(leases, generator_id, owner, now_ms) matches Some(bound) ==> {
            &&& leases.contains_key(generator_id)
            &&& leases[generator_id].owner_instance_id == owner
            &&& leases[generator_id].lease_expire_at_ms > now_ms
            &&& leases[generator_id].issued_upper_bound == Some(bound)
        },
        leases.contains_key(generator_id) && leases[generator_id].owner_instance_id == owner
            && leases[generator_id].lease_expire_at_ms > now_ms ==> bound_for(
            leases,
            generator_id,
            owner,
            now_ms,
        ) == leases[generator_id].issued_upper_bound,
{
}

/// What looking for the generator of a timeline comes to.
pub open spec fn finds_claim(
    claims: Map<u32, Seq<char>>,
    timeline: Seq<char>,
    claimed: Option<u32>,
) -> bool {
    match claimed {
        Some(generator_id) => claims.contains_key(generator_id) && claims[generator_id] == timeline,
        None => forall|id: u32|
            claims.contains_key(id) ==> (#[trigger] claims[id]) != timeline,
    }
}

/// A timeline that claimed a generator is found to have claimed one, and one that it did claim; a
/// timeline that claimed none is not.
pub proof fn claimed_generators_are_found(
    claims: Map<u32, Seq<char>>,
    timeline: Seq<char>,
    claimed: Option<u32>,
    id: u32,
)
    requires
        finds_claim(claims, timeline, claimed),
    ensures
        claims.contains_key(id) && claims[id] == timeline ==> claimed is Some,
        claimed matches Some(found) ==> claims.contains_key(found) && claims[found] == timeline,
{
}

/// What claiming a generator for a timeline comes to.
pub open spec fn claims(
    before: Map<u32, Seq<char>>,
    generator_id: u32,
    timeline: Seq<char>,
    result: Result<bool, TsoError>,
    after: Map<u32, Seq<char>>,
) -> bool {
    if !before.contains_key(generator_id) {
        &&& result == Ok::<bool, TsoError>(true)
        &&& after == before.insert(generator_id, timeline)
    } else {
        &&& after == before
        &&& result == if before[generator_id] == timeline {
            Ok::<bool, TsoError>(false)
        } else {
            Err::<bool, TsoError>(TsoError::GeneratorPoolExhausted)
        }
    }
}

/// What giving a claim up comes to.
pub open spec fn releases(
    before: Map<u32, Seq<char>>,
    generator_id: u32,
    timeline: Seq<char>,
    after: Map<u32, Seq<char>>,
) -> bool {
    after == if before.contains_key(generator_id) && before[generator_id] == timeline {
        before.remove(generator_id)
    } else {
        before
    }
}

/// A generator is claimed by one timeline at a time: a claim succeeds exactly where no other
/// timeline holds the generator, and then this one holds it; a claim that is refused changes
/// nothing, and claims on other generators are never touched.
pub proof fn generators_are_claimed_by_one_timeline(
    before: Map<u32, Seq<char>>,
    generator_id: u32,
    timeline: Seq<char>,
    result: Result<bool, TsoError>,
    after: Map<u32, Seq<char>>,
    other: u32,
)
    requires
        claims(before, generator_id, timeline, result, after),
    ensures
        result is Ok <==> (before.contains_key(generator_id) ==> before[generator_id] == timeline),
        result is Ok ==> after.contains_key(generator_id) && after[generator_id] == timeline,
        result == Ok::<bool, TsoError>(true) <==> !before.contains_key(generator_id),
        result matches Err(error) ==> error is GeneratorPoolExhausted && after == before,
        other != generator_id ==> after.contains_key(other) == before.contains_key(other) && (
        before.contains_key(other) ==> after[other] == before[other]),
{
}

/// A claim that its own timeline gives up is gone, and another timeline may claim the generator; a
/// timeline that does not hold it cannot give it up.
pub proof fn released_generators_can_be_claimed(
    before: Map<u32, Seq<char>>,
    generator_id: u32,
    timeline: Seq<char>,
    after: Map<u32, Seq<char>>,
    other: Seq<char>,
    result: Result<bool, TsoError>,
    last: Map<u32, Seq<char>>,
)
    requires
        before.contains_key(generator_id),
        releases(before, generator_id, timeline, after),
        claims(after, generator_id, other, result, last),
    ensures
        before[generator_id] == timeline ==> !after.contains_key(generator_id) && result == Ok::<
            bool,
            TsoError,
        >(true) && last[generator_id] == other,
        before[generator_id] != timeline ==> after == before,
        forall|id: u32|
            id != generator_id && before.contains_key(id) ==> after.contains_key(id)
                && #[trigger] after[id] == before[id],
{
}

/// What a map of leases holds.
pub uninterp spec fn leases_in(map: DashMap<u32, GeneratorLeaseState>) -> Map<u32, LeaseView>;

/// `DashMap::new`: a map without entries.
#[verifier::external_body]
pub(crate) fn new_leases() -> (map: DashMap<u32, GeneratorLeaseState>)
    ensures
        (leases_in(map) == Map::<u32, LeaseView>::empty()),
{
    DashMap::new()
}

/// `DashMap::get`: a copy of the entry under the id, if there is one.
#[verifier::external_body]
pub(crate) fn get_leases(
    map: &DashMap<u32, GeneratorLeaseState>,
    id: u32,
) -> (entry: Option<GeneratorLeaseState>)
    ensures
        match entry {
            Some(found) => leases_in(*map).contains_key(id) && leases_in(*map)[id] == found@,
            None => !leases_in(*map).contains_key(id),
        },
{
    map.get(&id).map(|entry| entry.value().clone())
}

/// `DashMap::insert`: puts the entry under the id, in place of an older one.
#[verifier::external_body]
pub(crate) fn insert_leases(
    map: &mut DashMap<u32, GeneratorLeaseState>,
    id: u32,
    value: GeneratorLeaseState,
)
    ensures
        leases_in(*final(map)) == leases_in(*old(map)).insert(id, value@),
{
    map.insert(id, value);
}

/// `DashMap::remove`: takes the entry under the id out and says whether there was one.
#[verifier::external_body]
pub(crate) fn remove_leases(map: &mut DashMap<u32, GeneratorLeaseState>, id: u32) -> (removed: bool)
    ensures
        removed == leases_in(*old(map)).contains_key(id),
        leases_in(*final(map)) == leases_in(*old(map)).remove(id),
{
    map.remove(&id).is_some()
}

/// `DashMap::clear`: takes every entry out.
#[verifier::external_body]
pub(crate) fn clear_leases(map: &mut DashMap<u32, GeneratorLeaseState>)
    ensures
        (leases_in(*final(map)) == Map::<u32, LeaseView>::empty()),
{
    map.clear();
}

/// `DashMap::iter`: the ids, each once, in no particular order.
#[verifier::external_body]
pub(crate) fn ids_of_leases(map: &DashMap<u32, GeneratorLeaseState>) -> (ids: Vec<u32>)
    ensures
        maps::lists_ids(ids@, leases_in(*map).dom()),
{
    map.iter().map(|entry| *entry.key()).collect()
}

/// What a map of dedicated claims holds.
pub uninterp spec fn claims_in(map: DashMap<u32, String>) -> Map<u32, Seq<char>>;

/// `DashMap::new`: a map without entries.
#[verifier::external_body]
pub(crate) fn new_claims() -> (map: DashMap<u32, String>)
    ensures
        (claims_in(map) == Map::<u32, Seq<char>>::empty()),
{
    DashMap::new()
}

/// `DashMap::get`: a copy of the entry under the id, if there is one.
#[verifier::external_body]
pub(crate) fn get_claims(map: &DashMap<u32, String>, id: u32) -> (entry: Option<String>)
    ensures
        match entry {
            Some(found) => claims_in(*map).contains_key(id) && claims_in(*map)[id] == found@,
            None => !claims_in(*map).contains_key(id),
        },
{
    map.get(&id).map(|entry| entry.value().clone())
}

/// `DashMap::insert`: puts the entry under the id, in place of an older one.
#[verifier::external_body]
pub(crate) fn insert_claims(map: &mut DashMap<u32, String>, id: u32, value: String)
    ensures
        claims_in(*final(map)) == claims_in(*old(map)).insert(id, value@),
{
    map.insert(id, value);
}

/// `DashMap::remove`: takes the entry under the id out and says whether there was one.
#[verifier::external_body]
pub(crate) fn remove_claims(map: &mut DashMap<u32, String>, id: u32) -> (removed: bool)
    ensures
        removed == claims_in(*old(map)).contains_key(id),
        claims_in(*final(map)) == claims_in(*old(map)).remove(id),
{
    map.remove(&id).is_some()
}

/// `DashMap::clear`: takes every entry out.
#[verifier::external_body]
pub(crate) fn clear_claims(map: &mut DashMap<u32, String>)
    ensures
        (claims_in(*final(map)) == Map::<u32, Seq<char>>::empty()),
{
    map.clear();
}

/// `DashMap::iter`: the ids, each once, in no particular order.
#[verifier::external_body]
pub(crate) fn ids_of_claims(map: &DashMap<u32, String>) -> (ids: Vec<u32>)
    ensures
        maps::lists_ids(ids@, claims_in(*map).dom()),
{
    map.iter().map(|entry| *entry.key()).collect()
}

/// The generators of a worker, its leases on them, and which timeline claims which of them.
pub struct GeneratorRuntimeState {
    pub generators: Vec<Generator>,
    pub leases: DashMap<u32, GeneratorLeaseState>,
    pub dedicated_claims: DashMap<u32, String>,
}

impl GeneratorRuntimeState {
    pub open spec fn lease_entries(self) -> Map<u32, LeaseView> {
        leases_in(self.leases)
    }

    pub open spec fn claim_entries(self) -> Map<u32, Seq<char>> {
        claims_in(self.dedicated_claims)
    }

    /// One generator for each id below the count, at its id.
    pub open spec fn valid(self) -> bool {
        &&& self.generators@.len() <= u32::MAX
        &&& forall|i: int|
            0 <= i < self.generators@.len() ==> (#[trigger] self.generators@[i]).id == i
    }

    pub fn new(max_generators: u32) -> (state: Self)
        ensures
            state.valid(),
            state.generators@.len() == max_generators,
            forall|i: int|
                0 <= i < max_generators ==> (#[trigger] state.generators@[i]).next_index == 0,
            state.lease_entries() == Map::<u32, LeaseView>::empty(),
            state.claim_entries() == Map::<u32, Seq<char>>::empty(),
    {
        let mut generators: Vec<Generator> = Vec::new();
        let mut id: u32 = 0;
        while id < max_generators
            invariant
                id <= max_generators,
                generators@.len() == id,
                forall|i: int|
                    0 <= i < id ==> (#[trigger] generators@[i]).id == i && generators@[i].next_index
                        == 0,
            decreases max_generators - id,
        {
            generators.push(Generator::new(id));
            id = id + 1;
        }
        GeneratorRuntimeState { generators, leases: new_leases(), dedicated_claims: new_claims() }
    }

    pub fn generator_count(&self) -> (count: u32)
        requires
            self.valid(),
        ensures
            count == self.generators@.len(),
    {
        self.generators.len() as u32
    }

    /// The generator with an id.
    pub fn generator(&mut self, generator_id: u32) -> (generator: &mut Generator)
        requires
            generator_id < old(self).generators@.len(),
        ensures
            *generator == old(self).generators@[generator_id as int],
            final(self).generators@ == old(self).generators@.update(
                generator_id as int,
                *final(generator),
            ),
            final(self).leases == old(self).leases,
            final(self).dedicated_claims == old(self).dedicated_claims,
    {
        &mut self.generators[generator_id as usize]
    }

    /// The generators that the worker has a lease on, in no particular order.
    pub fn lease_keys(&self) -> (ids: Vec<u32>)
        ensures
            maps::lists_ids(ids@, self.lease_entries().dom()),
    {
        ids_of_leases(&self.leases)
    }

    pub fn lease_state(&self, generator_id: u32) -> (lease: Option<GeneratorLeaseState>)
        ensures
            match lease {
                Some(found) => self.lease_entries().contains_key(generator_id)
                    && self.lease_entries()[generator_id] == found@,
                None => !self.lease_entries().contains_key(generator_id),
            },
    {
        get_leases(&self.leases, generator_id)
    }

    /// Whether the owner holds the lease on a generator and it has not run out.
    pub fn lease_valid_for_owner(
        &self,
        generator_id: u32,
        owner_instance_id: &str,
        now_ms: u64,
    ) -> (answer: bool)
        ensures
            answer == (self.lease_entries().contains_key(generator_id)
                && self.lease_entries()[generator_id].is_valid_for(owner_instance_id@, now_ms)),
    {
        match get_leases(&self.leases, generator_id) {
            Some(lease) => Self::lease_matches_owner_and_time(&lease, owner_instance_id, now_ms),
            None => false,
        }
    }

    /// Up to which timestamp the owner may issue under a valid lease.
    pub fn valid_lease_upper_bound_for_owner(
        &self,
        generator_id: u32,
        owner_instance_id: &str,
        now_ms: u64,
    ) -> (bound: Option<u64>)
        ensures
            bound == bound_for(self.lease_entries(), generator_id, owner_instance_id@, now_ms),
            bound == if self.lease_entries().contains_key(generator_id)
                && self.lease_entries()[generator_id].is_valid_for(owner_instance_id@, now_ms) {
                self.lease_entries()[generator_id].issued_upper_bound
            } else {
                None
            },
    {
        match get_leases(&self.leases, generator_id) {
            Some(lease) => if Self::lease_matches_owner_and_time(
                &lease,
                owner_instance_id,
                now_ms,
            ) {
                lease.issued_upper_bound
            } else {
                None
            },
            None => None,
        }
    }

    fn lease_matches_owner_and_time(
        lease: &GeneratorLeaseState,
        owner_instance_id: &str,
        now_ms: u64,
    ) -> (answer: bool)
        ensures
            answer == lease@.is_valid_for(owner_instance_id@, now_ms),
    {
        lease.lease_expire_at_ms > now_ms && lease.owner_instance_id == owner_instance_id.to_owned()
    }

    pub fn upsert_lease(&mut self, generator_id: u32, state: GeneratorLeaseState)
        ensures
            final(self).lease_entries() == old(self).lease_entries().insert(generator_id, state@),
            final(self).generators == old(self).generators,
            final(self).dedicated_claims == old(self).dedicated_claims,
    {
        insert_leases(&mut self.leases, generator_id, state);
    }

    pub fn remove_lease(&mut self, generator_id: u32)
        ensures
            final(self).lease_entries() == old(self).lease_entries().remove(generator_id),
            final(self).generators == old(self).generators,
            final(self).dedicated_claims == old(self).dedicated_claims,
    {
        remove_leases(&mut self.leases, generator_id);
    }

    pub fn clear_leases(&mut self)
        ensures
            final(self).lease_entries() == Map::<u32, LeaseView>::empty(),
            final(self).generators == old(self).generators,
            final(self).dedicated_claims == old(self).dedicated_claims,
    {
        clear_leases(&mut self.leases);
    }

    /// A generator that the timeline has claimed, if there is one.
    pub fn claimed_generator_for_timeline(&self, timeline_key: &str) -> (claimed: Option<u32>)
        ensures
            finds_claim(self.claim_entries(), timeline_key@, claimed),
            match claimed {
                Some(generator_id) => self.claim_entries().contains_key(generator_id)
                    && self.claim_entries()[generator_id] == timeline_key@,
                None => forall|id: u32|
                    self.claim_entries().contains_key(id) ==> (#[trigger] self.claim_entries()[id])
                        != timeline_key@,
            },
    {
        let ids = ids_of_claims(&self.dedicated_claims);
        let mut i: usize = 0;
        while i < ids.len()
            invariant
                i <= ids@.len(),
                maps::lists_ids(ids@, self.claim_entries().dom()),
                forall|k: int|
                    0 <= k < i ==> self.claim_entries()[#[trigger] ids@[k]] != timeline_key@,
            decreases ids@.len() - i,
        {
            assert(ids@.contains(ids@[i as int]));
            assert(self.claim_entries().dom().contains(ids@[i as int]));
            if let Some(claimant) = get_claims(&self.dedicated_claims, ids[i]) {
                if claimant == timeline_key.to_owned() {
                    return Some(ids[i]);
                }
            }
            i = i + 1;
        }
        assert forall|id: u32| self.claim_entries().contains_key(id) implies (
        #[trigger] self.claim_entries()[id]) != timeline_key@ by {
            assert(self.claim_entries().dom().contains(id));
            assert(ids@.contains(id));
        }
        None
    }

    /// Claims a generator for a timeline: `Ok(true)` when the claim is new, `Ok(false)` when the
    /// timeline held it already.
    pub fn claim_dedicated(&mut self, generator_id: u32, timeline_key: &str) -> (result: Result<
        bool,
        TsoError,
    >)
        ensures
            final(self).generators == old(self).generators,
            final(self).leases == old(self).leases,
            claims(
                old(self).claim_entries(),
                generator_id,
                timeline_key@,
                result,
                final(self).claim_entries(),
            ),
            if !old(self).claim_entries().contains_key(generator_id) {
                &&& result == Ok::<bool, TsoError>(true)
                &&& final(self).claim_entries() == old(self).claim_entries().insert(
                    generator_id,
                    timeline_key@,
                )
            } else {
                &&& *final(self) == *old(self)
                &&& result == if old(self).claim_entries()[generator_id] == timeline_key@ {
                    Ok::<bool, TsoError>(false)
                } else {
                    Err::<bool, TsoError>(TsoError::GeneratorPoolExhausted)
                }
            },
    {
        match get_claims(&self.dedicated_claims, generator_id) {
            Some(claimant) => {
                if claimant != timeline_key.to_owned() {
                    return Err(TsoError::GeneratorPoolExhausted);
                }
                Ok(false)
            },
            None => {
                insert_claims(&mut self.dedicated_claims, generator_id, timeline_key.to_owned());
                Ok(true)
            },
        }
    }

    /// Gives a claim up; only the timeline that holds it can.
    pub fn release_dedicated(&mut self, generator_id: u32, timeline_key: &str)
        ensures
            final(self).generators == old(self).generators,
            final(self).leases == old(self).leases,
            releases(
                old(self).claim_entries(),
                generator_id,
                timeline_key@,
                final(self).claim_entries(),
            ),
            if old(self).claim_entries().contains_key(generator_id)
                && old(self).claim_entries()[generator_id] == timeline_key@ {
                final(self).claim_entries() == old(self).claim_entries().remove(generator_id)
            } else {
                *final(self) == *old(self)
            },
    {
        if let Some(claimant) = get_claims(&self.dedicated_claims, generator_id) {
            if claimant == timeline_key.to_owned() {
                remove_claims(&mut self.dedicated_claims, generator_id);
            }
        }
    }

    pub fn clear_dedicated_claims(&mut self)
        ensures
            final(self).claim_entries() == Map::<u32, Seq<char>>::empty(),
            final(self).generators == old(self).generators,
            final(self).leases == old(self).leases,
    {
        clear_claims(&mut self.dedicated_claims);
    }
}

} // verus!
