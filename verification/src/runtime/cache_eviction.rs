//! The timeline cache: at most a given number of timelines, the idle ones evicted first.
//!
//! A timeline is known here by the handle that its owner gave it. Which handles are in use at the
//! moment is told at each call that may have to evict.

use std::collections::HashSet;

use dashmap::DashMap;
use vstd::hash_map::StringHashMap;
use vstd::prelude::*;

use crate::error::TsoError;
use crate::runtime::cache_maps;
use crate::runtime::cache_maps::{
    clear_cached, get_cached, insert_cached, new_cached, remove_cached,
};
use crate::runtime::candidates;
use crate::runtime::candidates::{CandidateQueue, CandidateView, EvictionCandidate};

verus! {

broadcast use vstd::std_specs::hash::group_hash_axioms;

pub const TIMELINE_RUNTIME_SHARD_AMOUNT: usize = 64;

pub const EVICTION_CANDIDATE_BATCH_LIMIT: usize = 128;

pub struct TimelineCacheStore {
    pub timelines: DashMap<String, (u64, u64)>,
    pub max_entries: usize,
    pub access_counter: u64,
    pub eviction_generation_counter: u64,
    pub entry_count: usize,
    pub eviction_generations: StringHashMap<u64>,
    pub eviction_candidates: CandidateQueue,
}

pub type Cached = Map<Seq<char>, (u64, u64)>;

pub type Generations = Map<Seq<char>, u64>;

/// The candidate can go: it is current, its timeline was not used since it was queued, and the
/// timeline is idle.
pub open spec fn evictable(
    cached: Cached,
    generations: Generations,
    busy: Set<u64>,
    candidate: CandidateView,
) -> bool {
    &&& candidates::is_current(generations, candidate)
    &&& cached.contains_key(candidate.key)
    &&& cached[candidate.key].1 == candidate.tick
    &&& !busy.contains(cached[candidate.key].0)
}

/// How many candidates a batch looks at.
pub open spec fn batch_size(attempts: int, queued: Seq<CandidateView>) -> int {
    if queued.len() < attempts {
        queued.len() as int
    } else {
        attempts
    }
}

/// Where the first candidate from `at` on stands that can go, or the end of the batch.
pub open spec fn first_evictable(
    cached: Cached,
    generations: Generations,
    busy: Set<u64>,
    attempts: int,
    queued: Seq<CandidateView>,
    at: int,
) -> int
    decreases batch_size(attempts, queued) - at,
{
    if at >= batch_size(attempts, queued) || evictable(cached, generations, busy, queued[at]) {
        at
    } else {
        first_evictable(cached, generations, busy, attempts, queued, at + 1)
    }
}

/// What is queued again of the candidates that were passed over: the current ones, with the tick of
/// the last use of their timeline.
pub open spec fn deferred_of(
    cached: Cached,
    generations: Generations,
    passed: Seq<CandidateView>,
) -> Seq<CandidateView> {
    passed.filter(
        |candidate: CandidateView| candidates::is_current(generations, candidate),
    ).map_values(
        |candidate: CandidateView|
            CandidateView { tick: cached[candidate.key].1, ..candidate },
    )
}

/// What a batch comes to: the timeline that goes, the candidates behind it or behind the batch, and
/// those that are deferred.
pub struct BatchView {
    pub gone: Option<Seq<char>>,
    pub rest: Seq<CandidateView>,
    pub deferred: Seq<CandidateView>,
}

/// A batch evicts the timeline of the first candidate that can go, and defers those before it.
pub open spec fn batch(
    cached: Cached,
    generations: Generations,
    busy: Set<u64>,
    attempts: int,
    queued: Seq<CandidateView>,
    deferred: Seq<CandidateView>,
) -> BatchView {
    let k = first_evictable(cached, generations, busy, attempts, queued, 0);
    let found = k < batch_size(attempts, queued);
    BatchView {
        gone: if found {
            Some(queued[k].key)
        } else {
            None
        },
        rest: queued.skip(
            if found {
                k + 1
            } else {
                k
            },
        ),
        deferred: deferred + deferred_of(cached, generations, queued.take(k)),
    }
}

/// The queue after stale candidates were dropped, where so many had queued up that this is due.
pub open spec fn compacted(
    generations: Generations,
    live_entries: int,
    queued: Seq<CandidateView>,
) -> Seq<CandidateView> {
    if compaction_due(live_entries, queued.len() as int) {
        queued.filter(|candidate: CandidateView| candidates::is_current(generations, candidate))
    } else {
        queued
    }
}

/// The search for an idle timeline: the one that goes, if any, and the queue afterwards. It looks at
/// one batch, then at a second one behind it, and at last once more from the front, where what was
/// deferred stands in its new place.
pub open spec fn search(
    cached: Cached,
    generations: Generations,
    busy: Set<u64>,
    live_entries: int,
    queued: Seq<CandidateView>,
) -> (Option<Seq<char>>, Seq<CandidateView>) {
    let limit = EVICTION_CANDIDATE_BATCH_LIMIT as int;
    let none = Seq::<CandidateView>::empty();
    let first = batch(cached, generations, busy, limit, queued, none);
    let second = batch(
        cached,
        generations,
        busy,
        limit,
        compacted(generations, live_entries, first.rest),
        first.deferred,
    );
    let third = batch(
        cached,
        generations,
        busy,
        limit,
        candidates::in_queue_order(second.rest + second.deferred),
        none,
    );
    if first.gone is Some {
        (first.gone, candidates::in_queue_order(first.rest + first.deferred))
    } else if second.gone is Some {
        (second.gone, candidates::in_queue_order(second.rest + second.deferred))
    } else {
        (third.gone, candidates::in_queue_order(third.rest + third.deferred))
    }
}

/// The candidate stands for the key in its current incarnation.
pub open spec fn stands_for(
    generations: Generations,
    candidate: CandidateView,
    key: Seq<char>,
) -> bool {
    candidate.key == key && candidates::is_current(generations, candidate)
}

/// Some candidate stands for the key.
pub open spec fn represented(
    generations: Generations,
    queued: Seq<CandidateView>,
    key: Seq<char>,
) -> bool {
    exists|i: int| 0 <= i < queued.len() && stands_for(generations, #[trigger] queued[i], key)
}

/// Every cached timeline is represented among the queued and the deferred candidates.
pub open spec fn all_represented(
    cached: Cached,
    generations: Generations,
    queued: Seq<CandidateView>,
    deferred: Seq<CandidateView>,
) -> bool {
    forall|key: Seq<char>| #[trigger]
        cached.contains_key(key) ==> represented(generations, queued, key) || represented(
            generations,
            deferred,
            key,
        )
}

/// What becomes of a candidate that was taken from the queue.
#[derive(Debug, Clone, Copy, PartialEq, Eq, Structural)]
pub enum CandidateFate {
    /// It stands for nothing any more.
    Drop,
    /// Its timeline was used since, or is in use: it is queued again with the tick of its last
    /// use.
    Defer(u64),
    /// Its timeline goes.
    Evict,
}

/// What becomes of a candidate, given what the cache knows of its key.
pub open spec fn fate_of(
    candidate_tick: u64,
    candidate_generation: u64,
    current_generation: Option<u64>,
    last_access_tick: Option<u64>,
    is_idle: bool,
) -> CandidateFate {
    if current_generation != Some(candidate_generation) || last_access_tick is None {
        CandidateFate::Drop
    } else if last_access_tick != Some(candidate_tick) || !is_idle {
        CandidateFate::Defer(last_access_tick->0)
    } else {
        CandidateFate::Evict
    }
}

/// A timeline goes only by a candidate of its present incarnation, where it is idle and was not used
/// since; a candidate of an earlier incarnation is dropped, and every other one is kept for later,
/// with the last use.
pub proof fn candidates_meet_their_fate(
    tick: u64,
    generation: u64,
    current_generation: Option<u64>,
    last_access_tick: Option<u64>,
    is_idle: bool,
)
    ensures
        ({
            let fate = fate_of(tick, generation, current_generation, last_access_tick, is_idle);
            &&& fate is Evict <==> current_generation == Some(generation) && last_access_tick
                == Some(tick) && is_idle
            &&& fate is Drop <==> current_generation is None || current_generation->0 != generation
                || last_access_tick is None
            &&& fate matches CandidateFate::Defer(last) ==> last_access_tick == Some(last) && (last
                != tick || !is_idle)
        }),
{
}

/// Decides on a candidate from what the cache knows of its key.
pub fn candidate_fate(
    candidate_tick: u64,
    candidate_generation: u64,
    current_generation: Option<u64>,
    last_access_tick: Option<u64>,
    is_idle: bool,
) -> (fate: CandidateFate)
    ensures
        fate == fate_of(
            candidate_tick,
            candidate_generation,
            current_generation,
            last_access_tick,
            is_idle,
        ),
        fate == if current_generation != Some(candidate_generation) || last_access_tick is None {
            CandidateFate::Drop
        } else if last_access_tick != Some(candidate_tick) || !is_idle {
            CandidateFate::Defer(last_access_tick->0)
        } else {
            CandidateFate::Evict
        },
{
    match (current_generation, last_access_tick) {
        (Some(generation), Some(tick)) => {
            if generation != candidate_generation {
                CandidateFate::Drop
            } else if tick != candidate_tick || !is_idle {
                CandidateFate::Defer(tick)
            } else {
                CandidateFate::Evict
            }
        },
        _ => CandidateFate::Drop,
    }
}

/// Counters start over behind their last value.
pub open spec fn next_count(count: u64) -> u64 {
    if count == u64::MAX {
        0
    } else {
        (count + 1) as u64
    }
}

/// How many candidates may queue up before the stale ones are dropped.
pub open spec fn compaction_threshold(live_entries: int) -> int {
    let scaled = if live_entries * 4 + 8 > usize::MAX {
        usize::MAX as int
    } else {
        live_entries * 4 + 8
    };
    if scaled > 16 {
        scaled
    } else {
        16
    }
}

/// The queue is due for compaction.
pub open spec fn compaction_due(live_entries: int, queued: int) -> bool {
    if live_entries == 0 {
        queued > 0
    } else {
        queued > compaction_threshold(live_entries)
    }
}

impl TimelineCacheStore {
    pub open spec fn cached(self) -> Cached {
        cache_maps::cached_in(self.timelines)
    }

    pub open spec fn generations(self) -> Generations {
        self.eviction_generations@
    }

    /// What holds of the cache apart from its queue.
    pub open spec fn counts_match(self) -> bool {
        &&& self.cached().dom().finite()
        &&& self.entry_count == self.cached().dom().len()
        &&& self.generations().dom() == self.cached().dom()
        &&& self.eviction_candidates.valid()
    }

    /// The counter is the number of entries and within the limit, the keys of entries and
    /// generations agree, and every entry can be found through the queue.
    pub open spec fn valid(self) -> bool {
        &&& self.counts_match()
        &&& self.entry_count <= self.max_entries
        &&& all_represented(
            self.cached(),
            self.generations(),
            self.eviction_candidates@,
            Seq::empty(),
        )
    }

    /// The search for an idle timeline.
    pub open spec fn search(self, busy: Set<u64>) -> (Option<Seq<char>>, Seq<CandidateView>) {
        search(
            self.cached(),
            self.generations(),
            busy,
            self.entry_count as int,
            self.eviction_candidates@,
        )
    }

    /// The limit and the tick counters are as before.
    pub open spec fn keeps_settings(self, before: TimelineCacheStore) -> bool {
        &&& self.max_entries == before.max_entries
        &&& self.access_counter == before.access_counter
        &&& self.eviction_generation_counter == before.eviction_generation_counter
    }

    pub fn new(max_entries: usize) -> (store: Self)
        ensures
            store.valid(),
            store.max_entries == max_entries,
            store.cached() == Map::<Seq<char>, (u64, u64)>::empty(),
            store.entry_count == 0,
            store.eviction_candidates@.len() == 0,
    {
        let store = TimelineCacheStore {
            timelines: new_cached(TIMELINE_RUNTIME_SHARD_AMOUNT),
            max_entries,
            access_counter: 1,
            eviction_generation_counter: 1,
            entry_count: 0,
            eviction_generations: StringHashMap::new(),
            eviction_candidates: CandidateQueue::new(),
        };
        assert(store.generations().dom() =~= store.cached().dom());
        store
    }

    pub fn timeline_count(&self) -> (count: usize)
        requires
            self.counts_match(),
        ensures
            count == self.cached().dom().len(),
    {
        self.entry_count
    }

    fn next_access_tick(&mut self) -> (tick: u64)
        ensures
            tick == old(self).access_counter,
            *final(self) == (TimelineCacheStore {
                access_counter: final(self).access_counter,
                ..*old(self)
            }),
            final(self).access_counter == next_count(tick),
    {
        let tick: u64 = self.access_counter;
        self.access_counter = tick.wrapping_add(1);
        tick
    }

    /// The handle of a cached timeline; finding it counts as a use.
    pub fn timeline_handle(&mut self, timeline_key: &str) -> (handle: Option<u64>)
        requires
            old(self).valid(),
        ensures
            final(self).valid(),
            final(self).max_entries == old(self).max_entries,
            match handle {
                Some(found) => {
                    &&& old(self).cached().contains_key(timeline_key@)
                    &&& old(self).cached()[timeline_key@].0 == found
                    &&& touched(
                        *old(self),
                        timeline_key@,
                        (found, old(self).access_counter),
                        *final(self),
                    )
                },
                None => {
                    &&& !old(self).cached().contains_key(timeline_key@)
                    &&& *final(self) == *old(self)
                },
            },
    {
        match get_cached(&self.timelines, timeline_key) {
            Some(entry) => {
                let tick: u64 = self.next_access_tick();
                insert_cached(&mut self.timelines, timeline_key.to_owned(), (entry.0, tick));
                assert(self.cached().dom() =~= old(self).cached().dom());
                Some(entry.0)
            },
            None => None,
        }
    }

    fn ensure_eviction_generation(&mut self, timeline_key: &str) -> (generation: u64)
        ensures
            final(self).timelines == old(self).timelines,
            final(self).max_entries == old(self).max_entries,
            final(self).access_counter == old(self).access_counter,
            final(self).entry_count == old(self).entry_count,
            final(self).eviction_candidates == old(self).eviction_candidates,
            final(self).generations() == old(self).generations().insert(timeline_key@, generation),
            if old(self).generations().contains_key(timeline_key@) {
                &&& generation == old(self).generations()[timeline_key@]
                &&& final(self).eviction_generation_counter
                    == old(self).eviction_generation_counter
            } else {
                &&& generation == old(self).eviction_generation_counter
                &&& final(self).eviction_generation_counter == next_count(generation)
            },
    {
        if let Some(generation) = self.eviction_generations.get(timeline_key) {
            let found: u64 = *generation;
            assert(self.generations() =~= old(self).generations().insert(timeline_key@, found));
            return found;
        }
        let generation: u64 = self.eviction_generation_counter;
        self.eviction_generation_counter = generation.wrapping_add(1);
        self.eviction_generations.insert(timeline_key.to_owned(), generation);
        generation
    }

    /// Queues a timeline for eviction.
    fn record_eviction_candidate(&mut self, timeline_key: &str, access_tick: u64)
        requires
            old(self).eviction_candidates.valid(),
        ensures
            final(self).timelines == old(self).timelines,
            final(self).max_entries == old(self).max_entries,
            final(self).access_counter == old(self).access_counter,
            final(self).entry_count == old(self).entry_count,
            final(self).eviction_candidates.valid(),
            ({
                let generation = final(self).generations()[timeline_key@];
                &&& final(self).generations() == old(self).generations().insert(
                    timeline_key@,
                    generation,
                )
                &&& if old(self).generations().contains_key(timeline_key@) {
                    &&& generation == old(self).generations()[timeline_key@]
                    &&& final(self).eviction_generation_counter
                        == old(self).eviction_generation_counter
                } else {
                    &&& generation == old(self).eviction_generation_counter
                    &&& final(self).eviction_generation_counter == next_count(generation)
                }
                &&& final(self).eviction_candidates@ == candidates::in_queue_order(
                    old(self).eviction_candidates@.push(
                        CandidateView { tick: access_tick, generation, key: timeline_key@ },
                    ),
                )
                &&& exists|at: int|
                    0 <= at <= old(self).eviction_candidates@.len()
                        && final(self).eviction_candidates@ == #[trigger] old(
                        self,
                    ).eviction_candidates@.insert(
                        at,
                        CandidateView { tick: access_tick, generation, key: timeline_key@ },
                    )
            }),
    {
        let generation: u64 = self.ensure_eviction_generation(timeline_key);
        self.eviction_candidates.push(
            EvictionCandidate { tick: access_tick, generation, key: timeline_key.to_owned() },
        );
    }

    /// Drops the stale candidates when too many have queued up.
    pub fn maybe_compact_eviction_candidates(&mut self)
        requires
            old(self).eviction_candidates.valid(),
        ensures
            final(self).eviction_candidates.valid(),
            final(self).timelines == old(self).timelines,
            final(self).entry_count == old(self).entry_count,
            final(self).eviction_generations == old(self).eviction_generations,
            final(self).keeps_settings(*old(self)),
            final(self).eviction_candidates@ == compacted(
                old(self).generations(),
                old(self).entry_count as int,
                old(self).eviction_candidates@,
            ),
            forall|key: Seq<char>|
                represented(old(self).generations(), old(self).eviction_candidates@, key)
                    ==> #[trigger] represented(
                    old(self).generations(),
                    final(self).eviction_candidates@,
                    key,
                ),
    {
        let heap_len: usize = self.eviction_candidates.len();
        let live_entries: usize = self.entry_count;
        if live_entries == 0 {
            if heap_len == 0 {
                return;
            }
        } else {
            let scaled: usize = match live_entries.checked_mul(4) {
                Some(product) => product.saturating_add(8),
                None => usize::MAX,
            };
            let threshold: usize = if scaled > 16 {
                scaled
            } else {
                16
            };
            if heap_len <= threshold {
                return;
            }
        }
        let ghost before = self.eviction_candidates@;
        self.eviction_candidates.retain_current(&self.eviction_generations);
        proof {
            let generations = self.generations();
            assert forall|key: Seq<char>| represented(generations, before, key) implies
                #[trigger] represented(generations, self.eviction_candidates@, key) by {
                lemma_current_candidates_survive(generations, before, key);
            }
        }
    }

    /// Queues deferred candidates again.
    fn requeue(&mut self, deferred: Vec<EvictionCandidate>)
        requires
            old(self).counts_match(),
        ensures
            final(self).counts_match(),
            final(self).timelines == old(self).timelines,
            final(self).entry_count == old(self).entry_count,
            final(self).eviction_generations == old(self).eviction_generations,
            final(self).keeps_settings(*old(self)),
            final(self).eviction_candidates@ == candidates::in_queue_order(
                old(self).eviction_candidates@ + candidates::candidates_of(deferred@),
            ),
            all_represented(
                old(self).cached(),
                old(self).generations(),
                old(self).eviction_candidates@,
                candidates::candidates_of(deferred@),
            ) ==> all_represented(
                old(self).cached(),
                old(self).generations(),
                final(self).eviction_candidates@,
                Seq::empty(),
            ),
    {
        let ghost all = candidates::candidates_of(deferred@);
        let ghost cached = self.cached();
        let ghost generations = self.generations();
        let ghost queued = self.eviction_candidates@;
        let mut rest = deferred;
        while rest.len() > 0
            invariant
                self.counts_match(),
                self.timelines == old(self).timelines,
                self.entry_count == old(self).entry_count,
                self.eviction_generations == old(self).eviction_generations,
                self.keeps_settings(*old(self)),
                cached == self.cached(),
                generations == self.generations(),
                all == candidates::candidates_of(deferred@),
                queued == old(self).eviction_candidates@,
                (self.eviction_candidates@ + candidates::candidates_of(rest@)).to_multiset() == (
                queued + all).to_multiset(),
                all_represented(cached, generations, queued, all) ==> all_represented(
                    cached,
                    generations,
                    self.eviction_candidates@,
                    candidates::candidates_of(rest@),
                ),
            decreases rest@.len(),
        {
            let ghost before = self.eviction_candidates@;
            let ghost rest_before = candidates::candidates_of(rest@);
            if let Some(candidate) = rest.pop() {
                self.eviction_candidates.push(candidate);
                proof {
                    let after = self.eviction_candidates@;
                    let rest_after = candidates::candidates_of(rest@);
                    assert(rest_after =~= rest_before.drop_last());
                    assert(rest_before.last() == candidate@);
                    let at = choose|at: int|
                        0 <= at <= before.len() && after == #[trigger] before.insert(
                            at,
                            candidate@,
                        );
                    lemma_moved_multiset(before, rest_before, after, rest_after, at, candidate@);
                    lemma_moved_candidate(
                        cached,
                        generations,
                        before,
                        rest_before,
                        after,
                        rest_after,
                        at,
                        candidate@,
                    );
                }
            }
        }
        assert(candidates::candidates_of(rest@) =~= Seq::empty());
        proof {
            let after = self.eviction_candidates@;
            assert(after + candidates::candidates_of(rest@) =~= after);
            candidates::queues_are_determined(after, queued + all);
        }
    }
}

/// Moving a candidate from the deferred ones to the queue loses none of them.
proof fn lemma_moved_multiset(
    before: Seq<CandidateView>,
    rest_before: Seq<CandidateView>,
    after: Seq<CandidateView>,
    rest_after: Seq<CandidateView>,
    at: int,
    candidate: CandidateView,
)
    requires
        0 <= at <= before.len(),
        after == before.insert(at, candidate),
        rest_before.len() > 0,
        rest_before.last() == candidate,
        rest_after == rest_before.drop_last(),
    ensures
        (after + rest_after).to_multiset() == (before + rest_before).to_multiset(),
{
    assert(after + rest_after =~= (before + rest_after).insert(at, candidate));
    vstd::seq_lib::to_multiset_insert(before + rest_after, at, candidate);
    assert(before + rest_before =~= (before + rest_after).push(candidate));
    vstd::seq_lib::to_multiset_build(before + rest_after, candidate);
}

/// Where the first candidate that can go stands: none before it can.
proof fn lemma_first_evictable(
    cached: Cached,
    generations: Generations,
    busy: Set<u64>,
    attempts: int,
    queued: Seq<CandidateView>,
    at: int,
)
    requires
        0 <= at <= batch_size(attempts, queued),
    ensures
        ({
            let k = first_evictable(cached, generations, busy, attempts, queued, at);
            &&& at <= k <= batch_size(attempts, queued)
            &&& k < batch_size(attempts, queued) ==> evictable(
                cached,
                generations,
                busy,
                queued[k],
            )
            &&& forall|j: int|
                at <= j < k ==> !evictable(cached, generations, busy, #[trigger] queued[j])
        }),
    decreases batch_size(attempts, queued) - at,
{
    if at < batch_size(attempts, queued) && !evictable(cached, generations, busy, queued[at]) {
        lemma_first_evictable(cached, generations, busy, attempts, queued, at + 1);
    }
}

/// Where the first candidate that can go stands is told by those before it.
proof fn lemma_is_first_evictable(
    cached: Cached,
    generations: Generations,
    busy: Set<u64>,
    attempts: int,
    queued: Seq<CandidateView>,
    k: int,
)
    requires
        0 <= k <= batch_size(attempts, queued),
        forall|j: int| 0 <= j < k ==> !evictable(cached, generations, busy, #[trigger] queued[j]),
        k < batch_size(attempts, queued) ==> evictable(cached, generations, busy, queued[k]),
    ensures
        first_evictable(cached, generations, busy, attempts, queued, 0) == k,
{
    lemma_first_evictable(cached, generations, busy, attempts, queued, 0);
}

/// One candidate more is passed over.
proof fn lemma_passed_over(
    cached: Cached,
    generations: Generations,
    queued: Seq<CandidateView>,
    i: int,
)
    requires
        0 <= i < queued.len(),
    ensures
        deferred_of(cached, generations, queued.take(i + 1)) == if candidates::is_current(
            generations,
            queued[i],
        ) {
            deferred_of(cached, generations, queued.take(i)).push(
                CandidateView { tick: cached[queued[i].key].1, ..queued[i] },
            )
        } else {
            deferred_of(cached, generations, queued.take(i))
        },
{
    reveal(Seq::filter);
    assert(queued.take(i + 1).drop_last() =~= queued.take(i));
    assert(deferred_of(cached, generations, queued.take(i + 1)) =~= if candidates::is_current(
        generations,
        queued[i],
    ) {
        deferred_of(cached, generations, queued.take(i)).push(
            CandidateView { tick: cached[queued[i].key].1, ..queued[i] },
        )
    } else {
        deferred_of(cached, generations, queued.take(i))
    });
}

proof fn lemma_current_candidates_survive(
    generations: Generations,
    queued: Seq<CandidateView>,
    key: Seq<char>,
)
    requires
        represented(generations, queued, key),
    ensures
        represented(
            generations,
            queued.filter(
                |candidate: CandidateView| candidates::is_current(generations, candidate),
            ),
            key,
        ),
    decreases queued.len(),
{
    reveal(Seq::filter);
    let keeps = |candidate: CandidateView| candidates::is_current(generations, candidate);
    let kept = queued.filter(keeps);
    let i = choose|i: int|
        0 <= i < queued.len() && stands_for(generations, #[trigger] queued[i], key);
    if i == queued.len() - 1 {
        assert(kept.last() == queued.last());
        assert(stands_for(generations, kept[kept.len() - 1], key));
    } else {
        let shorter = queued.drop_last();
        assert(shorter[i] == queued[i]);
        lemma_current_candidates_survive(generations, shorter, key);
        let kept_before = shorter.filter(keeps);
        let k = choose|k: int|
            0 <= k < kept_before.len() && stands_for(generations, #[trigger] kept_before[k], key);
        assert(kept[k] == kept_before[k]);
    }
}

/// Moving a candidate from the deferred ones to the queue loses no representation.
proof fn lemma_moved_candidate(
    cached: Cached,
    generations: Generations,
    before: Seq<CandidateView>,
    rest_before: Seq<CandidateView>,
    after: Seq<CandidateView>,
    rest_after: Seq<CandidateView>,
    at: int,
    candidate: CandidateView,
)
    requires
        0 <= at <= before.len(),
        after == before.insert(at, candidate),
        rest_before.len() > 0,
        rest_before.last() == candidate,
        rest_after == rest_before.drop_last(),
    ensures
        all_represented(cached, generations, before, rest_before) ==> all_represented(
            cached,
            generations,
            after,
            rest_after,
        ),
{
    assert forall|key: Seq<char>| represented(generations, before, key) implies represented(
        generations,
        after,
        key,
    ) by {
        let i = choose|i: int|
            0 <= i < before.len() && stands_for(generations, #[trigger] before[i], key);
        if i < at {
            assert(after[i] == before[i]);
        } else {
            assert(after[i + 1] == before[i]);
        }
    }
    assert forall|key: Seq<char>| represented(generations, rest_before, key) implies represented(
        generations,
        after,
        key,
    ) || represented(generations, rest_after, key) by {
        let i = choose|i: int|
            0 <= i < rest_before.len() && stands_for(generations, #[trigger] rest_before[i], key);
        if i < rest_after.len() {
            assert(rest_after[i] == rest_before[i]);
        } else {
            assert(after[at] == candidate);
        }
    }
}

/// Dropping a candidate that is not current loses no representation.
proof fn lemma_dropped_candidate(
    cached: Cached,
    generations: Generations,
    queued: Seq<CandidateView>,
    deferred: Seq<CandidateView>,
)
    requires
        queued.len() > 0,
        !candidates::is_current(generations, queued.first()),
        all_represented(cached, generations, queued, deferred),
    ensures
        all_represented(cached, generations, queued.drop_first(), deferred),
{
    let rest = queued.drop_first();
    assert forall|key: Seq<char>| #[trigger] cached.contains_key(key) implies represented(
        generations,
        rest,
        key,
    ) || represented(generations, deferred, key) by {
        if represented(generations, queued, key) {
            let i = choose|i: int|
                0 <= i < queued.len() && stands_for(generations, #[trigger] queued[i], key);
            assert(rest[i - 1] == queued[i]);
        }
    }
}

/// A candidate that is deferred still stands for its timeline.
proof fn lemma_deferred_candidate(
    cached: Cached,
    generations: Generations,
    queued: Seq<CandidateView>,
    deferred: Seq<CandidateView>,
    tick: u64,
)
    requires
        queued.len() > 0,
        all_represented(cached, generations, queued, deferred),
    ensures
        all_represented(
            cached,
            generations,
            queued.drop_first(),
            deferred.push(CandidateView { tick, ..queued.first() }),
        ),
{
    let rest = queued.drop_first();
    let again = CandidateView { tick, ..queued.first() };
    let more = deferred.push(again);
    assert forall|key: Seq<char>| #[trigger] cached.contains_key(key) implies represented(
        generations,
        rest,
        key,
    ) || represented(generations, more, key) by {
        if represented(generations, queued, key) {
            let i = choose|i: int|
                0 <= i < queued.len() && stands_for(generations, #[trigger] queued[i], key);
            if i == 0 {
                assert(more[deferred.len() as int] == again);
                assert(stands_for(generations, again, key));
            } else {
                assert(rest[i - 1] == queued[i]);
            }
        } else {
            let i = choose|i: int|
                0 <= i < deferred.len() && stands_for(generations, #[trigger] deferred[i], key);
            assert(more[i] == deferred[i]);
        }
    }
}

/// Removing an entry leaves the others represented.
proof fn lemma_removed_entry(
    cached: Cached,
    generations: Generations,
    queued: Seq<CandidateView>,
    deferred: Seq<CandidateView>,
    gone: Seq<char>,
)
    requires
        all_represented(cached, generations, queued, deferred),
    ensures
        all_represented(cached.remove(gone), generations.remove(gone), queued, deferred),
{
    let after = generations.remove(gone);
    assert forall|key: Seq<char>| #[trigger] cached.remove(gone).contains_key(key) implies
        represented(after, queued, key) || represented(after, deferred, key) by {
        assert(cached.contains_key(key));
        if represented(generations, queued, key) {
            let i = choose|i: int|
                0 <= i < queued.len() && stands_for(generations, #[trigger] queued[i], key);
            assert(stands_for(after, queued[i], key));
        } else {
            let i = choose|i: int|
                0 <= i < deferred.len() && stands_for(generations, #[trigger] deferred[i], key);
            assert(stands_for(after, deferred[i], key));
        }
    }
}

impl TimelineCacheStore {
    /// Works off the first candidates, at most `attempts` of them, and evicts the first that can
    /// go. Candidates that cannot go yet are deferred.
    fn try_evict_idle_entry_batch(
        &mut self,
        attempts: usize,
        deferred: &mut Vec<EvictionCandidate>,
        busy: &HashSet<u64>,
    ) -> (evicted: bool)
        requires
            old(self).counts_match(),
            all_represented(
                old(self).cached(),
                old(self).generations(),
                old(self).eviction_candidates@,
                candidates::candidates_of(old(deferred)@),
            ),
        ensures
            final(self).counts_match(),
            final(self).keeps_settings(*old(self)),
            ({
                let cached = old(self).cached();
                let generations = old(self).generations();
                let done = batch(
                    cached,
                    generations,
                    busy@,
                    attempts as int,
                    old(self).eviction_candidates@,
                    candidates::candidates_of(old(deferred)@),
                );
                if evicted {
                    &&& final(deferred)@.len() == 0
                    &&& done.gone is Some
                    &&& cached.contains_key(done.gone->0)
                    &&& final(self).cached() == cached.remove(done.gone->0)
                    &&& final(self).generations() == generations.remove(done.gone->0)
                    &&& final(self).eviction_candidates@ == candidates::in_queue_order(
                        done.rest + done.deferred,
                    )
                    &&& all_represented(
                        final(self).cached(),
                        final(self).generations(),
                        final(self).eviction_candidates@,
                        Seq::empty(),
                    )
                    &&& final(self).entry_count == old(self).entry_count - 1
                } else {
                    &&& done.gone is None
                    &&& final(self).timelines == old(self).timelines
                    &&& final(self).eviction_generations == old(self).eviction_generations
                    &&& final(self).entry_count == old(self).entry_count
                    &&& final(self).eviction_candidates@ == done.rest
                    &&& candidates::candidates_of(final(deferred)@) == done.deferred
                    &&& all_represented(
                        cached,
                        generations,
                        final(self).eviction_candidates@,
                        candidates::candidates_of(final(deferred)@),
                    )
                }
            }),
    {
        let ghost cached = self.cached();
        let ghost generations = self.generations();
        let ghost queued = self.eviction_candidates@;
        let length: usize = self.eviction_candidates.len();
        let tried: usize = if length < attempts {
            length
        } else {
            attempts
        };
        let mut i: usize = 0;
        let ghost given = candidates::candidates_of(deferred@);
        assert(queued.skip(0) =~= queued);
        assert(given + deferred_of(cached, generations, queued.take(0)) =~= given) by {
            reveal(Seq::filter);
        }
        while i < tried
            invariant
                i <= tried <= queued.len(),
                tried == batch_size(attempts as int, queued),
                given == candidates::candidates_of(old(deferred)@),
                candidates::candidates_of(deferred@) == given + deferred_of(
                    cached,
                    generations,
                    queued.take(i as int),
                ),
                cached == old(self).cached(),
                generations == old(self).generations(),
                queued == old(self).eviction_candidates@,
                self.counts_match(),
                self.keeps_settings(*old(self)),
                self.timelines == old(self).timelines,
                self.eviction_generations == old(self).eviction_generations,
                self.entry_count == old(self).entry_count,
                self.eviction_candidates@ == queued.skip(i as int),
                forall|j: int|
                    0 <= j < i ==> !evictable(cached, generations, busy@, #[trigger] queued[j]),
                all_represented(
                    cached,
                    generations,
                    self.eviction_candidates@,
                    candidates::candidates_of(deferred@),
                ),
            decreases tried - i,
        {
            let ghost before = self.eviction_candidates@;
            let ghost deferred_before = candidates::candidates_of(deferred@);
            let candidate = match self.eviction_candidates.pop() {
                Some(candidate) => candidate,
                None => {
                    assert(false);
                    return false;
                },
            };
            proof {
                assert(candidate@ == queued[i as int]);
                assert(before.drop_first() =~= queued.skip(i + 1));
                lemma_passed_over(cached, generations, queued, i as int);
            }
            let current_generation = match self.eviction_generations.get(candidate.key.as_str()) {
                Some(generation) => Some(*generation),
                None => None,
            };
            let entry = get_cached(&self.timelines, candidate.key.as_str());
            let last_access_tick = match entry {
                Some(found) => Some(found.1),
                None => None,
            };
            let is_idle = match entry {
                Some(found) => !busy.contains(&found.0),
                None => false,
            };
            match candidate_fate(
                candidate.tick,
                candidate.generation,
                current_generation,
                last_access_tick,
                is_idle,
            ) {
                CandidateFate::Drop => {
                    proof {
                        assert(!candidates::is_current(generations, candidate@)) by {
                            assert(generations.dom().contains(candidate.key@)
                                == cached.dom().contains(candidate.key@));
                        }
                        lemma_dropped_candidate(cached, generations, before, deferred_before);
                    }
                },
                CandidateFate::Defer(tick) => {
                    proof {
                        lemma_deferred_candidate(
                            cached,
                            generations,
                            before,
                            deferred_before,
                            tick,
                        );
                    }
                    deferred.push(
                        EvictionCandidate {
                            tick,
                            generation: candidate.generation,
                            key: candidate.key,
                        },
                    );
                    assert(candidates::candidates_of(deferred@) =~= deferred_before.push(
                        CandidateView { tick, ..before.first() },
                    ));
                    assert(candidates::is_current(generations, queued[i as int]));
                    assert(candidates::candidates_of(deferred@) =~= given + deferred_of(
                        cached,
                        generations,
                        queued.take(i + 1),
                    ));
                },
                CandidateFate::Evict => {
                    proof {
                        assert(evictable(cached, generations, busy@, queued[i as int]));
                        lemma_is_first_evictable(
                            cached,
                            generations,
                            busy@,
                            attempts as int,
                            queued,
                            i as int,
                        );
                        lemma_evicted_candidate(
                            cached,
                            generations,
                            before,
                            deferred_before,
                            candidate@,
                        );
                    }
                    remove_cached(&mut self.timelines, candidate.key.as_str());
                    self.eviction_generations.remove(candidate.key.as_str());
                    self.entry_count = self.entry_count - 1;
                    let mut again: Vec<EvictionCandidate> = Vec::new();
                    std::mem::swap(&mut again, deferred);
                    assert(self.generations().dom() =~= self.cached().dom());
                    self.requeue(again);
                    return true;
                },
            }
            i = i + 1;
        }
        proof {
            lemma_is_first_evictable(
                cached,
                generations,
                busy@,
                attempts as int,
                queued,
                tried as int,
            );
        }
        false
    }

    /// Evicts one idle timeline if one can be found within a few batches of candidates.
    fn evict_one_idle_entry(&mut self, busy: &HashSet<u64>) -> (evicted: bool)
        requires
            old(self).valid(),
        ensures
            final(self).valid(),
            final(self).keeps_settings(*old(self)),
            final(self).eviction_candidates@ == old(self).search(busy@).1,
            match old(self).search(busy@).0 {
                Some(key) => {
                    &&& evicted
                    &&& old(self).cached().contains_key(key)
                    &&& final(self).cached() == old(self).cached().remove(key)
                    &&& final(self).generations() == old(self).generations().remove(key)
                    &&& final(self).entry_count == old(self).entry_count - 1
                },
                None => {
                    &&& !evicted
                    &&& final(self).timelines == old(self).timelines
                    &&& final(self).eviction_generations == old(self).eviction_generations
                    &&& final(self).entry_count == old(self).entry_count
                },
            },
    {
        let ghost cached = self.cached();
        let ghost generations = self.generations();
        let mut deferred: Vec<EvictionCandidate> = Vec::new();
        assert(candidates::candidates_of(deferred@) =~= Seq::empty());
        if self.try_evict_idle_entry_batch(EVICTION_CANDIDATE_BATCH_LIMIT, &mut deferred, busy) {
            return true;
        }
        let ghost first_rest = self.eviction_candidates@;
        self.maybe_compact_eviction_candidates();
        proof {
            lemma_represented_after_compaction(
                cached,
                generations,
                first_rest,
                self.eviction_candidates@,
                candidates::candidates_of(deferred@),
            );
        }
        if self.try_evict_idle_entry_batch(EVICTION_CANDIDATE_BATCH_LIMIT, &mut deferred, busy) {
            return true;
        }
        self.requeue(deferred);
        let mut retried: Vec<EvictionCandidate> = Vec::new();
        assert(candidates::candidates_of(retried@) =~= Seq::empty());
        if self.try_evict_idle_entry_batch(EVICTION_CANDIDATE_BATCH_LIMIT, &mut retried, busy) {
            return true;
        }
        self.requeue(retried);
        false
    }
}

/// A timeline that was queued when it was entered is represented, and so are the others.
proof fn lemma_entered_timeline(
    cached: Cached,
    generations: Generations,
    queued: Seq<CandidateView>,
    key: Seq<char>,
    entry: (u64, u64),
    generation: u64,
    at: int,
)
    requires
        all_represented(cached, generations, queued, Seq::empty()),
        !generations.contains_key(key),
        0 <= at <= queued.len(),
    ensures
        all_represented(
            cached.insert(key, entry),
            generations.insert(key, generation),
            queued.insert(at, CandidateView { tick: entry.1, generation, key }),
            Seq::empty(),
        ),
{
    let after = generations.insert(key, generation);
    let candidate = CandidateView { tick: entry.1, generation, key };
    let more = queued.insert(at, candidate);
    assert forall|other: Seq<char>| #[trigger] cached.insert(key, entry).contains_key(
        other,
    ) implies represented(after, more, other) by {
        if other == key {
            assert(more[at] == candidate);
            assert(stands_for(after, candidate, other));
        } else {
            assert(cached.contains_key(other));
            assert(!represented(generations, Seq::<CandidateView>::empty(), other));
            let i = choose|i: int|
                0 <= i < queued.len() && stands_for(generations, #[trigger] queued[i], other);
            assert(stands_for(after, queued[i], other));
            if i < at {
                assert(more[i] == queued[i]);
            } else {
                assert(more[i + 1] == queued[i]);
            }
        }
    }
}

/// The error that refuses a timeline to a full cache.
pub open spec fn is_saturated(error: TsoError, key: Seq<char>, limit: usize) -> bool {
    error matches TsoError::TimelineRuntimeCacheSaturated { timeline_key, max_entries }
        && timeline_key@ == key && max_entries == limit
}

/// A timeline that is cached was used, or replaced, and nothing else changed.
pub open spec fn touched(
    before: TimelineCacheStore,
    key: Seq<char>,
    entry: (u64, u64),
    after: TimelineCacheStore,
) -> bool {
    &&& after.cached() == before.cached().insert(key, entry)
    &&& after.generations() == before.generations()
    &&& after.eviction_candidates@ == before.eviction_candidates@
    &&& after.entry_count == before.entry_count
    &&& after.max_entries == before.max_entries
    &&& after.access_counter == next_count(before.access_counter)
    &&& after.eviction_generation_counter == before.eviction_generation_counter
}

/// A timeline was entered under a new key, in a new incarnation: in a full cache in place of the one
/// that the search finds, otherwise beside the others.
pub open spec fn entered(
    before: TimelineCacheStore,
    busy: Set<u64>,
    key: Seq<char>,
    entry: (u64, u64),
    after: TimelineCacheStore,
) -> bool {
    let generation = before.eviction_generation_counter;
    let candidate = CandidateView { tick: entry.1, generation, key };
    let (gone, left) = before.search(busy);
    &&& if before.entry_count < before.max_entries {
        &&& after.cached() == before.cached().insert(key, entry)
        &&& after.generations() == before.generations().insert(key, generation)
        &&& after.eviction_candidates@ == candidates::in_queue_order(
            before.eviction_candidates@.push(candidate),
        )
        &&& after.entry_count == before.entry_count + 1
    } else {
        &&& gone is Some
        &&& before.cached().contains_key(gone->0)
        &&& after.cached() == before.cached().remove(gone->0).insert(key, entry)
        &&& after.generations() == before.generations().remove(gone->0).insert(key, generation)
        &&& after.eviction_candidates@ == candidates::in_queue_order(left.push(candidate))
        &&& after.entry_count == before.entry_count
    }
    &&& after.max_entries == before.max_entries
    &&& after.access_counter == next_count(before.access_counter)
    &&& after.eviction_generation_counter == next_count(generation)
}

/// The cache is full and the search finds no timeline that can go: nothing changes but the order in
/// which timelines will be looked at.
pub open spec fn refused(
    before: TimelineCacheStore,
    busy: Set<u64>,
    after: TimelineCacheStore,
) -> bool {
    &&& before.entry_count >= before.max_entries
    &&& before.search(busy).0 is None
    &&& after.cached() == before.cached()
    &&& after.generations() == before.generations()
    &&& after.eviction_candidates@ == before.search(busy).1
    &&& after.entry_count == before.entry_count
    &&& after.keeps_settings(before)
}

/// A timeline is gone, and the stale candidates too where this is due; a timeline that is not cached
/// changes nothing.
pub open spec fn removed(
    before: TimelineCacheStore,
    key: Seq<char>,
    after: TimelineCacheStore,
) -> bool {
    if before.cached().contains_key(key) {
        let generations = before.generations().remove(key);
        &&& after.cached() == before.cached().remove(key)
        &&& after.generations() == generations
        &&& after.eviction_candidates@ == compacted(
            generations,
            before.entry_count as int,
            before.eviction_candidates@,
        )
        &&& after.entry_count == before.entry_count - 1
        &&& after.keeps_settings(before)
    } else {
        after == before
    }
}

impl TimelineCacheStore {
    /// Makes room for one more timeline and enters it.
    fn enter_new(&mut self, timeline_key: &str, timeline: u64)
        requires
            old(self).valid(),
            !old(self).cached().contains_key(timeline_key@),
            old(self).entry_count < old(self).max_entries,
        ensures
            final(self).valid(),
            entered(
                *old(self),
                Set::empty(),
                timeline_key@,
                (timeline, old(self).access_counter),
                *final(self),
            ),
    {
        let tick: u64 = self.next_access_tick();
        insert_cached(&mut self.timelines, timeline_key.to_owned(), (timeline, tick));
        self.entry_count = self.entry_count + 1;
        let ghost queued = self.eviction_candidates@;
        let ghost generations = self.generations();
        assert(!generations.dom().contains(timeline_key@));
        self.record_eviction_candidate(timeline_key, tick);
        proof {
            let generation = self.generations()[timeline_key@];
            let candidate = CandidateView { tick, generation, key: timeline_key@ };
            let at = choose|at: int|
                0 <= at <= queued.len() && self.eviction_candidates@ == #[trigger] queued.insert(
                    at,
                    candidate,
                );
            lemma_entered_timeline(
                old(self).cached(),
                generations,
                queued,
                timeline_key@,
                (timeline, tick),
                generation,
                at,
            );
            assert(self.generations().dom() =~= self.cached().dom());
        }
    }

    /// Enters a timeline. An entry under the same key is replaced; a full cache evicts an idle
    /// timeline first, or refuses.
    pub fn insert_timeline(
        &mut self,
        timeline_key: String,
        timeline: u64,
        busy: &HashSet<u64>,
    ) -> (result: Result<(), TsoError>)
        requires
            old(self).valid(),
        ensures
            final(self).valid(),
            if old(self).cached().contains_key(timeline_key@) {
                &&& result is Ok
                &&& touched(
                    *old(self),
                    timeline_key@,
                    (timeline, old(self).access_counter),
                    *final(self),
                )
            } else {
                match result {
                    Ok(()) => entered(
                        *old(self),
                        busy@,
                        timeline_key@,
                        (timeline, old(self).access_counter),
                        *final(self),
                    ),
                    Err(error) => {
                        &&& refused(*old(self), busy@, *final(self))
                        &&& is_saturated(error, timeline_key@, old(self).max_entries)
                    },
                }
            },
    {
        if get_cached(&self.timelines, timeline_key.as_str()).is_some() {
            let tick: u64 = self.next_access_tick();
            insert_cached(&mut self.timelines, timeline_key, (timeline, tick));
            assert(self.cached().dom() =~= old(self).cached().dom());
            return Ok(());
        }
        if self.entry_count >= self.max_entries {
            if !self.evict_one_idle_entry(busy) {
                return Err(
                    TsoError::TimelineRuntimeCacheSaturated {
                        timeline_key,
                        max_entries: self.max_entries,
                    },
                );
            }
        }
        self.enter_new(timeline_key.as_str(), timeline);
        Ok(())
    }

    /// The handle of a cached timeline, or of one that is built and entered. Nothing is built when
    /// the cache refuses it.
    pub fn timeline_handle_or_insert_with<F: FnOnce() -> u64>(
        &mut self,
        timeline_key: &str,
        build: F,
        busy: &HashSet<u64>,
    ) -> (result: Result<u64, TsoError>)
        requires
            old(self).valid(),
            build.requires(()),
        ensures
            final(self).valid(),
            if old(self).cached().contains_key(timeline_key@) {
                let found = old(self).cached()[timeline_key@].0;
                &&& result == Ok::<u64, TsoError>(found)
                &&& touched(
                    *old(self),
                    timeline_key@,
                    (found, old(self).access_counter),
                    *final(self),
                )
            } else {
                match result {
                    Ok(timeline) => {
                        &&& build.ensures((), timeline)
                        &&& entered(
                            *old(self),
                            busy@,
                            timeline_key@,
                            (timeline, old(self).access_counter),
                            *final(self),
                        )
                    },
                    Err(error) => {
                        &&& refused(*old(self), busy@, *final(self))
                        &&& is_saturated(error, timeline_key@, old(self).max_entries)
                    },
                }
            },
    {
        if let Some(found) = self.timeline_handle(timeline_key) {
            return Ok(found);
        }
        if self.entry_count >= self.max_entries {
            if !self.evict_one_idle_entry(busy) {
                return Err(
                    TsoError::TimelineRuntimeCacheSaturated {
                        timeline_key: timeline_key.to_owned(),
                        max_entries: self.max_entries,
                    },
                );
            }
        }
        let timeline: u64 = build();
        self.enter_new(timeline_key, timeline);
        Ok(timeline)
    }

    /// Removes a timeline, if it is cached.
    pub fn remove_timeline(&mut self, timeline_key: &str)
        requires
            old(self).valid(),
        ensures
            final(self).valid(),
            removed(*old(self), timeline_key@, *final(self)),
    {
        if get_cached(&self.timelines, timeline_key).is_none() {
            return;
        }
        remove_cached(&mut self.timelines, timeline_key);
        self.eviction_generations.remove(timeline_key);
        let ghost queued = self.eviction_candidates@;
        proof {
            lemma_removed_entry(
                old(self).cached(),
                old(self).generations(),
                queued,
                Seq::empty(),
                timeline_key@,
            );
        }
        self.maybe_compact_eviction_candidates();
        proof {
            lemma_represented_after_compaction(
                self.cached(),
                self.generations(),
                queued,
                self.eviction_candidates@,
                Seq::empty(),
            );
            assert(self.generations().dom() =~= self.cached().dom());
        }
        self.entry_count = self.entry_count - 1;
    }

    /// Removes every timeline.
    pub fn clear(&mut self)
        ensures
            final(self).valid(),
            final(self).keeps_settings(*old(self)),
            final(self).cached() == Map::<Seq<char>, (u64, u64)>::empty(),
            final(self).eviction_candidates@.len() == 0,
            final(self).entry_count == 0,
    {
        clear_cached(&mut self.timelines);
        self.eviction_generations.clear();
        self.eviction_candidates.clear();
        self.entry_count = 0;
        assert(self.generations().dom() =~= self.cached().dom());
    }
}

/// Evicting the timeline of the first candidate leaves the others represented.
proof fn lemma_evicted_candidate(
    cached: Cached,
    generations: Generations,
    queued: Seq<CandidateView>,
    deferred: Seq<CandidateView>,
    candidate: CandidateView,
)
    requires
        queued.len() > 0,
        queued.first() == candidate,
        all_represented(cached, generations, queued, deferred),
    ensures
        all_represented(
            cached.remove(candidate.key),
            generations.remove(candidate.key),
            queued.drop_first(),
            deferred,
        ),
{
    let after = generations.remove(candidate.key);
    lemma_removed_entry(cached, generations, queued, deferred, candidate.key);
    lemma_dropped_candidate(cached.remove(candidate.key), after, queued, deferred);
}

/// Compaction keeps every timeline represented.
proof fn lemma_represented_after_compaction(
    cached: Cached,
    generations: Generations,
    before: Seq<CandidateView>,
    after: Seq<CandidateView>,
    deferred: Seq<CandidateView>,
)
    requires
        all_represented(cached, generations, before, deferred),
        forall|key: Seq<char>|
            represented(generations, before, key) ==> #[trigger] represented(
                generations,
                after,
                key,
            ),
    ensures
        all_represented(cached, generations, after, deferred),
{
    assert forall|key: Seq<char>| #[trigger] cached.contains_key(key) implies represented(
        generations,
        after,
        key,
    ) || represented(generations, deferred, key) by {
        assert(represented(generations, before, key) || represented(generations, deferred, key));
    }
}

/// A batch that evicts takes the timeline of a candidate that can go.
proof fn lemma_batch_takes_idle(
    cached: Cached,
    generations: Generations,
    busy: Set<u64>,
    attempts: int,
    queued: Seq<CandidateView>,
    deferred: Seq<CandidateView>,
)
    requires
        attempts >= 0,
    ensures
        ({
            let done = batch(cached, generations, busy, attempts, queued, deferred);
            &&& done.gone matches Some(key) ==> cached.contains_key(key) && !busy.contains(
                cached[key].0,
            )
            &&& done.rest.len() + done.deferred.len() <= queued.len() + deferred.len()
            &&& done.gone is Some ==> done.rest.len() + done.deferred.len() < queued.len()
                + deferred.len()
        }),
{
    lemma_first_evictable(cached, generations, busy, attempts, queued, 0);
    let k = first_evictable(cached, generations, busy, attempts, queued, 0);
    let keeps = |candidate: CandidateView| candidates::is_current(generations, candidate);
    lemma_filter_len(queued.take(k), keeps);
}

proof fn lemma_filter_len(queued: Seq<CandidateView>, keeps: spec_fn(CandidateView) -> bool)
    ensures
        queued.filter(keeps).len() <= queued.len(),
    decreases queued.len(),
{
    reveal(Seq::filter);
    if queued.len() > 0 {
        lemma_filter_len(queued.drop_last(), keeps);
    }
}

/// The timeline that the search finds is cached and idle, and the search adds no candidate: it takes
/// away one at least where it finds a timeline.
pub proof fn searches_find_idle_timelines(store: TimelineCacheStore, busy: Set<u64>)
    ensures
        store.search(busy).0 matches Some(key) ==> store.cached().contains_key(key)
            && !busy.contains(store.cached()[key].0),
        store.search(busy).1.len() <= store.eviction_candidates@.len(),
        store.search(busy).0 is Some ==> store.search(busy).1.len()
            < store.eviction_candidates@.len(),
{
    let cached = store.cached();
    let generations = store.generations();
    let limit = EVICTION_CANDIDATE_BATCH_LIMIT as int;
    let none = Seq::<CandidateView>::empty();
    let queued = store.eviction_candidates@;
    let first = batch(cached, generations, busy, limit, queued, none);
    let next = compacted(generations, store.entry_count as int, first.rest);
    let second = batch(cached, generations, busy, limit, next, first.deferred);
    let again = candidates::in_queue_order(second.rest + second.deferred);
    let third = batch(cached, generations, busy, limit, again, none);
    lemma_batch_takes_idle(cached, generations, busy, limit, queued, none);
    lemma_filter_len(
        first.rest,
        |candidate: CandidateView| candidates::is_current(generations, candidate),
    );
    lemma_batch_takes_idle(cached, generations, busy, limit, next, first.deferred);
    lemma_batch_takes_idle(cached, generations, busy, limit, again, none);
    candidates::ordering_keeps_candidates(first.rest + first.deferred);
    candidates::ordering_keeps_candidates(second.rest + second.deferred);
    candidates::ordering_keeps_candidates(third.rest + third.deferred);
}

/// Where one of the candidates of the first batch can go, the search finds the timeline of the first
/// that can: the one that was queued with the earliest use.
pub proof fn oldest_idle_timelines_go_first(store: TimelineCacheStore, busy: Set<u64>, j: int)
    requires
        0 <= j < store.eviction_candidates@.len(),
        j < EVICTION_CANDIDATE_BATCH_LIMIT,
        evictable(store.cached(), store.generations(), busy, store.eviction_candidates@[j]),
    ensures
        exists|k: int|
            {
                &&& 0 <= k <= j
                &&& store.search(busy).0 == Some((#[trigger] store.eviction_candidates@[k]).key)
                &&& evictable(
                    store.cached(),
                    store.generations(),
                    busy,
                    store.eviction_candidates@[k],
                )
                &&& forall|i: int|
                    0 <= i < k ==> !evictable(
                        store.cached(),
                        store.generations(),
                        busy,
                        #[trigger] store.eviction_candidates@[i],
                    )
            },
{
    let limit = EVICTION_CANDIDATE_BATCH_LIMIT as int;
    let queued = store.eviction_candidates@;
    lemma_first_evictable(store.cached(), store.generations(), busy, limit, queued, 0);
    let k = first_evictable(store.cached(), store.generations(), busy, limit, queued, 0);
    assert(store.search(busy).0 == Some(queued[k].key));
}

/// Where the search finds nothing, none of the candidates of the first batch can go.
pub proof fn failed_searches_passed_over_the_oldest(
    store: TimelineCacheStore,
    busy: Set<u64>,
    j: int,
)
    requires
        0 <= j < store.eviction_candidates@.len(),
        j < EVICTION_CANDIDATE_BATCH_LIMIT,
        store.search(busy).0 is None,
    ensures
        !evictable(store.cached(), store.generations(), busy, store.eviction_candidates@[j]),
{
    if evictable(store.cached(), store.generations(), busy, store.eviction_candidates@[j]) {
        oldest_idle_timelines_go_first(store, busy, j);
    }
}

proof fn lemma_deferred_stand_for(
    cached: Cached,
    generations: Generations,
    passed: Seq<CandidateView>,
    key: Seq<char>,
)
    requires
        represented(generations, passed, key),
    ensures
        exists|i: int|
            {
                &&& 0 <= i < deferred_of(cached, generations, passed).len()
                &&& stands_for(
                    generations,
                    #[trigger] deferred_of(cached, generations, passed)[i],
                    key,
                )
                &&& deferred_of(cached, generations, passed)[i].tick == cached[key].1
            },
{
    let keeps = |candidate: CandidateView| candidates::is_current(generations, candidate);
    lemma_current_candidates_survive(generations, passed, key);
    let kept = passed.filter(keeps);
    let i = choose|i: int|
        0 <= i < kept.len() && stands_for(generations, #[trigger] kept[i], key);
    let deferred = deferred_of(cached, generations, passed);
    assert(deferred[i] == CandidateView { tick: cached[kept[i].key].1, ..kept[i] });
    assert(stands_for(generations, deferred[i], key));
}

/// While no more candidates are queued than fill a batch, the search finds nothing only where every
/// timeline is in use.
pub proof fn short_queues_hide_no_idle_timeline(
    store: TimelineCacheStore,
    busy: Set<u64>,
    key: Seq<char>,
)
    requires
        store.valid(),
        store.eviction_candidates@.len() <= EVICTION_CANDIDATE_BATCH_LIMIT,
        store.search(busy).0 is None,
        store.cached().contains_key(key),
    ensures
        busy.contains(store.cached()[key].0),
{
    let cached = store.cached();
    let generations = store.generations();
    let limit = EVICTION_CANDIDATE_BATCH_LIMIT as int;
    let none = Seq::<CandidateView>::empty();
    let queued = store.eviction_candidates@;
    let first = batch(cached, generations, busy, limit, queued, none);
    let next = compacted(generations, store.entry_count as int, first.rest);
    let second = batch(cached, generations, busy, limit, next, first.deferred);
    let again = candidates::in_queue_order(second.rest + second.deferred);
    lemma_first_evictable(cached, generations, busy, limit, queued, 0);
    assert(first.rest =~= none);
    assert(queued.take(queued.len() as int) =~= queued);
    lemma_filter_len(
        first.rest,
        |candidate: CandidateView| candidates::is_current(generations, candidate),
    );
    assert(next =~= none);
    assert(deferred_of(cached, generations, next.take(0)) =~= none) by {
        reveal(Seq::filter);
    }
    lemma_first_evictable(cached, generations, busy, limit, next, 0);
    assert(second.rest + second.deferred =~= deferred_of(cached, generations, queued));
    candidates::ordering_keeps_candidates(second.rest + second.deferred);
    lemma_filter_len(
        queued,
        |candidate: CandidateView| candidates::is_current(generations, candidate),
    );
    assert(represented(generations, queued, key)) by {
        assert(!represented(generations, none, key));
    }
    lemma_deferred_stand_for(cached, generations, queued, key);
    let deferred = deferred_of(cached, generations, queued);
    let i = choose|i: int|
        {
            &&& 0 <= i < deferred.len()
            &&& stands_for(generations, #[trigger] deferred[i], key)
            &&& deferred[i].tick == cached[key].1
        };
    vstd::seq_lib::to_multiset_contains(deferred, deferred[i]);
    vstd::seq_lib::to_multiset_contains(again, deferred[i]);
    assert(deferred.contains(deferred[i]));
    let at = choose|at: int| 0 <= at < again.len() && again[at] == deferred[i];
    lemma_first_evictable(cached, generations, busy, limit, again, 0);
    assert(!evictable(cached, generations, busy, again[at]));
}

/// No more candidates are queued than timelines are cached. This holds of a new or cleared cache,
/// and of every cache from which no timeline was removed.
pub open spec fn queues_each_once(store: TimelineCacheStore) -> bool {
    store.eviction_candidates@.len() <= store.entry_count
}

/// Using, entering and refusing timelines queues no more candidates than timelines are cached. A new
/// timeline adds one candidate at most, and none where another one had to go; a refusal adds none.
pub proof fn entries_queue_each_timeline_once(
    before: TimelineCacheStore,
    busy: Set<u64>,
    key: Seq<char>,
    entry: (u64, u64),
    after: TimelineCacheStore,
)
    requires
        touched(before, key, entry, after) || entered(before, busy, key, entry, after) || refused(
            before,
            busy,
            after,
        ),
    ensures
        queues_each_once(before) ==> queues_each_once(after),
        after.eviction_candidates@.len() <= before.eviction_candidates@.len() + 1,
        before.entry_count >= before.max_entries ==> after.eviction_candidates@.len()
            <= before.eviction_candidates@.len(),
{
    let candidate = CandidateView {
        tick: entry.1,
        generation: before.eviction_generation_counter,
        key,
    };
    searches_find_idle_timelines(before, busy);
    candidates::ordering_keeps_candidates(before.eviction_candidates@.push(candidate));
    candidates::ordering_keeps_candidates(before.search(busy).1.push(candidate));
}

/// A full cache that fills no more than a batch, and from which nothing was removed, takes a new
/// timeline exactly where one of its own is idle. It then holds as many as before: one that was
/// idle is gone, and those that are in use stay.
pub proof fn full_caches_trade_idle_timelines(
    before: TimelineCacheStore,
    busy: Set<u64>,
    key: Seq<char>,
    entry: (u64, u64),
    after: TimelineCacheStore,
    other: Seq<char>,
)
    requires
        before.valid(),
        after.valid(),
        queues_each_once(before),
        before.entry_count == before.max_entries,
        before.max_entries <= EVICTION_CANDIDATE_BATCH_LIMIT,
        !before.cached().contains_key(key),
        entered(before, busy, key, entry, after) || refused(before, busy, after),
        before.cached().contains_key(other),
    ensures
        after.cached().dom().len() == before.max_entries,
        !busy.contains(before.cached()[other].0) ==> entered(before, busy, key, entry, after),
        entered(before, busy, key, entry, after) ==> exists|gone: Seq<char>|
            {
                &&& #[trigger] before.cached().contains_key(gone)
                &&& !busy.contains(before.cached()[gone].0)
                &&& after.cached() == before.cached().remove(gone).insert(key, entry)
            },
        busy.contains(before.cached()[other].0) ==> after.cached().contains_key(other)
            && after.cached()[other] == before.cached()[other],
        refused(before, busy, after) ==> after.cached() == before.cached(),
{
    searches_find_idle_timelines(before, busy);
    if refused(before, busy, after) {
        short_queues_hide_no_idle_timeline(before, busy, other);
    }
}

/// A timeline that goes is cached in the incarnation that was queued, was not used since, and is not
/// in use.
pub proof fn timelines_that_go_are_idle_and_unused(
    cached: Cached,
    generations: Generations,
    busy: Set<u64>,
    candidate: CandidateView,
)
    ensures
        evictable(cached, generations, busy, candidate) <==> {
            &&& cached.contains_key(candidate.key)
            &&& generations.contains_key(candidate.key)
            &&& generations[candidate.key] == candidate.generation
            &&& cached[candidate.key].1 == candidate.tick
            &&& !busy.contains(cached[candidate.key].0)
        },
{
}

/// Where none of the first batch can go the batch behind it is looked at: of the first 256
/// candidates the first that can go goes, as long as not so many are queued that stale ones are
/// dropped in between.
pub proof fn the_second_batch_is_searched_too(store: TimelineCacheStore, busy: Set<u64>, j: int)
    requires
        0 <= j < store.eviction_candidates@.len(),
        j < 256,
        store.entry_count > 0,
        store.eviction_candidates@.len() - 128 <= 4 * store.entry_count + 8,
        4 * store.entry_count + 8 <= usize::MAX,
        evictable(store.cached(), store.generations(), busy, store.eviction_candidates@[j]),
    ensures
        exists|k: int|
            {
                &&& 0 <= k <= j
                &&& store.search(busy).0 == Some((#[trigger] store.eviction_candidates@[k]).key)
                &&& evictable(
                    store.cached(),
                    store.generations(),
                    busy,
                    store.eviction_candidates@[k],
                )
                &&& forall|i: int|
                    0 <= i < k ==> !evictable(
                        store.cached(),
                        store.generations(),
                        busy,
                        #[trigger] store.eviction_candidates@[i],
                    )
            },
{
    let cached = store.cached();
    let generations = store.generations();
    let queued = store.eviction_candidates@;
    let limit = EVICTION_CANDIDATE_BATCH_LIMIT as int;
    let none = Seq::<CandidateView>::empty();
    lemma_first_evictable(cached, generations, busy, limit, queued, 0);
    let k = first_evictable(cached, generations, busy, limit, queued, 0);
    let first = batch(cached, generations, busy, limit, queued, none);
    if k < batch_size(limit, queued) {
        assert(store.search(busy).0 == Some(queued[k].key));
    } else {
        let rest = queued.skip(128);
        assert(first.rest =~= rest);
        assert(compacted(generations, store.entry_count as int, rest) == rest);
        lemma_first_evictable(cached, generations, busy, limit, rest, 0);
        let l = first_evictable(cached, generations, busy, limit, rest, 0);
        assert(rest[j - 128] == queued[j]);
        assert(rest[l] == queued[l + 128]);
        assert forall|i: int| 0 <= i < l + 128 implies !evictable(
            cached,
            generations,
            busy,
            #[trigger] queued[i],
        ) by {
            if i >= 128 {
                assert(rest[i - 128] == queued[i]);
            }
        }
        assert(store.search(busy).0 == Some(queued[l + 128].key));
    }
}

/// Stale candidates are dropped once more than sixteen, and more than four for each timeline and
/// eight, are queued, and all of them once no timeline is left; no other candidate ever is.
pub proof fn compaction_drops_stale_candidates_only(
    generations: Generations,
    live_entries: int,
    queued: Seq<CandidateView>,
    i: int,
)
    requires
        0 <= live_entries,
        4 * live_entries + 8 <= usize::MAX,
        0 <= i < queued.len(),
    ensures
        ({
            let left = compacted(generations, live_entries, queued);
            let current = generations.contains_key(queued[i].key) && generations[queued[i].key]
                == queued[i].generation;
            let due = if live_entries == 0 {
                true
            } else {
                queued.len() > 16 && queued.len() > 4 * live_entries + 8
            };
            &&& left.len() <= queued.len()
            &&& current ==> left.contains(queued[i])
            &&& due && !current ==> !left.contains(queued[i])
            &&& !due ==> left == queued
        }),
{
    let keeps = |candidate: CandidateView| candidates::is_current(generations, candidate);
    if keeps(queued[i]) {
        queued.lemma_filter_contains(keeps, i);
    }
    assert(queued.contains(queued[i]));
    lemma_filter_len(queued, keeps);
    let kept = queued.filter(keeps);
    assert forall|k: int| 0 <= k < kept.len() implies keeps(#[trigger] kept[k]) by {
        queued.lemma_filter_pred(keeps, k);
    }
}

/// Using, entering, refusing and removing a timeline changes what the cache holds in just that way.
/// No timeline but one that is idle and makes room for a new one goes by itself.
pub proof fn caches_hold_what_was_entered(
    before: TimelineCacheStore,
    busy: Set<u64>,
    key: Seq<char>,
    entry: (u64, u64),
    after: TimelineCacheStore,
    other: Seq<char>,
)
    requires
        before.valid(),
        other != key,
    ensures
        touched(before, key, entry, after) || entered(before, busy, key, entry, after)
            ==> after.cached().contains_key(key) && after.cached()[key] == entry,
        touched(before, key, entry, after) || refused(before, busy, after) || removed(
            before,
            key,
            after,
        ) ==> after.cached().contains_key(other) == before.cached().contains_key(other) && (
        before.cached().contains_key(other) ==> after.cached()[other] == before.cached()[other]),
        entered(before, busy, key, entry, after) ==> (after.cached().contains_key(other)
            ==> before.cached().contains_key(other) && after.cached()[other]
            == before.cached()[other]),
        entered(before, busy, key, entry, after) && before.cached().contains_key(other) && (
        busy.contains(before.cached()[other].0) || before.entry_count < before.max_entries)
            ==> after.cached().contains_key(other),
        removed(before, key, after) ==> !after.cached().contains_key(key),
        refused(before, busy, after) ==> after.cached() == before.cached(),
{
    searches_find_idle_timelines(before, busy);
}

/// A queue is cleared of stale candidates once it holds more than sixteen, and more than eight and
/// four for every live entry; without live entries as soon as it holds any.
pub proof fn queues_are_compacted_when_they_outgrow_the_cache(live_entries: int, queued: int)
    requires
        0 <= live_entries <= 1_000_000_000,
    ensures
        live_entries == 0 ==> (compaction_due(live_entries, queued) <==> queued > 0),
        live_entries > 0 ==> (compaction_due(live_entries, queued) <==> queued > 16 && queued > 4
            * live_entries + 8),
{
}

/// Counters go up by one, and start over behind the last number.
pub proof fn counters_go_up_by_one(count: u64)
    ensures
        count < u64::MAX ==> next_count(count) == count + 1,
        next_count(u64::MAX) == 0,
{
}

/// A timeline that can go is found where it stands among the first 128 candidates.
pub proof fn the_first_candidates_are_searched(store: TimelineCacheStore, busy: Set<u64>, j: int)
    requires
        0 <= j < store.eviction_candidates@.len(),
        j < 128,
        evictable(store.cached(), store.generations(), busy, store.eviction_candidates@[j]),
    ensures
        store.search(busy).0 is Some,
{
    oldest_idle_timelines_go_first(store, busy, j);
}

/// A timeline that a full cache refuses is told by its key, with the limit of the cache.
pub proof fn refusals_name_the_timeline(error: TsoError, key: Seq<char>, limit: usize)
    requires
        is_saturated(error, key, limit),
    ensures
        error is TimelineRuntimeCacheSaturated,
        error->TimelineRuntimeCacheSaturated_timeline_key@ == key,
        error->max_entries == limit,
{
}

/// A timeline is refused only by a full cache in which no idle timeline is found, and then every
/// cached timeline stays. A timeline that is given up is gone, and no other one is.
pub proof fn full_caches_refuse_and_keep_what_they_hold(
    before: TimelineCacheStore,
    busy: Set<u64>,
    after: TimelineCacheStore,
    key: Seq<char>,
    rest: TimelineCacheStore,
    other: Seq<char>,
)
    requires
        refused(before, busy, after),
        removed(before, key, rest),
    ensures
        before.entry_count >= before.max_entries,
        after.cached() == before.cached(),
        after.entry_count == before.entry_count,
        after.max_entries == before.max_entries,
        !rest.cached().contains_key(key),
        other != key ==> rest.cached().contains_key(other) == before.cached().contains_key(other),
        other != key && before.cached().contains_key(other) ==> rest.cached()[other]
            == before.cached()[other],
        before.cached().contains_key(key) ==> rest.entry_count == before.entry_count - 1,
        !before.cached().contains_key(key) ==> rest == before,
{
}

/// No use of a cache changes how much it may hold. The generation of a timeline changes only where
/// that timeline is entered or goes, and no generation is given out twice before the counter is
/// used up. Only using and entering a timeline counts as an access.
pub proof fn caches_keep_their_bound_and_their_generations(
    before: TimelineCacheStore,
    busy: Set<u64>,
    key: Seq<char>,
    entry: (u64, u64),
    after: TimelineCacheStore,
    other: Seq<char>,
)
    requires
        before.valid(),
        other != key,
        touched(before, key, entry, after) || entered(before, busy, key, entry, after) || refused(
            before,
            busy,
            after,
        ) || removed(before, key, after),
    ensures
        after.max_entries == before.max_entries,
        before.generations().contains_key(other) && after.generations().contains_key(other)
            ==> after.generations()[other] == before.generations()[other],
        after.generations().contains_key(other) ==> before.generations().contains_key(other),
        touched(before, key, entry, after) || refused(before, busy, after) ==> after.generations()
            == before.generations(),
        entered(before, busy, key, entry, after) ==> after.generations().contains_key(key)
            && after.generations()[key] == before.eviction_generation_counter,
        entered(before, busy, key, entry, after) && before.eviction_generation_counter < u64::MAX
            ==> after.eviction_generation_counter == before.eviction_generation_counter + 1,
        !entered(before, busy, key, entry, after) ==> after.eviction_generation_counter
            == before.eviction_generation_counter,
        touched(before, key, entry, after) || entered(before, busy, key, entry, after) ==> (
        before.access_counter < u64::MAX ==> after.access_counter == before.access_counter + 1),
        refused(before, busy, after) || removed(before, key, after) ==> after.access_counter
            == before.access_counter,
        removed(before, key, after) ==> !after.generations().contains_key(key)
            || !before.cached().contains_key(key),
{
}

} // verus!
