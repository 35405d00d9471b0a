//! Eviction candidates: a queue that hands out the least recently used candidate first.

use std::collections::VecDeque;

use vstd::hash_map::StringHashMap;
use vstd::prelude::*;
use vstd::relations;

use crate::text;
use crate::text::text_less;

verus! {

/// A cached timeline as it was last queued: when it was used, in which incarnation, and its key.
#[derive(Debug)]
pub struct EvictionCandidate {
    pub tick: u64,
    pub generation: u64,
    pub key: String,
}

/// The content of a candidate.
pub struct CandidateView {
    pub tick: u64,
    pub generation: u64,
    pub key: Seq<char>,
}

impl View for EvictionCandidate {
    type V = CandidateView;

    open spec fn view(&self) -> CandidateView {
        CandidateView { tick: self.tick, generation: self.generation, key: self.key@ }
    }
}

impl CandidateView {
    /// Ticks order candidates, then generations, then keys.
    pub open spec fn before(self, other: CandidateView) -> bool {
        if self.tick != other.tick {
            self.tick < other.tick
        } else if self.generation != other.generation {
            self.generation < other.generation
        } else {
            text::text_before(self.key, other.key)
        }
    }
}

/// No candidate comes after a later one.
pub open spec fn in_order(candidates: Seq<CandidateView>) -> bool {
    forall|i: int, j: int|
        0 <= i < j < candidates.len() ==> !(#[trigger] candidates[j]).before(
            #[trigger] candidates[i],
        )
}

/// One candidate does not come after another.
pub open spec fn no_later() -> spec_fn(CandidateView, CandidateView) -> bool {
    |a: CandidateView, b: CandidateView| !b.before(a)
}

/// The candidates in the order of the queue.
pub open spec fn in_queue_order(candidates: Seq<CandidateView>) -> Seq<CandidateView> {
    candidates.sort_by(no_later())
}

pub open spec fn candidates_of(items: Seq<EvictionCandidate>) -> Seq<CandidateView> {
    items.map_values(|item: EvictionCandidate| item@)
}

proof fn lemma_before_is_transitive(a: CandidateView, b: CandidateView, c: CandidateView)
    ensures
        a.before(b) && b.before(c) ==> a.before(c),
        !a.before(b) && !b.before(c) ==> !a.before(c),
        !(a.before(b) && b.before(a)),
{
    text::text_order_is_total(a.key, b.key, c.key);
    text::text_order_is_total(a.key, c.key, b.key);
    text::text_order_is_total(c.key, b.key, a.key);
    text::text_order_is_total(b.key, c.key, a.key);
}

proof fn lemma_total_order()
    ensures
        relations::total_ordering(no_later()),
{
    let leq = no_later();
    assert forall|x: CandidateView| #[trigger] leq(x, x) by {
        lemma_before_is_transitive(x, x, x);
    }
    assert forall|x: CandidateView, y: CandidateView| #[trigger] leq(x, y) && #[trigger] leq(
        y,
        x,
    ) implies x == y by {
        text::text_order_is_total(x.key, y.key, x.key);
    }
    assert forall|x: CandidateView, y: CandidateView, z: CandidateView| #[trigger]
        leq(x, y) && #[trigger] leq(y, z) implies leq(x, z) by {
        lemma_before_is_transitive(z, y, x);
    }
    assert forall|x: CandidateView, y: CandidateView| #[trigger] leq(x, y) || #[trigger] leq(
        y,
        x,
    ) by {
        lemma_before_is_transitive(x, y, x);
    }
}

/// The longer a timeline was not used the sooner it stands in the queue: the first candidate has
/// the least tick of all.
pub proof fn queues_begin_with_the_longest_unused(queue: Seq<CandidateView>, i: int)
    requires
        in_order(queue),
        0 <= i < queue.len(),
    ensures
        queue[0].tick <= queue[i].tick,
        forall|j: int| i <= j < queue.len() ==> queue[i].tick <= (#[trigger] queue[j]).tick,
{
    assert forall|j: int| i <= j < queue.len() implies queue[i].tick <= (
    #[trigger] queue[j]).tick by {
        if i < j {
            assert(!queue[j].before(queue[i]));
        }
    }
    if i > 0 {
        assert(!queue[i].before(queue[0]));
    }
}

/// Candidates that are in order are the same ones in the order of the queue.
pub proof fn queues_are_determined(queue: Seq<CandidateView>, candidates: Seq<CandidateView>)
    requires
        in_order(queue),
        queue.to_multiset() == candidates.to_multiset(),
    ensures
        queue == in_queue_order(candidates),
{
    lemma_total_order();
    candidates.lemma_sort_by_ensures(no_later());
    vstd::seq_lib::lemma_sorted_unique(queue, in_queue_order(candidates), no_later());
}

/// Bringing candidates into order loses none and adds none.
pub proof fn ordering_keeps_candidates(candidates: Seq<CandidateView>)
    ensures
        in_order(in_queue_order(candidates)),
        in_queue_order(candidates).to_multiset() == candidates.to_multiset(),
        in_queue_order(candidates).len() == candidates.len(),
{
    lemma_total_order();
    candidates.lemma_sort_by_ensures(no_later());
    let queue = in_queue_order(candidates);
    vstd::seq_lib::to_multiset_len(queue);
    vstd::seq_lib::to_multiset_len(candidates);
    assert forall|i: int, j: int| 0 <= i < j < queue.len() implies !(#[trigger] queue[j]).before(
        #[trigger] queue[i],
    ) by {
        assert(no_later()(queue[i], queue[j]));
    }
}

/// The candidate stands for the current incarnation of its key.
pub open spec fn is_current(generations: Map<Seq<char>, u64>, candidate: CandidateView) -> bool {
    generations.contains_key(candidate.key) && generations[candidate.key] == candidate.generation
}

/// Whether the first candidate comes before the second.
fn candidate_before(a: &EvictionCandidate, b: &EvictionCandidate) -> (answer: bool)
    ensures
        answer == a@.before(b@),
{
    if a.tick != b.tick {
        a.tick < b.tick
    } else if a.generation != b.generation {
        a.generation < b.generation
    } else {
        text_less(a.key.as_str(), b.key.as_str())
    }
}

/// The candidates, least recently used first.
#[derive(Debug)]
pub struct CandidateQueue {
    items: VecDeque<EvictionCandidate>,
}

impl View for CandidateQueue {
    type V = Seq<CandidateView>;

    closed spec fn view(&self) -> Seq<CandidateView> {
        candidates_of(self.items@)
    }
}

impl CandidateQueue {
    pub open spec fn valid(self) -> bool {
        in_order(self@)
    }

    pub fn new() -> (queue: Self)
        ensures
            queue.valid(),
            queue@ == Seq::<CandidateView>::empty(),
    {
        let queue = CandidateQueue { items: VecDeque::new() };
        assert(queue@ =~= Seq::<CandidateView>::empty());
        queue
    }

    pub fn len(&self) -> (length: usize)
        ensures
            length == self@.len(),
    {
        self.items.len()
    }

    pub fn clear(&mut self)
        ensures
            final(self).valid(),
            final(self)@ == Seq::<CandidateView>::empty(),
    {
        self.items.clear();
        assert(self@ =~= Seq::<CandidateView>::empty());
    }

    /// Keeps the candidates of the current incarnation of their key.
    pub fn retain_current(&mut self, generations: &StringHashMap<u64>)
        requires
            old(self).valid(),
        ensures
            final(self).valid(),
            final(self)@ == old(self)@.filter(
                |candidate: CandidateView| is_current(generations@, candidate),
            ),
    {
        let ghost keeps = |candidate: CandidateView| is_current(generations@, candidate);
        let ghost before = self@;
        let ghost mut done: int = 0;
        let mut kept: VecDeque<EvictionCandidate> = VecDeque::new();
        assert(before.take(0).filter(keeps) =~= Seq::empty()) by {
            reveal(Seq::filter);
        }
        assert(candidates_of(self.items@) =~= before.skip(0));
        while self.items.len() > 0
            invariant
                0 <= done <= before.len(),
                in_order(before),
                keeps == (|candidate: CandidateView| is_current(generations@, candidate)),
                candidates_of(self.items@) == before.skip(done),
                candidates_of(kept@) == before.take(done).filter(keeps),
                in_order(candidates_of(kept@)),
                forall|a: int, j: int|
                    0 <= a < kept@.len() && done <= j < before.len() ==> !(
                    #[trigger] before[j]).before(#[trigger] candidates_of(kept@)[a]),
            decreases before.len() - done,
        {
            let ghost kept_before = kept@;
            let ghost items_before = self.items@;
            if let Some(candidate) = self.items.pop_front() {
                proof {
                    assert(candidates_of(items_before).len() == items_before.len());
                    assert(done < before.len());
                    assert(candidates_of(items_before)[0] == candidate@);
                    assert(before.skip(done)[0] == before[done]);
                    assert(candidate@ == before[done]);
                    assert(candidates_of(self.items@) =~= candidates_of(
                        items_before,
                    ).drop_first());
                    assert(before.skip(done).drop_first() =~= before.skip(done + 1));
                    assert(before.take(done + 1).drop_last() =~= before.take(done));
                    assert(before.take(done + 1).filter(keeps) == if keeps(before[done]) {
                        before.take(done).filter(keeps).push(before[done])
                    } else {
                        before.take(done).filter(keeps)
                    }) by {
                        reveal(Seq::filter);
                    }
                }
                let current = match generations.get(candidate.key.as_str()) {
                    Some(generation) => *generation == candidate.generation,
                    None => false,
                };
                if current {
                    kept.push_back(candidate);
                    assert(candidates_of(kept@) =~= candidates_of(kept_before).push(before[done]));
                }
                proof {
                    assert forall|a: int, j: int|
                        0 <= a < kept@.len() && done + 1 <= j < before.len() implies !(
                    #[trigger] before[j]).before(#[trigger] candidates_of(kept@)[a]) by {
                        if a < kept_before.len() {
                            assert(candidates_of(kept@)[a] == candidates_of(kept_before)[a]);
                        } else {
                            assert(candidates_of(kept@)[a] == before[done]);
                        }
                    }
                    assert(in_order(candidates_of(kept@))) by {
                        let now = candidates_of(kept@);
                        assert forall|a: int, b: int| 0 <= a < b < now.len() implies !(
                        #[trigger] now[b]).before(#[trigger] now[a]) by {
                            assert(now[a] == candidates_of(kept_before)[a]);
                            if b < kept_before.len() {
                                assert(now[b] == candidates_of(kept_before)[b]);
                            } else {
                                assert(now[b] == before[done]);
                            }
                        }
                    }
                    done = done + 1;
                }
            }
        }
        proof {
            assert(before.skip(done).len() == candidates_of(self.items@).len());
            assert(before.take(done) =~= before);
        }
        self.items = kept;
    }

    /// Takes the first candidate out.
    pub fn pop(&mut self) -> (first: Option<EvictionCandidate>)
        requires
            old(self).valid(),
        ensures
            final(self).valid(),
            match first {
                Some(candidate) => {
                    &&& old(self)@.len() > 0
                    &&& candidate@ == old(self)@.first()
                    &&& final(self)@ == old(self)@.drop_first()
                },
                None => old(self)@.len() == 0 && final(self)@ == old(self)@,
            },
    {
        let ghost before = self.items@;
        let first = self.items.pop_front();
        proof {
            if before.len() > 0 {
                assert(candidates_of(self.items@) =~= candidates_of(before).drop_first());
                let rest = candidates_of(before).drop_first();
                assert forall|i: int, j: int| 0 <= i < j < rest.len() implies !(
                #[trigger] rest[j]).before(#[trigger] rest[i]) by {
                    assert(rest[i] == candidates_of(before)[i + 1]);
                    assert(rest[j] == candidates_of(before)[j + 1]);
                }
            }
        }
        first
    }

    /// Puts a candidate at its place.
    pub fn push(&mut self, candidate: EvictionCandidate)
        requires
            old(self).valid(),
        ensures
            final(self).valid(),
            final(self)@ == in_queue_order(old(self)@.push(candidate@)),
            exists|at: int|
                0 <= at <= old(self)@.len() && final(self)@ == #[trigger] old(self)@.insert(
                    at,
                    candidate@,
                ),
    {
        let mut at: usize = self.items.len();
        let ghost before = self@;
        while at > 0 && candidate_before(&candidate, &self.items[at - 1])
            invariant
                at <= self.items@.len(),
                before == candidates_of(self.items@),
                *self == *old(self),
                forall|k: int|
                    at <= k < before.len() ==> candidate@.before(#[trigger] before[k]),
            decreases at,
        {
            assert(before[at - 1] == self.items@[at - 1]@);
            at = at - 1;
        }
        proof {
            if at > 0 {
                assert(before[at - 1] == self.items@[at - 1]@);
            }
        }
        self.items.insert(at, candidate);
        proof {
            let after = self@;
            assert(after =~= before.insert(at as int, candidate@));
            assert forall|i: int, j: int| 0 <= i < j < after.len() implies !(
            #[trigger] after[j]).before(#[trigger] after[i]) by {
                if j < at {
                    assert(after[i] == before[i] && after[j] == before[j]);
                } else if i > at {
                    assert(after[i] == before[i - 1] && after[j] == before[j - 1]);
                } else if i == at {
                    assert(after[j] == before[j - 1]);
                    lemma_before_is_transitive(candidate@, before[j - 1], candidate@);
                } else if j == at {
                    assert(after[i] == before[i]);
                    if i < at - 1 {
                        assert(!before[at - 1].before(before[i]));
                    } else {
                        lemma_before_is_transitive(before[i], candidate@, before[i]);
                    }
                    lemma_before_is_transitive(candidate@, before[at - 1], before[i]);
                } else {
                    assert(after[i] == before[i] && after[j] == before[j - 1]);
                }
            }
            vstd::seq_lib::to_multiset_insert(before, at as int, candidate@);
            vstd::seq_lib::to_multiset_build(before, candidate@);
            queues_are_determined(after, before.push(candidate@));
        }
    }
}

} // verus!
