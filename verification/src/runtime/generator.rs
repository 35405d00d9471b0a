//! A generator hands out the timestamps of one generator id, in order and never twice.

use vstd::prelude::*;

use crate::error::TsoError;
use crate::model::TimestampRange;
use crate::tso;
use crate::tso::{encode_tso, next_cursor_after, MAX_GENERATORS, MAX_PHYSICAL_MS, SEQUENCE_CAPACITY};

verus! {

pub open spec fn max_of(a: int, b: int) -> int {
    if a >= b {
        a
    } else {
        b
    }
}

/// The positions that an allocation takes: `start_index` up to and without `new_index`.
#[derive(Debug, Clone, Copy, PartialEq, Eq, Structural)]
pub struct AllocationPlan {
    pub start_index: u64,
    pub new_index: u64,
}

/// What an allocation is asked for, at the moment it is planned.
pub struct AllocationInput {
    pub generator_id: int,
    pub old_index: int,
    pub count: int,
    pub floor: Option<u64>,
    pub now_ms: int,
    pub max_future_borrow_ms: int,
    pub max_clock_rewind_ms: int,
    pub issued_upper_bound: Option<u64>,
}

impl AllocationInput {
    /// The millisecond that the generator has reached.
    pub open spec fn current_ms(self) -> int {
        self.old_index / SEQUENCE_CAPACITY as int
    }

    /// A floor is given and no position of this generator lies above it.
    pub open spec fn floor_is_unreachable(self) -> bool {
        self.floor matches Some(floor) && (self.generator_id >= MAX_GENERATORS
            || tso::first_cursor_after(floor as int, self.generator_id).0 > MAX_PHYSICAL_MS)
    }

    /// The first position above the floor.
    pub open spec fn floor_index(self) -> int {
        match self.floor {
            Some(floor) => {
                let first = tso::first_cursor_after(floor as int, self.generator_id);
                tso::cursor_index(first.0, first.1)
            },
            None => 0,
        }
    }

    /// The clock is behind the generator by more than a rewind may be.
    pub open spec fn clock_is_too_far_behind(self) -> bool {
        self.current_ms() - self.now_ms > max_of(0, self.max_clock_rewind_ms)
    }

    /// The first position that is at once unused, not before the clock and above the floor.
    /// Position arithmetic stops at the largest `u64`.
    pub open spec fn start_index(self) -> int {
        let clock_index = max_of(self.now_ms, self.current_ms()) * SEQUENCE_CAPACITY;
        let reachable = if clock_index > u64::MAX {
            u64::MAX as int
        } else {
            clock_index
        };
        max_of(max_of(self.old_index, reachable), self.floor_index())
    }

    /// The last position that the allocation would take.
    pub open spec fn last_index(self) -> int {
        self.start_index() + self.count - 1
    }

    /// The last millisecond that timestamps may be taken from.
    pub open spec fn allowed_ms(self) -> int {
        let ahead = if self.now_ms + self.max_future_borrow_ms > u64::MAX {
            u64::MAX as int
        } else {
            self.now_ms + self.max_future_borrow_ms
        };
        max_of(self.current_ms(), ahead)
    }

    pub open spec fn start_ms(self) -> int {
        self.start_index() / SEQUENCE_CAPACITY as int
    }

    pub open spec fn last_ms(self) -> int {
        self.last_index() / SEQUENCE_CAPACITY as int
    }

    /// The last timestamp of the allocation does not fit into the layout.
    pub open spec fn end_is_unencodable(self) -> bool {
        self.generator_id >= MAX_GENERATORS || self.last_ms() > MAX_PHYSICAL_MS
    }

    /// The outcome of planning: the positions taken, or the first limit that is broken.
    pub open spec fn plan(self) -> Result<AllocationPlan, TsoError> {
        if self.floor_is_unreachable() {
            Err(layout_error(self.generator_id))
        } else if self.clock_is_too_far_behind() {
            Err(TsoError::ClockBackwards { delta_ms: (self.current_ms() - self.now_ms) as u64 })
        } else if self.start_ms() > self.allowed_ms() {
            Err(
                TsoError::FutureBorrowExceeded {
                    requested_physical_ms: self.start_ms() as u64,
                    allowed_physical_ms: self.allowed_ms() as u64,
                },
            )
        } else if self.start_index() + self.count > u64::MAX || self.last_index() < 0 {
            Err(TsoError::TsoOverflow)
        } else if self.last_ms() > self.allowed_ms() {
            Err(
                TsoError::FutureBorrowExceeded {
                    requested_physical_ms: self.last_ms() as u64,
                    allowed_physical_ms: self.allowed_ms() as u64,
                },
            )
        } else if self.issued_upper_bound is Some && self.end_is_unencodable() {
            Err(layout_error(self.generator_id))
        } else if self.issued_upper_bound matches Some(bound) && tso::tso_at(
            self.generator_id,
            self.last_index(),
        ) > bound {
            Err(
                TsoError::IssuedUpperBoundExceeded {
                    requested_end_tso: tso::tso_at(self.generator_id, self.last_index()) as u64,
                    issued_upper_bound: self.issued_upper_bound->0,
                },
            )
        } else {
            Ok(
                AllocationPlan {
                    start_index: self.start_index() as u64,
                    new_index: (self.last_index() + 1) as u64,
                },
            )
        }
    }
}

/// Why a timestamp of this generator cannot be packed.
pub open spec fn layout_error(generator_id: int) -> TsoError {
    if generator_id >= MAX_GENERATORS {
        TsoError::GeneratorIdOutOfRange { generator_id: generator_id as u32 }
    } else {
        TsoError::TsoOverflow
    }
}

/// Every position from `start` on, `count` of them, can be packed.
pub open spec fn positions_fit(generator_id: int, start: int, count: int) -> bool {
    count == 0 || (generator_id < MAX_GENERATORS && (start + count - 1) / SEQUENCE_CAPACITY as int
        <= MAX_PHYSICAL_MS)
}

/// `count` positions from `start` on, cut at each millisecond.
pub open spec fn ranges_of(generator_id: int, start: int, count: int) -> Seq<TimestampRange>
    decreases count,
{
    if count <= 0 {
        Seq::empty()
    } else {
        let available = SEQUENCE_CAPACITY - start % SEQUENCE_CAPACITY as int;
        let taken = if count <= available {
            count
        } else {
            available
        };
        seq![
            TimestampRange {
                start_tso: tso::tso_at(generator_id, start) as u64,
                end_tso: tso::tso_at(generator_id, start + taken - 1) as u64,
            },
        ] + ranges_of(generator_id, start + taken, count - taken)
    }
}

/// Decides which positions an allocation takes when the generator stands at `old_index`.
pub fn plan_allocation(
    generator_id: u32,
    old_index: u64,
    count: u32,
    floor: Option<u64>,
    now_ms: u64,
    max_future_borrow_ms: u64,
    max_clock_rewind_ms: u64,
    issued_upper_bound: Option<u64>,
) -> (result: Result<AllocationPlan, TsoError>)
    ensures
        result == (AllocationInput {
            generator_id: generator_id as int,
            old_index: old_index as int,
            count: count as int,
            floor,
            now_ms: now_ms as int,
            max_future_borrow_ms: max_future_borrow_ms as int,
            max_clock_rewind_ms: max_clock_rewind_ms as int,
            issued_upper_bound,
        }).plan(),
{
    let ghost input = AllocationInput {
        generator_id: generator_id as int,
        old_index: old_index as int,
        count: count as int,
        floor,
        now_ms: now_ms as int,
        max_future_borrow_ms: max_future_borrow_ms as int,
        max_clock_rewind_ms: max_clock_rewind_ms as int,
        issued_upper_bound,
    };
    let cap: u64 = 4096;
    let floor_index: u64 = match floor {
        Some(value) => match next_cursor_after(value, generator_id) {
            Ok(cursor) => cursor.physical_ms * cap + cursor.sequence as u64,
            Err(error) => {
                return Err(error);
            },
        },
        None => 0,
    };
    assert(floor_index == input.floor_index());

    let current_physical_ms: u64 = old_index / cap;
    let mut effective_now_ms: u64 = now_ms;
    if now_ms < current_physical_ms {
        let delta: u64 = current_physical_ms - now_ms;
        if delta > max_clock_rewind_ms {
            return Err(TsoError::ClockBackwards { delta_ms: delta });
        }
        effective_now_ms = current_physical_ms;
    }
    let borrowed_ms: u64 = now_ms.saturating_add(max_future_borrow_ms);
    let allowed_physical_ms: u64 = if current_physical_ms >= borrowed_ms {
        current_physical_ms
    } else {
        borrowed_ms
    };
    let clock_index: u64 = match effective_now_ms.checked_mul(cap) {
        Some(index) => index,
        None => u64::MAX,
    };
    let base_index: u64 = if old_index >= clock_index {
        old_index
    } else {
        clock_index
    };
    let start_index: u64 = if base_index >= floor_index {
        base_index
    } else {
        floor_index
    };
    assert(start_index == input.start_index());
    let start_physical_ms: u64 = start_index / cap;
    if start_physical_ms > allowed_physical_ms {
        return Err(
            TsoError::FutureBorrowExceeded {
                requested_physical_ms: start_physical_ms,
                allowed_physical_ms,
            },
        );
    }
    let new_index: u64 = match start_index.checked_add(count as u64) {
        Some(index) => index,
        None => {
            return Err(TsoError::TsoOverflow);
        },
    };
    if new_index == 0 {
        return Err(TsoError::TsoOverflow);
    }
    let last_index: u64 = new_index - 1;
    let last_physical_ms: u64 = last_index / cap;
    let last_sequence: u32 = (last_index % cap) as u32;
    if last_physical_ms > allowed_physical_ms {
        return Err(
            TsoError::FutureBorrowExceeded {
                requested_physical_ms: last_physical_ms,
                allowed_physical_ms,
            },
        );
    }
    if let Some(bound) = issued_upper_bound {
        let requested_end_tso: u64 = match encode_tso(
            last_physical_ms,
            generator_id,
            last_sequence,
        ) {
            Ok(tso) => tso,
            Err(error) => {
                return Err(error);
            },
        };
        if requested_end_tso > bound {
            return Err(
                TsoError::IssuedUpperBoundExceeded { requested_end_tso, issued_upper_bound: bound },
            );
        }
    }
    Ok(AllocationPlan { start_index, new_index })
}

/// The timestamps at `count` positions from `start_index` on, one range for each millisecond.
pub fn allocation_ranges(generator_id: u32, start_index: u64, count: u32) -> (result: Result<
    Vec<TimestampRange>,
    TsoError,
>)
    requires
        start_index + count <= u64::MAX,
    ensures
        match result {
            Ok(ranges) => {
                &&& positions_fit(generator_id as int, start_index as int, count as int)
                &&& ranges@ == ranges_of(generator_id as int, start_index as int, count as int)
            },
            Err(error) => {
                &&& !positions_fit(generator_id as int, start_index as int, count as int)
                &&& error == layout_error(generator_id as int)
            },
        },
{
    let cap: u64 = 4096;
    let ghost id = generator_id as int;
    let mut remaining: u64 = count as u64;
    let mut cursor: u64 = start_index;
    let mut ranges: Vec<TimestampRange> = Vec::new();
    while remaining > 0
        invariant
            cap == 4096,
            id == generator_id,
            start_index + count <= u64::MAX,
            cursor + remaining == start_index + count,
            cursor >= start_index,
            ranges@ + ranges_of(id, cursor as int, remaining as int) == ranges_of(
                id,
                start_index as int,
                count as int,
            ),
            count > 0 && remaining == 0 ==> positions_fit(id, start_index as int, count as int),
        decreases remaining,
    {
        let physical_ms: u64 = cursor / cap;
        let sequence_index: u64 = cursor % cap;
        let sequence: u32 = sequence_index as u32;
        let available: u64 = cap - sequence_index;
        let take: u64 = if remaining <= available {
            remaining
        } else {
            available
        };
        let start_tso: u64 = match encode_tso(physical_ms, generator_id, sequence) {
            Ok(tso) => tso,
            Err(error) => {
                return Err(error);
            },
        };
        let end_sequence: u32 = sequence + take as u32 - 1;
        let end_tso: u64 = match encode_tso(physical_ms, generator_id, end_sequence) {
            Ok(tso) => tso,
            Err(error) => {
                return Err(error);
            },
        };
        assert(end_tso == tso::tso_at(id, cursor + take - 1));
        ranges.push(TimestampRange { start_tso, end_tso });
        proof {
            let rest = ranges_of(id, cursor + take, remaining - take);
            assert(ranges@ + rest =~= ranges@.drop_last() + (seq![ranges@.last()] + rest));
        }
        remaining = remaining - take;
        cursor = cursor + take;
    }
    assert(ranges@ + Seq::<TimestampRange>::empty() =~= ranges@);
    Ok(ranges)
}

/// One generator: its id and the next position that is free.
#[derive(Debug)]
pub struct Generator {
    pub id: u32,
    pub next_index: u64,
}

impl Generator {
    pub fn new(id: u32) -> (generator: Self)
        ensures
            generator.id == id,
            generator.next_index == 0,
    {
        Generator { id, next_index: 0 }
    }

    /// What moving past a floor comes to.
    pub open spec fn moves_past(self, before: Self, floor: u64, result: Result<(), TsoError>) -> bool {
        let first = tso::first_cursor_after(floor as int, before.id as int);
        &&& self.id == before.id
        &&& if before.id >= MAX_GENERATORS || first.0 > MAX_PHYSICAL_MS {
            &&& result == Err::<(), TsoError>(layout_error(before.id as int))
            &&& self.next_index == before.next_index
        } else {
            &&& result is Ok
            &&& self.next_index == max_of(
                before.next_index as int,
                tso::cursor_index(first.0, first.1),
            )
        }
    }

    /// Moves the generator past `floor`; it never moves back.
    pub fn init_after_floor(&mut self, floor: u64) -> (result: Result<(), TsoError>)
        ensures
            final(self).moves_past(*old(self), floor, result),
            final(self).id == old(self).id,
            ({
                let first = tso::first_cursor_after(floor as int, old(self).id as int);
                if old(self).id >= MAX_GENERATORS || first.0 > MAX_PHYSICAL_MS {
                    &&& result == Err::<(), TsoError>(layout_error(old(self).id as int))
                    &&& final(self).next_index == old(self).next_index
                } else {
                    &&& result is Ok
                    &&& final(self).next_index == max_of(
                        old(self).next_index as int,
                        tso::cursor_index(first.0, first.1),
                    )
                }
            }),
    {
        let cursor = match next_cursor_after(floor, self.id) {
            Ok(cursor) => cursor,
            Err(error) => {
                return Err(error);
            },
        };
        let index: u64 = cursor.physical_ms * 4096 + cursor.sequence as u64;
        if index > self.next_index {
            self.next_index = index;
        }
        Ok(())
    }

    /// What the last timestamp that the generator has moved past is.
    pub open spec fn tells_last(self, result: Result<Option<u64>, TsoError>) -> bool {
        match result {
            Ok(None) => self.next_index == 0,
            Ok(Some(tso)) => {
                &&& self.next_index > 0
                &&& positions_fit(self.id as int, self.next_index - 1, 1)
                &&& tso == tso::tso_at(self.id as int, self.next_index - 1)
            },
            Err(error) => {
                &&& self.next_index > 0
                &&& !positions_fit(self.id as int, self.next_index - 1, 1)
                &&& error == layout_error(self.id as int)
            },
        }
    }

    /// The last timestamp that the generator has moved past, if any.
    pub fn current_last_issued_tso(&self) -> (result: Result<Option<u64>, TsoError>)
        ensures
            self.tells_last(result),
            match result {
                Ok(None) => self.next_index == 0,
                Ok(Some(tso)) => {
                    &&& self.next_index > 0
                    &&& positions_fit(self.id as int, self.next_index - 1, 1)
                    &&& tso == tso::tso_at(self.id as int, self.next_index - 1)
                },
                Err(error) => {
                    &&& self.next_index > 0
                    &&& !positions_fit(self.id as int, self.next_index - 1, 1)
                    &&& error == layout_error(self.id as int)
                },
            },
    {
        if self.next_index == 0 {
            return Ok(None);
        }
        let last_index: u64 = self.next_index - 1;
        match encode_tso(last_index / 4096, self.id, (last_index % 4096) as u32) {
            Ok(tso) => Ok(Some(tso)),
            Err(error) => Err(error),
        }
    }

    /// The input of an allocation on this generator.
    pub open spec fn input(
        self,
        count: u32,
        floor: Option<u64>,
        now_ms: u64,
        max_future_borrow_ms: u64,
        max_clock_rewind_ms: u64,
        issued_upper_bound: Option<u64>,
    ) -> AllocationInput {
        AllocationInput {
            generator_id: self.id as int,
            old_index: self.next_index as int,
            count: count as int,
            floor,
            now_ms: now_ms as int,
            max_future_borrow_ms: max_future_borrow_ms as int,
            max_clock_rewind_ms: max_clock_rewind_ms as int,
            issued_upper_bound,
        }
    }

    /// What an allocation comes to.
    pub open spec fn allocates(
        self,
        before: Self,
        input: AllocationInput,
        result: Result<Vec<TimestampRange>, TsoError>,
    ) -> bool {
        &&& self.id == before.id
        &&& match input.plan() {
            Ok(plan) => {
                &&& self.next_index == plan.new_index
                &&& match result {
                    Ok(ranges) => {
                        &&& positions_fit(before.id as int, plan.start_index as int, input.count)
                        &&& ranges@ == ranges_of(
                            before.id as int,
                            plan.start_index as int,
                            input.count,
                        )
                    },
                    Err(error) => {
                        &&& !positions_fit(before.id as int, plan.start_index as int, input.count)
                        &&& error == layout_error(before.id as int)
                    },
                }
            },
            Err(limit) => {
                &&& self.next_index == before.next_index
                &&& result == Err::<Vec<TimestampRange>, TsoError>(limit)
            },
        }
    }

    /// Takes `count` timestamps above the floor. The generator keeps its place when a limit is
    /// broken; it gives the positions up when they are taken but cannot be packed.
    pub fn allocate_after(
        &mut self,
        count: u32,
        floor: Option<u64>,
        now_ms: u64,
        max_future_borrow_ms: u64,
        max_clock_rewind_ms: u64,
        issued_upper_bound: Option<u64>,
    ) -> (result: Result<Vec<TimestampRange>, TsoError>)
        ensures
            final(self).allocates(
                *old(self),
                old(self).input(
                    count,
                    floor,
                    now_ms,
                    max_future_borrow_ms,
                    max_clock_rewind_ms,
                    issued_upper_bound,
                ),
                result,
            ),
            final(self).id == old(self).id,
            match old(self).input(
                count,
                floor,
                now_ms,
                max_future_borrow_ms,
                max_clock_rewind_ms,
                issued_upper_bound,
            ).plan() {
                Ok(plan) => {
                    &&& final(self).next_index == plan.new_index
                    &&& match result {
                        Ok(ranges) => {
                            &&& positions_fit(
                                old(self).id as int,
                                plan.start_index as int,
                                count as int,
                            )
                            &&& ranges@ == ranges_of(
                                old(self).id as int,
                                plan.start_index as int,
                                count as int,
                            )
                        },
                        Err(error) => {
                            &&& !positions_fit(
                                old(self).id as int,
                                plan.start_index as int,
                                count as int,
                            )
                            &&& error == layout_error(old(self).id as int)
                        },
                    }
                },
                Err(limit) => {
                    &&& final(self).next_index == old(self).next_index
                    &&& result == Err::<Vec<TimestampRange>, TsoError>(limit)
                },
            },
    {
        match plan_allocation(
            self.id,
            self.next_index,
            count,
            floor,
            now_ms,
            max_future_borrow_ms,
            max_clock_rewind_ms,
            issued_upper_bound,
        ) {
            Ok(plan) => {
                self.next_index = plan.new_index;
                allocation_ranges(self.id, plan.start_index, count)
            },
            Err(error) => Err(error),
        }
    }
}

/// The timestamps that the ranges hold, in order.
pub open spec fn timestamps_in(ranges: Seq<TimestampRange>) -> Seq<int>
    decreases ranges.len(),
{
    if ranges.len() == 0 {
        Seq::empty()
    } else {
        let first = ranges.first();
        Seq::new((first.end_tso - first.start_tso + 1) as nat, |i: int| first.start_tso + i)
            + timestamps_in(ranges.drop_first())
    }
}

/// The ranges of an allocation hold exactly the requested number of timestamps, one for each
/// position, in order.
pub proof fn allocation_holds_every_position_once(generator_id: int, start: int, count: int)
    requires
        0 <= generator_id,
        0 <= start,
        0 <= count,
        positions_fit(generator_id, start, count),
    ensures
        timestamps_in(ranges_of(generator_id, start, count)) == Seq::new(
            count as nat,
            |i: int| tso::tso_at(generator_id, start + i),
        ),
    decreases count,
{
    let ranges = ranges_of(generator_id, start, count);
    let expected = Seq::new(count as nat, |i: int| tso::tso_at(generator_id, start + i));
    if count == 0 {
        assert(timestamps_in(ranges) =~= expected);
    } else {
        let available = SEQUENCE_CAPACITY - start % SEQUENCE_CAPACITY as int;
        let taken = if count <= available {
            count
        } else {
            available
        };
        allocation_holds_every_position_once(generator_id, start + taken, count - taken);
        assert(ranges.drop_first() =~= ranges_of(generator_id, start + taken, count - taken));
        let first = ranges.first();
        assert(first.start_tso == tso::tso_at(generator_id, start));
        assert(first.end_tso == tso::tso_at(generator_id, start + taken - 1));
        assert forall|i: int| 0 <= i < taken implies first.start_tso + i
            == #[trigger] expected[i] by {
            assert((start + i) / SEQUENCE_CAPACITY as int == start / SEQUENCE_CAPACITY as int);
        }
        assert(timestamps_in(ranges) =~= expected);
    }
}

/// A later allocation of the same generator lies wholly above an earlier one.
pub proof fn later_allocations_lie_above_earlier_ones(
    earlier: AllocationInput,
    later: AllocationInput,
    i: int,
    j: int,
)
    requires
        0 <= earlier.generator_id < MAX_GENERATORS,
        0 <= earlier.old_index <= u64::MAX,
        earlier.generator_id == later.generator_id,
        earlier.plan() is Ok,
        later.plan() is Ok,
        later.old_index >= earlier.plan()->Ok_0.new_index,
        0 <= i < earlier.count,
        0 <= j < later.count,
    ensures
        tso::tso_at(earlier.generator_id, earlier.plan()->Ok_0.start_index + i) < tso::tso_at(
            later.generator_id,
            later.plan()->Ok_0.start_index + j,
        ),
{
    tso::tso_order_follows_position(
        earlier.generator_id,
        earlier.start_index() + i,
        later.start_index() + j,
    );
}

/// Every timestamp of an allocation is above the floor, within the issued bound and within the
/// clock window.
pub proof fn allocation_stays_within_its_limits(input: AllocationInput, i: int)
    requires
        0 <= input.generator_id < MAX_GENERATORS,
        0 <= input.old_index <= u64::MAX,
        0 <= input.now_ms <= MAX_PHYSICAL_MS,
        0 <= input.max_future_borrow_ms <= u64::MAX,
        input.plan() is Ok,
        0 <= i < input.count,
    ensures
        ({
            let index = input.plan()->Ok_0.start_index + i;
            let issued = tso::tso_at(input.generator_id, index);
            &&& input.floor matches Some(floor) ==> issued > floor
            &&& input.issued_upper_bound matches Some(bound) ==> issued <= bound
            &&& input.now_ms <= index / SEQUENCE_CAPACITY as int <= input.allowed_ms()
            &&& index >= input.old_index
        }),
{
    let index = input.start_index() + i;
    if let Some(floor) = input.floor {
        tso::first_cursor_is_the_least_above_the_floor(floor as int, input.generator_id, index);
    }
    if index < input.last_index() {
        tso::tso_order_follows_position(input.generator_id, index, input.last_index());
    }
}

/// No timestamp is taken from a millisecond that the generator has not reached and that lies more
/// than the borrow limit after the clock, nor from one that lies before the clock.
pub proof fn allocations_borrow_within_their_limit(input: AllocationInput, index: int)
    requires
        0 <= input.generator_id,
        0 <= input.old_index <= u64::MAX,
        0 <= input.now_ms <= u64::MAX,
        0 <= input.max_future_borrow_ms <= u64::MAX,
        0 <= input.max_clock_rewind_ms <= u64::MAX,
        input.plan() is Ok,
        0 < input.count,
        input.plan()->Ok_0.start_index <= index < input.plan()->Ok_0.new_index,
    ensures
        index / 4096 <= input.old_index / 4096 || index / 4096 <= input.now_ms
            + input.max_future_borrow_ms,
        index / 4096 >= input.now_ms,
        index >= input.old_index,
        input.old_index / 4096 <= input.now_ms + input.max_clock_rewind_ms,
{
}

/// The position `s` is the least that is unused, not before the clock and above the floor; the
/// allocation of `count` positions from there on is made where it breaks no limit, and is refused
/// with the limit that it breaks first.
pub proof fn allocations_take_the_least_position_or_tell_the_limit(input: AllocationInput, s: int)
    requires
        0 <= input.generator_id < 1024,
        0 <= input.old_index <= u64::MAX,
        0 < input.count <= u32::MAX,
        0 <= input.now_ms <= u64::MAX,
        0 <= input.max_future_borrow_ms <= u64::MAX,
        0 <= input.max_clock_rewind_ms <= u64::MAX,
        input.old_index <= s,
        input.now_ms <= s / 4096,
        input.floor matches Some(floor) ==> tso::tso_at(input.generator_id, s) > floor,
        s == 0 || s - 1 < input.old_index || (s - 1) / 4096 < input.now_ms || (
        input.floor matches Some(floor) && tso::tso_at(input.generator_id, s - 1) <= floor),
        s + input.count <= u64::MAX,
    ensures
        ({
            let last = s + input.count - 1;
            let reached = input.old_index / 4096;
            let ahead = input.now_ms + input.max_future_borrow_ms;
            let most = if reached >= ahead {
                reached
            } else {
                ahead
            };
            let end = tso::tso_at(input.generator_id, last);
            input.plan() == if input.floor is Some && tso::tso_value(
                MAX_PHYSICAL_MS as int,
                input.generator_id,
                4095,
            ) <= input.floor->0 {
                Err::<AllocationPlan, TsoError>(TsoError::TsoOverflow)
            } else if reached > input.now_ms + input.max_clock_rewind_ms {
                Err(TsoError::ClockBackwards { delta_ms: (reached - input.now_ms) as u64 })
            } else if s / 4096 > most {
                Err(
                    TsoError::FutureBorrowExceeded {
                        requested_physical_ms: (s / 4096) as u64,
                        allowed_physical_ms: most as u64,
                    },
                )
            } else if last / 4096 > most {
                Err(
                    TsoError::FutureBorrowExceeded {
                        requested_physical_ms: (last / 4096) as u64,
                        allowed_physical_ms: most as u64,
                    },
                )
            } else if input.issued_upper_bound is Some && last / 4096 > MAX_PHYSICAL_MS {
                Err(TsoError::TsoOverflow)
            } else if input.issued_upper_bound is Some && end > input.issued_upper_bound->0 {
                Err(
                    TsoError::IssuedUpperBoundExceeded {
                        requested_end_tso: end as u64,
                        issued_upper_bound: input.issued_upper_bound->0,
                    },
                )
            } else {
                Ok(AllocationPlan { start_index: s as u64, new_index: (s + input.count) as u64 })
            }
        }),
{
    if let Some(floor) = input.floor {
        let first = tso::first_cursor_after(floor as int, input.generator_id);
        tso::first_cursor_is_the_least_above_the_floor(floor as int, input.generator_id, s);
        if s > 0 {
            tso::first_cursor_is_the_least_above_the_floor(
                floor as int,
                input.generator_id,
                s - 1,
            );
        }
        tso::first_cursor_is_the_least_above_the_floor(
            floor as int,
            input.generator_id,
            MAX_PHYSICAL_MS * 4096 + 4095,
        );
    }
    assert(s == input.start_index());
}

/// A timestamp tells its millisecond, its generator and its place in the millisecond.
proof fn lemma_parts(generator_id: int, index: int)
    requires
        0 <= generator_id < 1024,
        0 <= index,
    ensures
        ({
            let tso = tso::tso_at(generator_id, index);
            &&& tso / 4_194_304 == index / 4096
            &&& tso / 4096 % 1024 == generator_id
            &&& tso % 4096 == index % 4096
        }),
{
}

proof fn lemma_issued(input: AllocationInput, i: int)
    requires
        0 <= input.generator_id < 1024,
        0 <= input.old_index <= u64::MAX,
        0 <= input.now_ms <= u64::MAX,
        0 <= input.max_future_borrow_ms <= u64::MAX,
        0 <= input.max_clock_rewind_ms <= u64::MAX,
        input.plan() is Ok,
        0 <= i < input.count,
    ensures
        ({
            let index = input.plan()->Ok_0.start_index + i;
            let tso = tso::tso_at(input.generator_id, index);
            &&& input.floor matches Some(least) ==> tso > least
            &&& input.issued_upper_bound matches Some(most) ==> tso <= most
            &&& input.old_index <= index < input.plan()->Ok_0.new_index
        }),
{
    let index = input.start_index() + i;
    if let Some(least) = input.floor {
        tso::first_cursor_is_the_least_above_the_floor(least as int, input.generator_id, index);
    }
    if index < input.last_index() {
        tso::tso_order_follows_position(input.generator_id, index, input.last_index());
    }
}

/// What holds of one timestamp that an allocation hands out: it is above the floor, up to the issued
/// bound, of the generator itself, at a position that was free, and of a millisecond that lies
/// neither before the clock nor further after it than may be borrowed, unless the generator had
/// reached it already.
pub open spec fn keeps_limits(tso: int, input: AllocationInput) -> bool {
    let physical_ms = tso / 4_194_304;
    &&& input.floor matches Some(least) ==> tso > least
    &&& input.issued_upper_bound matches Some(most) ==> tso <= most
    &&& tso / 4096 % 1024 == input.generator_id
    &&& input.now_ms <= physical_ms
    &&& physical_ms <= input.now_ms + input.max_future_borrow_ms || physical_ms
        <= input.old_index / 4096
    &&& physical_ms * 4096 + tso % 4096 >= input.old_index
}

/// An allocation hands out as many timestamps as were asked for, rising, each within every limit,
/// and leaves the generator past all of them.
pub proof fn issued_timestamps_keep_every_limit(
    before: Generator,
    input: AllocationInput,
    ranges: Vec<TimestampRange>,
    after: Generator,
)
    requires
        input.old_index == before.next_index,
        input.generator_id == before.id,
        0 < input.count <= u32::MAX,
        0 <= input.now_ms <= u64::MAX,
        0 <= input.max_future_borrow_ms <= u64::MAX,
        0 <= input.max_clock_rewind_ms <= u64::MAX,
        after.allocates(before, input, Ok(ranges)),
    ensures
        timestamps_in(ranges@).len() == input.count,
        forall|i: int, j: int|
            0 <= i < j < input.count ==> timestamps_in(ranges@)[i] < timestamps_in(ranges@)[j],
        forall|i: int|
            0 <= i < input.count ==> keeps_limits(#[trigger] timestamps_in(ranges@)[i], input),
        forall|i: int|
            0 <= i < input.count ==> (#[trigger] timestamps_in(ranges@)[i]) / 4_194_304 * 4096
                + timestamps_in(ranges@)[i] % 4096 < after.next_index,
        after.next_index >= before.next_index + input.count,
{
    let id = before.id as int;
    let start = input.plan()->Ok_0.start_index as int;
    let issued = timestamps_in(ranges@);
    allocation_holds_every_position_once(id, start, input.count);
    assert forall|i: int, j: int| 0 <= i < j < input.count implies issued[i] < issued[j] by {
        assert(issued[i] == tso::tso_at(id, start + i));
        assert(issued[j] == tso::tso_at(id, start + j));
        tso::tso_order_follows_position(id, start + i, start + j);
    }
    assert forall|i: int| 0 <= i < input.count implies keeps_limits(#[trigger] issued[i], input)
        && issued[i] / 4_194_304 * 4096 + issued[i] % 4096 < after.next_index by {
        assert(issued[i] == tso::tso_at(id, start + i));
        lemma_parts(id, start + i);
        lemma_issued(input, i);
        allocations_borrow_within_their_limit(input, start + i);
    }
    lemma_issued(input, 0);
}

/// Of two allocations of one generator the later one hands out timestamps above all of the earlier
/// one, whatever it did in between: none is handed out twice.
pub proof fn issued_timestamps_never_repeat(
    first: Generator,
    first_input: AllocationInput,
    first_ranges: Vec<TimestampRange>,
    second: Generator,
    third: Generator,
    second_input: AllocationInput,
    second_ranges: Vec<TimestampRange>,
    last: Generator,
    i: int,
    j: int,
)
    requires
        first_input.old_index == first.next_index,
        first_input.generator_id == first.id,
        0 <= first_input.count <= u32::MAX,
        0 <= first_input.now_ms <= u64::MAX,
        second.allocates(first, first_input, Ok(first_ranges)),
        third.id == second.id,
        third.next_index >= second.next_index,
        second_input.old_index == third.next_index,
        second_input.generator_id == third.id,
        0 <= second_input.count <= u32::MAX,
        0 <= second_input.now_ms <= u64::MAX,
        last.allocates(third, second_input, Ok(second_ranges)),
        0 <= i < timestamps_in(first_ranges@).len(),
        0 <= j < timestamps_in(second_ranges@).len(),
    ensures
        timestamps_in(first_ranges@)[i] < timestamps_in(second_ranges@)[j],
        last.next_index >= third.next_index,
{
    let id = first.id as int;
    if first_input.count == 0 {
        assert(timestamps_in(first_ranges@).len() == 0);
    } else if second_input.count == 0 {
        assert(timestamps_in(second_ranges@).len() == 0);
    } else {
        allocation_holds_every_position_once(id, first_input.start_index(), first_input.count);
        allocation_holds_every_position_once(id, second_input.start_index(), second_input.count);
        tso::tso_order_follows_position(
            id,
            first_input.start_index() + i,
            second_input.start_index() + j,
        );
    }
}

/// A generator that is moved past a floor stands at its first position whose timestamp lies above
/// the floor, or stays where it is when it is past that; where no timestamp of it lies above the
/// floor it says so and stays.
pub proof fn moving_past_a_floor_goes_just_above_it(
    before: Generator,
    floor: u64,
    result: Result<(), TsoError>,
    after: Generator,
)
    requires
        after.moves_past(before, floor, result),
        before.id < 1024,
    ensures
        after.id == before.id,
        after.next_index >= before.next_index,
        result is Ok ==> tso::tso_at(after.id as int, after.next_index as int) > floor,
        result is Ok && after.next_index != before.next_index ==> after.next_index == 0
            || tso::tso_at(after.id as int, after.next_index - 1) <= floor,
        result is Err <==> tso::tso_value(MAX_PHYSICAL_MS as int, before.id as int, 4095) <= floor,
        result matches Err(error) ==> error == TsoError::TsoOverflow && after.next_index
            == before.next_index,
{
    let id = before.id as int;
    tso::first_cursor_is_the_least_above_the_floor(floor as int, id, after.next_index as int);
    if after.next_index > 0 {
        tso::first_cursor_is_the_least_above_the_floor(floor as int, id, after.next_index - 1);
    }
    tso::first_cursor_is_the_least_above_the_floor(
        floor as int,
        id,
        MAX_PHYSICAL_MS * 4096 + 4095,
    );
}

/// After an allocation the last timestamp that the generator tells is the last that was handed out.
pub proof fn the_last_issued_timestamp_is_told(
    before: Generator,
    input: AllocationInput,
    ranges: Vec<TimestampRange>,
    after: Generator,
    told: Result<Option<u64>, TsoError>,
)
    requires
        input.old_index == before.next_index,
        input.generator_id == before.id,
        0 < input.count <= u32::MAX,
        0 <= input.now_ms <= u64::MAX,
        after.allocates(before, input, Ok(ranges)),
        after.tells_last(told),
    ensures
        told matches Ok(Some(tso)) && timestamps_in(ranges@).len() > 0 && tso == timestamps_in(
            ranges@,
        ).last(),
{
    allocation_holds_every_position_once(before.id as int, input.start_index(), input.count);
}

/// A generator that was moved past a floor only issues timestamps above that floor.
pub proof fn initialised_generators_issue_above_the_floor(
    floor: u64,
    input: AllocationInput,
    i: int,
)
    requires
        0 <= input.generator_id < MAX_GENERATORS,
        ({
            let first = tso::first_cursor_after(floor as int, input.generator_id);
            input.old_index >= tso::cursor_index(first.0, first.1)
        }),
        input.plan() is Ok,
        0 <= i < input.count,
    ensures
        tso::tso_at(input.generator_id, input.plan()->Ok_0.start_index + i) > floor,
{
    tso::first_cursor_is_the_least_above_the_floor(
        floor as int,
        input.generator_id,
        input.start_index() + i,
    );
}

/// After an allocation the last issued timestamp is the end of its last range.
pub proof fn last_issued_is_the_end_of_the_last_range(generator_id: int, start: int, count: int)
    requires
        0 <= generator_id,
        0 <= start,
        0 < count,
        positions_fit(generator_id, start, count),
    ensures
        ranges_of(generator_id, start, count).len() > 0,
        ranges_of(generator_id, start, count).last().end_tso == tso::tso_at(
            generator_id,
            start + count - 1,
        ),
    decreases count,
{
    let available = SEQUENCE_CAPACITY - start % SEQUENCE_CAPACITY as int;
    if count > available {
        last_issued_is_the_end_of_the_last_range(
            generator_id,
            start + available,
            count - available,
        );
        let rest = ranges_of(generator_id, start + available, count - available);
        assert(ranges_of(generator_id, start, count).last() == rest.last());
    } else {
        assert(ranges_of(generator_id, start + count, 0) =~= Seq::empty());
    }
}

/// Timestamps are handed out exactly where the generator has one of the 1024 numbers and the last
/// of them lies in a millisecond that takes no more than 42 bits. Otherwise the positions are given
/// up, and the error tells which of the two failed. A generator that has handed out none tells none.
pub proof fn timestamps_that_do_not_fit_are_not_handed_out(
    before: Generator,
    input: AllocationInput,
    result: Result<Vec<TimestampRange>, TsoError>,
    after: Generator,
    told: Result<Option<u64>, TsoError>,
)
    requires
        input.generator_id == before.id,
        0 < input.count,
        after.allocates(before, input, result),
        before.tells_last(told),
    ensures
        input.plan() matches Ok(plan) ==> {
            &&& result is Ok <==> before.id < 1024 && plan.start_index + input.count
                <= 4_398_046_511_104 * 4096
            &&& result is Err && before.id >= 1024 ==> result->Err_0 == (
            TsoError::GeneratorIdOutOfRange { generator_id: before.id })
            &&& result is Err && before.id < 1024 ==> result->Err_0 == TsoError::TsoOverflow
        },
        before.next_index == 0 <==> told == Ok::<Option<u64>, TsoError>(None),
        told is Err <==> before.next_index > 0 && (before.id >= 1024 || before.next_index
            > 4_398_046_511_104 * 4096),
        told is Err && before.id >= 1024 ==> told->Err_0 == (TsoError::GeneratorIdOutOfRange {
            generator_id: before.id,
        }),
        told is Err && before.id < 1024 ==> told->Err_0 == TsoError::TsoOverflow,
        told matches Ok(Some(tso)) ==> tso / 4_194_304 == (before.next_index - 1) / 4096 && tso
            % 4096 == (before.next_index - 1) % 4096 && tso / 4096 % 1024 == before.id,
{
    if before.next_index > 0 && before.id < 1024 {
        let last = before.next_index - 1;
        assert(tso::tso_at(before.id as int, last) / 4_194_304 == last / 4096);
    }
}

} // verus!
