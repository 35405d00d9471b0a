//! The timestamp layout: physical milliseconds, generator and sequence packed into 64 bits.

use vstd::prelude::*;

use crate::error::TsoError;

verus! {

/// Timestamps that one generator can issue in one millisecond.
pub const SEQUENCE_CAPACITY: u32 = 4096;

/// Generators that share the timestamp space.
pub const MAX_GENERATORS: u32 = 1024;

/// The last millisecond that a timestamp can hold.
pub const MAX_PHYSICAL_MS: u64 = 4_398_046_511_103;

/// The packed value: physical time first, then the generator, then the sequence.
pub open spec fn tso_value(physical_ms: int, generator_id: int, sequence: int) -> int {
    (physical_ms * MAX_GENERATORS + generator_id) * SEQUENCE_CAPACITY + sequence
}

/// The parts fit into the layout.
pub open spec fn tso_parts_fit(physical_ms: int, generator_id: int, sequence: int) -> bool {
    &&& 0 <= physical_ms <= MAX_PHYSICAL_MS
    &&& 0 <= generator_id < MAX_GENERATORS
    &&& 0 <= sequence < SEQUENCE_CAPACITY
}

/// A position in the stream of one generator.
#[derive(Debug, Clone, Copy, PartialEq, Eq)]
pub struct TsoCursor {
    pub physical_ms: u64,
    pub sequence: u32,
}

/// The position of a cursor, counted in timestamps of one generator.
pub open spec fn cursor_index(physical_ms: int, sequence: int) -> int {
    physical_ms * SEQUENCE_CAPACITY + sequence
}

/// The timestamp at position `index` of the stream of `generator_id`.
pub open spec fn tso_at(generator_id: int, index: int) -> int {
    tso_value(index / SEQUENCE_CAPACITY as int, generator_id, index % SEQUENCE_CAPACITY as int)
}

/// What packing the parts of a timestamp comes to.
pub open spec fn packs(
    physical_ms: u64,
    generator_id: u32,
    sequence: u32,
    result: Result<u64, TsoError>,
) -> bool {
    match result {
        Ok(tso) => {
            &&& tso_parts_fit(physical_ms as int, generator_id as int, sequence as int)
            &&& tso == tso_value(physical_ms as int, generator_id as int, sequence as int)
        },
        Err(error) => if generator_id >= MAX_GENERATORS {
            error == (TsoError::GeneratorIdOutOfRange { generator_id })
        } else {
            &&& error == TsoError::TsoOverflow
            &&& physical_ms > MAX_PHYSICAL_MS || sequence >= SEQUENCE_CAPACITY
        },
    }
}

/// A timestamp is packed exactly where every part has room in it: forty-two bits, ten and twelve.
/// Each part can then be read off it.
pub proof fn timestamps_hold_their_parts(
    physical_ms: u64,
    generator_id: u32,
    sequence: u32,
    result: Result<u64, TsoError>,
)
    requires
        packs(physical_ms, generator_id, sequence, result),
    ensures
        result is Ok <==> physical_ms < 4_398_046_511_104 && generator_id < 1024 && sequence < 4096,
        result matches Ok(tso) ==> {
            &&& tso / 4_194_304 == physical_ms
            &&& tso / 4096 % 1024 == generator_id
            &&& tso % 4096 == sequence
        },
        generator_id >= 1024 ==> result == Err::<u64, TsoError>(
            TsoError::GeneratorIdOutOfRange { generator_id },
        ),
        generator_id < 1024 && result is Err ==> result == Err::<u64, TsoError>(
            TsoError::TsoOverflow,
        ),
{
}

/// Packs the parts of a timestamp.
pub fn encode_tso(physical_ms: u64, generator_id: u32, sequence: u32) -> (result: Result<
    u64,
    TsoError,
>)
    ensures
        packs(physical_ms, generator_id, sequence, result),
        match result {
            Ok(tso) => {
                &&& tso_parts_fit(physical_ms as int, generator_id as int, sequence as int)
                &&& tso == tso_value(physical_ms as int, generator_id as int, sequence as int)
            },
            Err(error) => if generator_id >= MAX_GENERATORS {
                error == (TsoError::GeneratorIdOutOfRange { generator_id })
            } else {
                &&& error == TsoError::TsoOverflow
                &&& physical_ms > MAX_PHYSICAL_MS || sequence >= SEQUENCE_CAPACITY
            },
        },
{
    if generator_id >= MAX_GENERATORS {
        return Err(TsoError::GeneratorIdOutOfRange { generator_id });
    }
    if physical_ms > MAX_PHYSICAL_MS || sequence >= SEQUENCE_CAPACITY {
        return Err(TsoError::TsoOverflow);
    }
    Ok((physical_ms * 1024 + generator_id as u64) * 4096 + sequence as u64)
}

/// The first position of `generator_id` whose timestamp lies above `floor`.
pub open spec fn first_cursor_after(floor: int, generator_id: int) -> (int, int) {
    let physical = floor / SEQUENCE_CAPACITY as int / MAX_GENERATORS as int;
    let generator = floor / SEQUENCE_CAPACITY as int % MAX_GENERATORS as int;
    let sequence = floor % SEQUENCE_CAPACITY as int;
    if generator_id > generator {
        (physical, 0)
    } else if generator_id == generator && sequence + 1 < SEQUENCE_CAPACITY {
        (physical, sequence + 1)
    } else {
        (physical + 1, 0)
    }
}

/// What looking for the first cursor after a floor comes to.
pub open spec fn finds_cursor(
    floor: u64,
    generator_id: u32,
    result: Result<TsoCursor, TsoError>,
) -> bool {
    let first = first_cursor_after(floor as int, generator_id as int);
    match result {
        Ok(cursor) => {
            &&& generator_id < MAX_GENERATORS
            &&& first.0 <= MAX_PHYSICAL_MS
            &&& cursor.physical_ms == first.0
            &&& cursor.sequence == first.1
        },
        Err(error) => if generator_id >= MAX_GENERATORS {
            error == (TsoError::GeneratorIdOutOfRange { generator_id })
        } else {
            error == TsoError::TsoOverflow && first.0 > MAX_PHYSICAL_MS
        },
    }
}

/// The cursor after a floor is the first position of the generator whose timestamp lies above the
/// floor; none is found exactly where no position that a timestamp can hold does.
pub proof fn cursors_follow_their_floor_closely(
    floor: u64,
    generator_id: u32,
    result: Result<TsoCursor, TsoError>,
    index: int,
)
    requires
        finds_cursor(floor, generator_id, result),
        0 <= index < 4_398_046_511_104 * 4096,
    ensures
        generator_id >= 1024 <==> result == Err::<TsoCursor, TsoError>(
            TsoError::GeneratorIdOutOfRange { generator_id },
        ),
        result matches Ok(cursor) ==> {
            &&& cursor.sequence < 4096
            &&& cursor.physical_ms < 4_398_046_511_104
            &&& tso_value(cursor.physical_ms as int, generator_id as int, cursor.sequence as int)
                > floor
            &&& tso_at(generator_id as int, index) > floor <==> index >= cursor.physical_ms * 4096
                + cursor.sequence
        },
        result is Err && generator_id < 1024 ==> tso_at(generator_id as int, index) <= floor,
{
    if generator_id < 1024 {
        first_cursor_is_the_least_above_the_floor(floor as int, generator_id as int, index);
    }
}

/// The first cursor of a generator after a floor; no cursor is left when the floor lies at the
/// end of the timestamp space.
pub fn next_cursor_after(floor: u64, generator_id: u32) -> (result: Result<TsoCursor, TsoError>)
    ensures
        finds_cursor(floor, generator_id, result),
        ({
            let first = first_cursor_after(floor as int, generator_id as int);
            match result {
                Ok(cursor) => {
                    &&& generator_id < MAX_GENERATORS
                    &&& first.0 <= MAX_PHYSICAL_MS
                    &&& cursor.physical_ms == first.0
                    &&& cursor.sequence == first.1
                    &&& cursor.sequence < SEQUENCE_CAPACITY
                },
                Err(error) => if generator_id >= MAX_GENERATORS {
                    error == (TsoError::GeneratorIdOutOfRange { generator_id })
                } else {
                    error == TsoError::TsoOverflow && first.0 > MAX_PHYSICAL_MS
                },
            }
        }),
{
    if generator_id >= MAX_GENERATORS {
        return Err(TsoError::GeneratorIdOutOfRange { generator_id });
    }
    let physical_ms: u64 = floor / 4096 / 1024;
    let generator: u64 = floor / 4096 % 1024;
    let sequence: u64 = floor % 4096;
    let cursor = if generator_id as u64 > generator {
        TsoCursor { physical_ms, sequence: 0 }
    } else if generator_id as u64 == generator && sequence + 1 < 4096 {
        TsoCursor { physical_ms, sequence: (sequence + 1) as u32 }
    } else {
        TsoCursor { physical_ms: physical_ms + 1, sequence: 0 }
    };
    if cursor.physical_ms > MAX_PHYSICAL_MS {
        return Err(TsoError::TsoOverflow);
    }
    Ok(cursor)
}

/// Timestamps order first by position: on one generator a later position carries a larger
/// timestamp.
pub proof fn tso_order_follows_position(generator_id: int, first: int, second: int)
    requires
        0 <= generator_id < MAX_GENERATORS,
        0 <= first < second,
    ensures
        tso_at(generator_id, first) < tso_at(generator_id, second),
{
}

/// Two generators never share a timestamp.
pub proof fn generators_never_share_a_timestamp(
    first_generator: int,
    first: int,
    second_generator: int,
    second: int,
)
    requires
        0 <= first_generator < MAX_GENERATORS,
        0 <= second_generator < MAX_GENERATORS,
        0 <= first,
        0 <= second,
        tso_at(first_generator, first) == tso_at(second_generator, second),
    ensures
        first_generator == second_generator,
        first == second,
{
}

/// The first cursor after a floor is above the floor, and every earlier position of the same
/// generator is not.
pub proof fn first_cursor_is_the_least_above_the_floor(
    floor: int,
    generator_id: int,
    index: int,
)
    requires
        0 <= floor,
        0 <= generator_id < MAX_GENERATORS,
        0 <= index,
    ensures
        ({
            let first = first_cursor_after(floor, generator_id);
            tso_at(generator_id, index) > floor <==> index >= cursor_index(first.0, first.1)
        }),
{
}

} // verus!
