//! Going on where the machine is not as expected.

use vstd::prelude::*;

verus! {

/// Something that was worked around.
#[derive(Debug, Clone, Copy, PartialEq, Eq, Structural)]
pub enum RecoveryReason {
    SystemTimeBeforeUnixEpoch,
}

impl RecoveryReason {
    pub open spec fn name(self) -> Seq<char> {
        match self {
            RecoveryReason::SystemTimeBeforeUnixEpoch => "system_time_before_unix_epoch"@,
        }
    }

    pub fn as_str(&self) -> (text: &'static str)
        ensures
            text@ == self.name(),
    {
        match self {
            RecoveryReason::SystemTimeBeforeUnixEpoch => "system_time_before_unix_epoch",
        }
    }
}

/// How long it is since the Unix epoch.
#[derive(Debug, Clone, Copy, PartialEq, Eq, Structural)]
pub struct SinceEpoch {
    pub seconds: u64,
    pub nanos: u32,
}

/// What is made of a clock.
pub open spec fn counts_from_epoch(
    since_epoch: Option<SinceEpoch>,
    since: (SinceEpoch, Option<RecoveryReason>),
) -> bool {
    since == match since_epoch {
        Some(elapsed) => (elapsed, None::<RecoveryReason>),
        None => (
            SinceEpoch { seconds: 0, nanos: 0 },
            Some(RecoveryReason::SystemTimeBeforeUnixEpoch),
        ),
    }
}

/// A clock that stands after the epoch is taken as it is, without a report; one that stands before
/// it is reported, and counts as standing at it.
pub proof fn clocks_before_the_epoch_are_reported(
    since_epoch: Option<SinceEpoch>,
    since: (SinceEpoch, Option<RecoveryReason>),
)
    requires
        counts_from_epoch(since_epoch, since),
    ensures
        since.1 is Some <==> since_epoch is None,
        since_epoch matches Some(elapsed) ==> since.0.seconds == elapsed.seconds && since.0.nanos
            == elapsed.nanos,
        since_epoch is None ==> since.0.seconds == 0 && since.0.nanos == 0,
{
}

/// How long it is since the Unix epoch. A clock that stands before it counts as standing at it, and
/// that is reported.
pub fn duration_since_unix_epoch_or_zero(since_epoch: Option<SinceEpoch>) -> (since: (
    SinceEpoch,
    Option<RecoveryReason>,
))
    ensures
        counts_from_epoch(since_epoch, since),
        since == match since_epoch {
            Some(elapsed) => (elapsed, None::<RecoveryReason>),
            None => (
                SinceEpoch { seconds: 0, nanos: 0 },
                Some(RecoveryReason::SystemTimeBeforeUnixEpoch),
            ),
        },
{
    match since_epoch {
        Some(elapsed) => (elapsed, None),
        None => (
            SinceEpoch { seconds: 0, nanos: 0 },
            Some(RecoveryReason::SystemTimeBeforeUnixEpoch),
        ),
    }
}

} // verus!
