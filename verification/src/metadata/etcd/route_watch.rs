//! The watch that turns changes in the store into route updates.

use vstd::prelude::*;

use crate::metadata::etcd::retry;
use crate::metadata::etcd::retry::route_watch_reconnect_backoff;
use crate::metadata::types;
use crate::metadata::types::{timeline_route_update_from_routes, RouteUpdateSignal};
use crate::model::TimelineRoute;

verus! {

/// Why a watch is opened again.
#[derive(Debug, Clone, Copy, PartialEq, Eq, Structural)]
pub enum RestartReason {
    ConnectFailed,
    Compacted,
    Canceled,
    EventMissingKv,
    EventDecodeFailed,
    StreamClosed,
    StreamError,
}

impl RestartReason {
    /// The name under which restarts are counted.
    pub open spec fn name(self) -> Seq<char> {
        match self {
            RestartReason::ConnectFailed => "watch_connect_failed"@,
            RestartReason::Compacted => "watch_compacted"@,
            RestartReason::Canceled => "watch_canceled"@,
            RestartReason::EventMissingKv => "watch_event_missing_kv"@,
            RestartReason::EventDecodeFailed => "watch_event_decode_failed"@,
            RestartReason::StreamClosed => "watch_stream_closed"@,
            RestartReason::StreamError => "watch_stream_error"@,
        }
    }

    pub fn label(self) -> (label: &'static str)
        ensures
            label@ == self.name(),
    {
        match self {
            RestartReason::ConnectFailed => "watch_connect_failed",
            RestartReason::Compacted => "watch_compacted",
            RestartReason::Canceled => "watch_canceled",
            RestartReason::EventMissingKv => "watch_event_missing_kv",
            RestartReason::EventDecodeFailed => "watch_event_decode_failed",
            RestartReason::StreamClosed => "watch_stream_closed",
            RestartReason::StreamError => "watch_stream_error",
        }
    }

    /// Where the watch stood means nothing any more: it starts from what is current.
    pub open spec fn forgets_position(self) -> bool {
        self == RestartReason::Compacted || self == RestartReason::Canceled || self
            == RestartReason::EventMissingKv || self == RestartReason::EventDecodeFailed
    }
}

/// One change in a message of the watch.
#[derive(Debug)]
pub enum WatchChange {
    /// Anything but a write.
    NotAPut,
    /// A write without what was written.
    MissingKv,
    /// A write of something that is no route.
    Undecodable,
    /// A route was written; what stood there before, where that could be read.
    Route { previous: Option<TimelineRoute>, next: TimelineRoute },
}

/// A message of the watch.
#[derive(Debug)]
pub struct WatchMessage {
    pub header_revision: Option<i64>,
    pub compact_revision: i64,
    pub canceled: bool,
    pub changes: Vec<WatchChange>,
}

/// What follows from something that happened to the watch: signals to send, and whether it is
/// opened again after a wait.
#[derive(Debug)]
pub struct WatchReaction {
    pub signals: Vec<RouteUpdateSignal>,
    pub restart: Option<(RestartReason, u64)>,
}

/// The update for a written route, given what stood there before where that could be read.
pub fn route_update_for_watch_event(
    previous: Option<&TimelineRoute>,
    next_route: &TimelineRoute,
) -> (update: Option<TimelineRoute>)
    ensures
        update == if types::route_changes(
            match previous {
                Some(before) => Some(*before),
                None => None,
            },
            *next_route,
        ) {
            Some(*next_route)
        } else {
            None
        },
{
    timeline_route_update_from_routes(previous, next_route)
}

/// The signals for the changes up to the first that cannot be read.
pub open spec fn update_signals(changes: Seq<WatchChange>) -> Seq<RouteUpdateSignal>
    decreases changes.len(),
{
    if changes.len() == 0 {
        Seq::empty()
    } else {
        let before = update_signals(changes.drop_last());
        match changes.last() {
            WatchChange::Route { previous, next } => if types::route_changes(previous, next) {
                before.push(RouteUpdateSignal::Route(next))
            } else {
                before
            },
            _ => before,
        }
    }
}

/// The change can be read.
pub open spec fn readable(change: WatchChange) -> bool {
    !(change is MissingKv) && !(change is Undecodable)
}

/// Where the first change stands that cannot be read; the number of changes where all can.
pub open spec fn first_unreadable(changes: Seq<WatchChange>) -> nat
    decreases changes.len(),
{
    if changes.len() == 0 || !readable(changes[0]) {
        0
    } else {
        1 + first_unreadable(changes.drop_first())
    }
}

/// Where a watch stands.
#[derive(Debug, Clone, Copy, PartialEq, Eq, Structural)]
pub struct RouteWatchState {
    pub next_watch_revision: Option<i64>,
    pub consecutive_failures: u32,
    pub reset_sent_for_outage: bool,
}

impl RouteWatchState {
    pub open spec fn failures_after(self) -> u32 {
        if self.consecutive_failures < u32::MAX {
            (self.consecutive_failures + 1) as u32
        } else {
            u32::MAX
        }
    }

    /// The state after the watch failed for a reason.
    pub open spec fn failed(self, reason: RestartReason) -> RouteWatchState {
        RouteWatchState {
            next_watch_revision: if reason.forgets_position() {
                None
            } else {
                self.next_watch_revision
            },
            consecutive_failures: self.failures_after(),
            reset_sent_for_outage: true,
        }
    }

    /// The reset that a failure brings: one for the whole outage.
    pub open spec fn reset_signals(self) -> Seq<RouteUpdateSignal> {
        if self.reset_sent_for_outage {
            Seq::empty()
        } else {
            seq![RouteUpdateSignal::Reset]
        }
    }

    /// How long to wait after this failure.
    pub open spec fn wait_after_failure(self, process_id: u32) -> int {
        retry::backoff(
            retry::ROUTE_WATCH_MIN_RECONNECT_BACKOFF_MS as nat,
            self.failures_after(),
            6,
            retry::route_watch_jitter(self.failures_after(), process_id),
            retry::ROUTE_WATCH_MAX_RECONNECT_BACKOFF_MS as nat,
        )
    }

    /// The state after the header of a message was seen.
    pub open spec fn seen(self, header_revision: Option<i64>) -> RouteWatchState {
        match header_revision {
            Some(revision) => if revision > 0 {
                RouteWatchState {
                    next_watch_revision: if revision < i64::MAX {
                        Some((revision + 1) as i64)
                    } else {
                        None
                    },
                    ..self
                }
            } else {
                self
            },
            None => self,
        }
    }

    pub fn new() -> (state: Self)
        ensures
            state.next_watch_revision is None,
            state.consecutive_failures == 0,
            !state.reset_sent_for_outage,
    {
        RouteWatchState {
            next_watch_revision: None,
            consecutive_failures: 0,
            reset_sent_for_outage: false,
        }
    }

    /// The revision from which the watch is opened.
    pub open spec fn opens_at(self) -> Option<i64> {
        match self.next_watch_revision {
            Some(next) => if next > 0 {
                Some(next)
            } else {
                None
            },
            None => None,
        }
    }

    /// The state once the watch is open.
    pub open spec fn connected(self) -> RouteWatchState {
        RouteWatchState { consecutive_failures: 0, reset_sent_for_outage: false, ..self }
    }

    /// From which revision to watch; from what is current where there is none.
    pub fn start_revision(&self) -> (revision: Option<i64>)
        ensures
            revision == self.opens_at(),
            revision == match self.next_watch_revision {
                Some(next) => if next > 0 {
                    Some(next)
                } else {
                    None
                },
                None => None,
            },
    {
        match self.next_watch_revision {
            Some(next) => {
                if next > 0 {
                    Some(next)
                } else {
                    None
                }
            },
            None => None,
        }
    }

    /// The watch is open: the outage, if there was one, is over.
    pub fn on_connected(&mut self)
        ensures
            *final(self) == old(self).connected(),
            *final(self) == (RouteWatchState {
                consecutive_failures: 0,
                reset_sent_for_outage: false,
                ..*old(self)
            }),
    {
        self.consecutive_failures = 0;
        self.reset_sent_for_outage = false;
    }

    /// Notes a failure; the signals get the reset unless it was sent in this outage.
    fn fail(&mut self, reason: RestartReason, process_id: u32, signals: &mut Vec<
        RouteUpdateSignal,
    >) -> (wait: u64)
        ensures
            *final(self) == old(self).failed(reason),
            final(signals)@ == old(signals)@ + old(self).reset_signals(),
            wait == old(self).wait_after_failure(process_id),
    {
        if self.consecutive_failures < u32::MAX {
            self.consecutive_failures = self.consecutive_failures + 1;
        }
        match reason {
            RestartReason::Compacted
            | RestartReason::Canceled
            | RestartReason::EventMissingKv
            | RestartReason::EventDecodeFailed => {
                self.next_watch_revision = None;
            },
            _ => {},
        }
        if !self.reset_sent_for_outage {
            signals.push(RouteUpdateSignal::Reset);
            self.reset_sent_for_outage = true;
            assert(signals@ =~= old(signals)@ + seq![RouteUpdateSignal::Reset]);
        } else {
            assert(signals@ =~= old(signals)@ + Seq::<RouteUpdateSignal>::empty());
        }
        route_watch_reconnect_backoff(self.consecutive_failures, process_id)
    }

    /// The watch could not be opened, or its stream ended.
    pub fn on_lost(&mut self, reason: RestartReason, process_id: u32) -> (reaction: WatchReaction)
        ensures
            *final(self) == old(self).failed(reason),
            reaction.signals@ == old(self).reset_signals(),
            reaction.restart matches Some((why, wait)) && why == reason && wait == old(
                self).wait_after_failure(process_id),
    {
        let mut signals: Vec<RouteUpdateSignal> = Vec::new();
        let wait: u64 = self.fail(reason, process_id, &mut signals);
        assert(signals@ =~= old(self).reset_signals());
        WatchReaction { signals, restart: Some((reason, wait)) }
    }

    /// What a message comes to: the watch starts anew after a compaction, a cancellation or a
    /// change that cannot be read, and passes on the routes that changed before that.
    pub open spec fn reacts(
        self,
        message: WatchMessage,
        process_id: u32,
        next: RouteWatchState,
        signals: Seq<RouteUpdateSignal>,
        restart: Option<(RestartReason, u64)>,
    ) -> bool {
        let seen = self.seen(message.header_revision);
        let bad = first_unreadable(message.changes@) as int;
        let wait = seen.wait_after_failure(process_id) as u64;
        if message.compact_revision > 0 {
            &&& next == seen.failed(RestartReason::Compacted)
            &&& signals == seen.reset_signals()
            &&& restart == Some((RestartReason::Compacted, wait))
        } else if message.canceled {
            &&& next == seen.failed(RestartReason::Canceled)
            &&& signals == seen.reset_signals()
            &&& restart == Some((RestartReason::Canceled, wait))
        } else if bad < message.changes@.len() {
            let reason = if message.changes@[bad] is MissingKv {
                RestartReason::EventMissingKv
            } else {
                RestartReason::EventDecodeFailed
            };
            &&& next == seen.failed(reason)
            &&& signals == update_signals(message.changes@.take(bad)) + seen.reset_signals()
            &&& restart == Some((reason, wait))
        } else {
            &&& next == seen
            &&& signals == update_signals(message.changes@)
            &&& restart is None
        }
    }

    /// Takes a message of the watch.
    pub fn on_message(&mut self, message: WatchMessage, process_id: u32) -> (reaction:
        WatchReaction)
        ensures
            old(self).reacts(
                message,
                process_id,
                *final(self),
                reaction.signals@,
                reaction.restart,
            ),
    {
        if let Some(revision) = message.header_revision {
            if revision > 0 {
                self.next_watch_revision = if revision < i64::MAX {
                    Some(revision + 1)
                } else {
                    None
                };
            }
        }
        let ghost seen = old(self).seen(message.header_revision);
        assert(*self == seen);
        if message.compact_revision > 0 {
            return self.on_lost(RestartReason::Compacted, process_id);
        }
        if message.canceled {
            return self.on_lost(RestartReason::Canceled, process_id);
        }
        let mut signals: Vec<RouteUpdateSignal> = Vec::new();
        let mut i: usize = 0;
        let ghost changes = message.changes@;
        assert(changes.take(0) =~= Seq::<WatchChange>::empty());
        assert(changes.skip(0) =~= changes);
        while i < message.changes.len()
            invariant
                i <= message.changes@.len(),
                changes == message.changes@,
                *self == seen,
                seen == old(self).seen(message.header_revision),
                message.compact_revision <= 0,
                !message.canceled,
                first_unreadable(changes) == i + first_unreadable(changes.skip(i as int)),
                signals@ == update_signals(changes.take(i as int)),
            decreases message.changes@.len() - i,
        {
            let ghost rest = changes.skip(i as int);
            assert(rest[0] == changes[i as int]);
            assert(rest.drop_first() =~= changes.skip(i + 1));
            assert(changes.take(i + 1).drop_last() =~= changes.take(i as int));
            assert(changes.take(i + 1).last() == changes[i as int]);
            match &message.changes[i] {
                WatchChange::NotAPut => {},
                WatchChange::MissingKv => {
                    let wait: u64 = self.fail(
                        RestartReason::EventMissingKv,
                        process_id,
                        &mut signals,
                    );
                    return WatchReaction {
                        signals,
                        restart: Some((RestartReason::EventMissingKv, wait)),
                    };
                },
                WatchChange::Undecodable => {
                    let wait: u64 = self.fail(
                        RestartReason::EventDecodeFailed,
                        process_id,
                        &mut signals,
                    );
                    return WatchReaction {
                        signals,
                        restart: Some((RestartReason::EventDecodeFailed, wait)),
                    };
                },
                WatchChange::Route { previous, next } => {
                    if let Some(update) = route_update_for_watch_event(previous.as_ref(), next) {
                        signals.push(RouteUpdateSignal::Route(update));
                    }
                },
            }
            i = i + 1;
        }
        assert(changes.take(i as int) =~= changes);
        assert(changes.skip(i as int) =~= Seq::<WatchChange>::empty());
        WatchReaction { signals, restart: None }
    }
}

/// One outage brings one reset: after a failure, further failures bring none until the watch is
/// open again.
pub proof fn outages_bring_one_reset(
    state: RouteWatchState,
    first: RestartReason,
    second: RestartReason,
)
    ensures
        state.failed(first).reset_signals().len() == 0,
        state.failed(first).failed(second).reset_signals().len() == 0,
        (RouteWatchState {
            consecutive_failures: 0,
            reset_sent_for_outage: false,
            ..state.failed(first)
        }).reset_signals() == seq![RouteUpdateSignal::Reset],
{
}

/// A watch that lost its place starts from what is current, whatever revisions it has seen.
pub proof fn lost_places_are_not_resumed(state: RouteWatchState, reason: RestartReason)
    requires
        reason.forgets_position(),
    ensures
        state.failed(reason).next_watch_revision is None,
{
}

/// Of the changes those are passed on, in their order, that wrote a route which is not known to have
/// stood there just so before.
pub proof fn changed_routes_are_passed_on(changes: Seq<WatchChange>)
    ensures
        update_signals(changes) == changes.filter(
            |change: WatchChange|
                change matches WatchChange::Route { previous, next } && (previous is None
                    || previous->Some_0@ != next@),
        ).map_values(|change: WatchChange| RouteUpdateSignal::Route(change->next)),
    decreases changes.len(),
{
    reveal(Seq::filter);
    let passes = |change: WatchChange|
        change matches WatchChange::Route { previous, next } && (previous is None
            || previous->Some_0@ != next@);
    let signal = |change: WatchChange| RouteUpdateSignal::Route(change->next);
    if changes.len() > 0 {
        changed_routes_are_passed_on(changes.drop_last());
    }
    assert(update_signals(changes) =~= changes.filter(passes).map_values(signal));
}

/// Everything before the first unreadable change can be read, and that change cannot.
pub proof fn the_first_unreadable_change_counts(changes: Seq<WatchChange>)
    ensures
        first_unreadable(changes) <= changes.len(),
        forall|i: int|
            0 <= i < first_unreadable(changes) ==> !(#[trigger] changes[i] is MissingKv
                || changes[i] is Undecodable),
        first_unreadable(changes) < changes.len() ==> changes[first_unreadable(changes) as int]
            is MissingKv || changes[first_unreadable(changes) as int] is Undecodable,
    decreases changes.len(),
{
    if changes.len() > 0 && readable(changes[0]) {
        let rest = changes.drop_first();
        the_first_unreadable_change_counts(rest);
        assert forall|i: int| 0 <= i < first_unreadable(changes) implies !(
        #[trigger] changes[i] is MissingKv || changes[i] is Undecodable) by {
            if i > 0 {
                assert(changes[i] == rest[i - 1]);
            }
        }
    }
}

/// A watch goes on behind the last revision that it has seen. It keeps its place through a lost
/// connection, and gives it up where what happened in between can no longer be told.
pub proof fn watches_go_on_behind_what_they_have_seen(
    state: RouteWatchState,
    revision: i64,
    reason: RestartReason,
)
    ensures
        0 < revision < i64::MAX ==> state.seen(Some(revision)).opens_at() == Some(
            (revision + 1) as i64,
        ),
        state.seen(Some(i64::MAX)).opens_at() is None,
        revision <= 0 ==> state.seen(Some(revision)) == state,
        state.seen(None) == state,
        state.seen(Some(revision)).consecutive_failures == state.consecutive_failures,
        state.seen(Some(revision)).reset_sent_for_outage == state.reset_sent_for_outage,
        reason == RestartReason::ConnectFailed || reason == RestartReason::StreamClosed || reason
            == RestartReason::StreamError ==> state.failed(reason).next_watch_revision
            == state.next_watch_revision,
        reason == RestartReason::Compacted || reason == RestartReason::Canceled || reason
            == RestartReason::EventMissingKv || reason == RestartReason::EventDecodeFailed
            ==> state.failed(reason).opens_at() is None,
        state.consecutive_failures < u32::MAX ==> state.failed(reason).consecutive_failures
            == state.consecutive_failures + 1,
        state.connected().consecutive_failures == 0,
        state.connected().next_watch_revision == state.next_watch_revision,
        !state.connected().reset_sent_for_outage,
        state.opens_at() matches Some(next) ==> next > 0 && state.next_watch_revision == Some(next),
{
}

/// A message opens the watch anew exactly where it says that the watch was compacted or canceled,
/// or holds a change that cannot be read; a reset goes out then, unless one went out in this outage,
/// and only then.
pub proof fn watches_start_anew_where_they_must(
    state: RouteWatchState,
    message: WatchMessage,
    process_id: u32,
    next: RouteWatchState,
    signals: Seq<RouteUpdateSignal>,
    restart: Option<(RestartReason, u64)>,
)
    requires
        state.reacts(message, process_id, next, signals, restart),
    ensures
        restart is None <==> message.compact_revision <= 0 && !message.canceled && (forall|i: int|
            0 <= i < message.changes@.len() ==> !(#[trigger] message.changes@[i] is MissingKv
                || message.changes@[i] is Undecodable)),
        restart is None ==> next.consecutive_failures == state.consecutive_failures
            && signals == update_signals(message.changes@),
        restart is Some ==> next.reset_sent_for_outage && next.opens_at() is None,
        restart is Some && !state.reset_sent_for_outage ==> signals.len() > 0 && signals.last()
            == RouteUpdateSignal::Reset,
        restart matches Some((_, wait)) ==> 100 <= wait <= 5000,
        message.compact_revision > 0 ==> restart->Some_0.0 == RestartReason::Compacted,
        message.compact_revision <= 0 && message.canceled ==> restart->Some_0.0
            == RestartReason::Canceled,
{
    the_first_unreadable_change_counts(message.changes@);
    let seen = state.seen(message.header_revision);
    retry::backoffs_are_bounded(
        100,
        seen.failures_after(),
        6,
        retry::route_watch_jitter(seen.failures_after(), process_id),
        5000,
    );
}

/// After each failure the watch waits as long as its failures in a row ask for.
pub proof fn watches_wait_longer_with_every_failure(state: RouteWatchState, process_id: u32)
    ensures
        state.wait_after_failure(process_id) == retry::route_watch_wait(
            state.failures_after(),
            process_id,
        ),
        state.consecutive_failures == 0 ==> state.failures_after() == 1,
{
}

} // verus!
