//! The timelines that a worker holds.

use std::collections::HashSet;

use vstd::prelude::*;

use crate::error::TsoError;
use crate::model::{TimelineLifecycleState, TimelineRoute};
use crate::runtime::cache_eviction;
use crate::runtime::cache_eviction::TimelineCacheStore;

verus! {

/// What a worker knows of a timeline.
#[derive(Debug)]
pub struct TimelineState {
    pub route: TimelineRoute,
    pub state: TimelineLifecycleState,
    pub last_issued_tso: Option<u64>,
    pub recovery_floor_tso: Option<u64>,
    pub last_graceful_issued: Option<u64>,
    pub revision: u64,
}

/// The timelines that a worker holds, by handle.
pub struct TimelineRuntimeState {
    pub cache: TimelineCacheStore,
}

impl TimelineRuntimeState {
    pub open spec fn valid(self) -> bool {
        self.cache.valid()
    }

    pub fn new(max_entries: usize) -> (runtime: Self)
        ensures
            runtime.valid(),
            runtime.cache.max_entries == max_entries,
            runtime.cache.cached() == Map::<Seq<char>, (u64, u64)>::empty(),
            runtime.cache.entry_count == 0,
            runtime.cache.eviction_candidates@.len() == 0,
    {
        TimelineRuntimeState { cache: TimelineCacheStore::new(max_entries) }
    }

    pub fn timeline_count(&self) -> (count: usize)
        requires
            self.valid(),
        ensures
            count == self.cache.cached().dom().len(),
    {
        self.cache.timeline_count()
    }

    /// The handle of a timeline; finding it counts as a use.
    pub fn timeline_handle(&mut self, timeline_key: &str) -> (handle: Option<u64>)
        requires
            old(self).valid(),
        ensures
            final(self).valid(),
            match handle {
                Some(found) => {
                    &&& old(self).cache.cached().contains_key(timeline_key@)
                    &&& old(self).cache.cached()[timeline_key@].0 == found
                    &&& cache_eviction::touched(
                        old(self).cache,
                        timeline_key@,
                        (found, old(self).cache.access_counter),
                        final(self).cache,
                    )
                },
                None => {
                    &&& !old(self).cache.cached().contains_key(timeline_key@)
                    &&& *final(self) == *old(self)
                },
            },
    {
        self.cache.timeline_handle(timeline_key)
    }

    /// The handle of a timeline, which is built and entered where it is not held yet.
    pub fn timeline_handle_or_insert_with<F: FnOnce() -> u64>(
        &mut self,
        timeline_key: &str,
        build: F,
        busy: &HashSet<u64>,
    ) -> (result: Result<u64, TsoError>)
        requires
            old(self).valid(),
            build.requires(()),
        ensures
            final(self).valid(),
            if old(self).cache.cached().contains_key(timeline_key@) {
                let found = old(self).cache.cached()[timeline_key@].0;
                &&& result == Ok::<u64, TsoError>(found)
                &&& cache_eviction::touched(
                    old(self).cache,
                    timeline_key@,
                    (found, old(self).cache.access_counter),
                    final(self).cache,
                )
            } else {
                match result {
                    Ok(timeline) => {
                        &&& build.ensures((), timeline)
                        &&& cache_eviction::entered(
                            old(self).cache,
                            busy@,
                            timeline_key@,
                            (timeline, old(self).cache.access_counter),
                            final(self).cache,
                        )
                    },
                    Err(error) => {
                        &&& cache_eviction::refused(
                            old(self).cache,
                            busy@,
                            final(self).cache,
                        )
                        &&& cache_eviction::is_saturated(
                            error,
                            timeline_key@,
                            old(self).cache.max_entries,
                        )
                    },
                }
            },
    {
        self.cache.timeline_handle_or_insert_with(timeline_key, build, busy)
    }

    /// Enters a timeline.
    pub fn insert_timeline(
        &mut self,
        timeline_key: String,
        timeline: u64,
        busy: &HashSet<u64>,
    ) -> (result: Result<(), TsoError>)
        requires
            old(self).valid(),
        ensures
            final(self).valid(),
            if old(self).cache.cached().contains_key(timeline_key@) {
                &&& result is Ok
                &&& cache_eviction::touched(
                    old(self).cache,
                    timeline_key@,
                    (timeline, old(self).cache.access_counter),
                    final(self).cache,
                )
            } else {
                match result {
                    Ok(()) => cache_eviction::entered(
                        old(self).cache,
                        busy@,
                        timeline_key@,
                        (timeline, old(self).cache.access_counter),
                        final(self).cache,
                    ),
                    Err(error) => {
                        &&& cache_eviction::refused(
                            old(self).cache,
                            busy@,
                            final(self).cache,
                        )
                        &&& cache_eviction::is_saturated(
                            error,
                            timeline_key@,
                            old(self).cache.max_entries,
                        )
                    },
                }
            },
    {
        self.cache.insert_timeline(timeline_key, timeline, busy)
    }

    /// Gives a timeline up, if it is held.
    pub fn remove_timeline(&mut self, timeline_key: &str)
        requires
            old(self).valid(),
        ensures
            final(self).valid(),
            cache_eviction::removed(old(self).cache, timeline_key@, final(self).cache),
    {
        self.cache.remove_timeline(timeline_key);
    }

    /// Gives every timeline up.
    pub fn clear(&mut self)
        ensures
            final(self).valid(),
            final(self).cache.keeps_settings(old(self).cache),
            final(self).cache.cached() == Map::<Seq<char>, (u64, u64)>::empty(),
            final(self).cache.eviction_candidates@.len() == 0,
            final(self).cache.entry_count == 0,
    {
        self.cache.clear();
    }
}

} // verus!
