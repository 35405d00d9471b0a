//! The in-process state of a worker: generators, leases and cached timelines.

pub mod cache_eviction;
pub mod cache_maps;
pub mod candidates;
pub mod generator;
pub mod generator_lease;
pub mod timeline_facade;
