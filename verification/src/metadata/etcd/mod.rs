//! Metadata in etcd: what is asked of the store, and what is made of its answers.

pub mod admission;
pub mod admission_laws;
pub mod cleanup_laws;
pub mod cluster_format;
pub mod generator_laws;
pub mod generators;
pub mod index_rebuild;
pub mod json;
pub mod lease_lock;
pub mod listing;
pub mod listing_laws;
pub mod lock_laws;
pub mod prune;
pub mod ranges;
pub mod reply_laws;
pub mod request_cas;
pub mod request_index;
pub mod request_laws;
pub mod retry;
pub mod route_watch;
pub mod status_index;
pub mod store;
pub mod timeline_batch;
pub mod timeline_cas;
pub mod timeline_laws;
pub mod txn;
