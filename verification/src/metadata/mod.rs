//! Metadata: the records of timelines, generators and requests, and the stores that keep them.

pub mod authority;
pub mod entries;
pub mod etcd;
pub mod identity;
pub mod key_laws;
pub mod keys;
pub mod maps;
pub mod memory;
pub mod memory_generators;
pub mod memory_laws;
pub mod memory_requests;
pub mod ownership;
pub mod pages;
pub mod store_laws;
pub mod types;
pub mod windows;
