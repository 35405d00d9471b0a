//! The request surface: wire messages, their checks and mappings.

pub mod error_details;
pub mod health_handle;
pub mod proto;
pub mod public_mapping;
pub mod route_mapping;
pub mod route_timestamp_service_facade;
pub mod status_mapping;
pub mod timeline_status_query;
pub mod transfer_adapter;
pub mod translation;
pub mod watch_allocate_entry;
pub mod watch_completeness;
pub mod wire;
pub mod wire_laws;
