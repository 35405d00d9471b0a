//! Timeline-scoped timestamp allocation: routing metadata, generator leases and the request
//! surface of a timestamp oracle.

pub mod error;
pub mod metadata;
pub mod model;
pub mod plane;
pub mod planning;
pub mod process_runtime;
pub mod recovery;
pub mod rpc;
pub mod runtime;
pub mod seqs;
pub mod status;
pub mod text;
pub mod tso;
