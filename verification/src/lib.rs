//! The latest release of each starred repository, newest first.
//!
//! The crate holds the decisions of the run and leaves the network to its
//! caller: it says which request comes next, reads what came back, keeps the
//! releases that exist and orders them by their publication time.

pub mod client;
pub mod model;
pub mod pipeline;
pub mod pipeline_proofs;
pub mod render;
pub mod report;
pub mod report_proofs;
pub mod resolve;
pub mod timestamp;
