//! Core of a two-party aggregation protocol: the wire codec, the protocol
//! messages, the aggregate-share store and the Leader's work engine.

pub mod agg_share;
pub mod aggregation_job_test;
pub mod aggregator;
pub mod auth;
pub mod codec;
pub mod collections;
pub mod error;
pub mod hpke;
pub mod messages;
pub mod protocol;
pub mod reports_processed;
pub mod roles;
pub mod store;
pub mod task;
pub mod testing;
