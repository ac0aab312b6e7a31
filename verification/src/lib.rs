//! Decision logic of a load generator for an at-least-once delivery pipeline.
//!
//! Producers tag every work item with the identifier of its batch, send the
//! items over a rotation of topics and then watch a shared counter until the
//! whole batch has been counted. A consumer takes the batch identifier out of
//! each payload and bumps that counter. Everything here is a function from
//! plain values to plain values; the network lives with the caller.

pub mod batch;
pub mod consumer;
pub mod ident;
pub mod mode;
pub mod payload;
pub mod pipeline;
pub mod poller;
pub mod sender;
pub mod topic;
pub mod worker;
