//! Batch proof fulfillment and proving-throughput benchmarking for a proof
//! marketplace client.
//!
//! The network, the prover and the chain are driven from outside; this crate
//! holds the decisions: which orders enter a batch and in what order, which of
//! them are priced, when the two submission phases may run, how throughput is
//! measured and which sample is the worst.
pub mod request_id;
pub mod batch;
pub mod bench;
pub mod fulfill;
pub mod orders;
pub mod predicate;
pub mod throughput;
