//! Watches a decentralized-exchange liquidity-pool program for newly created
//! trading pools and extracts structured token-pair information from the
//! transactions that created them.
//!
//! The crate holds the pipeline's logic: detecting candidate events,
//! extracting pool events from transaction metadata, recording them exactly
//! once in an append-only store, and the driver decisions that keep the loop
//! alive through per-event failures. Network and file I/O live outside, in
//! thin callers that hand plain values in and out.

pub mod model;
pub mod extract;
pub mod detect;
pub mod codec;
pub mod store;
pub mod clock;
pub mod driver;
pub mod config;
