//! Reconciliation-and-relay engine for an on-chain randomness oracle.
//!
//! The engine keeps the transaction queue and the two dedup caches, and
//! decides, from plain observations of the chain and of the beacon, what is
//! to be submitted next. The driver that performs the network calls lives
//! outside this library and hands the engine what it observed.

pub mod transaction;
pub mod service;
pub mod schedule;
pub mod laws;
