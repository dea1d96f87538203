//! Core of a confirmed-tip chain indexer: cursor management, confirmation-depth
//! gating, batched range scans, idempotent persistence of raw logs, and a
//! contract-address registry with a single-slot cache.
//!
//! All decision logic lives here and is verified; the surrounding process
//! (RPC transport, relational store, pub/sub bus) hands plain values in and
//! takes plain values back.

pub mod address;
pub mod config;
pub mod error;
pub mod hex;
pub mod indexer;
pub mod log;
pub mod registry;
