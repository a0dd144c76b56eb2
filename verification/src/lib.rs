//! An in-memory, log-compacted view of keyed messages.
pub mod clock;
pub mod record;
pub mod store;
pub mod consumer;
pub mod api;
pub mod config;
