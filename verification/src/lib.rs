//! Raft service building blocks: the log store's key encoding and log
//! bookkeeping, the state machine's bookkeeping, the snapshot transfer
//! protocol, the wire message conversions and the controller and
//! lifecycle decisions, each with a verified contract.
pub mod config;
pub mod controller;
pub mod keys;
pub mod lifecycle;
pub mod log_store;
pub mod network;
pub mod pb;
pub mod pb_impl;
pub mod snapshot_transfer;
pub mod state_machine;
pub mod text;
pub mod types;
