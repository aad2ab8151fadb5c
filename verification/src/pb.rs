//! The messages exchanged between nodes and with the controller.
pub mod common;
pub mod controller;
pub mod internal;
