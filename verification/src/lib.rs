//! Core logic of a coordinator actor for a distributed streaming SQL engine.
//!
//! The coordinator is a single logical thread that serializes catalog
//! mutations and read-timestamp assignment. Slow work (planning, validation,
//! storage scans) runs in background tasks; their results re-enter the
//! coordinator as messages. This crate holds the decision logic: each message
//! handler is a verified function from the coordinator state and the message
//! to the next state and a list of actions for the surrounding runtime to
//! perform.

pub mod catalog;
pub mod error;
pub mod statement;
pub mod write_lock;
pub mod linearize;
pub mod status;
pub mod controller;
pub mod storage_usage;
pub mod message;
pub mod coord;
pub mod sequencer;
