//! Replays the revision history of one git repository as a fresh linear
//! history in another one, under a new identity.
//!
//! The library holds the decisions: which tool invocations to make and in
//! what order, how the history log is read, what a tree copy does. The
//! caller performs the invocations and reports back.
pub mod command;
pub mod engine;
pub mod error;
pub mod history;
pub mod source;
pub mod sync;
