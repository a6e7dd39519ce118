//! Coordination core for a group event run over a chat platform: participants
//! organize into named table groups (a platform role plus a private channel
//! each), membership is recorded in a persistent directory, and a help-request
//! queue lets participants ask helpers for assistance.
//!
//! The platform and the store themselves are external collaborators; this
//! crate holds the verified logic: label derivation, record encoding and
//! decoding, the membership state machine, and the queue operations, each
//! stated over a model of the platform-and-store state.

pub mod clock;
pub mod config;
pub mod coordinator;
pub mod directory;
pub mod errors;
pub mod labels;
pub mod laws;
pub mod messages;
pub mod platform;
pub mod provision;
pub mod queue;
pub mod records;
pub mod rng;
pub mod text;
