//! Engine for a timed, multi-player resource-collection match.
//!
//! A fixed set of numbered pipes each carry an extractable value that drifts
//! with a trend and wraps at configured bounds.  Players, identified by
//! bearer tokens, collect from pipes, inspect them, and spend score on
//! modifiers that alter a pipe's delay, payout or drift.  Every state change
//! is appended to an event log that observers replay and tail gap-free.
//!
//! The engine is a sequential state machine: each operation is an atomic
//! step on [`engine::App`].  Operations that suspend (a collection or
//! inspection wait) are split into a begin step and a finish step, and the
//! caller performs the wait between them; the per-player busy flag taken by
//! the begin step is what rejects overlapping requests for one token.

pub mod config;
pub mod engine;
pub mod events;
pub mod laws;
pub mod order;
pub mod pipe;
pub mod rng;
pub mod runner;
pub mod user;
