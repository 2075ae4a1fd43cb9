//! Capacity-bounded enrollment and waitlist management for scheduled
//! training offerings.
//!
//! A [`ledger::Ledger`] holds one table per record kind: formations
//! (offerings with seat counters), enrollments, waitlist entries,
//! attendance check-ins, sessions, and access requests.  Every operation
//! validates its preconditions against the current state and either
//! applies its whole effect or leaves the ledger untouched, returning a
//! specific [`error::AlyraError`].  Record uniqueness per key tuple is
//! enforced by the tables themselves: creation fails on a key collision.
//!
//! Identities and record addresses come from a host addressing scheme and
//! are opaque to this crate, which only compares them for equality; they
//! are modeled as plain integers ([`types::Pubkey`]).  Timestamps are
//! supplied by the caller as explicit `now` arguments.

pub mod config;
pub mod error;
pub mod laws;
pub mod ledger;
pub mod state;
pub mod table;
pub mod types;
