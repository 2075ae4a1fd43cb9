//! Global bounds on fields, capacities and session durations.

use vstd::prelude::*;

verus! {

/// Longest accepted title, in characters.
pub const MAX_TITLE_LENGTH: usize = 200;

/// Longest accepted description, in characters.
pub const MAX_DESCRIPTION_LENGTH: usize = 1000;

/// Largest seat capacity a formation may declare.
pub const MAX_FORMATION_CAPACITY: u8 = 100;

/// Largest waitlist capacity a formation may declare.
pub const MAX_WAITLIST_SIZE: u8 = 50;

/// Shortest accepted session, in seconds.
pub const MIN_SESSION_DURATION: i64 = 1800;

/// Longest accepted session, in seconds.
pub const MAX_SESSION_DURATION: i64 = 28800;

} // verus!
