//! The error taxonomy.
//!
//! Validation errors (field bounds, capacity, invalid status for a
//! transition, unauthorized caller) are recoverable and leave state
//! untouched.  `Overflow` and `Underflow` are defensive arithmetic
//! guards: they signal a counter invariant violation, not a normal user
//! error.  `AlreadyExists` surfaces a key collision from the
//! create-if-absent tables (double enrollment, double check-in).

use vstd::prelude::*;

verus! {

/// Reason code returned by every failing operation.
#[derive(Clone, Copy, PartialEq, Eq, Structural, Debug)]
pub enum AlyraError {
    /// A title or description exceeds its declared length cap.
    FieldTooLong,
    /// `max_students` exceeds the global seat cap.
    CapacityExceeded,
    /// `waitlist_capacity` exceeds the global waitlist cap.
    WaitlistTooLarge,
    /// No free seat: `current_students` has reached `max_students`,
    /// or the formation is not active.
    FormationFull,
    /// The waitlist cannot be joined: it is at capacity, the formation
    /// is not active, or seats remain free (no waitlisting while direct
    /// enrollment is possible).
    WaitlistFull,
    /// The waitlist entry is not in a status that allows the requested
    /// transition.
    InvalidWaitlistStatus,
    /// The caller is not the participant named by the enrollment.
    NotEnrolled,
    /// The caller is not the identity this operation is reserved to.
    UnauthorizedAccess,
    /// A counter increment would wrap.  Kept as the defensive arm of
    /// the taxonomy; every increment in this crate sits behind a
    /// capacity check that keeps the counter strictly below its bound,
    /// so no operation returns it.
    Overflow,
    /// A counter decrement would wrap (defensive guard).
    Underflow,
    /// The session duration is outside the allowed bounds.
    InvalidTimeRange,
    /// A record with the same key already exists.
    AlreadyExists,
}

} // verus!
