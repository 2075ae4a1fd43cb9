//! Identities and the status vocabulary of every record kind.

use vstd::prelude::*;

verus! {

/// An account address in the host ledger.
///
/// The addressing scheme that derives addresses from key tuples is
/// external; the core only compares addresses for equality, so they are
/// modeled as plain integers.
pub type Pubkey = u64;

/// Role requested by a user asking for access.
#[derive(Clone, Copy, PartialEq, Eq, Structural, Debug)]
pub enum Role {
    Student,
    Trainer,
}

/// Delivery mode of a formation.
#[derive(Clone, Copy, PartialEq, Eq, Structural, Debug)]
pub enum FormationType {
    Online,
    InPerson,
    Hybrid,
}

/// Outcome recorded for a session check-in.
#[derive(Clone, Copy, PartialEq, Eq, Structural, Debug)]
pub enum AttendanceStatus {
    Present,
    Absent,
    Late,
}

/// Lifecycle of an access request.
#[derive(Clone, Copy, PartialEq, Eq, Structural, Debug)]
pub enum RequestStatus {
    Pending,
    Approved,
    Rejected,
}

/// Lifecycle of a waitlist entry.
#[derive(Clone, Copy, PartialEq, Eq, Structural, Debug)]
pub enum WaitlistStatus {
    Waiting,
    PendingPromotion,
    Promoted,
    Declined,
    Expired,
}

/// Lifecycle of an enrollment record.
#[derive(Clone, Copy, PartialEq, Eq, Structural, Debug)]
pub enum EnrollmentStatus {
    Enrolled,
    Waitlisted,
    Dropped,
}

/// Lifecycle of a formation.
#[derive(Clone, Copy, PartialEq, Eq, Structural, Debug)]
pub enum FormationStatus {
    Active,
    Full,
    Cancelled,
    Completed,
}

} // verus!
