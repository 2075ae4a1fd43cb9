//! The record kinds and the transitions that act on one record at a time.
//!
//! A [`Formation`] owns the seat and waitlist counters; its methods are
//! the counter moves shared by the higher-level operations.  The other
//! records are created once and then only change status.

use vstd::prelude::*;
use vstd::string::StrSliceExecFns;

use crate::config::{
    MAX_DESCRIPTION_LENGTH, MAX_FORMATION_CAPACITY, MAX_SESSION_DURATION, MAX_TITLE_LENGTH,
    MAX_WAITLIST_SIZE, MIN_SESSION_DURATION,
};
use crate::error::AlyraError;
use crate::types::{
    AttendanceStatus, EnrollmentStatus, FormationStatus, FormationType, Pubkey, RequestStatus,
    Role, WaitlistStatus,
};

verus! {

/// A scheduled training offering with bounded seat and waitlist
/// capacity.
pub struct Formation {
    pub trainer: Pubkey,
    pub title: String,
    pub description: String,
    pub formation_type: FormationType,
    pub max_students: u8,
    pub waitlist_size: u8,
    pub current_students: u8,
    pub current_waitlisted: u8,
    pub status: FormationStatus,
    pub created_at: i64,
    pub updated_at: i64,
}

/// One enrollment per (formation, student) pair.
pub struct Enrollment {
    pub formation: Pubkey,
    pub student: Pubkey,
    pub status: EnrollmentStatus,
    pub position: u8,
    pub created_at: i64,
    pub updated_at: i64,
}

/// One queue slot per (formation, student) pair while the student waits.
pub struct WaitlistEntry {
    pub formation: Pubkey,
    pub student: Pubkey,
    pub position: u8,
    pub status: WaitlistStatus,
    /// Entry time; reused as the promotion-offer time.
    pub timestamp: i64,
    pub created_at: i64,
    pub updated_at: i64,
}

/// One check-in per (session, student) pair.
pub struct Attendance {
    pub session: Pubkey,
    pub student: Pubkey,
    pub status: AttendanceStatus,
    pub check_in_time: i64,
    pub created_at: i64,
    pub updated_at: i64,
}

/// Scheduling metadata for one meeting of a formation.
pub struct Session {
    pub formation: Pubkey,
    pub trainer: Pubkey,
    pub title: String,
    pub description: String,
    pub start_time: i64,
    pub end_time: i64,
    pub created_at: i64,
    pub updated_at: i64,
}

/// A pending request for a role, one per user.
pub struct AccessRequest {
    pub user: Pubkey,
    pub role: Role,
    pub name: String,
    pub email: String,
    pub message: String,
    pub status: RequestStatus,
    pub created_at: i64,
    pub updated_at: i64,
}

impl Formation {
    /// The standing invariant of every formation: counters within their
    /// declared capacities, capacities within the global caps, fields
    /// within their length caps.
    pub open spec fn wf(self) -> bool {
        &&& self.max_students <= MAX_FORMATION_CAPACITY
        &&& self.waitlist_size <= MAX_WAITLIST_SIZE
        &&& self.current_students <= self.max_students
        &&& self.current_waitlisted <= self.waitlist_size
        &&& self.title@.len() <= MAX_TITLE_LENGTH
        &&& self.description@.len() <= MAX_DESCRIPTION_LENGTH
    }

    /// A seat is free and the formation accepts enrollments.
    pub open spec fn spec_can_enroll(self) -> bool {
        self.current_students < self.max_students && self.status == FormationStatus::Active
    }

    /// The waitlist is open: it has room, the formation is active, and
    /// no seat is free (a student must be turned away from direct
    /// enrollment before queueing).
    pub open spec fn spec_can_join_waitlist(self) -> bool {
        self.current_waitlisted < self.waitlist_size && self.status == FormationStatus::Active
            && self.current_students >= self.max_students
    }

    /// Validates the declared fields and builds a fresh formation with
    /// zeroed counters.
    pub fn create(
        trainer: Pubkey,
        title: String,
        description: String,
        formation_type: FormationType,
        max_students: u8,
        waitlist_size: u8,
        now: i64,
    ) -> (r: Result<Formation, AlyraError>)
        ensures
            title@.len() > MAX_TITLE_LENGTH || description@.len() > MAX_DESCRIPTION_LENGTH
                ==> r == Err::<Formation, AlyraError>(AlyraError::FieldTooLong),
            title@.len() <= MAX_TITLE_LENGTH && description@.len() <= MAX_DESCRIPTION_LENGTH
                && max_students > MAX_FORMATION_CAPACITY
                ==> r == Err::<Formation, AlyraError>(AlyraError::CapacityExceeded),
            title@.len() <= MAX_TITLE_LENGTH && description@.len() <= MAX_DESCRIPTION_LENGTH
                && max_students <= MAX_FORMATION_CAPACITY && waitlist_size > MAX_WAITLIST_SIZE
                ==> r == Err::<Formation, AlyraError>(AlyraError::WaitlistTooLarge),
            title@.len() <= MAX_TITLE_LENGTH && description@.len() <= MAX_DESCRIPTION_LENGTH
                && max_students <= MAX_FORMATION_CAPACITY && waitlist_size <= MAX_WAITLIST_SIZE
                ==> r == Ok::<Formation, AlyraError>(
                    (Formation {
                        trainer,
                        title,
                        description,
                        formation_type,
                        max_students,
                        waitlist_size,
                        current_students: 0,
                        current_waitlisted: 0,
                        status: FormationStatus::Active,
                        created_at: now,
                        updated_at: now,
                    }),
                ),
            r matches Ok(f) ==> f.wf(),
    {
        if title.as_str().unicode_len() > MAX_TITLE_LENGTH {
            return Err(AlyraError::FieldTooLong);
        }
        if description.as_str().unicode_len() > MAX_DESCRIPTION_LENGTH {
            return Err(AlyraError::FieldTooLong);
        }
        if max_students > MAX_FORMATION_CAPACITY {
            return Err(AlyraError::CapacityExceeded);
        }
        if waitlist_size > MAX_WAITLIST_SIZE {
            return Err(AlyraError::WaitlistTooLarge);
        }
        Ok(Formation {
            trainer,
            title,
            description,
            formation_type,
            max_students,
            waitlist_size,
            current_students: 0,
            current_waitlisted: 0,
            status: FormationStatus::Active,
            created_at: now,
            updated_at: now,
        })
    }

    /// A seat is free and the formation accepts enrollments.
    pub fn can_enroll(&self) -> (r: bool)
        ensures
            r == self.spec_can_enroll(),
    {
        self.current_students < self.max_students && self.status == FormationStatus::Active
    }

    /// The waitlist is open; see [`Self::spec_can_join_waitlist`].
    pub fn can_join_waitlist(&self) -> (r: bool)
        ensures
            r == self.spec_can_join_waitlist(),
    {
        self.current_waitlisted < self.waitlist_size && self.status == FormationStatus::Active
            && self.current_students >= self.max_students
    }

    /// A seat is free, regardless of the formation status.
    pub fn has_available_slots(&self) -> (r: bool)
        ensures
            r == (self.current_students < self.max_students),
    {
        self.current_students < self.max_students
    }

    /// The caller identity owns this formation.
    pub fn is_trainer(&self, pubkey: &Pubkey) -> (r: bool)
        ensures
            r == (self.trainer == *pubkey),
    {
        self.trainer == *pubkey
    }

    /// Counter move of a finalized promotion: one seat filled, one
    /// waitlist slot released.  Fails without touching anything when no
    /// seat is free, or when the waitlist counter is already zero (the
    /// defensive `Underflow` guard).  The seat increment itself cannot
    /// wrap: a free seat puts the counter strictly below its `u8` bound.
    pub fn promote_from_waitlist(&mut self) -> (r: Result<(), AlyraError>)
        ensures
            old(self).current_students >= old(self).max_students
                ==> r == Err::<(), AlyraError>(AlyraError::FormationFull) && *final(self) == *old(
                self,
            ),
            old(self).current_students < old(self).max_students && old(self).current_waitlisted
                == 0 ==> r == Err::<(), AlyraError>(AlyraError::Underflow) && *final(self) == *old(
                self,
            ),
            old(self).current_students < old(self).max_students && old(self).current_waitlisted > 0
                ==> r == Ok::<(), AlyraError>(()) && *final(self) == (Formation {
                current_students: (old(self).current_students + 1) as u8,
                current_waitlisted: (old(self).current_waitlisted - 1) as u8,
                ..*old(self)
            }),
    {
        if !(self.current_students < self.max_students) {
            return Err(AlyraError::FormationFull);
        }
        if self.current_waitlisted == 0 {
            return Err(AlyraError::Underflow);
        }
        self.current_students = self.current_students + 1;
        self.current_waitlisted = self.current_waitlisted - 1;
        Ok(())
    }

    /// Counter move of a waitlist join: one waitlist slot taken.  Fails
    /// without touching anything unless the waitlist is open.  The
    /// increment cannot wrap: an open waitlist puts the counter strictly
    /// below its `u8` bound.
    pub fn add_to_waitlist(&mut self) -> (r: Result<(), AlyraError>)
        ensures
            !old(self).spec_can_join_waitlist() ==> r == Err::<(), AlyraError>(
                AlyraError::WaitlistFull,
            ) && *final(self) == *old(self),
            old(self).spec_can_join_waitlist() ==> r == Ok::<(), AlyraError>(()) && *final(self)
                == (Formation {
                current_waitlisted: (old(self).current_waitlisted + 1) as u8,
                ..*old(self)
            }),
    {
        if !self.can_join_waitlist() {
            return Err(AlyraError::WaitlistFull);
        }
        self.current_waitlisted = self.current_waitlisted + 1;
        Ok(())
    }
}

impl WaitlistEntry {
    /// The entry may receive a promotion offer.
    pub fn is_promotable(&self) -> (r: bool)
        ensures
            r == (self.status == WaitlistStatus::Waiting),
    {
        self.status == WaitlistStatus::Waiting
    }

    /// Marks a promotion offer as extended.
    pub fn promote(&mut self)
        ensures
            *final(self) == (WaitlistEntry { status: WaitlistStatus::PendingPromotion, ..*old(self) }),
    {
        self.status = WaitlistStatus::PendingPromotion;
    }

    /// Marks the offer as accepted.
    pub fn accept_promotion(&mut self)
        ensures
            *final(self) == (WaitlistEntry { status: WaitlistStatus::Promoted, ..*old(self) }),
    {
        self.status = WaitlistStatus::Promoted;
    }

    /// Marks the offer as declined.
    pub fn decline_promotion(&mut self)
        ensures
            *final(self) == (WaitlistEntry { status: WaitlistStatus::Declined, ..*old(self) }),
    {
        self.status = WaitlistStatus::Declined;
    }

    /// A pending promotion offer has outlived its timeout.  Pure time
    /// comparison: an external scheduler decides when to evaluate it.
    pub fn is_expired(&self, current_time: i64, promotion_timeout: i64) -> (r: bool)
        requires
            i64::MIN <= self.timestamp + promotion_timeout <= i64::MAX,
        ensures
            r == (self.status == WaitlistStatus::PendingPromotion && current_time
                > self.timestamp + promotion_timeout),
    {
        self.status == WaitlistStatus::PendingPromotion && current_time > self.timestamp
            + promotion_timeout
    }
}

impl Session {
    /// Validates the declared fields and the duration bounds, and builds
    /// the session record.  The duration is computed over the
    /// mathematical integers: extreme timestamps cannot wrap it.
    pub fn create(
        trainer: Pubkey,
        formation: Pubkey,
        title: String,
        description: String,
        start_time: i64,
        end_time: i64,
        now: i64,
    ) -> (r: Result<Session, AlyraError>)
        ensures
            title@.len() > MAX_TITLE_LENGTH || description@.len() > MAX_DESCRIPTION_LENGTH
                ==> r == Err::<Session, AlyraError>(AlyraError::FieldTooLong),
            title@.len() <= MAX_TITLE_LENGTH && description@.len() <= MAX_DESCRIPTION_LENGTH && !(
            MIN_SESSION_DURATION <= end_time - start_time <= MAX_SESSION_DURATION) ==> r
                == Err::<Session, AlyraError>(AlyraError::InvalidTimeRange),
            title@.len() <= MAX_TITLE_LENGTH && description@.len() <= MAX_DESCRIPTION_LENGTH
                && MIN_SESSION_DURATION <= end_time - start_time <= MAX_SESSION_DURATION ==> r
                == Ok::<Session, AlyraError>(
                (Session {
                    formation,
                    trainer,
                    title,
                    description,
                    start_time,
                    end_time,
                    created_at: now,
                    updated_at: now,
                }),
            ),
    {
        if title.as_str().unicode_len() > MAX_TITLE_LENGTH {
            return Err(AlyraError::FieldTooLong);
        }
        if description.as_str().unicode_len() > MAX_DESCRIPTION_LENGTH {
            return Err(AlyraError::FieldTooLong);
        }
        let duration: i128 = end_time as i128 - start_time as i128;
        if !(MIN_SESSION_DURATION as i128 <= duration && duration <= MAX_SESSION_DURATION as i128) {
            return Err(AlyraError::InvalidTimeRange);
        }
        Ok(Session {
            formation,
            trainer,
            title,
            description,
            start_time,
            end_time,
            created_at: now,
            updated_at: now,
        })
    }
}

/// The drop transition on one (formation, waitlist entry) pair, as a
/// pure function of the pre-state: only the entry's own participant may
/// drop, only from `Waiting` or `Promoted`, and the waitlist counter
/// must have a slot to release (the defensive `Underflow` guard).  On
/// success the slot is released and the entry expires; on failure both
/// records are returned unchanged.
pub open spec fn spec_drop_from_waitlist(
    f: Formation,
    e: WaitlistEntry,
    caller: Pubkey,
    now: i64,
) -> (Formation, WaitlistEntry, Result<(), AlyraError>) {
    if caller != e.student {
        (f, e, Err(AlyraError::UnauthorizedAccess))
    } else if !(e.status == WaitlistStatus::Waiting || e.status == WaitlistStatus::Promoted) {
        (f, e, Err(AlyraError::InvalidWaitlistStatus))
    } else if f.current_waitlisted == 0 {
        (f, e, Err(AlyraError::Underflow))
    } else {
        (
            Formation {
                current_waitlisted: (f.current_waitlisted - 1) as u8,
                updated_at: now,
                ..f
            },
            WaitlistEntry { status: WaitlistStatus::Expired, updated_at: now, ..e },
            Ok(()),
        )
    }
}

impl AccessRequest {
    /// Builds a pending access request for `user`.
    pub fn create(
        user: Pubkey,
        role: Role,
        name: String,
        email: String,
        message: String,
        now: i64,
    ) -> (r: AccessRequest)
        ensures
            r == (AccessRequest {
                user,
                role,
                name,
                email,
                message,
                status: RequestStatus::Pending,
                created_at: now,
                updated_at: now,
            }),
    {
        AccessRequest {
            user,
            role,
            name,
            email,
            message,
            status: RequestStatus::Pending,
            created_at: now,
            updated_at: now,
        }
    }
}

} // verus!
