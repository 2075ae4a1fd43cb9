//! The tables and the operations that read and move records.
//!
//! A [`Ledger`] holds every record, one table per kind, each keyed by
//! the tuple that the host addressing scheme derives an address from:
//! formations and sessions by an address chosen at creation,
//! enrollments and waitlist entries by (formation, student), attendance
//! by (session, student), access requests by user.  Every operation
//! validates against the current state and either applies its whole
//! effect or returns an error leaving the ledger untouched.

use vstd::prelude::*;

use crate::error::AlyraError;
use crate::state::{
    spec_drop_from_waitlist, AccessRequest, Attendance, Enrollment, Formation, Session,
    WaitlistEntry,
};
use crate::table::{
    has_key, keys_unique, lemma_idx_at, lemma_not_has, lemma_push, lemma_update, value_of,
};
use crate::types::{
    AttendanceStatus, EnrollmentStatus, FormationStatus, FormationType, Pubkey, RequestStatus,
    Role, WaitlistStatus,
};

verus! {

/// The renumbering applied to one waitlist slot once queue position
/// `drop_position` of `formation_key` has been vacated: a `Waiting`
/// entry of that formation standing behind the vacated position moves
/// down one; every other slot keeps its value.
pub open spec fn spec_shift_after_drop(
    pre: ((Pubkey, Pubkey), WaitlistEntry),
    formation_key: Pubkey,
    drop_position: u8,
    now: i64,
) -> ((Pubkey, Pubkey), WaitlistEntry) {
    let e = pre.1;
    if e.formation == formation_key && e.status == WaitlistStatus::Waiting && e.position
        > drop_position {
        (pre.0, WaitlistEntry { position: (e.position - 1) as u8, updated_at: now, ..e })
    } else {
        pre
    }
}

/// Every record of the system, grouped by kind, each table keyed by
/// its record's key tuple.
pub struct Ledger {
    pub formations: Vec<(Pubkey, Formation)>,
    pub sessions: Vec<(Pubkey, Session)>,
    pub enrollments: Vec<((Pubkey, Pubkey), Enrollment)>,
    pub waitlist: Vec<((Pubkey, Pubkey), WaitlistEntry)>,
    pub attendance: Vec<((Pubkey, Pubkey), Attendance)>,
    pub requests: Vec<(Pubkey, AccessRequest)>,
}

/// Returns a borrow of one table slot for in-place update.
fn table_entry_mut<K, V>(v: &mut Vec<(K, V)>, i: usize) -> (element: &mut (K, V))
    requires
        i < old(v).len(),
    ensures
        *element == old(v)@[i as int],
        final(v)@ == old(v)@.update(i as int, *final(element)),
{
    &mut v[i]
}

/// Linear scan of a table keyed by a single address.
fn find_idx_key<V>(v: &Vec<(Pubkey, V)>, key: Pubkey) -> (r: Option<usize>)
    ensures
        match r {
            Some(i) => i < v.len() && v@[i as int].0 == key,
            None => forall|j: int| #![trigger v@[j]] 0 <= j < v@.len() ==> v@[j].0 != key,
        },
{
    let mut i: usize = 0;
    while i < v.len()
        invariant
            i <= v.len(),
            forall|j: int| #![trigger v@[j]] 0 <= j < i ==> v@[j].0 != key,
        decreases v.len() - i,
    {
        if v[i].0 == key {
            return Some(i);
        }
        i = i + 1;
    }
    None
}

/// Linear scan of a table keyed by a pair of addresses.
fn find_idx_pair<V>(v: &Vec<((Pubkey, Pubkey), V)>, key: (Pubkey, Pubkey)) -> (r: Option<usize>)
    ensures
        match r {
            Some(i) => i < v.len() && v@[i as int].0 == key,
            None => forall|j: int| #![trigger v@[j]] 0 <= j < v@.len() ==> v@[j].0 != key,
        },
{
    let mut i: usize = 0;
    while i < v.len()
        invariant
            i <= v.len(),
            forall|j: int| #![trigger v@[j]] 0 <= j < i ==> v@[j].0 != key,
        decreases v.len() - i,
    {
        if v[i].0.0 == key.0 && v[i].0.1 == key.1 {
            return Some(i);
        }
        i = i + 1;
    }
    None
}

impl Ledger {
    /// The standing invariant: unique keys in every table, every
    /// formation within its capacity bounds, and every record filed
    /// under the key tuple its own fields name.
    pub open spec fn wf(self) -> bool {
        &&& keys_unique(self.formations@)
        &&& keys_unique(self.sessions@)
        &&& keys_unique(self.enrollments@)
        &&& keys_unique(self.waitlist@)
        &&& keys_unique(self.attendance@)
        &&& keys_unique(self.requests@)
        &&& forall|i: int|
            #![trigger self.formations@[i]]
            0 <= i < self.formations@.len() ==> self.formations@[i].1.wf()
        &&& forall|i: int|
            #![trigger self.enrollments@[i]]
            0 <= i < self.enrollments@.len() ==> self.enrollments@[i].0 == (
            self.enrollments@[i].1.formation,
            self.enrollments@[i].1.student,
            )
        &&& forall|i: int|
            #![trigger self.waitlist@[i]]
            0 <= i < self.waitlist@.len() ==> self.waitlist@[i].0 == (
            self.waitlist@[i].1.formation,
            self.waitlist@[i].1.student,
            )
        &&& forall|i: int|
            #![trigger self.attendance@[i]]
            0 <= i < self.attendance@.len() ==> self.attendance@[i].0 == (
            self.attendance@[i].1.session,
            self.attendance@[i].1.student,
            )
        &&& forall|i: int|
            #![trigger self.requests@[i]]
            0 <= i < self.requests@.len() ==> self.requests@[i].0 == self.requests@[i].1.user
    }

    /// Every enrollment's zero-based position lies strictly below its
    /// formation's seat counter: positions are handed out from the
    /// counter at creation, the counter never decreases, and records
    /// are never renumbered.  Holds of the empty ledger and is
    /// preserved by every operation.
    pub open spec fn enrollment_positions_wf(self) -> bool {
        forall|i: int|
            #![trigger self.enrollments@[i]]
            0 <= i < self.enrollments@.len() ==> self.has_formation(
                self.enrollments@[i].1.formation,
            ) && self.enrollments@[i].1.position < self.formation_of(
                self.enrollments@[i].1.formation,
            ).current_students
    }

    /// A formation is filed under `key`.
    pub open spec fn has_formation(self, key: Pubkey) -> bool {
        has_key(self.formations@, key)
    }

    /// The formation filed under `key`.
    pub open spec fn formation_of(self, key: Pubkey) -> Formation {
        value_of(self.formations@, key)
    }

    /// A session is filed under `key`.
    pub open spec fn has_session(self, key: Pubkey) -> bool {
        has_key(self.sessions@, key)
    }

    /// The session filed under `key`.
    pub open spec fn session_of(self, key: Pubkey) -> Session {
        value_of(self.sessions@, key)
    }

    /// An enrollment exists for (formation, student).
    pub open spec fn has_enrollment(self, formation: Pubkey, student: Pubkey) -> bool {
        has_key(self.enrollments@, (formation, student))
    }

    /// The enrollment of (formation, student).
    pub open spec fn enrollment_of(self, formation: Pubkey, student: Pubkey) -> Enrollment {
        value_of(self.enrollments@, (formation, student))
    }

    /// A waitlist entry exists for (formation, student).
    pub open spec fn has_waitlist_entry(self, formation: Pubkey, student: Pubkey) -> bool {
        has_key(self.waitlist@, (formation, student))
    }

    /// The waitlist entry of (formation, student).
    pub open spec fn waitlist_entry_of(self, formation: Pubkey, student: Pubkey) -> WaitlistEntry {
        value_of(self.waitlist@, (formation, student))
    }

    /// A check-in exists for (session, student).
    pub open spec fn has_attendance(self, session: Pubkey, student: Pubkey) -> bool {
        has_key(self.attendance@, (session, student))
    }

    /// The check-in of (session, student).
    pub open spec fn attendance_of(self, session: Pubkey, student: Pubkey) -> Attendance {
        value_of(self.attendance@, (session, student))
    }

    /// An access request exists for `user`.
    pub open spec fn has_request(self, user: Pubkey) -> bool {
        has_key(self.requests@, user)
    }

    /// The access request of `user`.
    pub open spec fn request_of(self, user: Pubkey) -> AccessRequest {
        value_of(self.requests@, user)
    }

    /// An empty ledger.
    pub fn new() -> (r: Ledger)
        ensures
            r.wf(),
            r.enrollment_positions_wf(),
            r.formations@.len() == 0,
            r.sessions@.len() == 0,
            r.enrollments@.len() == 0,
            r.waitlist@.len() == 0,
            r.attendance@.len() == 0,
            r.requests@.len() == 0,
    {
        Ledger {
            formations: Vec::new(),
            sessions: Vec::new(),
            enrollments: Vec::new(),
            waitlist: Vec::new(),
            attendance: Vec::new(),
            requests: Vec::new(),
        }
    }

    /// Validates the declared fields and files a fresh formation under
    /// `formation_key`, owned by `trainer`, with zeroed counters.
    /// Fails on a field out of bounds, or on a key collision, leaving
    /// the ledger untouched.
    pub fn create_formation(
        &mut self,
        formation_key: Pubkey,
        trainer: Pubkey,
        title: String,
        description: String,
        formation_type: FormationType,
        max_students: u8,
        waitlist_size: u8,
        now: i64,
    ) -> (r: Result<(), AlyraError>)
        requires
            old(self).wf(),
        ensures
            final(self).wf(),
            r matches Err(_) ==> *final(self) == *old(self),
            title@.len() > crate::config::MAX_TITLE_LENGTH || description@.len()
                > crate::config::MAX_DESCRIPTION_LENGTH ==> r == Err::<(), AlyraError>(
                AlyraError::FieldTooLong,
            ),
            title@.len() <= crate::config::MAX_TITLE_LENGTH && description@.len()
                <= crate::config::MAX_DESCRIPTION_LENGTH && max_students
                > crate::config::MAX_FORMATION_CAPACITY ==> r == Err::<(), AlyraError>(
                AlyraError::CapacityExceeded,
            ),
            title@.len() <= crate::config::MAX_TITLE_LENGTH && description@.len()
                <= crate::config::MAX_DESCRIPTION_LENGTH && max_students
                <= crate::config::MAX_FORMATION_CAPACITY && waitlist_size
                > crate::config::MAX_WAITLIST_SIZE ==> r == Err::<(), AlyraError>(
                AlyraError::WaitlistTooLarge,
            ),
            title@.len() <= crate::config::MAX_TITLE_LENGTH && description@.len()
                <= crate::config::MAX_DESCRIPTION_LENGTH && max_students
                <= crate::config::MAX_FORMATION_CAPACITY && waitlist_size
                <= crate::config::MAX_WAITLIST_SIZE && old(self).has_formation(formation_key) ==> r
                == Err::<(), AlyraError>(AlyraError::AlreadyExists),
            r == Ok::<(), AlyraError>(()) <==> (title@.len() <= crate::config::MAX_TITLE_LENGTH
                && description@.len() <= crate::config::MAX_DESCRIPTION_LENGTH && max_students
                <= crate::config::MAX_FORMATION_CAPACITY && waitlist_size
                <= crate::config::MAX_WAITLIST_SIZE && !old(self).has_formation(formation_key)),
            r == Ok::<(), AlyraError>(()) ==> final(self).formations@ == old(
                self,
            ).formations@.push(
                (
                    formation_key,
                    (Formation {
                        trainer,
                        title,
                        description,
                        formation_type,
                        max_students,
                        waitlist_size,
                        current_students: 0,
                        current_waitlisted: 0,
                        status: FormationStatus::Active,
                        created_at: now,
                        updated_at: now,
                    }),
                ),
            ) && final(self).sessions@ == old(self).sessions@
                && final(self).enrollments@ == old(self).enrollments@
                && final(self).waitlist@ == old(self).waitlist@
                && final(self).attendance@ == old(self).attendance@
                && final(self).requests@ == old(self).requests@,
            r == Ok::<(), AlyraError>(()) ==> final(self).has_formation(formation_key)
                && final(self).formation_of(formation_key).current_students == 0
                && final(self).formation_of(formation_key).current_waitlisted == 0
                && final(self).formation_of(formation_key).status == FormationStatus::Active
                && final(self).formation_of(formation_key).trainer == trainer,
            forall|k: Pubkey|
                k != formation_key && old(self).has_formation(k) ==> final(self).has_formation(k)
                    && final(self).formation_of(k) == old(self).formation_of(k),
            old(self).enrollment_positions_wf() ==> final(self).enrollment_positions_wf(),
    {
        let formation = match Formation::create(
            trainer,
            title,
            description,
            formation_type,
            max_students,
            waitlist_size,
            now,
        ) {
            Ok(f) => f,
            Err(e) => {
                return Err(e);
            },
        };
        if let Some(i) = find_idx_key(&self.formations, formation_key) {
            proof {
                lemma_idx_at(self.formations@, i as int);
            }
            return Err(AlyraError::AlreadyExists);
        }
        proof {
            lemma_not_has(self.formations@, formation_key);
            lemma_push(self.formations@, formation_key, formation);
        }
        self.formations.push((formation_key, formation));
        proof {
            if old(self).enrollment_positions_wf() {
                assert forall|i: int| 0 <= i < self.enrollments@.len() implies self.has_formation(
                    (#[trigger] self.enrollments@[i]).1.formation,
                ) && self.enrollments@[i].1.position < self.formation_of(
                    self.enrollments@[i].1.formation,
                ).current_students by {
                    assert(old(self).enrollments@[i] == self.enrollments@[i]);
                    let fk2 = self.enrollments@[i].1.formation;
                    assert(old(self).has_formation(fk2));
                    assert(fk2 != formation_key);
                }
            }
        }
        Ok(())
    }

    /// Validates the declared fields and the duration bounds, then
    /// files a fresh session under `session_key` for the named
    /// formation.  Only the formation's trainer may schedule; a key
    /// collision fails.  Errors leave the ledger untouched.
    pub fn create_session(
        &mut self,
        session_key: Pubkey,
        formation_key: Pubkey,
        trainer: Pubkey,
        title: String,
        description: String,
        start_time: i64,
        end_time: i64,
        now: i64,
    ) -> (r: Result<(), AlyraError>)
        requires
            old(self).wf(),
            old(self).has_formation(formation_key),
        ensures
            final(self).wf(),
            r matches Err(_) ==> *final(self) == *old(self),
            title@.len() > crate::config::MAX_TITLE_LENGTH || description@.len()
                > crate::config::MAX_DESCRIPTION_LENGTH ==> r == Err::<(), AlyraError>(
                AlyraError::FieldTooLong,
            ),
            title@.len() <= crate::config::MAX_TITLE_LENGTH && description@.len()
                <= crate::config::MAX_DESCRIPTION_LENGTH && !(crate::config::MIN_SESSION_DURATION
                <= end_time - start_time <= crate::config::MAX_SESSION_DURATION) ==> r
                == Err::<(), AlyraError>(AlyraError::InvalidTimeRange),
            title@.len() <= crate::config::MAX_TITLE_LENGTH && description@.len()
                <= crate::config::MAX_DESCRIPTION_LENGTH && crate::config::MIN_SESSION_DURATION
                <= end_time - start_time <= crate::config::MAX_SESSION_DURATION && trainer != old(
                self,
            ).formation_of(formation_key).trainer ==> r == Err::<(), AlyraError>(
                AlyraError::UnauthorizedAccess,
            ),
            title@.len() <= crate::config::MAX_TITLE_LENGTH && description@.len()
                <= crate::config::MAX_DESCRIPTION_LENGTH && crate::config::MIN_SESSION_DURATION
                <= end_time - start_time <= crate::config::MAX_SESSION_DURATION && trainer == old(
                self,
            ).formation_of(formation_key).trainer && old(self).has_session(session_key) ==> r
                == Err::<(), AlyraError>(AlyraError::AlreadyExists),
            r == Ok::<(), AlyraError>(()) <==> (title@.len() <= crate::config::MAX_TITLE_LENGTH
                && description@.len() <= crate::config::MAX_DESCRIPTION_LENGTH
                && crate::config::MIN_SESSION_DURATION <= end_time - start_time
                <= crate::config::MAX_SESSION_DURATION && trainer == old(self).formation_of(
                formation_key,
            ).trainer && !old(self).has_session(session_key)),
            r == Ok::<(), AlyraError>(()) ==> final(self).sessions@ == old(self).sessions@.push(
                (
                    session_key,
                    (Session {
                        formation: formation_key,
                        trainer,
                        title,
                        description,
                        start_time,
                        end_time,
                        created_at: now,
                        updated_at: now,
                    }),
                ),
            ) && final(self).formations@ == old(self).formations@
                && final(self).enrollments@ == old(self).enrollments@
                && final(self).waitlist@ == old(self).waitlist@
                && final(self).attendance@ == old(self).attendance@
                && final(self).requests@ == old(self).requests@,
            r == Ok::<(), AlyraError>(()) ==> final(self).has_session(session_key)
                && final(self).session_of(session_key) == (Session {
                formation: formation_key,
                trainer,
                title,
                description,
                start_time,
                end_time,
                created_at: now,
                updated_at: now,
            }),
            forall|k: Pubkey|
                k != session_key && old(self).has_session(k) ==> final(self).has_session(k)
                    && final(self).session_of(k) == old(self).session_of(k),
            old(self).enrollment_positions_wf() ==> final(self).enrollment_positions_wf(),
    {
        let session = match Session::create(
            trainer,
            formation_key,
            title,
            description,
            start_time,
            end_time,
            now,
        ) {
            Ok(s) => s,
            Err(e) => {
                return Err(e);
            },
        };
        let fi = match find_idx_key(&self.formations, formation_key) {
            Some(i) => i,
            None => {
                proof {
                    lemma_not_has(self.formations@, formation_key);
                    assert(false);
                }
                return Err(AlyraError::UnauthorizedAccess);
            },
        };
        proof {
            lemma_idx_at(self.formations@, fi as int);
        }
        if !self.formations[fi].1.is_trainer(&trainer) {
            return Err(AlyraError::UnauthorizedAccess);
        }
        if let Some(i) = find_idx_key(&self.sessions, session_key) {
            proof {
                lemma_idx_at(self.sessions@, i as int);
            }
            return Err(AlyraError::AlreadyExists);
        }
        proof {
            lemma_not_has(self.sessions@, session_key);
            lemma_push(self.sessions@, session_key, session);
        }
        self.sessions.push((session_key, session));
        Ok(())
    }

    /// Files a pending access request for `user`; a second request by
    /// the same user surfaces the key collision.
    pub fn request_access(
        &mut self,
        user: Pubkey,
        role: Role,
        name: String,
        email: String,
        message: String,
        now: i64,
    ) -> (r: Result<(), AlyraError>)
        requires
            old(self).wf(),
        ensures
            final(self).wf(),
            r matches Err(_) ==> *final(self) == *old(self),
            old(self).has_request(user) ==> r == Err::<(), AlyraError>(AlyraError::AlreadyExists),
            r == Ok::<(), AlyraError>(()) <==> !old(self).has_request(user),
            r == Ok::<(), AlyraError>(()) ==> final(self).requests@ == old(self).requests@.push(
                (
                    user,
                    (AccessRequest {
                        user,
                        role,
                        name,
                        email,
                        message,
                        status: RequestStatus::Pending,
                        created_at: now,
                        updated_at: now,
                    }),
                ),
            ) && final(self).formations@ == old(self).formations@
                && final(self).sessions@ == old(self).sessions@
                && final(self).enrollments@ == old(self).enrollments@
                && final(self).waitlist@ == old(self).waitlist@
                && final(self).attendance@ == old(self).attendance@,
            r == Ok::<(), AlyraError>(()) ==> final(self).has_request(user)
                && final(self).request_of(user).status == RequestStatus::Pending,
            forall|u: Pubkey|
                u != user && old(self).has_request(u) ==> final(self).has_request(u)
                    && final(self).request_of(u) == old(self).request_of(u),
            old(self).enrollment_positions_wf() ==> final(self).enrollment_positions_wf(),
    {
        if let Some(i) = find_idx_key(&self.requests, user) {
            proof {
                lemma_idx_at(self.requests@, i as int);
            }
            return Err(AlyraError::AlreadyExists);
        }
        let request = AccessRequest::create(user, role, name, email, message, now);
        proof {
            lemma_not_has(self.requests@, user);
            lemma_push(self.requests@, user, request);
        }
        self.requests.push((user, request));
        Ok(())
    }

    /// Direct enrollment.  A free seat on an active formation admits
    /// the student at the next zero-based position and fills one seat;
    /// a full or inactive formation turns the student away; a student
    /// already enrolled surfaces the key collision.  Errors leave the
    /// ledger untouched.
    pub fn enroll_in_formation(
        &mut self,
        formation_key: Pubkey,
        student: Pubkey,
        now: i64,
    ) -> (r: Result<(), AlyraError>)
        requires
            old(self).wf(),
            old(self).has_formation(formation_key),
        ensures
            final(self).wf(),
            r matches Err(_) ==> *final(self) == *old(self),
            !old(self).formation_of(formation_key).spec_can_enroll() ==> r == Err::<(),
                AlyraError,
            >(AlyraError::FormationFull),
            old(self).formation_of(formation_key).current_students == old(self).formation_of(
                formation_key,
            ).max_students ==> r == Err::<(), AlyraError>(AlyraError::FormationFull)
                && *final(self) == *old(self),
            old(self).formation_of(formation_key).spec_can_enroll() && old(self).has_enrollment(
                formation_key,
                student,
            ) ==> r == Err::<(), AlyraError>(AlyraError::AlreadyExists),
            r == Ok::<(), AlyraError>(()) <==> (old(self).formation_of(
                formation_key,
            ).spec_can_enroll() && !old(self).has_enrollment(formation_key, student)),
            r == Ok::<(), AlyraError>(()) ==> ({
                let f = old(self).formation_of(formation_key);
                final(self).enrollments@ == old(self).enrollments@.push(
                    (
                        (formation_key, student),
                        (Enrollment {
                            formation: formation_key,
                            student,
                            status: EnrollmentStatus::Enrolled,
                            position: f.current_students,
                            created_at: now,
                            updated_at: now,
                        }),
                    ),
                ) && final(self).formation_of(formation_key) == (Formation {
                    current_students: (f.current_students + 1) as u8,
                    updated_at: now,
                    ..f
                }) && final(self).formations@.len() == old(self).formations@.len()
                    && final(self).sessions@ == old(self).sessions@
                    && final(self).waitlist@ == old(self).waitlist@
                    && final(self).attendance@ == old(self).attendance@
                    && final(self).requests@ == old(self).requests@
            }),
            forall|k: Pubkey| final(self).has_formation(k) <==> old(self).has_formation(k),
            forall|k: Pubkey|
                k != formation_key && old(self).has_formation(k) ==> final(self).formation_of(k)
                    == old(self).formation_of(k),
            forall|f2: Pubkey, s2: Pubkey|
                old(self).has_enrollment(f2, s2) ==> final(self).has_enrollment(f2, s2)
                    && final(self).enrollment_of(f2, s2) == old(self).enrollment_of(f2, s2),
            r == Ok::<(), AlyraError>(()) ==> final(self).has_enrollment(formation_key, student)
                && final(self).enrollment_of(formation_key, student) == (Enrollment {
                formation: formation_key,
                student,
                status: EnrollmentStatus::Enrolled,
                position: old(self).formation_of(formation_key).current_students,
                created_at: now,
                updated_at: now,
            }),
            old(self).enrollment_positions_wf() ==> final(self).enrollment_positions_wf(),
    {
        let fi = match find_idx_key(&self.formations, formation_key) {
            Some(i) => i,
            None => {
                proof {
                    lemma_not_has(self.formations@, formation_key);
                    assert(false);
                }
                return Err(AlyraError::FormationFull);
            },
        };
        proof {
            lemma_idx_at(self.formations@, fi as int);
        }
        if !self.formations[fi].1.can_enroll() {
            return Err(AlyraError::FormationFull);
        }
        match find_idx_pair(&self.enrollments, (formation_key, student)) {
            Some(j) => {
                proof {
                    lemma_idx_at(self.enrollments@, j as int);
                }
                return Err(AlyraError::AlreadyExists);
            },
            None => {
                proof {
                    lemma_not_has(self.enrollments@, (formation_key, student));
                }
            },
        }
        let ghost pre_f = self.formations@[fi as int].1;
        let position = self.formations[fi].1.current_students;
        let p = table_entry_mut(&mut self.formations, fi);
        p.1.current_students = p.1.current_students + 1;
        p.1.updated_at = now;
        let enrollment = Enrollment {
            formation: formation_key,
            student,
            status: EnrollmentStatus::Enrolled,
            position,
            created_at: now,
            updated_at: now,
        };
        proof {
            let new_f = (Formation {
                current_students: (pre_f.current_students + 1) as u8,
                updated_at: now,
                ..pre_f
            });
            assert(self.formations@ == old(self).formations@.update(
                fi as int,
                (formation_key, new_f),
            ));
            lemma_update(old(self).formations@, fi as int, new_f);
            assert forall|i: int| 0 <= i < self.formations@.len() implies (
            #[trigger] self.formations@[i]).1.wf() by {
                if i != fi as int {
                    assert(self.formations@[i] == old(self).formations@[i]);
                }
            }
            lemma_push(self.enrollments@, (formation_key, student), enrollment);
        }
        self.enrollments.push(((formation_key, student), enrollment));
        proof {
            if old(self).enrollment_positions_wf() {
                assert forall|i: int| 0 <= i < self.enrollments@.len() implies self.has_formation(
                    (#[trigger] self.enrollments@[i]).1.formation,
                ) && self.enrollments@[i].1.position < self.formation_of(
                    self.enrollments@[i].1.formation,
                ).current_students by {
                    if i < old(self).enrollments@.len() {
                        assert(old(self).enrollments@[i] == self.enrollments@[i]);
                        let fk2 = self.enrollments@[i].1.formation;
                        assert(old(self).has_formation(fk2));
                        if fk2 == formation_key {
                            assert(self.formation_of(fk2).current_students == pre_f.current_students
                                + 1);
                        }
                    } else {
                        assert(self.enrollments@[i].1 == enrollment);
                    }
                }
            }
        }
        Ok(())
    }

    /// Joins the waitlist.  The queue is only open once the formation
    /// is full: a student must be turned away from direct enrollment
    /// before queueing, so free seats mean failure here.  On success
    /// the entry takes the next zero-based queue position and one
    /// waitlist slot.  Errors leave the ledger untouched.
    pub fn join_waitlist(
        &mut self,
        formation_key: Pubkey,
        student: Pubkey,
        now: i64,
    ) -> (r: Result<(), AlyraError>)
        requires
            old(self).wf(),
            old(self).has_formation(formation_key),
        ensures
            final(self).wf(),
            r matches Err(_) ==> *final(self) == *old(self),
            !old(self).formation_of(formation_key).spec_can_join_waitlist() ==> r == Err::<(),
                AlyraError,
            >(AlyraError::WaitlistFull),
            old(self).formation_of(formation_key).current_students < old(self).formation_of(
                formation_key,
            ).max_students ==> r == Err::<(), AlyraError>(AlyraError::WaitlistFull)
                && *final(self) == *old(self),
            old(self).formation_of(formation_key).spec_can_join_waitlist() && old(
                self,
            ).has_waitlist_entry(formation_key, student) ==> r == Err::<(), AlyraError>(
                AlyraError::AlreadyExists,
            ),
            r == Ok::<(), AlyraError>(()) <==> (old(self).formation_of(
                formation_key,
            ).spec_can_join_waitlist() && !old(self).has_waitlist_entry(formation_key, student)),
            r == Ok::<(), AlyraError>(()) ==> ({
                let f = old(self).formation_of(formation_key);
                final(self).waitlist@ == old(self).waitlist@.push(
                    (
                        (formation_key, student),
                        (WaitlistEntry {
                            formation: formation_key,
                            student,
                            position: f.current_waitlisted,
                            status: WaitlistStatus::Waiting,
                            timestamp: now,
                            created_at: now,
                            updated_at: now,
                        }),
                    ),
                ) && final(self).formation_of(formation_key) == (Formation {
                    current_waitlisted: (f.current_waitlisted + 1) as u8,
                    updated_at: now,
                    ..f
                }) && final(self).formations@.len() == old(self).formations@.len()
                    && final(self).sessions@ == old(self).sessions@
                    && final(self).enrollments@ == old(self).enrollments@
                    && final(self).attendance@ == old(self).attendance@
                    && final(self).requests@ == old(self).requests@
            }),
            forall|k: Pubkey| final(self).has_formation(k) <==> old(self).has_formation(k),
            forall|k: Pubkey|
                k != formation_key && old(self).has_formation(k) ==> final(self).formation_of(k)
                    == old(self).formation_of(k),
            forall|f2: Pubkey, s2: Pubkey|
                old(self).has_waitlist_entry(f2, s2) ==> final(self).has_waitlist_entry(f2, s2)
                    && final(self).waitlist_entry_of(f2, s2) == old(self).waitlist_entry_of(
                    f2,
                    s2,
                ),
            r == Ok::<(), AlyraError>(()) ==> final(self).has_waitlist_entry(
                formation_key,
                student,
            ) && final(self).waitlist_entry_of(formation_key, student) == (WaitlistEntry {
                formation: formation_key,
                student,
                position: old(self).formation_of(formation_key).current_waitlisted,
                status: WaitlistStatus::Waiting,
                timestamp: now,
                created_at: now,
                updated_at: now,
            }),
            old(self).enrollment_positions_wf() ==> final(self).enrollment_positions_wf(),
    {
        let fi = match find_idx_key(&self.formations, formation_key) {
            Some(i) => i,
            None => {
                proof {
                    lemma_not_has(self.formations@, formation_key);
                    assert(false);
                }
                return Err(AlyraError::WaitlistFull);
            },
        };
        proof {
            lemma_idx_at(self.formations@, fi as int);
        }
        if !self.formations[fi].1.can_join_waitlist() {
            return Err(AlyraError::WaitlistFull);
        }
        match find_idx_pair(&self.waitlist, (formation_key, student)) {
            Some(j) => {
                proof {
                    lemma_idx_at(self.waitlist@, j as int);
                }
                return Err(AlyraError::AlreadyExists);
            },
            None => {
                proof {
                    lemma_not_has(self.waitlist@, (formation_key, student));
                }
            },
        }
        let ghost pre_f = self.formations@[fi as int].1;
        let position = self.formations[fi].1.current_waitlisted;
        let p = table_entry_mut(&mut self.formations, fi);
        p.1.current_waitlisted = p.1.current_waitlisted + 1;
        p.1.updated_at = now;
        let entry = WaitlistEntry {
            formation: formation_key,
            student,
            position,
            status: WaitlistStatus::Waiting,
            timestamp: now,
            created_at: now,
            updated_at: now,
        };
        proof {
            let new_f = (Formation {
                current_waitlisted: (pre_f.current_waitlisted + 1) as u8,
                updated_at: now,
                ..pre_f
            });
            assert(self.formations@ == old(self).formations@.update(
                fi as int,
                (formation_key, new_f),
            ));
            lemma_update(old(self).formations@, fi as int, new_f);
            assert forall|i: int| 0 <= i < self.formations@.len() implies (
            #[trigger] self.formations@[i]).1.wf() by {
                if i != fi as int {
                    assert(self.formations@[i] == old(self).formations@[i]);
                }
            }
            lemma_push(self.waitlist@, (formation_key, student), entry);
        }
        self.waitlist.push(((formation_key, student), entry));
        Ok(())
    }

    /// Extends a promotion offer: marks a `Waiting` entry `Promoted`.
    /// A seat must currently be free; no counter moves yet — this is
    /// the first phase of the two-phase protocol, finalized by
    /// [`Self::promote_from_waitlist`].  Errors leave the ledger
    /// untouched.
    pub fn process_promotion(
        &mut self,
        formation_key: Pubkey,
        student: Pubkey,
        now: i64,
    ) -> (r: Result<(), AlyraError>)
        requires
            old(self).wf(),
            old(self).has_formation(formation_key),
            old(self).has_waitlist_entry(formation_key, student),
        ensures
            final(self).wf(),
            r matches Err(_) ==> *final(self) == *old(self),
            !old(self).formation_of(formation_key).spec_can_enroll() ==> r == Err::<(),
                AlyraError,
            >(AlyraError::FormationFull),
            old(self).formation_of(formation_key).spec_can_enroll() && old(
                self,
            ).waitlist_entry_of(formation_key, student).status != WaitlistStatus::Waiting ==> r
                == Err::<(), AlyraError>(AlyraError::InvalidWaitlistStatus),
            r == Ok::<(), AlyraError>(()) <==> (old(self).formation_of(
                formation_key,
            ).spec_can_enroll() && old(self).waitlist_entry_of(formation_key, student).status
                == WaitlistStatus::Waiting),
            r == Ok::<(), AlyraError>(()) ==> ({
                let e = old(self).waitlist_entry_of(formation_key, student);
                final(self).waitlist_entry_of(formation_key, student) == (WaitlistEntry {
                    status: WaitlistStatus::Promoted,
                    updated_at: now,
                    ..e
                }) && final(self).waitlist@.len() == old(self).waitlist@.len()
                    && final(self).formations@ == old(self).formations@
                    && final(self).sessions@ == old(self).sessions@
                    && final(self).enrollments@ == old(self).enrollments@
                    && final(self).attendance@ == old(self).attendance@
                    && final(self).requests@ == old(self).requests@
            }),
            forall|f2: Pubkey, s2: Pubkey|
                final(self).has_waitlist_entry(f2, s2) <==> old(self).has_waitlist_entry(f2, s2),
            forall|f2: Pubkey, s2: Pubkey|
                !(f2 == formation_key && s2 == student) && old(self).has_waitlist_entry(f2, s2)
                    ==> final(self).waitlist_entry_of(f2, s2) == old(self).waitlist_entry_of(
                    f2,
                    s2,
                ),
            old(self).enrollment_positions_wf() ==> final(self).enrollment_positions_wf(),
    {
        let fi = match find_idx_key(&self.formations, formation_key) {
            Some(i) => i,
            None => {
                proof {
                    lemma_not_has(self.formations@, formation_key);
                    assert(false);
                }
                return Err(AlyraError::FormationFull);
            },
        };
        proof {
            lemma_idx_at(self.formations@, fi as int);
        }
        if !self.formations[fi].1.can_enroll() {
            return Err(AlyraError::FormationFull);
        }
        let wi = match find_idx_pair(&self.waitlist, (formation_key, student)) {
            Some(i) => i,
            None => {
                proof {
                    lemma_not_has(self.waitlist@, (formation_key, student));
                    assert(false);
                }
                return Err(AlyraError::InvalidWaitlistStatus);
            },
        };
        proof {
            lemma_idx_at(self.waitlist@, wi as int);
        }
        if !self.waitlist[wi].1.is_promotable() {
            return Err(AlyraError::InvalidWaitlistStatus);
        }
        let ghost pre_e = self.waitlist@[wi as int].1;
        let p = table_entry_mut(&mut self.waitlist, wi);
        p.1.status = WaitlistStatus::Promoted;
        p.1.updated_at = now;
        proof {
            let new_e = (WaitlistEntry { status: WaitlistStatus::Promoted, updated_at: now, ..pre_e });
            assert(self.waitlist@ == old(self).waitlist@.update(
                wi as int,
                ((formation_key, student), new_e),
            ));
            lemma_update(old(self).waitlist@, wi as int, new_e);
            assert forall|i: int| 0 <= i < self.waitlist@.len() implies (
            #[trigger] self.waitlist@[i]).0 == (self.waitlist@[i].1.formation, self.waitlist@[i].1.student) by {
                if i != wi as int {
                    assert(self.waitlist@[i] == old(self).waitlist@[i]);
                }
            }
        }
        Ok(())
    }

    /// Declines a promotion offer: marks a `Promoted` entry `Declined`.
    /// The waitlist counter is deliberately not released here — only a
    /// drop releases the slot; this asymmetry is part of the design.
    /// Errors leave the ledger untouched.
    pub fn decline_promotion(
        &mut self,
        formation_key: Pubkey,
        student: Pubkey,
        now: i64,
    ) -> (r: Result<(), AlyraError>)
        requires
            old(self).wf(),
            old(self).has_waitlist_entry(formation_key, student),
        ensures
            final(self).wf(),
            r matches Err(_) ==> *final(self) == *old(self),
            old(self).waitlist_entry_of(formation_key, student).status != WaitlistStatus::Promoted
                ==> r == Err::<(), AlyraError>(AlyraError::InvalidWaitlistStatus),
            r == Ok::<(), AlyraError>(()) <==> old(self).waitlist_entry_of(
                formation_key,
                student,
            ).status == WaitlistStatus::Promoted,
            r == Ok::<(), AlyraError>(()) ==> ({
                let e = old(self).waitlist_entry_of(formation_key, student);
                final(self).waitlist_entry_of(formation_key, student) == (WaitlistEntry {
                    status: WaitlistStatus::Declined,
                    updated_at: now,
                    ..e
                }) && final(self).waitlist@.len() == old(self).waitlist@.len()
                    && final(self).formations@ == old(self).formations@
                    && final(self).sessions@ == old(self).sessions@
                    && final(self).enrollments@ == old(self).enrollments@
                    && final(self).attendance@ == old(self).attendance@
                    && final(self).requests@ == old(self).requests@
            }),
            forall|f2: Pubkey, s2: Pubkey|
                final(self).has_waitlist_entry(f2, s2) <==> old(self).has_waitlist_entry(f2, s2),
            forall|f2: Pubkey, s2: Pubkey|
                !(f2 == formation_key && s2 == student) && old(self).has_waitlist_entry(f2, s2)
                    ==> final(self).waitlist_entry_of(f2, s2) == old(self).waitlist_entry_of(
                    f2,
                    s2,
                ),
            old(self).enrollment_positions_wf() ==> final(self).enrollment_positions_wf(),
    {
        let wi = match find_idx_pair(&self.waitlist, (formation_key, student)) {
            Some(i) => i,
            None => {
                proof {
                    lemma_not_has(self.waitlist@, (formation_key, student));
                    assert(false);
                }
                return Err(AlyraError::InvalidWaitlistStatus);
            },
        };
        proof {
            lemma_idx_at(self.waitlist@, wi as int);
        }
        if !(self.waitlist[wi].1.status == WaitlistStatus::Promoted) {
            return Err(AlyraError::InvalidWaitlistStatus);
        }
        let ghost pre_e = self.waitlist@[wi as int].1;
        let p = table_entry_mut(&mut self.waitlist, wi);
        p.1.decline_promotion();
        p.1.updated_at = now;
        proof {
            let new_e = (WaitlistEntry { status: WaitlistStatus::Declined, updated_at: now, ..pre_e });
            assert(self.waitlist@ == old(self).waitlist@.update(
                wi as int,
                ((formation_key, student), new_e),
            ));
            lemma_update(old(self).waitlist@, wi as int, new_e);
            assert forall|i: int| 0 <= i < self.waitlist@.len() implies (
            #[trigger] self.waitlist@[i]).0 == (self.waitlist@[i].1.formation, self.waitlist@[i].1.student) by {
                if i != wi as int {
                    assert(self.waitlist@[i] == old(self).waitlist@[i]);
                }
            }
        }
        Ok(())
    }

    /// Finalizes a promotion: the second phase of the two-phase
    /// protocol.  An entry already marked `Promoted` and a free seat
    /// admit the student at the next zero-based position, fill one
    /// seat, and release one waitlist slot (the checked decrement is
    /// the defensive `Underflow` guard).  The entry itself keeps its
    /// `Promoted` status — it is retired by a later drop, not here.
    /// Errors leave the ledger untouched.
    pub fn promote_from_waitlist(
        &mut self,
        formation_key: Pubkey,
        student: Pubkey,
        now: i64,
    ) -> (r: Result<(), AlyraError>)
        requires
            old(self).wf(),
            old(self).has_formation(formation_key),
            old(self).has_waitlist_entry(formation_key, student),
        ensures
            final(self).wf(),
            r matches Err(_) ==> *final(self) == *old(self),
            old(self).waitlist_entry_of(formation_key, student).status != WaitlistStatus::Promoted
                ==> r == Err::<(), AlyraError>(AlyraError::InvalidWaitlistStatus)
                && *final(self) == *old(self),
            old(self).waitlist_entry_of(formation_key, student).status == WaitlistStatus::Promoted
                && !old(self).formation_of(formation_key).spec_can_enroll() ==> r == Err::<(),
                AlyraError,
            >(AlyraError::FormationFull),
            old(self).waitlist_entry_of(formation_key, student).status == WaitlistStatus::Promoted
                && old(self).formation_of(formation_key).spec_can_enroll() && old(
                self,
            ).has_enrollment(formation_key, student) ==> r == Err::<(), AlyraError>(
                AlyraError::AlreadyExists,
            ),
            old(self).waitlist_entry_of(formation_key, student).status == WaitlistStatus::Promoted
                && old(self).formation_of(formation_key).spec_can_enroll() && !old(
                self,
            ).has_enrollment(formation_key, student) && old(self).formation_of(
                formation_key,
            ).current_waitlisted == 0 ==> r == Err::<(), AlyraError>(AlyraError::Underflow),
            r == Ok::<(), AlyraError>(()) <==> (old(self).waitlist_entry_of(
                formation_key,
                student,
            ).status == WaitlistStatus::Promoted && old(self).formation_of(
                formation_key,
            ).spec_can_enroll() && !old(self).has_enrollment(formation_key, student) && old(
                self,
            ).formation_of(formation_key).current_waitlisted > 0),
            r == Ok::<(), AlyraError>(()) ==> ({
                let f = old(self).formation_of(formation_key);
                let e = old(self).waitlist_entry_of(formation_key, student);
                final(self).enrollments@ == old(self).enrollments@.push(
                    (
                        (formation_key, student),
                        (Enrollment {
                            formation: formation_key,
                            student,
                            status: EnrollmentStatus::Enrolled,
                            position: f.current_students,
                            created_at: now,
                            updated_at: now,
                        }),
                    ),
                ) && final(self).formation_of(formation_key) == (Formation {
                    current_students: (f.current_students + 1) as u8,
                    current_waitlisted: (f.current_waitlisted - 1) as u8,
                    updated_at: now,
                    ..f
                }) && final(self).waitlist_entry_of(formation_key, student) == (WaitlistEntry {
                    updated_at: now,
                    ..e
                }) && final(self).formations@.len() == old(self).formations@.len()
                    && final(self).waitlist@.len() == old(self).waitlist@.len()
                    && final(self).sessions@ == old(self).sessions@
                    && final(self).attendance@ == old(self).attendance@
                    && final(self).requests@ == old(self).requests@
            }),
            forall|k: Pubkey| final(self).has_formation(k) <==> old(self).has_formation(k),
            forall|k: Pubkey|
                k != formation_key && old(self).has_formation(k) ==> final(self).formation_of(k)
                    == old(self).formation_of(k),
            forall|f2: Pubkey, s2: Pubkey|
                final(self).has_waitlist_entry(f2, s2) <==> old(self).has_waitlist_entry(f2, s2),
            forall|f2: Pubkey, s2: Pubkey|
                !(f2 == formation_key && s2 == student) && old(self).has_waitlist_entry(f2, s2)
                    ==> final(self).waitlist_entry_of(f2, s2) == old(self).waitlist_entry_of(
                    f2,
                    s2,
                ),
            forall|f2: Pubkey, s2: Pubkey|
                old(self).has_enrollment(f2, s2) ==> final(self).has_enrollment(f2, s2)
                    && final(self).enrollment_of(f2, s2) == old(self).enrollment_of(f2, s2),
            r == Ok::<(), AlyraError>(()) ==> final(self).has_enrollment(formation_key, student)
                && final(self).enrollment_of(formation_key, student) == (Enrollment {
                formation: formation_key,
                student,
                status: EnrollmentStatus::Enrolled,
                position: old(self).formation_of(formation_key).current_students,
                created_at: now,
                updated_at: now,
            }),
            old(self).enrollment_positions_wf() ==> final(self).enrollment_positions_wf(),
    {
        let wi = match find_idx_pair(&self.waitlist, (formation_key, student)) {
            Some(i) => i,
            None => {
                proof {
                    lemma_not_has(self.waitlist@, (formation_key, student));
                    assert(false);
                }
                return Err(AlyraError::InvalidWaitlistStatus);
            },
        };
        proof {
            lemma_idx_at(self.waitlist@, wi as int);
        }
        if !(self.waitlist[wi].1.status == WaitlistStatus::Promoted) {
            return Err(AlyraError::InvalidWaitlistStatus);
        }
        let fi = match find_idx_key(&self.formations, formation_key) {
            Some(i) => i,
            None => {
                proof {
                    lemma_not_has(self.formations@, formation_key);
                    assert(false);
                }
                return Err(AlyraError::FormationFull);
            },
        };
        proof {
            lemma_idx_at(self.formations@, fi as int);
        }
        if !self.formations[fi].1.can_enroll() {
            return Err(AlyraError::FormationFull);
        }
        match find_idx_pair(&self.enrollments, (formation_key, student)) {
            Some(j) => {
                proof {
                    lemma_idx_at(self.enrollments@, j as int);
                }
                return Err(AlyraError::AlreadyExists);
            },
            None => {
                proof {
                    lemma_not_has(self.enrollments@, (formation_key, student));
                }
            },
        }
        if self.formations[fi].1.current_waitlisted == 0 {
            return Err(AlyraError::Underflow);
        }
        let ghost pre_f = self.formations@[fi as int].1;
        let ghost pre_e = self.waitlist@[wi as int].1;
        let position = self.formations[fi].1.current_students;
        let p = table_entry_mut(&mut self.formations, fi);
        p.1.current_students = p.1.current_students + 1;
        p.1.current_waitlisted = p.1.current_waitlisted - 1;
        p.1.updated_at = now;
        let q = table_entry_mut(&mut self.waitlist, wi);
        q.1.updated_at = now;
        let enrollment = Enrollment {
            formation: formation_key,
            student,
            status: EnrollmentStatus::Enrolled,
            position,
            created_at: now,
            updated_at: now,
        };
        proof {
            let new_f = (Formation {
                current_students: (pre_f.current_students + 1) as u8,
                current_waitlisted: (pre_f.current_waitlisted - 1) as u8,
                updated_at: now,
                ..pre_f
            });
            assert(self.formations@ == old(self).formations@.update(
                fi as int,
                (formation_key, new_f),
            ));
            lemma_update(old(self).formations@, fi as int, new_f);
            assert forall|i: int| 0 <= i < self.formations@.len() implies (
            #[trigger] self.formations@[i]).1.wf() by {
                if i != fi as int {
                    assert(self.formations@[i] == old(self).formations@[i]);
                }
            }
            let new_e = (WaitlistEntry { updated_at: now, ..pre_e });
            assert(self.waitlist@ == old(self).waitlist@.update(
                wi as int,
                ((formation_key, student), new_e),
            ));
            lemma_update(old(self).waitlist@, wi as int, new_e);
            assert forall|i: int| 0 <= i < self.waitlist@.len() implies (
            #[trigger] self.waitlist@[i]).0 == (self.waitlist@[i].1.formation, self.waitlist@[i].1.student) by {
                if i != wi as int {
                    assert(self.waitlist@[i] == old(self).waitlist@[i]);
                }
            }
            lemma_push(self.enrollments@, (formation_key, student), enrollment);
        }
        self.enrollments.push(((formation_key, student), enrollment));
        Ok(())
    }

    /// Drops a waitlist entry.  Only the entry's own participant may
    /// drop, from `Waiting` or `Promoted`; the entry expires and its
    /// waitlist slot is released (the checked decrement is the
    /// defensive `Underflow` guard).  The outcome is exactly
    /// [`spec_drop_from_waitlist`] of the pre-state pair.  Errors leave
    /// the ledger untouched.
    pub fn drop_from_waitlist(
        &mut self,
        formation_key: Pubkey,
        student: Pubkey,
        caller: Pubkey,
        now: i64,
    ) -> (r: Result<(), AlyraError>)
        requires
            old(self).wf(),
            old(self).has_formation(formation_key),
            old(self).has_waitlist_entry(formation_key, student),
        ensures
            final(self).wf(),
            r matches Err(_) ==> *final(self) == *old(self),
            caller != old(self).waitlist_entry_of(formation_key, student).student ==> r
                == Err::<(), AlyraError>(AlyraError::UnauthorizedAccess),
            ({
                let (f1, e1, r1) = spec_drop_from_waitlist(
                    old(self).formation_of(formation_key),
                    old(self).waitlist_entry_of(formation_key, student),
                    caller,
                    now,
                );
                r == r1 && (r == Ok::<(), AlyraError>(()) ==> final(self).formation_of(
                    formation_key,
                ) == f1 && final(self).waitlist_entry_of(formation_key, student) == e1
                    && final(self).formations@.len() == old(self).formations@.len()
                    && final(self).waitlist@.len() == old(self).waitlist@.len()
                    && final(self).sessions@ == old(self).sessions@
                    && final(self).enrollments@ == old(self).enrollments@
                    && final(self).attendance@ == old(self).attendance@
                    && final(self).requests@ == old(self).requests@)
            }),
            caller == old(self).waitlist_entry_of(formation_key, student).student && old(
                self,
            ).waitlist_entry_of(formation_key, student).status == WaitlistStatus::Waiting && old(
                self,
            ).formation_of(formation_key).current_waitlisted > 0 ==> r == Ok::<(), AlyraError>(())
                && final(self).formation_of(formation_key).current_waitlisted == old(
                self,
            ).formation_of(formation_key).current_waitlisted - 1 && final(self).waitlist_entry_of(
                formation_key,
                student,
            ).status == WaitlistStatus::Expired,
            caller == old(self).waitlist_entry_of(formation_key, student).student && old(
                self,
            ).waitlist_entry_of(formation_key, student).status == WaitlistStatus::Expired ==> r
                == Err::<(), AlyraError>(AlyraError::InvalidWaitlistStatus),
            forall|k: Pubkey| final(self).has_formation(k) <==> old(self).has_formation(k),
            forall|k: Pubkey|
                k != formation_key && old(self).has_formation(k) ==> final(self).formation_of(k)
                    == old(self).formation_of(k),
            forall|f2: Pubkey, s2: Pubkey|
                final(self).has_waitlist_entry(f2, s2) <==> old(self).has_waitlist_entry(f2, s2),
            forall|f2: Pubkey, s2: Pubkey|
                !(f2 == formation_key && s2 == student) && old(self).has_waitlist_entry(f2, s2)
                    ==> final(self).waitlist_entry_of(f2, s2) == old(self).waitlist_entry_of(
                    f2,
                    s2,
                ),
            old(self).enrollment_positions_wf() ==> final(self).enrollment_positions_wf(),
    {
        let wi = match find_idx_pair(&self.waitlist, (formation_key, student)) {
            Some(i) => i,
            None => {
                proof {
                    lemma_not_has(self.waitlist@, (formation_key, student));
                    assert(false);
                }
                return Err(AlyraError::InvalidWaitlistStatus);
            },
        };
        proof {
            lemma_idx_at(self.waitlist@, wi as int);
        }
        if !(self.waitlist[wi].1.student == caller) {
            return Err(AlyraError::UnauthorizedAccess);
        }
        let status_ok = self.waitlist[wi].1.status == WaitlistStatus::Waiting
            || self.waitlist[wi].1.status == WaitlistStatus::Promoted;
        if !status_ok {
            return Err(AlyraError::InvalidWaitlistStatus);
        }
        let fi = match find_idx_key(&self.formations, formation_key) {
            Some(i) => i,
            None => {
                proof {
                    lemma_not_has(self.formations@, formation_key);
                    assert(false);
                }
                return Err(AlyraError::Underflow);
            },
        };
        proof {
            lemma_idx_at(self.formations@, fi as int);
        }
        if self.formations[fi].1.current_waitlisted == 0 {
            return Err(AlyraError::Underflow);
        }
        let ghost pre_f = self.formations@[fi as int].1;
        let ghost pre_e = self.waitlist@[wi as int].1;
        let p = table_entry_mut(&mut self.formations, fi);
        p.1.current_waitlisted = p.1.current_waitlisted - 1;
        p.1.updated_at = now;
        let q = table_entry_mut(&mut self.waitlist, wi);
        q.1.status = WaitlistStatus::Expired;
        q.1.updated_at = now;
        proof {
            let new_f = (Formation {
                current_waitlisted: (pre_f.current_waitlisted - 1) as u8,
                updated_at: now,
                ..pre_f
            });
            assert(self.formations@ == old(self).formations@.update(
                fi as int,
                (formation_key, new_f),
            ));
            lemma_update(old(self).formations@, fi as int, new_f);
            assert forall|i: int| 0 <= i < self.formations@.len() implies (
            #[trigger] self.formations@[i]).1.wf() by {
                if i != fi as int {
                    assert(self.formations@[i] == old(self).formations@[i]);
                }
            }
            let new_e = (WaitlistEntry {
                status: WaitlistStatus::Expired,
                updated_at: now,
                ..pre_e
            });
            assert(self.waitlist@ == old(self).waitlist@.update(
                wi as int,
                ((formation_key, student), new_e),
            ));
            lemma_update(old(self).waitlist@, wi as int, new_e);
            assert forall|i: int| 0 <= i < self.waitlist@.len() implies (
            #[trigger] self.waitlist@[i]).0 == (self.waitlist@[i].1.formation, self.waitlist@[i].1.student) by {
                if i != wi as int {
                    assert(self.waitlist@[i] == old(self).waitlist@[i]);
                }
            }
        }
        Ok(())
    }

    /// Refreshes the offering's `updated_at` marker after a waitlist
    /// reorganization.  Organizer-only.  The renumbering of remaining
    /// queue positions is deliberately not done here; callers that want
    /// it use [`Self::update_waitlist_positions`].
    pub fn reorganize_waitlist(
        &mut self,
        formation_key: Pubkey,
        caller: Pubkey,
        now: i64,
    ) -> (r: Result<(), AlyraError>)
        requires
            old(self).wf(),
            old(self).has_formation(formation_key),
        ensures
            final(self).wf(),
            r matches Err(_) ==> *final(self) == *old(self),
            caller != old(self).formation_of(formation_key).trainer ==> r == Err::<(),
                AlyraError,
            >(AlyraError::UnauthorizedAccess),
            r == Ok::<(), AlyraError>(()) <==> caller == old(self).formation_of(
                formation_key,
            ).trainer,
            r == Ok::<(), AlyraError>(()) ==> ({
                let f = old(self).formation_of(formation_key);
                final(self).formation_of(formation_key) == (Formation { updated_at: now, ..f })
                    && final(self).formations@.len() == old(self).formations@.len()
                    && final(self).sessions@ == old(self).sessions@
                    && final(self).enrollments@ == old(self).enrollments@
                    && final(self).waitlist@ == old(self).waitlist@
                    && final(self).attendance@ == old(self).attendance@
                    && final(self).requests@ == old(self).requests@
            }),
            forall|k: Pubkey| final(self).has_formation(k) <==> old(self).has_formation(k),
            forall|k: Pubkey|
                k != formation_key && old(self).has_formation(k) ==> final(self).formation_of(k)
                    == old(self).formation_of(k),
            old(self).enrollment_positions_wf() ==> final(self).enrollment_positions_wf(),
    {
        let fi = match find_idx_key(&self.formations, formation_key) {
            Some(i) => i,
            None => {
                proof {
                    lemma_not_has(self.formations@, formation_key);
                    assert(false);
                }
                return Err(AlyraError::UnauthorizedAccess);
            },
        };
        proof {
            lemma_idx_at(self.formations@, fi as int);
        }
        if !self.formations[fi].1.is_trainer(&caller) {
            return Err(AlyraError::UnauthorizedAccess);
        }
        let ghost pre_f = self.formations@[fi as int].1;
        let p = table_entry_mut(&mut self.formations, fi);
        p.1.updated_at = now;
        proof {
            let new_f = (Formation { updated_at: now, ..pre_f });
            assert(self.formations@ == old(self).formations@.update(
                fi as int,
                (formation_key, new_f),
            ));
            lemma_update(old(self).formations@, fi as int, new_f);
            assert forall|i: int| 0 <= i < self.formations@.len() implies (
            #[trigger] self.formations@[i]).1.wf() by {
                if i != fi as int {
                    assert(self.formations@[i] == old(self).formations@[i]);
                }
            }
        }
        Ok(())
    }

    /// Explicit queue compaction after a drop: every `Waiting` entry of
    /// the formation standing behind the vacated `drop_position` moves
    /// down one position, and the offering's `updated_at` marker is
    /// refreshed.  Organizer-only.  Entries of other formations, and
    /// entries not `Waiting`, keep their positions.
    pub fn update_waitlist_positions(
        &mut self,
        formation_key: Pubkey,
        drop_position: u8,
        caller: Pubkey,
        now: i64,
    ) -> (r: Result<(), AlyraError>)
        requires
            old(self).wf(),
            old(self).has_formation(formation_key),
        ensures
            final(self).wf(),
            r matches Err(_) ==> *final(self) == *old(self),
            caller != old(self).formation_of(formation_key).trainer ==> r == Err::<(),
                AlyraError,
            >(AlyraError::UnauthorizedAccess),
            r == Ok::<(), AlyraError>(()) <==> caller == old(self).formation_of(
                formation_key,
            ).trainer,
            r == Ok::<(), AlyraError>(()) ==> final(self).waitlist@.len() == old(
                self,
            ).waitlist@.len() && forall|i: int|
                #![trigger final(self).waitlist@[i]]
                0 <= i < old(self).waitlist@.len() ==> final(self).waitlist@[i]
                    == spec_shift_after_drop(
                    old(self).waitlist@[i],
                    formation_key,
                    drop_position,
                    now,
                ),
            r == Ok::<(), AlyraError>(()) ==> ({
                let f = old(self).formation_of(formation_key);
                final(self).formation_of(formation_key) == (Formation { updated_at: now, ..f })
                    && final(self).formations@.len() == old(self).formations@.len()
                    && final(self).sessions@ == old(self).sessions@
                    && final(self).enrollments@ == old(self).enrollments@
                    && final(self).attendance@ == old(self).attendance@
                    && final(self).requests@ == old(self).requests@
            }),
            forall|k: Pubkey| final(self).has_formation(k) <==> old(self).has_formation(k),
            forall|k: Pubkey|
                k != formation_key && old(self).has_formation(k) ==> final(self).formation_of(k)
                    == old(self).formation_of(k),
            forall|f2: Pubkey, s2: Pubkey|
                final(self).has_waitlist_entry(f2, s2) <==> old(self).has_waitlist_entry(f2, s2),
            old(self).enrollment_positions_wf() ==> final(self).enrollment_positions_wf(),
    {
        let fi = match find_idx_key(&self.formations, formation_key) {
            Some(i) => i,
            None => {
                proof {
                    lemma_not_has(self.formations@, formation_key);
                    assert(false);
                }
                return Err(AlyraError::UnauthorizedAccess);
            },
        };
        proof {
            lemma_idx_at(self.formations@, fi as int);
        }
        if !self.formations[fi].1.is_trainer(&caller) {
            return Err(AlyraError::UnauthorizedAccess);
        }
        let mut i: usize = 0;
        while i < self.waitlist.len()
            invariant
                i <= self.waitlist@.len(),
                self.waitlist@.len() == old(self).waitlist@.len(),
                forall|j: int|
                    #![trigger self.waitlist@[j]]
                    0 <= j < i ==> self.waitlist@[j] == spec_shift_after_drop(
                        old(self).waitlist@[j],
                        formation_key,
                        drop_position,
                        now,
                    ),
                forall|j: int|
                    #![trigger self.waitlist@[j]]
                    i <= j < self.waitlist@.len() ==> self.waitlist@[j] == old(self).waitlist@[j],
                self.formations@ == old(self).formations@,
                self.sessions@ == old(self).sessions@,
                self.enrollments@ == old(self).enrollments@,
                self.attendance@ == old(self).attendance@,
                self.requests@ == old(self).requests@,
            decreases self.waitlist@.len() - i,
        {
            let shift = self.waitlist[i].1.formation == formation_key && self.waitlist[i].1.status
                == WaitlistStatus::Waiting && self.waitlist[i].1.position > drop_position;
            if shift {
                let p = table_entry_mut(&mut self.waitlist, i);
                p.1.position = p.1.position - 1;
                p.1.updated_at = now;
            }
            i = i + 1;
        }
        proof {
            assert forall|a: int, b: int|
                0 <= a < self.waitlist@.len() && 0 <= b < self.waitlist@.len() && (
                #[trigger] self.waitlist@[a]).0 == (#[trigger] self.waitlist@[b]).0 implies a
                == b by {
                assert(self.waitlist@[a].0 == old(self).waitlist@[a].0);
                assert(self.waitlist@[b].0 == old(self).waitlist@[b].0);
            }
            assert forall|a: int| 0 <= a < self.waitlist@.len() implies (
            #[trigger] self.waitlist@[a]).0 == (self.waitlist@[a].1.formation, self.waitlist@[a].1.student) by {
                assert(old(self).waitlist@[a].0 == (
                    old(self).waitlist@[a].1.formation,
                    old(self).waitlist@[a].1.student,
                ));
            }
            assert forall|f2: Pubkey, s2: Pubkey|
                has_key(self.waitlist@, (f2, s2)) <==> has_key(
                    old(self).waitlist@,
                    (f2, s2),
                ) by {
                if has_key(self.waitlist@, (f2, s2)) {
                    let a = choose|a: int|
                        #![trigger self.waitlist@[a]]
                        0 <= a < self.waitlist@.len() && self.waitlist@[a].0 == (f2, s2);
                    assert(old(self).waitlist@[a].0 == (f2, s2));
                }
                if has_key(old(self).waitlist@, (f2, s2)) {
                    let a = choose|a: int|
                        #![trigger old(self).waitlist@[a]]
                        0 <= a < old(self).waitlist@.len() && old(self).waitlist@[a].0 == (f2, s2);
                    assert(self.waitlist@[a].0 == (f2, s2));
                }
            }
        }
        let ghost pre_f = self.formations@[fi as int].1;
        let p = table_entry_mut(&mut self.formations, fi);
        p.1.updated_at = now;
        proof {
            let new_f = (Formation { updated_at: now, ..pre_f });
            assert(self.formations@ == old(self).formations@.update(
                fi as int,
                (formation_key, new_f),
            ));
            lemma_update(old(self).formations@, fi as int, new_f);
            assert forall|i2: int| 0 <= i2 < self.formations@.len() implies (
            #[trigger] self.formations@[i2]).1.wf() by {
                if i2 != fi as int {
                    assert(self.formations@[i2] == old(self).formations@[i2]);
                }
            }
        }
        Ok(())
    }

    /// Check-in for a session.  Only the participant named by the
    /// enrollment may check in; a second check-in for the same
    /// (session, student) surfaces the key collision.  The session's
    /// formation is deliberately not checked against the enrollment's
    /// formation — a caller wanting that cross-check must make it
    /// itself.  Errors leave the ledger untouched.
    pub fn record_attendance(
        &mut self,
        session_key: Pubkey,
        formation_key: Pubkey,
        student: Pubkey,
        caller: Pubkey,
        status: AttendanceStatus,
        now: i64,
    ) -> (r: Result<(), AlyraError>)
        requires
            old(self).wf(),
            old(self).has_session(session_key),
            old(self).has_enrollment(formation_key, student),
        ensures
            final(self).wf(),
            r matches Err(_) ==> *final(self) == *old(self),
            caller != old(self).enrollment_of(formation_key, student).student ==> r == Err::<(),
                AlyraError,
            >(AlyraError::NotEnrolled),
            caller == old(self).enrollment_of(formation_key, student).student && old(
                self,
            ).has_attendance(session_key, caller) ==> r == Err::<(), AlyraError>(
                AlyraError::AlreadyExists,
            ),
            r == Ok::<(), AlyraError>(()) <==> (caller == old(self).enrollment_of(
                formation_key,
                student,
            ).student && !old(self).has_attendance(session_key, caller)),
            r == Ok::<(), AlyraError>(()) ==> final(self).attendance@ == old(
                self,
            ).attendance@.push(
                (
                    (session_key, caller),
                    (Attendance {
                        session: session_key,
                        student: caller,
                        status,
                        check_in_time: now,
                        created_at: now,
                        updated_at: now,
                    }),
                ),
            ) && final(self).formations@ == old(self).formations@
                && final(self).sessions@ == old(self).sessions@
                && final(self).enrollments@ == old(self).enrollments@
                && final(self).waitlist@ == old(self).waitlist@
                && final(self).requests@ == old(self).requests@,
            r == Ok::<(), AlyraError>(()) ==> final(self).has_attendance(session_key, caller)
                && final(self).attendance_of(session_key, caller) == (Attendance {
                session: session_key,
                student: caller,
                status,
                check_in_time: now,
                created_at: now,
                updated_at: now,
            }),
            forall|k2: Pubkey, s2: Pubkey|
                old(self).has_attendance(k2, s2) ==> final(self).has_attendance(k2, s2)
                    && final(self).attendance_of(k2, s2) == old(self).attendance_of(k2, s2),
            old(self).enrollment_positions_wf() ==> final(self).enrollment_positions_wf(),
    {
        let ei = match find_idx_pair(&self.enrollments, (formation_key, student)) {
            Some(i) => i,
            None => {
                proof {
                    lemma_not_has(self.enrollments@, (formation_key, student));
                    assert(false);
                }
                return Err(AlyraError::NotEnrolled);
            },
        };
        proof {
            lemma_idx_at(self.enrollments@, ei as int);
        }
        if !(self.enrollments[ei].1.student == caller) {
            return Err(AlyraError::NotEnrolled);
        }
        if let Some(j) = find_idx_pair(&self.attendance, (session_key, caller)) {
            proof {
                lemma_idx_at(self.attendance@, j as int);
            }
            return Err(AlyraError::AlreadyExists);
        }
        let record = Attendance {
            session: session_key,
            student: caller,
            status,
            check_in_time: now,
            created_at: now,
            updated_at: now,
        };
        proof {
            lemma_not_has(self.attendance@, (session_key, caller));
            lemma_push(self.attendance@, (session_key, caller), record);
        }
        self.attendance.push(((session_key, caller), record));
        Ok(())
    }

    /// The formation filed under `key`, if any.
    pub fn get_formation(&self, key: Pubkey) -> (r: Option<&Formation>)
        requires
            self.wf(),
        ensures
            match r {
                Some(f) => self.has_formation(key) && *f == self.formation_of(key),
                None => !self.has_formation(key),
            },
    {
        match find_idx_key(&self.formations, key) {
            Some(i) => {
                proof {
                    lemma_idx_at(self.formations@, i as int);
                }
                Some(&self.formations[i].1)
            },
            None => {
                proof {
                    lemma_not_has(self.formations@, key);
                }
                None
            },
        }
    }

    /// The session filed under `key`, if any.
    pub fn get_session(&self, key: Pubkey) -> (r: Option<&Session>)
        requires
            self.wf(),
        ensures
            match r {
                Some(s) => self.has_session(key) && *s == self.session_of(key),
                None => !self.has_session(key),
            },
    {
        match find_idx_key(&self.sessions, key) {
            Some(i) => {
                proof {
                    lemma_idx_at(self.sessions@, i as int);
                }
                Some(&self.sessions[i].1)
            },
            None => {
                proof {
                    lemma_not_has(self.sessions@, key);
                }
                None
            },
        }
    }

    /// The enrollment of (formation, student), if any.
    pub fn get_enrollment(&self, formation: Pubkey, student: Pubkey) -> (r: Option<&Enrollment>)
        requires
            self.wf(),
        ensures
            match r {
                Some(e) => self.has_enrollment(formation, student) && *e == self.enrollment_of(
                    formation,
                    student,
                ),
                None => !self.has_enrollment(formation, student),
            },
    {
        match find_idx_pair(&self.enrollments, (formation, student)) {
            Some(i) => {
                proof {
                    lemma_idx_at(self.enrollments@, i as int);
                }
                Some(&self.enrollments[i].1)
            },
            None => {
                proof {
                    lemma_not_has(self.enrollments@, (formation, student));
                }
                None
            },
        }
    }

    /// The waitlist entry of (formation, student), if any.
    pub fn get_waitlist_entry(
        &self,
        formation: Pubkey,
        student: Pubkey,
    ) -> (r: Option<&WaitlistEntry>)
        requires
            self.wf(),
        ensures
            match r {
                Some(e) => self.has_waitlist_entry(formation, student) && *e
                    == self.waitlist_entry_of(formation, student),
                None => !self.has_waitlist_entry(formation, student),
            },
    {
        match find_idx_pair(&self.waitlist, (formation, student)) {
            Some(i) => {
                proof {
                    lemma_idx_at(self.waitlist@, i as int);
                }
                Some(&self.waitlist[i].1)
            },
            None => {
                proof {
                    lemma_not_has(self.waitlist@, (formation, student));
                }
                None
            },
        }
    }

    /// The check-in of (session, student), if any.
    pub fn get_attendance(&self, session: Pubkey, student: Pubkey) -> (r: Option<&Attendance>)
        requires
            self.wf(),
        ensures
            match r {
                Some(a) => self.has_attendance(session, student) && *a == self.attendance_of(
                    session,
                    student,
                ),
                None => !self.has_attendance(session, student),
            },
    {
        match find_idx_pair(&self.attendance, (session, student)) {
            Some(i) => {
                proof {
                    lemma_idx_at(self.attendance@, i as int);
                }
                Some(&self.attendance[i].1)
            },
            None => {
                proof {
                    lemma_not_has(self.attendance@, (session, student));
                }
                None
            },
        }
    }

    /// The access request of `user`, if any.
    pub fn get_access_request(&self, user: Pubkey) -> (r: Option<&AccessRequest>)
        requires
            self.wf(),
        ensures
            match r {
                Some(q) => self.has_request(user) && *q == self.request_of(user),
                None => !self.has_request(user),
            },
    {
        match find_idx_key(&self.requests, user) {
            Some(i) => {
                proof {
                    lemma_idx_at(self.requests@, i as int);
                }
                Some(&self.requests[i].1)
            },
            None => {
                proof {
                    lemma_not_has(self.requests@, user);
                }
                None
            },
        }
    }
}

} // verus!
