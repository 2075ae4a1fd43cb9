//! End-to-end scenarios over the ledger operations.

use alyrasign::error::AlyraError;
use alyrasign::ledger::Ledger;
use alyrasign::types::{AttendanceStatus, EnrollmentStatus, FormationStatus, FormationType, WaitlistStatus};

const FORMATION: u64 = 7;
const TRAINER: u64 = 100;
const STUDENT_A: u64 = 201;
const STUDENT_B: u64 = 202;
const STUDENT_C: u64 = 203;
const SESSION: u64 = 9;

fn small_formation(l: &mut Ledger, max_students: u8, waitlist_size: u8) {
    let r = l.create_formation(
        FORMATION,
        TRAINER,
        String::from("Intro"),
        String::from("An introductory course"),
        FormationType::Online,
        max_students,
        waitlist_size,
        1_000,
    );
    assert_eq!(r, Ok(()));
}

#[test]
fn enroll_into_full_formation_fails_and_counters_unchanged() {
    let mut l = Ledger::new();
    small_formation(&mut l, 1, 1);
    assert_eq!(l.enroll_in_formation(FORMATION, STUDENT_A, 1_001), Ok(()));
    let before = l.get_formation(FORMATION).unwrap().current_students;
    assert_eq!(before, 1);
    let r = l.enroll_in_formation(FORMATION, STUDENT_B, 1_002);
    assert_eq!(r, Err(AlyraError::FormationFull));
    let f = l.get_formation(FORMATION).unwrap();
    assert_eq!(f.current_students, 1);
    assert_eq!(f.current_waitlisted, 0);
    assert!(l.get_enrollment(FORMATION, STUDENT_B).is_none());
}

#[test]
fn join_waitlist_while_seats_remain_fails() {
    let mut l = Ledger::new();
    small_formation(&mut l, 2, 2);
    // no one enrolled: seats remain, so queueing is refused
    let r = l.join_waitlist(FORMATION, STUDENT_A, 1_001);
    assert_eq!(r, Err(AlyraError::WaitlistFull));
    assert!(l.get_waitlist_entry(FORMATION, STUDENT_A).is_none());
    // one of two seats taken: still refused
    assert_eq!(l.enroll_in_formation(FORMATION, STUDENT_B, 1_002), Ok(()));
    let r = l.join_waitlist(FORMATION, STUDENT_A, 1_003);
    assert_eq!(r, Err(AlyraError::WaitlistFull));
}

#[test]
fn finalize_promotion_of_non_promoted_entry_fails_counters_unchanged() {
    let mut l = Ledger::new();
    small_formation(&mut l, 1, 1);
    assert_eq!(l.enroll_in_formation(FORMATION, STUDENT_A, 1_001), Ok(()));
    assert_eq!(l.join_waitlist(FORMATION, STUDENT_B, 1_002), Ok(()));
    // the entry is Waiting, not Promoted
    let r = l.promote_from_waitlist(FORMATION, STUDENT_B, 1_003);
    assert_eq!(r, Err(AlyraError::InvalidWaitlistStatus));
    let f = l.get_formation(FORMATION).unwrap();
    assert_eq!(f.current_students, 1);
    assert_eq!(f.current_waitlisted, 1);
}

#[test]
fn drop_waiting_entry_decrements_and_second_drop_fails() {
    let mut l = Ledger::new();
    small_formation(&mut l, 1, 1);
    assert_eq!(l.enroll_in_formation(FORMATION, STUDENT_A, 1_001), Ok(()));
    assert_eq!(l.join_waitlist(FORMATION, STUDENT_B, 1_002), Ok(()));
    assert_eq!(l.get_formation(FORMATION).unwrap().current_waitlisted, 1);
    let r = l.drop_from_waitlist(FORMATION, STUDENT_B, STUDENT_B, 1_003);
    assert_eq!(r, Ok(()));
    assert_eq!(l.get_formation(FORMATION).unwrap().current_waitlisted, 0);
    assert_eq!(
        l.get_waitlist_entry(FORMATION, STUDENT_B).unwrap().status,
        WaitlistStatus::Expired
    );
    let r = l.drop_from_waitlist(FORMATION, STUDENT_B, STUDENT_B, 1_004);
    assert_eq!(r, Err(AlyraError::InvalidWaitlistStatus));
    assert_eq!(l.get_formation(FORMATION).unwrap().current_waitlisted, 0);
}

#[test]
fn drop_by_other_caller_fails() {
    let mut l = Ledger::new();
    small_formation(&mut l, 1, 1);
    assert_eq!(l.enroll_in_formation(FORMATION, STUDENT_A, 1_001), Ok(()));
    assert_eq!(l.join_waitlist(FORMATION, STUDENT_B, 1_002), Ok(()));
    let r = l.drop_from_waitlist(FORMATION, STUDENT_B, STUDENT_C, 1_003);
    assert_eq!(r, Err(AlyraError::UnauthorizedAccess));
    assert_eq!(
        l.get_waitlist_entry(FORMATION, STUDENT_B).unwrap().status,
        WaitlistStatus::Waiting
    );
}

#[test]
fn attendance_with_wrong_caller_fails() {
    let mut l = Ledger::new();
    small_formation(&mut l, 2, 1);
    assert_eq!(
        l.create_session(
            SESSION,
            FORMATION,
            TRAINER,
            String::from("Day 1"),
            String::from("First meeting"),
            10_000,
            12_000,
            1_001,
        ),
        Ok(())
    );
    assert_eq!(l.enroll_in_formation(FORMATION, STUDENT_A, 1_002), Ok(()));
    let r = l.record_attendance(
        SESSION,
        FORMATION,
        STUDENT_A,
        STUDENT_C,
        AttendanceStatus::Present,
        1_003,
    );
    assert_eq!(r, Err(AlyraError::NotEnrolled));
    assert!(l.get_attendance(SESSION, STUDENT_C).is_none());
    assert!(l.get_attendance(SESSION, STUDENT_A).is_none());
}

#[test]
fn one_seat_scenario_waitlist_and_blocked_promotion() {
    let mut l = Ledger::new();
    small_formation(&mut l, 1, 1);
    // A enrolls directly: succeeds
    assert_eq!(l.enroll_in_formation(FORMATION, STUDENT_A, 1_001), Ok(()));
    assert_eq!(l.get_formation(FORMATION).unwrap().current_students, 1);
    // B attempts direct enrollment: full
    assert_eq!(
        l.enroll_in_formation(FORMATION, STUDENT_B, 1_002),
        Err(AlyraError::FormationFull)
    );
    // B joins the waitlist at position 0
    assert_eq!(l.join_waitlist(FORMATION, STUDENT_B, 1_003), Ok(()));
    assert_eq!(l.get_formation(FORMATION).unwrap().current_waitlisted, 1);
    assert_eq!(l.get_waitlist_entry(FORMATION, STUDENT_B).unwrap().position, 0);
    // the organizer offers B a promotion while A still holds the seat: no free seat
    assert_eq!(
        l.process_promotion(FORMATION, STUDENT_B, 1_004),
        Err(AlyraError::FormationFull)
    );
}

#[test]
fn one_seat_scenario_third_participant_finds_waitlist_full() {
    let mut l = Ledger::new();
    small_formation(&mut l, 1, 1);
    assert_eq!(l.enroll_in_formation(FORMATION, STUDENT_A, 1_001), Ok(()));
    assert_eq!(l.join_waitlist(FORMATION, STUDENT_B, 1_002), Ok(()));
    // C finds the one waitlist slot taken
    assert_eq!(
        l.join_waitlist(FORMATION, STUDENT_C, 1_003),
        Err(AlyraError::WaitlistFull)
    );
}

#[test]
fn attendance_round_trip_and_duplicate_check_in() {
    let mut l = Ledger::new();
    small_formation(&mut l, 2, 1);
    assert_eq!(
        l.create_session(
            SESSION,
            FORMATION,
            TRAINER,
            String::from("Day 1"),
            String::from("First meeting"),
            10_000,
            12_000,
            1_001,
        ),
        Ok(())
    );
    assert_eq!(l.enroll_in_formation(FORMATION, STUDENT_A, 1_002), Ok(()));
    assert_eq!(
        l.record_attendance(
            SESSION,
            FORMATION,
            STUDENT_A,
            STUDENT_A,
            AttendanceStatus::Late,
            1_005,
        ),
        Ok(())
    );
    let a = l.get_attendance(SESSION, STUDENT_A).unwrap();
    assert_eq!(a.session, SESSION);
    assert_eq!(a.student, STUDENT_A);
    assert_eq!(a.status, AttendanceStatus::Late);
    assert_eq!(a.check_in_time, 1_005);
    // a second submission for the same (session, student) collides
    assert_eq!(
        l.record_attendance(
            SESSION,
            FORMATION,
            STUDENT_A,
            STUDENT_A,
            AttendanceStatus::Present,
            1_006,
        ),
        Err(AlyraError::AlreadyExists)
    );
    // the first record stands
    assert_eq!(
        l.get_attendance(SESSION, STUDENT_A).unwrap().status,
        AttendanceStatus::Late
    );
}

#[test]
fn enrollment_round_trip_fields() {
    let mut l = Ledger::new();
    small_formation(&mut l, 3, 1);
    assert_eq!(l.enroll_in_formation(FORMATION, STUDENT_A, 1_001), Ok(()));
    assert_eq!(l.enroll_in_formation(FORMATION, STUDENT_B, 1_002), Ok(()));
    let ea = l.get_enrollment(FORMATION, STUDENT_A).unwrap();
    assert_eq!(ea.status, EnrollmentStatus::Enrolled);
    assert_eq!(ea.position, 0);
    assert_eq!(ea.created_at, 1_001);
    let eb = l.get_enrollment(FORMATION, STUDENT_B).unwrap();
    assert_eq!(eb.position, 1);
    // duplicate enrollment collides at the key while a seat remains
    assert_eq!(
        l.enroll_in_formation(FORMATION, STUDENT_A, 1_003),
        Err(AlyraError::AlreadyExists)
    );
    // once full, the capacity check takes precedence even for a duplicate
    assert_eq!(l.enroll_in_formation(FORMATION, STUDENT_C, 1_004), Ok(()));
    assert_eq!(
        l.enroll_in_formation(FORMATION, STUDENT_A, 1_005),
        Err(AlyraError::FormationFull)
    );
}

#[test]
fn formation_creation_and_lookup() {
    let mut l = Ledger::new();
    small_formation(&mut l, 3, 2);
    let f = l.get_formation(FORMATION).unwrap();
    assert_eq!(f.trainer, TRAINER);
    assert_eq!(f.title, "Intro");
    assert_eq!(f.description, "An introductory course");
    assert_eq!(f.formation_type, FormationType::Online);
    assert_eq!(f.max_students, 3);
    assert_eq!(f.waitlist_size, 2);
    assert_eq!(f.current_students, 0);
    assert_eq!(f.current_waitlisted, 0);
    assert_eq!(f.status, FormationStatus::Active);
    assert_eq!(f.created_at, 1_000);
    assert!(l.get_formation(FORMATION + 1).is_none());
    // a second formation under the same key collides
    let r = l.create_formation(
        FORMATION,
        TRAINER,
        String::from("Other"),
        String::from("Other"),
        FormationType::Hybrid,
        5,
        5,
        2_000,
    );
    assert_eq!(r, Err(AlyraError::AlreadyExists));
    assert_eq!(l.get_formation(FORMATION).unwrap().title, "Intro");
}
