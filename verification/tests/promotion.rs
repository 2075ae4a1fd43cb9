//! The two-phase promotion protocol, the drop/decline asymmetry, and
//! queue renumbering, on directly constructed ledger states.

use alyrasign::error::AlyraError;
use alyrasign::ledger::Ledger;
use alyrasign::state::{Formation, WaitlistEntry};
use alyrasign::types::{FormationStatus, FormationType, WaitlistStatus};

const FORMATION: u64 = 7;
const OTHER_FORMATION: u64 = 8;
const TRAINER: u64 = 100;
const STUDENT_B: u64 = 202;

fn formation(max_students: u8, current_students: u8, current_waitlisted: u8) -> Formation {
    Formation {
        trainer: TRAINER,
        title: String::from("Intro"),
        description: String::from("d"),
        formation_type: FormationType::Online,
        max_students,
        waitlist_size: 3,
        current_students,
        current_waitlisted,
        status: FormationStatus::Active,
        created_at: 1_000,
        updated_at: 1_000,
    }
}

fn entry(formation: u64, student: u64, position: u8, status: WaitlistStatus) -> WaitlistEntry {
    WaitlistEntry {
        formation,
        student,
        position,
        status,
        timestamp: 1_002,
        created_at: 1_002,
        updated_at: 1_002,
    }
}

/// A formation with one of two seats taken and one waiting student: the
/// state a queue reaches once a seat frees up at the host ledger.
fn one_free_seat_one_waiting() -> Ledger {
    let mut l = Ledger::new();
    l.formations.push((FORMATION, formation(2, 1, 1)));
    l.waitlist.push((
        (FORMATION, STUDENT_B),
        entry(FORMATION, STUDENT_B, 0, WaitlistStatus::Waiting),
    ));
    l
}

#[test]
fn two_phase_promotion_completes() {
    let mut l = one_free_seat_one_waiting();
    // phase 1: the offer marks the entry, no counter moves
    assert_eq!(l.process_promotion(FORMATION, STUDENT_B, 2_000), Ok(()));
    assert_eq!(
        l.get_waitlist_entry(FORMATION, STUDENT_B).unwrap().status,
        WaitlistStatus::Promoted
    );
    let f = l.get_formation(FORMATION).unwrap();
    assert_eq!(f.current_students, 1);
    assert_eq!(f.current_waitlisted, 1);
    // phase 2: finalizing fills the seat and releases the slot
    assert_eq!(l.promote_from_waitlist(FORMATION, STUDENT_B, 2_001), Ok(()));
    let f = l.get_formation(FORMATION).unwrap();
    assert_eq!(f.current_students, 2);
    assert_eq!(f.current_waitlisted, 0);
    let e = l.get_enrollment(FORMATION, STUDENT_B).unwrap();
    assert_eq!(e.position, 1);
    // the entry itself keeps its Promoted status
    assert_eq!(
        l.get_waitlist_entry(FORMATION, STUDENT_B).unwrap().status,
        WaitlistStatus::Promoted
    );
}

#[test]
fn offer_requires_waiting_status() {
    let mut l = one_free_seat_one_waiting();
    assert_eq!(l.process_promotion(FORMATION, STUDENT_B, 2_000), Ok(()));
    // a second offer finds the entry Promoted, not Waiting
    assert_eq!(
        l.process_promotion(FORMATION, STUDENT_B, 2_001),
        Err(AlyraError::InvalidWaitlistStatus)
    );
}

#[test]
fn decline_keeps_the_waitlist_counter() {
    let mut l = one_free_seat_one_waiting();
    assert_eq!(l.process_promotion(FORMATION, STUDENT_B, 2_000), Ok(()));
    assert_eq!(l.decline_promotion(FORMATION, STUDENT_B, 2_001), Ok(()));
    assert_eq!(
        l.get_waitlist_entry(FORMATION, STUDENT_B).unwrap().status,
        WaitlistStatus::Declined
    );
    // declining does not release the slot: only a drop does
    assert_eq!(l.get_formation(FORMATION).unwrap().current_waitlisted, 1);
    // and a declined entry can no longer be declined or dropped
    assert_eq!(
        l.decline_promotion(FORMATION, STUDENT_B, 2_002),
        Err(AlyraError::InvalidWaitlistStatus)
    );
    assert_eq!(
        l.drop_from_waitlist(FORMATION, STUDENT_B, STUDENT_B, 2_003),
        Err(AlyraError::InvalidWaitlistStatus)
    );
}

#[test]
fn decline_requires_promoted_status() {
    let mut l = one_free_seat_one_waiting();
    assert_eq!(
        l.decline_promotion(FORMATION, STUDENT_B, 2_000),
        Err(AlyraError::InvalidWaitlistStatus)
    );
}

#[test]
fn promoted_entry_can_be_dropped() {
    let mut l = one_free_seat_one_waiting();
    assert_eq!(l.process_promotion(FORMATION, STUDENT_B, 2_000), Ok(()));
    assert_eq!(
        l.drop_from_waitlist(FORMATION, STUDENT_B, STUDENT_B, 2_001),
        Ok(())
    );
    assert_eq!(
        l.get_waitlist_entry(FORMATION, STUDENT_B).unwrap().status,
        WaitlistStatus::Expired
    );
    assert_eq!(l.get_formation(FORMATION).unwrap().current_waitlisted, 0);
}

#[test]
fn counter_underflow_guard_fires() {
    // a free seat beside a zeroed waitlist counter: the defensive guard
    let mut f = formation(2, 1, 0);
    assert_eq!(f.promote_from_waitlist(), Err(AlyraError::Underflow));
    assert_eq!(f.current_students, 1);
    assert_eq!(f.current_waitlisted, 0);
    // without a free seat the seat check comes first
    let mut f = formation(2, 2, 0);
    assert_eq!(f.promote_from_waitlist(), Err(AlyraError::FormationFull));
    // the ledger operation guards the same way
    let mut l = Ledger::new();
    l.formations.push((FORMATION, formation(2, 1, 0)));
    l.waitlist.push((
        (FORMATION, STUDENT_B),
        entry(FORMATION, STUDENT_B, 0, WaitlistStatus::Promoted),
    ));
    assert_eq!(
        l.promote_from_waitlist(FORMATION, STUDENT_B, 2_000),
        Err(AlyraError::Underflow)
    );
    assert_eq!(l.get_formation(FORMATION).unwrap().current_students, 1);
}

#[test]
fn drop_of_waiting_entry_beside_zeroed_counter_hits_underflow_guard() {
    // the decline/finalize asymmetry can leave a Waiting entry while the
    // counter is already zero; the drop then fails without any change
    let mut l = Ledger::new();
    l.formations.push((FORMATION, formation(2, 1, 0)));
    l.waitlist.push((
        (FORMATION, STUDENT_B),
        entry(FORMATION, STUDENT_B, 0, WaitlistStatus::Waiting),
    ));
    assert_eq!(
        l.drop_from_waitlist(FORMATION, STUDENT_B, STUDENT_B, 2_000),
        Err(AlyraError::Underflow)
    );
    assert_eq!(
        l.get_waitlist_entry(FORMATION, STUDENT_B).unwrap().status,
        WaitlistStatus::Waiting
    );
    assert_eq!(l.get_formation(FORMATION).unwrap().current_waitlisted, 0);
}

#[test]
fn counter_moves_of_formation_methods() {
    let mut f = formation(2, 1, 1);
    assert_eq!(f.promote_from_waitlist(), Ok(()));
    assert_eq!(f.current_students, 2);
    assert_eq!(f.current_waitlisted, 0);
    // full formation: the waitlist opens
    assert!(f.can_join_waitlist());
    assert_eq!(f.add_to_waitlist(), Ok(()));
    assert_eq!(f.current_waitlisted, 1);
    // seats free: the waitlist is closed
    let mut open = formation(2, 1, 0);
    assert!(!open.can_join_waitlist());
    assert_eq!(open.add_to_waitlist(), Err(AlyraError::WaitlistFull));
    // waitlist at capacity: closed again
    let mut at_cap = formation(2, 2, 3);
    assert_eq!(at_cap.add_to_waitlist(), Err(AlyraError::WaitlistFull));
}

#[test]
fn formation_predicates() {
    let f = formation(2, 1, 0);
    assert!(f.can_enroll());
    assert!(f.has_available_slots());
    assert!(f.is_trainer(&TRAINER));
    assert!(!f.is_trainer(&(TRAINER + 1)));
    let full = formation(2, 2, 0);
    assert!(!full.can_enroll());
    assert!(!full.has_available_slots());
    let cancelled = Formation {
        status: FormationStatus::Cancelled,
        ..formation(2, 1, 0)
    };
    // a seat is free, but the formation no longer accepts enrollments
    assert!(cancelled.has_available_slots());
    assert!(!cancelled.can_enroll());
    assert!(!cancelled.can_join_waitlist());
}

#[test]
fn waitlist_entry_transitions() {
    let mut e = entry(FORMATION, STUDENT_B, 0, WaitlistStatus::Waiting);
    assert!(e.is_promotable());
    e.promote();
    assert_eq!(e.status, WaitlistStatus::PendingPromotion);
    assert!(!e.is_promotable());
    e.accept_promotion();
    assert_eq!(e.status, WaitlistStatus::Promoted);
    e.decline_promotion();
    assert_eq!(e.status, WaitlistStatus::Declined);
}

#[test]
fn pending_promotion_expiry_is_a_pure_time_comparison() {
    let e = entry(FORMATION, STUDENT_B, 0, WaitlistStatus::PendingPromotion);
    // timestamp is 1_002; timeout 100 expires strictly after 1_102
    assert!(!e.is_expired(1_102, 100));
    assert!(e.is_expired(1_103, 100));
    let waiting = entry(FORMATION, STUDENT_B, 0, WaitlistStatus::Waiting);
    assert!(!waiting.is_expired(9_999, 100));
}

#[test]
fn reorganize_refreshes_marker_and_is_organizer_only() {
    let mut l = one_free_seat_one_waiting();
    assert_eq!(
        l.reorganize_waitlist(FORMATION, TRAINER + 1, 3_000),
        Err(AlyraError::UnauthorizedAccess)
    );
    assert_eq!(l.get_formation(FORMATION).unwrap().updated_at, 1_000);
    assert_eq!(l.reorganize_waitlist(FORMATION, TRAINER, 3_000), Ok(()));
    let f = l.get_formation(FORMATION).unwrap();
    assert_eq!(f.updated_at, 3_000);
    // positions are left as they were: renumbering is a separate call
    assert_eq!(l.get_waitlist_entry(FORMATION, STUDENT_B).unwrap().position, 0);
}

#[test]
fn queue_compaction_shifts_waiting_entries_behind_the_vacated_position() {
    let mut l = Ledger::new();
    l.formations.push((FORMATION, formation(1, 1, 3)));
    l.formations.push((OTHER_FORMATION, formation(1, 1, 1)));
    l.waitlist.push((
        (FORMATION, 301),
        entry(FORMATION, 301, 1, WaitlistStatus::Waiting),
    ));
    l.waitlist.push((
        (FORMATION, 302),
        entry(FORMATION, 302, 2, WaitlistStatus::Waiting),
    ));
    l.waitlist.push((
        (FORMATION, 303),
        entry(FORMATION, 303, 3, WaitlistStatus::Promoted),
    ));
    l.waitlist.push((
        (OTHER_FORMATION, 304),
        entry(OTHER_FORMATION, 304, 2, WaitlistStatus::Waiting),
    ));
    assert_eq!(
        l.update_waitlist_positions(FORMATION, 1, TRAINER + 1, 4_000),
        Err(AlyraError::UnauthorizedAccess)
    );
    assert_eq!(
        l.update_waitlist_positions(FORMATION, 1, TRAINER, 4_000),
        Ok(())
    );
    // position 1 itself stays (it is the vacated slot's value, not behind it)
    assert_eq!(l.get_waitlist_entry(FORMATION, 301).unwrap().position, 1);
    // the Waiting entry behind it moves down one
    assert_eq!(l.get_waitlist_entry(FORMATION, 302).unwrap().position, 1);
    // a non-Waiting entry keeps its position
    assert_eq!(l.get_waitlist_entry(FORMATION, 303).unwrap().position, 3);
    // another formation's queue is untouched
    assert_eq!(l.get_waitlist_entry(OTHER_FORMATION, 304).unwrap().position, 2);
    assert_eq!(l.get_formation(FORMATION).unwrap().updated_at, 4_000);
}
