//! Field, capacity and duration validation, with exact error codes.

use alyrasign::error::AlyraError;
use alyrasign::ledger::Ledger;
use alyrasign::state::{Formation, Session};
use alyrasign::types::{FormationStatus, FormationType};

const TRAINER: u64 = 100;

fn try_create(
    l: &mut Ledger,
    key: u64,
    title: String,
    description: String,
    max_students: u8,
    waitlist_size: u8,
) -> Result<(), AlyraError> {
    l.create_formation(
        key,
        TRAINER,
        title,
        description,
        FormationType::InPerson,
        max_students,
        waitlist_size,
        1_000,
    )
}

#[test]
fn title_over_200_chars_is_rejected() {
    let mut l = Ledger::new();
    let r = try_create(&mut l, 1, "x".repeat(201), String::from("d"), 10, 5);
    assert_eq!(r, Err(AlyraError::FieldTooLong));
    assert!(l.get_formation(1).is_none());
    // exactly 200 characters pass
    let r = try_create(&mut l, 1, "x".repeat(200), String::from("d"), 10, 5);
    assert_eq!(r, Ok(()));
}

#[test]
fn title_length_counts_characters_not_bytes() {
    let mut l = Ledger::new();
    // 200 two-byte characters: 400 bytes, but within the 200-character cap
    let r = try_create(&mut l, 1, "é".repeat(200), String::from("d"), 10, 5);
    assert_eq!(r, Ok(()));
    let r = try_create(&mut l, 2, "é".repeat(201), String::from("d"), 10, 5);
    assert_eq!(r, Err(AlyraError::FieldTooLong));
}

#[test]
fn description_over_1000_chars_is_rejected() {
    let mut l = Ledger::new();
    let r = try_create(&mut l, 1, String::from("t"), "d".repeat(1001), 10, 5);
    assert_eq!(r, Err(AlyraError::FieldTooLong));
    let r = try_create(&mut l, 1, String::from("t"), "d".repeat(1000), 10, 5);
    assert_eq!(r, Ok(()));
}

#[test]
fn capacity_over_100_is_rejected() {
    let mut l = Ledger::new();
    let r = try_create(&mut l, 1, String::from("t"), String::from("d"), 101, 5);
    assert_eq!(r, Err(AlyraError::CapacityExceeded));
    let r = try_create(&mut l, 1, String::from("t"), String::from("d"), 100, 5);
    assert_eq!(r, Ok(()));
}

#[test]
fn waitlist_capacity_over_50_is_rejected() {
    let mut l = Ledger::new();
    let r = try_create(&mut l, 1, String::from("t"), String::from("d"), 10, 51);
    assert_eq!(r, Err(AlyraError::WaitlistTooLarge));
    let r = try_create(&mut l, 1, String::from("t"), String::from("d"), 10, 50);
    assert_eq!(r, Ok(()));
}

#[test]
fn session_duration_bounds() {
    // 30 minutes exactly is the shortest accepted session
    let r = Session::create(TRAINER, 1, String::from("s"), String::from("d"), 0, 1_800, 10);
    assert!(r.is_ok());
    let r = Session::create(TRAINER, 1, String::from("s"), String::from("d"), 0, 1_799, 10);
    assert_eq!(r.err(), Some(AlyraError::InvalidTimeRange));
    // 8 hours exactly is the longest accepted session
    let r = Session::create(TRAINER, 1, String::from("s"), String::from("d"), 0, 28_800, 10);
    assert!(r.is_ok());
    let r = Session::create(TRAINER, 1, String::from("s"), String::from("d"), 0, 28_801, 10);
    assert_eq!(r.err(), Some(AlyraError::InvalidTimeRange));
    // a negative range cannot wrap the subtraction
    let r = Session::create(TRAINER, 1, String::from("s"), String::from("d"), i64::MAX, i64::MIN, 10);
    assert_eq!(r.err(), Some(AlyraError::InvalidTimeRange));
}

#[test]
fn session_fields_have_length_caps() {
    let r = Session::create(TRAINER, 1, "s".repeat(201), String::from("d"), 0, 2_000, 10);
    assert_eq!(r.err(), Some(AlyraError::FieldTooLong));
    let r = Session::create(TRAINER, 1, String::from("s"), "d".repeat(1001), 0, 2_000, 10);
    assert_eq!(r.err(), Some(AlyraError::FieldTooLong));
}

#[test]
fn session_creation_is_organizer_only() {
    let mut l = Ledger::new();
    assert_eq!(
        try_create(&mut l, 1, String::from("t"), String::from("d"), 10, 5),
        Ok(())
    );
    let r = l.create_session(
        2,
        1,
        TRAINER + 1,
        String::from("s"),
        String::from("d"),
        0,
        2_000,
        10,
    );
    assert_eq!(r, Err(AlyraError::UnauthorizedAccess));
    assert!(l.get_session(2).is_none());
    let r = l.create_session(
        2,
        1,
        TRAINER,
        String::from("s"),
        String::from("d"),
        0,
        2_000,
        10,
    );
    assert_eq!(r, Ok(()));
    let s = l.get_session(2).unwrap();
    assert_eq!(s.formation, 1);
    assert_eq!(s.trainer, TRAINER);
    assert_eq!(s.start_time, 0);
    assert_eq!(s.end_time, 2_000);
    // a second session under the same key collides
    let r = l.create_session(
        2,
        1,
        TRAINER,
        String::from("s2"),
        String::from("d2"),
        0,
        2_000,
        11,
    );
    assert_eq!(r, Err(AlyraError::AlreadyExists));
}

#[test]
fn formation_create_builds_active_zeroed_record() {
    let f = Formation::create(
        TRAINER,
        String::from("t"),
        String::from("d"),
        FormationType::Hybrid,
        4,
        2,
        77,
    )
    .unwrap();
    assert_eq!(f.trainer, TRAINER);
    assert_eq!(f.current_students, 0);
    assert_eq!(f.current_waitlisted, 0);
    assert_eq!(f.status, FormationStatus::Active);
    assert_eq!(f.created_at, 77);
    assert_eq!(f.updated_at, 77);
}
