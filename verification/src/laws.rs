//! Laws that hold across operations, stated once and proved.

use vstd::prelude::*;

use crate::config::{MAX_FORMATION_CAPACITY, MAX_WAITLIST_SIZE};
use crate::error::AlyraError;
use crate::ledger::Ledger;
use crate::state::{spec_drop_from_waitlist, Formation, WaitlistEntry};
use crate::table::idx_of;
use crate::types::{Pubkey, WaitlistStatus};

verus! {

/// Every formation of a well-formed ledger keeps both counters within
/// the capacities it declared, and the capacities within the global
/// caps.  Every operation takes a well-formed ledger to a well-formed
/// ledger and [`Ledger::new`] starts from one, so this holds at all
/// times.
pub proof fn lemma_formation_counters_bounded(l: Ledger, key: Pubkey)
    requires
        l.wf(),
        l.has_formation(key),
    ensures
        l.formation_of(key).current_students <= l.formation_of(key).max_students,
        l.formation_of(key).current_waitlisted <= l.formation_of(key).waitlist_size,
        l.formation_of(key).max_students <= MAX_FORMATION_CAPACITY,
        l.formation_of(key).waitlist_size <= MAX_WAITLIST_SIZE,
{
    let i = idx_of(l.formations@, key);
    assert(0 <= i < l.formations@.len() && l.formations@[i].0 == key);
    assert(l.formations@[i].1.wf());
}

/// In a ledger where positions are sound — as they are in the empty
/// ledger and after any operation — every enrollment names a filed
/// formation and holds a zero-based position strictly below that
/// formation's seat counter: seats are handed out in order and never
/// renumbered.
pub proof fn lemma_enrollment_position_below_counter(l: Ledger, f: Pubkey, s: Pubkey)
    requires
        l.wf(),
        l.enrollment_positions_wf(),
        l.has_enrollment(f, s),
    ensures
        l.has_formation(l.enrollment_of(f, s).formation),
        l.enrollment_of(f, s).position < l.formation_of(
            l.enrollment_of(f, s).formation,
        ).current_students,
{
    let i = idx_of(l.enrollments@, (f, s));
    assert(0 <= i < l.enrollments@.len() && l.enrollments@[i].0 == (f, s));
}

/// Dropping a `Waiting` entry — by its own participant, while the
/// formation's waitlist counter has a slot to release — succeeds,
/// decrements the counter by exactly one and expires the entry; a
/// second drop of the same entry then fails with
/// `InvalidWaitlistStatus`.
///
/// The counter hypothesis is needed: the asymmetry between declining
/// (which keeps the slot) and finalizing (which releases it while the
/// entry stays `Promoted`) can leave a `Waiting` entry beside a zeroed
/// counter, and the first drop then fails with `Underflow`.
pub proof fn lemma_drop_waiting_then_drop_fails(
    f: Formation,
    e: WaitlistEntry,
    caller: Pubkey,
    now1: i64,
    now2: i64,
)
    requires
        caller == e.student,
        e.status == WaitlistStatus::Waiting,
        f.current_waitlisted > 0,
    ensures
        ({
            let (f1, e1, r1) = spec_drop_from_waitlist(f, e, caller, now1);
            r1 == Ok::<(), AlyraError>(()) && f1.current_waitlisted == f.current_waitlisted - 1
                && e1.status == WaitlistStatus::Expired && spec_drop_from_waitlist(
                f1,
                e1,
                caller,
                now2,
            ).2 == Err::<(), AlyraError>(AlyraError::InvalidWaitlistStatus)
        }),
{
}

} // verus!
