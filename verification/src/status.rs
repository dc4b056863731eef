//! The due-status evaluator: a pure classification of one entry against a
//! time of day. The reminder check, the listing view and the missed-dose
//! export all go through this one rule.

use vstd::prelude::*;

use crate::store::{MedView, Medication};
use crate::time::TimeOfDay;

verus! {

/// How an entry stands against the current time of day.
#[derive(Clone, Copy, Debug, PartialEq, Eq, Structural)]
pub enum DoseStatus {
    /// The dose was recorded as taken, at whatever time.
    Taken,
    /// Not yet taken, and the scheduled time has not yet passed.
    Pending,
    /// Not yet taken, and the scheduled time lies strictly in the past.
    Missed,
}

/// The classification rule. Taken wins outright; an untaken entry is missed
/// exactly when its scheduled time is strictly before `now`, so a dose due
/// at the current minute is still pending.
pub open spec fn spec_status(e: MedView, now: TimeOfDay) -> DoseStatus {
    if e.taken {
        DoseStatus::Taken
    } else if e.time.spec_lt(now) {
        DoseStatus::Missed
    } else {
        DoseStatus::Pending
    }
}

/// An entry that counts for the missed-dose export.
pub open spec fn is_missed(e: MedView, now: TimeOfDay) -> bool {
    spec_status(e, now) is Missed
}

/// Classifies one entry against the time of day `now`.
pub fn dose_status(med: &Medication, now: TimeOfDay) -> (r: DoseStatus)
    ensures
        r == spec_status(med@, now),
{
    if med.taken {
        DoseStatus::Taken
    } else if med.time.is_before(now) {
        DoseStatus::Missed
    } else {
        DoseStatus::Pending
    }
}

/// A taken entry is classified `Taken`, irrespective of the time.
pub proof fn lemma_taken_wins(e: MedView, now: TimeOfDay)
    ensures
        e.taken ==> spec_status(e, now) == DoseStatus::Taken,
{
}

/// An untaken entry is `Missed` exactly when its scheduled time is strictly
/// before `now`, and `Pending` exactly when it is at or after `now`: the
/// boundary minute is pending.
pub proof fn lemma_untaken_split(e: MedView, now: TimeOfDay)
    requires
        !e.taken,
    ensures
        spec_status(e, now) == DoseStatus::Missed <==> e.time.spec_lt(now),
        spec_status(e, now) == DoseStatus::Pending <==> now.spec_le(e.time),
{
}

} // verus!
