//! The clock source: the host's current local date and time of day.
//!
//! Readings are snapshots; nothing is promised about two readings beyond
//! each being a well-formed date key and time of day.

use vstd::prelude::*;

use crate::time::TimeOfDay;

verus! {

/// One snapshot of the clock source, as the reminder ticker emits it: the
/// current date key and time of day.
pub struct Tick {
    pub date: String,
    pub time: TimeOfDay,
}

/// Relies on chrono::Local::now and chrono::Timelike::hour / minute on the
/// current local time: the hour is 0 to 23 and the minute 0 to 59.
#[verifier::external_body]
fn chrono_time_now() -> (t: TimeOfDay)
    ensures
        t.wf(),
{
    let now = chrono::Local::now().time();
    TimeOfDay {
        hour: chrono::Timelike::hour(&now) as u8,
        minute: chrono::Timelike::minute(&now) as u8,
    }
}

/// Relies on chrono's `%Y-%m-%d` formatting of the current local date: a
/// zero-padded year of at least four digits, then `-MM-DD`.
#[verifier::external_body]
fn chrono_date_now() -> (d: String)
    ensures
        d@.len() >= 10,
{
    chrono::Local::now().format("%Y-%m-%d").to_string()
}

/// Reads the clock source once: the snapshot one tick carries.
pub fn clock_tick() -> (t: Tick)
    ensures
        t.time.wf(),
        t.date@.len() >= 10,
{
    Tick { date: chrono_date_now(), time: chrono_time_now() }
}

} // verus!
