//! The schedule store: calendar dates, each with its ordered sequence of
//! medication entries.
//!
//! The store is modelled as a sequence of days in date-insertion order; each
//! day pairs a date key with the non-empty sequence of entries appended under
//! it. Date keys are unique. The insertion order matters to callers: the
//! missed-dose export walks the days in exactly this order.

use vstd::prelude::*;

use crate::error::ScheduleError;
use crate::status::is_missed;
use crate::time::TimeOfDay;

verus! {

/// One medication entry: a free-form name, the time of day it is due, and
/// whether it has been taken.
#[derive(Debug)]
pub struct Medication {
    pub name: String,
    pub time: TimeOfDay,
    pub taken: bool,
}

/// The mathematical value of a medication entry.
pub struct MedView {
    pub name: Seq<char>,
    pub time: TimeOfDay,
    pub taken: bool,
}

impl View for Medication {
    type V = MedView;

    open spec fn view(&self) -> MedView {
        MedView { name: self.name@, time: self.time, taken: self.taken }
    }
}

impl DeepView for Medication {
    type V = MedView;

    open spec fn deep_view(&self) -> MedView {
        self.view()
    }
}

impl Clone for Medication {
    fn clone(&self) -> (r: Self)
        ensures
            r@ == self@,
    {
        Medication { name: self.name.clone(), time: self.time, taken: self.taken }
    }
}

/// The mathematical value of one day of the schedule: a date key and the
/// entries stored under it, in insertion order.
pub struct DayView {
    pub date: Seq<char>,
    pub meds: Seq<MedView>,
}

/// Whether some day of `days` carries the date key `d`.
pub open spec fn has_date(days: Seq<DayView>, d: Seq<char>) -> bool {
    exists|i: int| 0 <= i < days.len() && days[i].date == d
}

/// The position of the day carrying date key `d` (meaningful only when
/// `has_date` holds and date keys are unique).
pub open spec fn index_of_date(days: Seq<DayView>, d: Seq<char>) -> int {
    choose|i: int| 0 <= i < days.len() && days[i].date == d
}

/// The entries stored under date key `d`, or the empty sequence if the date
/// has no day.
pub open spec fn entries_of(days: Seq<DayView>, d: Seq<char>) -> Seq<MedView> {
    if has_date(days, d) {
        days[index_of_date(days, d)].meds
    } else {
        Seq::empty()
    }
}

/// The schedule after appending entry `e` under date key `d`: the day's
/// entries grow by one at the end; a missing day is created; nothing else
/// changes.
pub open spec fn add_spec(days: Seq<DayView>, d: Seq<char>, e: MedView) -> Seq<DayView> {
    if has_date(days, d) {
        days.update(
            index_of_date(days, d),
            DayView { date: d, meds: entries_of(days, d).push(e) },
        )
    } else {
        days.push(DayView { date: d, meds: Seq::empty().push(e) })
    }
}

/// An entry once its dose is recorded as taken: only the flag changes.
pub open spec fn mark_entry_spec(e: MedView) -> MedView {
    MedView { name: e.name, time: e.time, taken: true }
}

/// The schedule after marking entry `i` under date key `d` as taken.
pub open spec fn mark_spec(days: Seq<DayView>, d: Seq<char>, i: int) -> Seq<DayView> {
    let k = index_of_date(days, d);
    days.update(
        k,
        DayView { date: d, meds: days[k].meds.update(i, mark_entry_spec(days[k].meds[i])) },
    )
}

/// The entries of one day that the missed-dose export selects, in stored
/// order: untaken and scheduled strictly before `now`.
pub open spec fn missed_in_day(meds: Seq<MedView>, now: TimeOfDay) -> Seq<MedView>
    decreases meds.len(),
{
    if meds.len() == 0 {
        Seq::empty()
    } else if is_missed(meds.last(), now) {
        missed_in_day(meds.drop_last(), now).push(meds.last())
    } else {
        missed_in_day(meds.drop_last(), now)
    }
}

/// Every missed entry across all dates, walking the days in stored order
/// and each day's entries in stored order.
pub open spec fn missed_of(days: Seq<DayView>, now: TimeOfDay) -> Seq<MedView>
    decreases days.len(),
{
    if days.len() == 0 {
        Seq::empty()
    } else {
        missed_of(days.drop_last(), now) + missed_in_day(days.last().meds, now)
    }
}

/// A day selects no entry exactly when none of its entries is missed.
pub proof fn lemma_missed_in_day_empty(meds: Seq<MedView>, now: TimeOfDay)
    ensures
        missed_in_day(meds, now).len() == 0 <==> (forall|k: int|
            0 <= k < meds.len() ==> !is_missed(#[trigger] meds[k], now)),
    decreases meds.len(),
{
    if meds.len() > 0 {
        lemma_missed_in_day_empty(meds.drop_last(), now);
        if missed_in_day(meds, now).len() == 0 {
            assert forall|k: int| 0 <= k < meds.len() implies !is_missed(
                #[trigger] meds[k],
                now,
            ) by {
                if k < meds.len() - 1 {
                    assert(meds.drop_last()[k] == meds[k]);
                }
            }
        } else {
            if forall|k: int| 0 <= k < meds.len() ==> !is_missed(#[trigger] meds[k], now) {
                assert forall|k: int| 0 <= k < meds.drop_last().len() implies !is_missed(
                    #[trigger] meds.drop_last()[k],
                    now,
                ) by {
                    assert(meds.drop_last()[k] == meds[k]);
                }
                assert(!is_missed(meds.last(), now));
            }
        }
    }
}

/// The export selects no entry at all exactly when no entry of any day is
/// missed against `now`.
pub proof fn lemma_missed_of_empty(days: Seq<DayView>, now: TimeOfDay)
    ensures
        missed_of(days, now).len() == 0 <==> (forall|i: int, k: int|
            0 <= i < days.len() && 0 <= k < days[i].meds.len() ==> !is_missed(
                #[trigger] days[i].meds[k],
                now,
            )),
    decreases days.len(),
{
    if days.len() > 0 {
        lemma_missed_of_empty(days.drop_last(), now);
        lemma_missed_in_day_empty(days.last().meds, now);
        if missed_of(days, now).len() == 0 {
            assert forall|i: int, k: int|
                0 <= i < days.len() && 0 <= k < days[i].meds.len() implies !is_missed(
                #[trigger] days[i].meds[k],
                now,
            ) by {
                if i < days.len() - 1 {
                    assert(days.drop_last()[i] == days[i]);
                } else {
                    assert(days[i] == days.last());
                }
            }
        } else {
            if forall|i: int, k: int|
                0 <= i < days.len() && 0 <= k < days[i].meds.len() ==> !is_missed(
                    #[trigger] days[i].meds[k],
                    now,
                ) {
                assert forall|i: int, k: int|
                    0 <= i < days.drop_last().len() && 0 <= k
                        < days.drop_last()[i].meds.len() implies !is_missed(
                    #[trigger] days.drop_last()[i].meds[k],
                    now,
                ) by {
                    assert(days.drop_last()[i] == days[i]);
                }
                assert forall|k: int| 0 <= k < days.last().meds.len() implies !is_missed(
                    #[trigger] days.last().meds[k],
                    now,
                ) by {
                    assert(days.last() == days[days.len() - 1]);
                }
            }
        }
    }
}

/// Pushing one element extends a vector's deep view by that element's view.
pub(crate) proof fn lemma_deep_view_push(pre: Vec<Medication>, post: Vec<Medication>, x: Medication)
    requires
        post@ == pre@.push(x),
    ensures
        post.deep_view() == pre.deep_view().push(x@),
{
    assert forall|k: int| 0 <= k < post@.len() implies post.deep_view()[k] == pre.deep_view().push(
        x@,
    )[k] by {
        if k < pre@.len() {
            assert(post@[k] == pre@[k]);
        } else {
            assert(post@[k] == x);
        }
    }
    assert(post.deep_view() =~= pre.deep_view().push(x@));
}

struct DayEntries {
    date: String,
    meds: Vec<Medication>,
}

/// The in-memory schedule: a map from calendar date (a `YYYY-MM-DD` string
/// key) to the ordered sequence of entries appended under it.
pub struct MedicationSchedule {
    days: Vec<DayEntries>,
}

impl View for MedicationSchedule {
    type V = Seq<DayView>;

    closed spec fn view(&self) -> Seq<DayView> {
        Seq::new(
            self.days@.len(),
            |i: int| DayView { date: self.days@[i].date@, meds: self.days@[i].meds.deep_view() },
        )
    }
}

impl MedicationSchedule {
    /// Well-formedness: date keys are unique, every day holds at least one
    /// entry (a day exists only once something was appended under it), and
    /// every scheduled time lies on the 24-hour clock.
    pub open spec fn wf(&self) -> bool {
        &&& forall|i: int, j: int|
            0 <= i < j < self@.len() ==> self@[i].date != self@[j].date
        &&& forall|i: int| 0 <= i < self@.len() ==> self@[i].meds.len() > 0
        &&& forall|i: int, k: int|
            0 <= i < self@.len() && 0 <= k < self@[i].meds.len() ==> (#[trigger] self@[i].meds[k]).time.wf()
    }

    /// Creates an empty schedule: no dates, no entries.
    pub fn new() -> (r: MedicationSchedule)
        ensures
            r@ == Seq::<DayView>::empty(),
            r.wf(),
    {
        let r = MedicationSchedule { days: Vec::new() };
        proof {
            assert(r@ =~= Seq::<DayView>::empty());
        }
        r
    }

    /// The position of the day holding `date`, if any.
    fn find_day(&self, date: &String) -> (r: Option<usize>)
        ensures
            match r {
                Some(i) => i < self@.len() && self@[i as int].date == date@,
                None => forall|i: int| 0 <= i < self@.len() ==> self@[i].date != date@,
            },
    {
        let mut i: usize = 0;
        while i < self.days.len()
            invariant
                i <= self.days.len(),
                self@.len() == self.days@.len(),
                forall|j: int| 0 <= j < i ==> self@[j].date != date@,
                forall|j: int| 0 <= j < self.days@.len() ==> self@[j].date == self.days@[j].date@,
            decreases self.days.len() - i,
        {
            if self.days[i].date.eq(date) {
                return Some(i);
            }
            i = i + 1;
        }
        None
    }

    /// Appends `med` under `date`, creating the day if absent. Always
    /// succeeds; no other day or entry changes.
    pub fn add_medication(&mut self, date: String, med: Medication)
        requires
            old(self).wf(),
            med@.time.wf(),
        ensures
            final(self).wf(),
            final(self)@ == add_spec(old(self)@, date@, med@),
    {
        let ghost old_days = self@;
        match self.find_day(&date) {
            Some(i) => {
                let mut day = self.days.remove(i);
                day.meds.push(med);
                self.days.insert(i, day);
                proof {
                    assert(0 <= i < old_days.len() && old_days[i as int].date == date@);
                    lemma_unique_index(old_days, date@, i as int);
                    assert(day.meds.deep_view() =~= old_days[i as int].meds.push(med@));
                    assert(self@ =~= add_spec(old_days, date@, med@));
                    assert forall|a: int, b: int| 0 <= a < b < self@.len() implies self@[a].date
                        != self@[b].date by {
                        assert(old_days[a].date != old_days[b].date);
                    }
                    assert forall|a: int, k: int|
                        0 <= a < self@.len() && 0 <= k < self@[a].meds.len() implies (
                    #[trigger] self@[a].meds[k]).time.wf() by {
                        if a == i as int && k == old_days[a].meds.len() {
                            assert(self@[a].meds[k] == med@);
                        } else {
                            assert(self@[a].meds[k] == old_days[a].meds[k]);
                        }
                    }
                }
            },
            None => {
                let mut meds: Vec<Medication> = Vec::new();
                meds.push(med);
                proof {
                    assert(meds.deep_view() =~= Seq::<MedView>::empty().push(med@));
                }
                let day = DayEntries { date, meds };
                self.days.push(day);
                proof {
                    assert(!has_date(old_days, date@));
                    assert(self@[old_days.len() as int] == (DayView {
                        date: date@,
                        meds: Seq::<MedView>::empty().push(med@),
                    }));
                    assert(self@ =~= add_spec(old_days, date@, med@));
                    assert forall|a: int, b: int| 0 <= a < b < self@.len() implies self@[a].date
                        != self@[b].date by {
                        if b < old_days.len() {
                            assert(old_days[a].date != old_days[b].date);
                        } else {
                            assert(old_days[a].date != date@);
                        }
                    }
                    assert forall|a: int, k: int|
                        0 <= a < self@.len() && 0 <= k < self@[a].meds.len() implies (
                    #[trigger] self@[a].meds[k]).time.wf() by {
                        if a < old_days.len() {
                            assert(self@[a].meds[k] == old_days[a].meds[k]);
                        } else {
                            assert(self@[a].meds[k] == med@);
                        }
                    }
                }
            },
        }
    }

    /// A copy of the entries stored under `date`, in insertion order; the
    /// empty vector when the date has no day. Never fails.
    pub fn entries_for(&self, date: &String) -> (r: Vec<Medication>)
        requires
            self.wf(),
        ensures
            r.deep_view() == entries_of(self@, date@),
    {
        match self.find_day(date) {
            Some(i) => {
                proof {
                    lemma_unique_index(self@, date@, i as int);
                }
                let meds = &self.days[i].meds;
                let mut out: Vec<Medication> = Vec::new();
                let mut j: usize = 0;
                proof {
                    assert(self@[i as int].meds == self.days@[i as int].meds.deep_view());
                }
                while j < meds.len()
                    invariant
                        j <= meds@.len(),
                        out@.len() == j,
                        forall|k: int| 0 <= k < j ==> out@[k]@ == meds@[k]@,
                    decreases meds@.len() - j,
                {
                    out.push(meds[j].clone());
                    j = j + 1;
                }
                proof {
                    assert(out.deep_view().len() == out@.len());
                    assert forall|k: int| 0 <= k < out@.len() implies out.deep_view()[k]
                        == meds.deep_view()[k] by {
                        assert(out.deep_view()[k] == out@[k]@);
                        assert(meds.deep_view()[k] == meds@[k]@);
                    }
                    assert(out.deep_view() =~= meds.deep_view());
                    assert(out.deep_view() =~= entries_of(self@, date@));
                }
                out
            },
            None => {
                let out: Vec<Medication> = Vec::new();
                proof {
                    assert(out.deep_view() =~= entries_of(self@, date@));
                }
                out
            },
        }
    }

    /// Marks the entry at `index` under `date` as taken. Fails with
    /// `NotFound` when no entries exist under `date`, and with
    /// `InvalidIndex` when `index` is out of bounds; on failure the store is
    /// unchanged. On success only that entry's flag changes.
    pub fn mark_taken(&mut self, date: &String, index: usize) -> (r: Result<(), ScheduleError>)
        requires
            old(self).wf(),
        ensures
            final(self).wf(),
            !has_date(old(self)@, date@) ==> r == Err::<(), ScheduleError>(ScheduleError::NotFound)
                && final(self)@ == old(self)@,
            has_date(old(self)@, date@) && index >= entries_of(old(self)@, date@).len() ==> r
                == Err::<(), ScheduleError>(ScheduleError::InvalidIndex) && final(self)@ == old(self)@,
            has_date(old(self)@, date@) && index < entries_of(old(self)@, date@).len() ==> r
                == Ok::<(), ScheduleError>(()) && final(self)@ == mark_spec(
                old(self)@,
                date@,
                index as int,
            ),
    {
        let ghost old_days = self@;
        match self.find_day(date) {
            Some(i) => {
                proof {
                    lemma_unique_index(old_days, date@, i as int);
                }
                if index < self.days[i].meds.len() {
                    let mut day = self.days.remove(i);
                    let mut med = day.meds.remove(index);
                    med.taken = true;
                    day.meds.insert(index, med);
                    self.days.insert(i, day);
                    proof {
                        assert(day.meds.deep_view() =~= old_days[i as int].meds.update(
                            index as int,
                            mark_entry_spec(old_days[i as int].meds[index as int]),
                        ));
                        assert(self@ =~= mark_spec(old_days, date@, index as int));
                        assert forall|a: int, b: int| 0 <= a < b < self@.len() implies self@[a].date
                            != self@[b].date by {
                            assert(old_days[a].date != old_days[b].date);
                        }
                        assert forall|a: int, k: int|
                            0 <= a < self@.len() && 0 <= k < self@[a].meds.len() implies (
                        #[trigger] self@[a].meds[k]).time.wf() by {
                            if a == i as int && k == index as int {
                                assert(self@[a].meds[k].time == old_days[a].meds[k].time);
                            } else {
                                assert(self@[a].meds[k] == old_days[a].meds[k]);
                            }
                        }
                    }
                    Ok(())
                } else {
                    Err(ScheduleError::InvalidIndex)
                }
            },
            None => Err(ScheduleError::NotFound),
        }
    }

    /// Copies of every entry across all dates that is missed against `now`,
    /// walking the days and each day's entries in stored order. Read-only.
    pub fn collect_missed(&self, now: TimeOfDay) -> (r: Vec<Medication>)
        requires
            self.wf(),
        ensures
            r.deep_view() == missed_of(self@, now),
            forall|k: int| 0 <= k < r@.len() ==> (#[trigger] r@[k])@.time.wf(),
    {
        let mut out: Vec<Medication> = Vec::new();
        let mut i: usize = 0;
        proof {
            assert(out.deep_view() =~= missed_of(self@.take(0), now));
        }
        while i < self.days.len()
            invariant
                self.wf(),
                i <= self.days@.len(),
                self@.len() == self.days@.len(),
                out.deep_view() == missed_of(self@.take(i as int), now),
                forall|k: int| 0 <= k < out@.len() ==> (#[trigger] out@[k])@.time.wf(),
            decreases self.days@.len() - i,
        {
            let meds = &self.days[i].meds;
            proof {
                assert(self@[i as int].meds == meds.deep_view());
            }
            let mut j: usize = 0;
            while j < meds.len()
                invariant
                    self.wf(),
                    i < self.days@.len(),
                    self@.len() == self.days@.len(),
                    j <= meds@.len(),
                    meds == &self.days@[i as int].meds,
                    self@[i as int].meds == meds.deep_view(),
                    out.deep_view() == missed_of(self@.take(i as int), now) + missed_in_day(
                        meds.deep_view().take(j as int),
                        now,
                    ),
                    forall|k: int| 0 <= k < out@.len() ==> (#[trigger] out@[k])@.time.wf(),
                decreases meds@.len() - j,
            {
                let ghost dm = meds.deep_view();
                proof {
                    assert(dm.take(j as int + 1).drop_last() =~= dm.take(j as int));
                    assert(dm.take(j as int + 1).last() == dm[j as int]);
                }
                let m = &meds[j];
                if !m.taken && m.time.is_before(now) {
                    let ghost pre = out;
                    let c = m.clone();
                    let ghost cv = c;
                    out.push(c);
                    proof {
                        lemma_deep_view_push(pre, out, cv);
                        assert(out.deep_view() =~= missed_of(self@.take(i as int), now)
                            + missed_in_day(dm.take(j as int + 1), now));
                    }
                } else {
                    proof {
                        assert(!is_missed(dm[j as int], now));
                    }
                }
                j = j + 1;
            }
            proof {
                assert(meds.deep_view().take(j as int) =~= meds.deep_view());
                assert(self@.take(i as int + 1).drop_last() =~= self@.take(i as int));
                assert(self@.take(i as int + 1).last() == self@[i as int]);
                assert(out.deep_view() =~= missed_of(self@.take(i as int + 1), now));
            }
            i = i + 1;
        }
        proof {
            assert(self@.take(self@.len() as int) =~= self@);
        }
        out
    }
}

/// Appending an entry under a date is order-preserving and local: the
/// date's sequence afterwards is exactly the old sequence with the entry at
/// the end (so its last element is the added entry and all prior elements
/// are unchanged), and every other date's entries are untouched.
pub proof fn lemma_add_then_entries(days: Seq<DayView>, d: Seq<char>, e: MedView)
    requires
        forall|a: int, b: int| 0 <= a < b < days.len() ==> days[a].date != days[b].date,
    ensures
        entries_of(add_spec(days, d, e), d) == entries_of(days, d).push(e),
        entries_of(add_spec(days, d, e), d).last() == e,
        entries_of(add_spec(days, d, e), d).drop_last() == entries_of(days, d),
        forall|d2: Seq<char>|
            d2 != d ==> #[trigger] entries_of(add_spec(days, d, e), d2) == entries_of(days, d2),
{
    let new = add_spec(days, d, e);
    if has_date(days, d) {
        let i = index_of_date(days, d);
        assert(0 <= i < days.len() && days[i].date == d);
        assert forall|x: int| 0 <= x < new.len() implies (#[trigger] new[x]).date
            == days[x].date by {}
        assert forall|a: int, b: int| 0 <= a < b < new.len() implies new[a].date
            != new[b].date by {
            assert(days[a].date != days[b].date);
        }
        lemma_unique_index(new, d, i);
        assert(entries_of(new, d) == entries_of(days, d).push(e));
    } else {
        let n = days.len() as int;
        assert(new[n].date == d);
        assert forall|a: int, b: int| 0 <= a < b < new.len() implies new[a].date
            != new[b].date by {
            if b < n {
                assert(new[a] == days[a] && new[b] == days[b]);
            } else {
                assert(new[a] == days[a]);
                assert(days[a].date != d);
            }
        }
        lemma_unique_index(new, d, n);
        assert(entries_of(new, d) == new[n].meds);
        assert(entries_of(new, d) =~= entries_of(days, d).push(e));
    }
    assert(entries_of(days, d).push(e).drop_last() =~= entries_of(days, d));
    assert forall|d2: Seq<char>| d2 != d implies #[trigger] entries_of(new, d2) == entries_of(
        days,
        d2,
    ) by {
        if has_date(days, d2) {
            let k = index_of_date(days, d2);
            assert(0 <= k < days.len() && days[k].date == d2);
            assert(new[k].date == d2 && new[k].meds == days[k].meds);
            assert forall|a: int, b: int| 0 <= a < b < new.len() implies new[a].date
                != new[b].date by {
                if b < days.len() {
                    assert(days[a].date != days[b].date);
                } else {
                    assert(new[b].date == d);
                    assert(days[a].date != d);
                }
            }
            lemma_unique_index(new, d2, k);
            lemma_unique_index(days, d2, k);
        } else {
            assert(!has_date(new, d2)) by {
                if has_date(new, d2) {
                    let k = index_of_date(new, d2);
                    assert(0 <= k < new.len() && new[k].date == d2);
                    if k < days.len() {
                        assert(days[k].date == new[k].date);
                        assert(has_date(days, d2));
                    } else {
                        assert(new[k].date == d);
                    }
                }
            }
        }
    }
}

/// Marking one entry taken is local: that entry keeps its name and time and
/// gets `taken`, every other entry of the date is unchanged, and every
/// other date's entries are untouched.
pub proof fn lemma_mark_then_entries(days: Seq<DayView>, d: Seq<char>, i: int)
    requires
        forall|a: int, b: int| 0 <= a < b < days.len() ==> days[a].date != days[b].date,
        has_date(days, d),
        0 <= i < entries_of(days, d).len(),
    ensures
        entries_of(mark_spec(days, d, i), d).len() == entries_of(days, d).len(),
        entries_of(mark_spec(days, d, i), d)[i] == mark_entry_spec(entries_of(days, d)[i]),
        entries_of(mark_spec(days, d, i), d)[i].taken,
        entries_of(mark_spec(days, d, i), d)[i].name == entries_of(days, d)[i].name,
        entries_of(mark_spec(days, d, i), d)[i].time == entries_of(days, d)[i].time,
        forall|k: int|
            0 <= k < entries_of(days, d).len() && k != i ==> entries_of(mark_spec(days, d, i), d)[k]
                == entries_of(days, d)[k],
        forall|d2: Seq<char>|
            d2 != d ==> #[trigger] entries_of(mark_spec(days, d, i), d2) == entries_of(days, d2),
{
    let kx = index_of_date(days, d);
    assert(0 <= kx < days.len() && days[kx].date == d);
    let new = mark_spec(days, d, i);
    assert forall|x: int| 0 <= x < new.len() implies (#[trigger] new[x]).date == days[x].date by {}
    assert forall|a: int, b: int| 0 <= a < b < new.len() implies new[a].date != new[b].date by {
        assert(days[a].date != days[b].date);
    }
    lemma_unique_index(new, d, kx);
    assert(entries_of(new, d) == days[kx].meds.update(i, mark_entry_spec(days[kx].meds[i])));
    assert forall|d2: Seq<char>| d2 != d implies #[trigger] entries_of(new, d2) == entries_of(
        days,
        d2,
    ) by {
        if has_date(days, d2) {
            let k = index_of_date(days, d2);
            assert(0 <= k < days.len() && days[k].date == d2);
            assert(new[k].date == d2 && new[k].meds == days[k].meds);
            lemma_unique_index(new, d2, k);
            lemma_unique_index(days, d2, k);
        } else {
            assert(!has_date(new, d2)) by {
                if has_date(new, d2) {
                    let k = index_of_date(new, d2);
                    assert(0 <= k < new.len() && new[k].date == d2);
                    assert(days[k].date == new[k].date);
                    assert(has_date(days, d2));
                }
            }
        }
    }
}

/// With unique date keys, the day found for a date is the one `choose`
/// picks, so `index_of_date` agrees with any found position.
proof fn lemma_unique_index(days: Seq<DayView>, d: Seq<char>, i: int)
    requires
        forall|a: int, b: int| 0 <= a < b < days.len() ==> days[a].date != days[b].date,
        0 <= i < days.len(),
        days[i].date == d,
    ensures
        has_date(days, d),
        index_of_date(days, d) == i,
{
    assert(has_date(days, d));
    let k = index_of_date(days, d);
    assert(0 <= k < days.len() && days[k].date == d);
    if k < i {
        assert(days[k].date != days[i].date);
    } else if i < k {
        assert(days[i].date != days[k].date);
    }
}

} // verus!
