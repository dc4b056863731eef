//! The interactive session's decisions: the menu commands, the reminder
//! check and the listing view's label. The loop that reads input and prints
//! lives outside the library; everything it decides is here.

use vstd::prelude::*;

use crate::clock::clock_tick;
use crate::store::{MedView, Medication, MedicationSchedule, entries_of, lemma_deep_view_push};
use crate::time::TimeOfDay;

verus! {

/// A menu command, one per numbered option, or `Unknown` for any other
/// input line.
#[derive(Clone, Copy, Debug, PartialEq, Eq, Structural)]
pub enum Command {
    AddMedication,
    ListToday,
    MarkTaken,
    ExportMissed,
    Exit,
    Unknown,
}

/// The menu mapping: the single digits 1 to 5 name the commands, anything
/// else is unrecognized.
pub open spec fn spec_parse_command(s: Seq<char>) -> Command {
    if s == seq!['1'] {
        Command::AddMedication
    } else if s == seq!['2'] {
        Command::ListToday
    } else if s == seq!['3'] {
        Command::MarkTaken
    } else if s == seq!['4'] {
        Command::ExportMissed
    } else if s == seq!['5'] {
        Command::Exit
    } else {
        Command::Unknown
    }
}

/// Parses one trimmed input line as a menu command.
pub fn parse_command(s: &str) -> (r: Command)
    ensures
        r == spec_parse_command(s@),
{
    let n = s.unicode_len();
    if n != 1 {
        return Command::Unknown;
    }
    let c = s.get_char(0);
    proof {
        assert(c == '1' ==> s@ =~= seq!['1']);
        assert(c == '2' ==> s@ =~= seq!['2']);
        assert(c == '3' ==> s@ =~= seq!['3']);
        assert(c == '4' ==> s@ =~= seq!['4']);
        assert(c == '5' ==> s@ =~= seq!['5']);
    }
    match c {
        '1' => Command::AddMedication,
        '2' => Command::ListToday,
        '3' => Command::MarkTaken,
        '4' => Command::ExportMissed,
        '5' => Command::Exit,
        _ => Command::Unknown,
    }
}

/// The listing view's label for an entry: by the taken flag alone; the
/// missed distinction is the export's, not the listing's.
pub fn listing_label(med: &Medication) -> (r: String)
    ensures
        med@.taken ==> r@ == "Taken"@,
        !med@.taken ==> r@ == "Pending"@,
{
    if med.taken {
        String::from_str("Taken")
    } else {
        String::from_str("Pending")
    }
}

/// The entries a tick should remind about, in stored order: untaken and
/// scheduled at or before the tick's time.
pub open spec fn due_now(meds: Seq<MedView>, now: TimeOfDay) -> Seq<MedView>
    decreases meds.len(),
{
    if meds.len() == 0 {
        Seq::empty()
    } else if !meds.last().taken && meds.last().time.spec_le(now) {
        due_now(meds.drop_last(), now).push(meds.last())
    } else {
        due_now(meds.drop_last(), now)
    }
}

/// Copies of the entries a tick at time `now` should remind about, in
/// stored order. Never mutates anything: reminders are a notice only.
pub fn due_reminders(meds: &Vec<Medication>, now: TimeOfDay) -> (r: Vec<Medication>)
    ensures
        r.deep_view() == due_now(meds.deep_view(), now),
{
    let mut out: Vec<Medication> = Vec::new();
    let mut j: usize = 0;
    proof {
        assert(out.deep_view() =~= due_now(meds.deep_view().take(0), now));
    }
    while j < meds.len()
        invariant
            j <= meds@.len(),
            out.deep_view() == due_now(meds.deep_view().take(j as int), now),
        decreases meds@.len() - j,
    {
        let ghost dm = meds.deep_view();
        proof {
            assert(dm.take(j as int + 1).drop_last() =~= dm.take(j as int));
            assert(dm.take(j as int + 1).last() == dm[j as int]);
        }
        let m = &meds[j];
        if !m.taken && m.time.is_at_or_before(now) {
            let ghost pre = out;
            let c = m.clone();
            let ghost cv = c;
            out.push(c);
            proof {
                lemma_deep_view_push(pre, out, cv);
            }
        }
        j = j + 1;
    }
    proof {
        assert(meds.deep_view().take(j as int) =~= meds.deep_view());
    }
    out
}

impl MedicationSchedule {
    /// Today's entries, with "today" read fresh from the clock source on
    /// this call; the store itself holds no notion of the current date.
    pub fn list_today(&self) -> (r: Vec<Medication>)
        requires
            self.wf(),
        ensures
            exists|d: Seq<char>| r.deep_view() == #[trigger] entries_of(self@, d),
    {
        let t = clock_tick();
        let r = self.entries_for(&t.date);
        proof {
            assert(r.deep_view() == entries_of(self@, t.date@));
        }
        r
    }
}

} // verus!
