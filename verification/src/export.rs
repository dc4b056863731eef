//! The missed-dose export: every entry classified as missed, rendered as
//! one CSV record `{name, scheduled time as HH:MM, false}` and encoded.

use vstd::prelude::*;

use crate::clock::clock_tick;
use crate::store::{MedView, Medication, MedicationSchedule, missed_of};
use crate::time::{TimeOfDay, format_time, spec_time_str};

verus! {

/// One record of the export sink: the entry's name, its scheduled time as
/// `HH:MM`, and its taken flag (always `false` for a missed entry).
pub struct CsvRecord {
    pub name: String,
    pub time: String,
    pub taken: String,
}

/// The field contents of one record.
pub open spec fn record_view(r: CsvRecord) -> (Seq<char>, Seq<char>, Seq<char>) {
    (r.name@, r.time@, r.taken@)
}

/// The field contents of a sequence of records.
pub open spec fn records_view(rs: Seq<CsvRecord>) -> Seq<(Seq<char>, Seq<char>, Seq<char>)> {
    rs.map_values(|r: CsvRecord| record_view(r))
}

/// The record a missed entry is exported as.
pub open spec fn missed_record(e: MedView) -> (Seq<char>, Seq<char>, Seq<char>) {
    (e.name, spec_time_str(e.time), "false"@)
}

/// The records for a sequence of missed entries, in order.
pub open spec fn missed_records(missed: Seq<MedView>) -> Seq<(Seq<char>, Seq<char>, Seq<char>)> {
    missed.map_values(|e: MedView| missed_record(e))
}

/// The bytes the CSV encoder produces for given records.
pub uninterp spec fn csv_encoding(rows: Seq<(Seq<char>, Seq<char>, Seq<char>)>) -> Seq<u8>;

/// Relies on csv::Writer::write_record over an in-memory buffer: the bytes
/// are a function of the record fields alone, each record gets its own
/// terminated line, and zero records write zero bytes.
#[verifier::external_body]
fn encode_records(rows: &Vec<CsvRecord>) -> (r: Vec<u8>)
    ensures
        r@ == csv_encoding(records_view(rows@)),
        rows@.len() == 0 ==> r@.len() == 0,
{
    let mut w = csv::Writer::from_writer(Vec::new());
    for row in rows.iter() {
        let _ = w.write_record([row.name.as_bytes(), row.time.as_bytes(), row.taken.as_bytes()]);
    }
    match w.into_inner() {
        Ok(bytes) => bytes,
        Err(_) => Vec::new(),
    }
}

/// Renders missed entries as CSV records, in order: name, `HH:MM`, `false`.
pub fn render_missed_records(missed: &Vec<Medication>) -> (rows: Vec<CsvRecord>)
    requires
        forall|k: int| 0 <= k < missed@.len() ==> (#[trigger] missed@[k])@.time.wf(),
    ensures
        records_view(rows@) == missed_records(missed.deep_view()),
{
    let mut rows: Vec<CsvRecord> = Vec::new();
    let mut k: usize = 0;
    while k < missed.len()
        invariant
            k <= missed@.len(),
            rows@.len() == k,
            forall|t: int| 0 <= t < missed@.len() ==> (#[trigger] missed@[t])@.time.wf(),
            forall|t: int|
                0 <= t < k ==> record_view(#[trigger] rows@[t]) == missed_record(missed@[t]@),
        decreases missed@.len() - k,
    {
        let m = &missed[k];
        let rec = CsvRecord {
            name: m.name.clone(),
            time: format_time(m.time),
            taken: String::from_str("false"),
        };
        rows.push(rec);
        k = k + 1;
    }
    proof {
        assert forall|t: int| 0 <= t < rows@.len() implies records_view(rows@)[t] == missed_records(
            missed.deep_view(),
        )[t] by {
            assert(missed.deep_view()[t] == missed@[t]@);
        }
        assert(records_view(rows@) =~= missed_records(missed.deep_view()));
    }
    rows
}

impl MedicationSchedule {
    /// Encodes every entry currently missed against `now`, across all dates
    /// in stored order, as CSV records `{name, HH:MM, false}`. Zero missed
    /// entries produce zero bytes.
    pub fn export_missed_doses(&self, now: TimeOfDay) -> (r: Vec<u8>)
        requires
            self.wf(),
        ensures
            r@ == csv_encoding(missed_records(missed_of(self@, now))),
            missed_of(self@, now).len() == 0 ==> r@.len() == 0,
    {
        let missed = self.collect_missed(now);
        let rows = render_missed_records(&missed);
        proof {
            assert(records_view(rows@).len() == rows@.len());
            assert(missed_records(missed.deep_view()).len() == missed_of(self@, now).len());
        }
        encode_records(&rows)
    }

    /// Encodes the missed doses against the clock source's current time.
    pub fn export_missed_now(&self) -> (r: Vec<u8>)
        requires
            self.wf(),
        ensures
            exists|now: TimeOfDay|
                now.wf() && r@ == csv_encoding(missed_records(#[trigger] missed_of(self@, now))),
    {
        let t = clock_tick();
        let r = self.export_missed_doses(t.time);
        proof {
            assert(r@ == csv_encoding(missed_records(missed_of(self@, t.time))));
        }
        r
    }
}

} // verus!
