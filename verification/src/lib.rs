//! A single-user daily medication reminder library.
//!
//! The schedule store maps calendar dates to ordered sequences of medication
//! entries; a pure evaluator classifies each entry as taken, pending or
//! missed against a time of day; missed doses are encoded as CSV records.

mod clock;
mod error;
mod export;
mod session;
mod status;
mod store;
mod time;

pub use clock::Tick;
pub use clock::clock_tick;
pub use export::CsvRecord;
pub use export::csv_encoding;
pub use export::missed_record;
pub use export::missed_records;
pub use export::record_view;
pub use export::records_view;
pub use export::render_missed_records;
pub use session::Command;
pub use session::due_now;
pub use session::due_reminders;
pub use session::listing_label;
pub use session::parse_command;
pub use session::spec_parse_command;
pub use store::lemma_add_then_entries;
pub use store::lemma_mark_then_entries;
pub use store::lemma_missed_in_day_empty;
pub use store::lemma_missed_of_empty;
pub use store::missed_in_day;
pub use store::missed_of;

pub use status::DoseStatus;
pub use status::dose_status;
pub use status::is_missed;
pub use status::lemma_taken_wins;
pub use status::lemma_untaken_split;
pub use status::spec_status;

pub use error::ScheduleError;
pub use store::DayView;
pub use store::MedView;
pub use store::Medication;
pub use store::MedicationSchedule;
pub use store::add_spec;
pub use store::entries_of;
pub use store::has_date;
pub use store::index_of_date;
pub use store::mark_entry_spec;
pub use store::mark_spec;
pub use time::TimeOfDay;
pub use time::format_time;
pub use time::parse_time;
