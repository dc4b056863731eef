use med_reminder::{
    clock_tick, due_reminders, listing_label, parse_command, Command, Medication,
    MedicationSchedule, TimeOfDay,
};

fn entry(name: &str, hour: u8, minute: u8, taken: bool) -> Medication {
    Medication { name: name.to_string(), time: TimeOfDay { hour, minute }, taken }
}

#[test]
fn menu_digits_map_to_commands() {
    assert_eq!(parse_command("1"), Command::AddMedication);
    assert_eq!(parse_command("2"), Command::ListToday);
    assert_eq!(parse_command("3"), Command::MarkTaken);
    assert_eq!(parse_command("4"), Command::ExportMissed);
    assert_eq!(parse_command("5"), Command::Exit);
}

#[test]
fn other_lines_are_unknown() {
    assert_eq!(parse_command(""), Command::Unknown);
    assert_eq!(parse_command("6"), Command::Unknown);
    assert_eq!(parse_command("12"), Command::Unknown);
    assert_eq!(parse_command("add"), Command::Unknown);
}

#[test]
fn listing_label_uses_taken_flag_only() {
    assert_eq!(listing_label(&entry("a", 8, 0, true)), "Taken");
    assert_eq!(listing_label(&entry("a", 8, 0, false)), "Pending");
}

#[test]
fn reminders_include_due_untaken_entries_only() {
    let meds = vec![
        entry("earlier", 7, 0, false),
        entry("boundary", 8, 0, false),
        entry("later", 9, 0, false),
        entry("done", 7, 30, true),
    ];
    let due = due_reminders(&meds, TimeOfDay { hour: 8, minute: 0 });
    let names: Vec<&str> = due.iter().map(|m| m.name.as_str()).collect();
    assert_eq!(names, ["earlier", "boundary"]);
}

#[test]
fn clock_tick_snapshot_is_well_formed() {
    let t = clock_tick();
    assert!(t.date.len() >= 10);
    assert!(t.time.hour < 24);
    assert!(t.time.minute < 60);
}

#[test]
fn list_today_on_empty_store_is_empty() {
    let s = MedicationSchedule::new();
    assert!(s.list_today().is_empty());
    assert!(s.export_missed_now().is_empty());
}
