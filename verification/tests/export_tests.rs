use med_reminder::{
    dose_status, render_missed_records, DoseStatus, Medication, MedicationSchedule, TimeOfDay,
};

fn entry(name: &str, hour: u8, minute: u8) -> Medication {
    Medication { name: name.to_string(), time: TimeOfDay { hour, minute }, taken: false }
}

#[test]
fn export_with_no_missed_doses_is_empty() {
    let mut s = MedicationSchedule::new();
    let date = "2024-05-01".to_string();
    s.add_medication(date.clone(), entry("future", 22, 0));
    s.add_medication(date.clone(), entry("taken", 6, 0));
    s.mark_taken(&date, 1).unwrap();

    let bytes = s.export_missed_doses(TimeOfDay { hour: 12, minute: 0 });
    assert!(bytes.is_empty());
}

#[test]
fn export_on_empty_store_is_empty() {
    let s = MedicationSchedule::new();
    assert!(s.export_missed_doses(TimeOfDay { hour: 12, minute: 0 }).is_empty());
}

#[test]
fn export_encodes_one_record_per_missed_dose() {
    let mut s = MedicationSchedule::new();
    s.add_medication("2024-05-01".to_string(), entry("Aspirin", 8, 0));
    let bytes = s.export_missed_doses(TimeOfDay { hour: 8, minute: 1 });
    assert_eq!(String::from_utf8(bytes).unwrap(), "Aspirin,08:00,false\n");
}

#[test]
fn export_keeps_store_order() {
    let mut s = MedicationSchedule::new();
    s.add_medication("2024-05-01".to_string(), entry("first", 7, 0));
    s.add_medication("2024-05-02".to_string(), entry("second", 7, 30));
    let bytes = s.export_missed_doses(TimeOfDay { hour: 9, minute: 0 });
    assert_eq!(String::from_utf8(bytes).unwrap(), "first,07:00,false\nsecond,07:30,false\n");
}

#[test]
fn export_quotes_names_that_need_it() {
    let mut s = MedicationSchedule::new();
    s.add_medication("2024-05-01".to_string(), entry("twice,daily", 8, 0));
    let bytes = s.export_missed_doses(TimeOfDay { hour: 9, minute: 0 });
    assert_eq!(String::from_utf8(bytes).unwrap(), "\"twice,daily\",08:00,false\n");
}

#[test]
fn render_fields_are_name_time_false() {
    let missed = vec![entry("Aspirin", 8, 0)];
    let rows = render_missed_records(&missed);
    assert_eq!(rows.len(), 1);
    assert_eq!(rows[0].name, "Aspirin");
    assert_eq!(rows[0].time, "08:00");
    assert_eq!(rows[0].taken, "false");
}

#[test]
fn pending_then_missed_then_excluded_once_taken() {
    let today = "2024-05-01".to_string();
    let mut s = MedicationSchedule::new();
    s.add_medication(today.clone(), entry("Aspirin", 8, 0));

    let listed = s.entries_for(&today);
    assert_eq!(listed.len(), 1);
    assert!(!listed[0].taken);
    assert_eq!(
        dose_status(&listed[0], TimeOfDay { hour: 7, minute: 59 }),
        DoseStatus::Pending
    );

    let bytes = s.export_missed_doses(TimeOfDay { hour: 8, minute: 1 });
    assert_eq!(String::from_utf8(bytes).unwrap(), "Aspirin,08:00,false\n");

    s.mark_taken(&today, 0).unwrap();
    let later = s.export_missed_doses(TimeOfDay { hour: 23, minute: 59 });
    assert!(later.is_empty());
}
