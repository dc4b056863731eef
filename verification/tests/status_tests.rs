use med_reminder::{dose_status, DoseStatus, Medication, TimeOfDay};

fn entry(name: &str, hour: u8, minute: u8, taken: bool) -> Medication {
    Medication { name: name.to_string(), time: TimeOfDay { hour, minute }, taken }
}

#[test]
fn taken_wins_at_any_time() {
    let m = entry("aspirin", 8, 0, true);
    for (h, mi) in [(0u8, 0u8), (7, 59), (8, 0), (8, 1), (23, 59)] {
        assert_eq!(dose_status(&m, TimeOfDay { hour: h, minute: mi }), DoseStatus::Taken);
    }
}

#[test]
fn untaken_before_schedule_is_pending() {
    let m = entry("aspirin", 8, 0, false);
    assert_eq!(dose_status(&m, TimeOfDay { hour: 7, minute: 59 }), DoseStatus::Pending);
    assert_eq!(dose_status(&m, TimeOfDay { hour: 0, minute: 0 }), DoseStatus::Pending);
}

#[test]
fn untaken_at_exact_minute_is_pending() {
    let m = entry("aspirin", 8, 0, false);
    assert_eq!(dose_status(&m, TimeOfDay { hour: 8, minute: 0 }), DoseStatus::Pending);
}

#[test]
fn untaken_after_schedule_is_missed() {
    let m = entry("aspirin", 8, 0, false);
    assert_eq!(dose_status(&m, TimeOfDay { hour: 8, minute: 1 }), DoseStatus::Missed);
    assert_eq!(dose_status(&m, TimeOfDay { hour: 23, minute: 59 }), DoseStatus::Missed);
}
