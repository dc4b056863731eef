use med_reminder::{format_time, parse_time, ScheduleError, TimeOfDay};

#[test]
fn parse_valid_time() {
    assert_eq!(parse_time("08:00"), Ok(TimeOfDay { hour: 8, minute: 0 }));
    assert_eq!(parse_time("00:00"), Ok(TimeOfDay { hour: 0, minute: 0 }));
    assert_eq!(parse_time("23:59"), Ok(TimeOfDay { hour: 23, minute: 59 }));
    assert_eq!(parse_time("19:45"), Ok(TimeOfDay { hour: 19, minute: 45 }));
}

#[test]
fn parse_out_of_range_fails() {
    assert_eq!(parse_time("25:61"), Err(ScheduleError::ParseError));
    assert_eq!(parse_time("24:00"), Err(ScheduleError::ParseError));
    assert_eq!(parse_time("00:60"), Err(ScheduleError::ParseError));
}

#[test]
fn parse_unpadded_fails() {
    assert_eq!(parse_time("8:00"), Err(ScheduleError::ParseError));
    assert_eq!(parse_time("08:0"), Err(ScheduleError::ParseError));
}

#[test]
fn parse_malformed_fails() {
    assert_eq!(parse_time(""), Err(ScheduleError::ParseError));
    assert_eq!(parse_time("0800"), Err(ScheduleError::ParseError));
    assert_eq!(parse_time("ab:cd"), Err(ScheduleError::ParseError));
    assert_eq!(parse_time("08-00"), Err(ScheduleError::ParseError));
    assert_eq!(parse_time("08:000"), Err(ScheduleError::ParseError));
}

#[test]
fn format_zero_pads() {
    assert_eq!(format_time(TimeOfDay { hour: 8, minute: 0 }), "08:00");
    assert_eq!(format_time(TimeOfDay { hour: 23, minute: 5 }), "23:05");
    assert_eq!(format_time(TimeOfDay { hour: 0, minute: 0 }), "00:00");
}

#[test]
fn format_then_parse_round_trips() {
    let t = parse_time("19:45").unwrap();
    assert_eq!(format_time(t), "19:45");
    assert_eq!(parse_time(&format_time(t)), Ok(t));
}

#[test]
fn comparison_is_strict_on_minutes() {
    let t0800 = TimeOfDay { hour: 8, minute: 0 };
    let t0801 = TimeOfDay { hour: 8, minute: 1 };
    assert!(t0800.is_before(t0801));
    assert!(!t0800.is_before(t0800));
    assert!(t0800.is_at_or_before(t0800));
    assert!(!t0801.is_at_or_before(t0800));
}

#[test]
fn new_rejects_off_clock_values() {
    assert_eq!(TimeOfDay::new(7, 30), Some(TimeOfDay { hour: 7, minute: 30 }));
    assert_eq!(TimeOfDay::new(24, 0), None);
    assert_eq!(TimeOfDay::new(0, 60), None);
}
