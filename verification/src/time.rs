//! Times of day at hour:minute granularity, with strict `HH:MM` parsing
//! and zero-padded formatting.

use vstd::prelude::*;

use crate::error::ScheduleError;

verus! {

/// A decimal digit character.
pub open spec fn is_time_digit(c: char) -> bool {
    '0' <= c && c <= '9'
}

/// The numeric value of a decimal digit character.
pub open spec fn digit_val(c: char) -> int {
    c as int - '0' as int
}

/// A string is a valid time exactly when it is `HH:MM`: zero-padded,
/// 24-hour, both fields in range.
pub open spec fn valid_time_str(s: Seq<char>) -> bool {
    &&& s.len() == 5
    &&& is_time_digit(s[0])
    &&& is_time_digit(s[1])
    &&& s[2] == ':'
    &&& is_time_digit(s[3])
    &&& is_time_digit(s[4])
    &&& 10 * digit_val(s[0]) + digit_val(s[1]) < 24
    &&& 10 * digit_val(s[3]) + digit_val(s[4]) < 60
}

/// The time of day a valid time string denotes.
pub open spec fn parsed_time(s: Seq<char>) -> TimeOfDay {
    TimeOfDay {
        hour: (10 * digit_val(s[0]) + digit_val(s[1])) as u8,
        minute: (10 * digit_val(s[3]) + digit_val(s[4])) as u8,
    }
}

/// The decimal digit character for a value below ten.
pub open spec fn spec_digit_char(d: int) -> char {
    if d == 0 {
        '0'
    } else if d == 1 {
        '1'
    } else if d == 2 {
        '2'
    } else if d == 3 {
        '3'
    } else if d == 4 {
        '4'
    } else if d == 5 {
        '5'
    } else if d == 6 {
        '6'
    } else if d == 7 {
        '7'
    } else if d == 8 {
        '8'
    } else {
        '9'
    }
}

/// The `HH:MM` rendering of a time of day.
pub open spec fn spec_time_str(t: TimeOfDay) -> Seq<char> {
    seq![
        spec_digit_char(t.hour as int / 10),
        spec_digit_char(t.hour as int % 10),
        ':',
        spec_digit_char(t.minute as int / 10),
        spec_digit_char(t.minute as int % 10),
    ]
}

/// A time of day, at hour:minute granularity.
#[derive(Clone, Copy, Debug, PartialEq, Eq, Structural)]
pub struct TimeOfDay {
    pub hour: u8,
    pub minute: u8,
}

impl TimeOfDay {
    /// A well-formed time of day lies on a 24-hour clock.
    pub open spec fn wf(self) -> bool {
        self.hour < 24 && self.minute < 60
    }

    /// Minutes elapsed since midnight; the order on times of day.
    pub open spec fn spec_minutes(self) -> int {
        self.hour as int * 60 + self.minute as int
    }

    /// Strictly earlier in the day than `other`.
    pub open spec fn spec_lt(self, other: TimeOfDay) -> bool {
        self.spec_minutes() < other.spec_minutes()
    }

    /// No later in the day than `other`.
    pub open spec fn spec_le(self, other: TimeOfDay) -> bool {
        self.spec_minutes() <= other.spec_minutes()
    }

    /// Builds a time of day, rejecting values off the 24-hour clock.
    pub fn new(hour: u8, minute: u8) -> (r: Option<TimeOfDay>)
        ensures
            hour < 24 && minute < 60 ==> r == Some(TimeOfDay { hour, minute }),
            !(hour < 24 && minute < 60) ==> r is None,
    {
        if hour < 24 && minute < 60 {
            Some(TimeOfDay { hour, minute })
        } else {
            None
        }
    }

    /// Strict comparison: true when `self` is earlier in the day.
    pub fn is_before(self, other: TimeOfDay) -> (r: bool)
        ensures
            r == self.spec_lt(other),
    {
        (self.hour as u16 * 60 + self.minute as u16) < (other.hour as u16 * 60
            + other.minute as u16)
    }

    /// Inclusive comparison: true when `self` is no later in the day.
    pub fn is_at_or_before(self, other: TimeOfDay) -> (r: bool)
        ensures
            r == self.spec_le(other),
    {
        (self.hour as u16 * 60 + self.minute as u16) <= (other.hour as u16 * 60
            + other.minute as u16)
    }
}

/// Parses a time string against the strict zero-padded 24-hour `HH:MM`
/// format; any other shape or an out-of-range field is a `ParseError`.
pub fn parse_time(s: &str) -> (r: Result<TimeOfDay, ScheduleError>)
    ensures
        valid_time_str(s@) ==> r == Ok::<TimeOfDay, ScheduleError>(parsed_time(s@)),
        !valid_time_str(s@) ==> r == Err::<TimeOfDay, ScheduleError>(ScheduleError::ParseError),
        r is Ok ==> r->Ok_0.wf(),
{
    let n = s.unicode_len();
    if n != 5 {
        return Err(ScheduleError::ParseError);
    }
    let c0 = s.get_char(0);
    let c1 = s.get_char(1);
    let c2 = s.get_char(2);
    let c3 = s.get_char(3);
    let c4 = s.get_char(4);
    let d0 = c0 as u32;
    let d1 = c1 as u32;
    let d3 = c3 as u32;
    let d4 = c4 as u32;
    if c2 != ':' || d0 < 48 || d0 > 57 || d1 < 48 || d1 > 57 || d3 < 48 || d3 > 57 || d4 < 48
        || d4 > 57 {
        return Err(ScheduleError::ParseError);
    }
    let hour: u32 = 10 * (d0 - 48) + (d1 - 48);
    let minute: u32 = 10 * (d3 - 48) + (d4 - 48);
    if hour >= 24 || minute >= 60 {
        return Err(ScheduleError::ParseError);
    }
    Ok(TimeOfDay { hour: hour as u8, minute: minute as u8 })
}

/// The one-character string for a decimal digit value.
fn digit_str(d: u8) -> (r: &'static str)
    requires
        d < 10,
    ensures
        r@.len() == 1,
        r@[0] == spec_digit_char(d as int),
{
    proof {
        reveal_strlit("0");
        reveal_strlit("1");
        reveal_strlit("2");
        reveal_strlit("3");
        reveal_strlit("4");
        reveal_strlit("5");
        reveal_strlit("6");
        reveal_strlit("7");
        reveal_strlit("8");
        reveal_strlit("9");
    }
    match d {
        0 => "0",
        1 => "1",
        2 => "2",
        3 => "3",
        4 => "4",
        5 => "5",
        6 => "6",
        7 => "7",
        8 => "8",
        _ => "9",
    }
}

/// Renders a time of day as zero-padded 24-hour `HH:MM`.
pub fn format_time(t: TimeOfDay) -> (r: String)
    requires
        t.wf(),
    ensures
        r@ == spec_time_str(t),
{
    proof {
        reveal_strlit(":");
    }
    let r = String::from_str(digit_str(t.hour / 10)).concat(digit_str(t.hour % 10)).concat(
        ":",
    ).concat(digit_str(t.minute / 10)).concat(digit_str(t.minute % 10));
    proof {
        assert(r@ =~= spec_time_str(t));
    }
    r
}

/// Formatting a well-formed time of day always yields a valid time string,
/// and parsing it back returns the same time.
pub proof fn lemma_time_round_trip(t: TimeOfDay)
    requires
        t.wf(),
    ensures
        valid_time_str(spec_time_str(t)),
        parsed_time(spec_time_str(t)) == t,
{
}

} // verus!
