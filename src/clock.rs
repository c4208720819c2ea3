//! Clock-derived text, and the substring rule shared by clock and JSON values.
use vstd::prelude::*;
use crate::text::{chars_of, decimal, push_char, push_decimal, string_of};
use crate::variables::Substring;

verus! {

/// A reading of the local wall clock, in plain fields.
#[derive(Clone, Copy, Debug)]
pub struct ClockReading {
    /// 0 to 23.
    pub hour: u32,
    /// 0 to 59.
    pub minute: u32,
    /// Days since Monday, 0 to 6.
    pub weekday: u32,
    /// 1 to 31.
    pub day: u32,
    /// 1 to 12.
    pub month: u32,
    pub year: u32,
}

impl ClockReading {
    pub open spec fn wf(&self) -> bool {
        self.hour < 24 && self.minute < 60 && self.weekday < 7 && 1 <= self.day <= 31 && 1
            <= self.month <= 12
    }
}

/// Where a substring ends for an end rule `e` on a text of `len` characters.
pub open spec fn substr_end(e: int, len: int) -> int {
    if e == 0 {
        len
    } else if e < 0 {
        if len + e < 0 {
            0
        } else {
            len + e
        }
    } else if e < len {
        e
    } else {
        len
    }
}

/// The text that a substring rule keeps; empty where the start lies past the end.
pub open spec fn substring_of(data: Seq<char>, sub: Substring) -> Seq<char> {
    match sub {
        None => data,
        Some((start, e)) => {
            let end = substr_end(e as int, data.len() as int);
            if start <= end {
                data.subrange(start as int, end)
            } else {
                Seq::empty()
            }
        },
    }
}

/// Where a substring ends for the end rule `e_in` on a text of `length`
/// characters: the whole length for `0`, `|e_in|` fewer for a negative rule
/// (never below zero), and `e_in` clamped to the length otherwise.
pub fn determine_substr_end(e_in: i16, length: usize) -> (r: usize)
    ensures
        r as int == substr_end(e_in as int, length as int),
{
    if e_in == 0 {
        length
    } else if e_in < 0 {
        let back: usize = if e_in == i16::MIN {
            32768
        } else {
            (-e_in) as usize
        };
        length.saturating_sub(back)
    } else if (e_in as usize) < length {
        e_in as usize
    } else {
        length
    }
}

/// Applies a substring rule to `data`.
pub fn apply_substring(data: &str, sub: Substring) -> (r: String)
    ensures
        r@ == substring_of(data@, sub),
{
    match sub {
        None => data.to_owned(),
        Some((start, e)) => {
            let cs = chars_of(data);
            let end = determine_substr_end(e, cs.len());
            let mut out: Vec<char> = Vec::new();
            if (start as usize) <= end {
                let mut i: usize = start as usize;
                while i < end
                    invariant
                        start as usize <= i <= end,
                        end <= cs@.len(),
                        out@ == cs@.subrange(start as int, i as int),
                    decreases end - i,
                {
                    out.push(cs[i]);
                    i = i + 1;
                    assert(out@ =~= cs@.subrange(start as int, i as int));
                }
            } else {
                assert(out@ =~= Seq::<char>::empty());
            }
            string_of(&out)
        },
    }
}

pub open spec fn weekday_name(d: int) -> Seq<char> {
    if d == 0 {
        "Monday"@
    } else if d == 1 {
        "Tuesday"@
    } else if d == 2 {
        "Wednesday"@
    } else if d == 3 {
        "Thursday"@
    } else if d == 4 {
        "Friday"@
    } else if d == 5 {
        "Saturday"@
    } else {
        "Sunday"@
    }
}

pub open spec fn month_name(m: int) -> Seq<char> {
    if m == 1 {
        "Jan"@
    } else if m == 2 {
        "Feb"@
    } else if m == 3 {
        "Mar"@
    } else if m == 4 {
        "Apr"@
    } else if m == 5 {
        "May"@
    } else if m == 6 {
        "Jun"@
    } else if m == 7 {
        "July"@
    } else if m == 8 {
        "Aug"@
    } else if m == 9 {
        "Sept"@
    } else if m == 10 {
        "Oct"@
    } else if m == 11 {
        "Nov"@
    } else if m == 12 {
        "Dec"@
    } else {
        "Nul"@
    }
}

/// The name of the day that lies `days_from_monday` days after a Monday (0 to 6).
pub fn weekday_to_string(days_from_monday: u32) -> (r: String)
    requires
        days_from_monday < 7,
    ensures
        r@ == weekday_name(days_from_monday as int),
{
    match days_from_monday {
        0 => "Monday".to_owned(),
        1 => "Tuesday".to_owned(),
        2 => "Wednesday".to_owned(),
        3 => "Thursday".to_owned(),
        4 => "Friday".to_owned(),
        5 => "Saturday".to_owned(),
        _ => "Sunday".to_owned(),
    }
}

/// The short name of month `month` (1 to 12), or `Nul` for any other number.
pub fn month_to_string(month: u32) -> (r: String)
    ensures
        r@ == month_name(month as int),
{
    match month {
        1 => "Jan".to_owned(),
        2 => "Feb".to_owned(),
        3 => "Mar".to_owned(),
        4 => "Apr".to_owned(),
        5 => "May".to_owned(),
        6 => "Jun".to_owned(),
        7 => "July".to_owned(),
        8 => "Aug".to_owned(),
        9 => "Sept".to_owned(),
        10 => "Oct".to_owned(),
        11 => "Nov".to_owned(),
        12 => "Dec".to_owned(),
        _ => "Nul".to_owned(),
    }
}

/// Two decimal digits of `n < 100`.
pub open spec fn two_digits(n: int) -> Seq<char> {
    seq![(0x30 + n / 10) as char, (0x30 + n % 10) as char]
}

/// The hour on a twelve-hour dial: 12 for 0 and 12.
pub open spec fn dial_hour(h: int) -> int {
    if h % 12 == 0 {
        12
    } else {
        h % 12
    }
}

/// `HH:MM AM` or `HH:MM PM`.
pub open spec fn time_text(h: int, m: int) -> Seq<char> {
    two_digits(dial_hour(h)) + seq![':'] + two_digits(m) + seq![' '] + if h < 12 {
        "AM"@
    } else {
        "PM"@
    }
}

/// `Mon D YYYY`.
pub open spec fn date_text(month: int, day: nat, year: nat) -> Seq<char> {
    month_name(month) + seq![' '] + decimal(day) + seq![' '] + decimal(year)
}

fn push_two_digits(s: &mut String, n: u32)
    requires
        n < 100,
    ensures
        final(s)@ == old(s)@ + two_digits(n as int),
{
    push_char(s, (0x30 + (n / 10) as u8) as char);
    push_char(s, (0x30 + (n % 10) as u8) as char);
    assert(final(s)@ =~= old(s)@ + two_digits(n as int));
}

/// The time of day as `HH:MM AM/PM`.
pub fn format_time(hour: u32, minute: u32) -> (r: String)
    requires
        hour < 24,
        minute < 60,
    ensures
        r@ == time_text(hour as int, minute as int),
{
    let mut s = String::new();
    let dial = if hour % 12 == 0 {
        12
    } else {
        hour % 12
    };
    push_two_digits(&mut s, dial);
    push_char(&mut s, ':');
    push_two_digits(&mut s, minute);
    push_char(&mut s, ' ');
    if hour < 12 {
        s.append("AM");
    } else {
        s.append("PM");
    }
    assert(s@ =~= time_text(hour as int, minute as int));
    s
}

/// The date as `Mon D YYYY`.
pub fn format_date(month: u32, day: u32, year: u32) -> (r: String)
    ensures
        r@ == date_text(month as int, day as nat, year as nat),
{
    let mut s = month_to_string(month);
    push_char(&mut s, ' ');
    push_decimal(&mut s, day);
    push_char(&mut s, ' ');
    push_decimal(&mut s, year);
    assert(s@ =~= date_text(month as int, day as nat, year as nat));
    s
}

/// The weekday `offset` days after the reading's, with a substring rule.
pub open spec fn weekday_text(c: ClockReading, offset: int, sub: Substring) -> Seq<char> {
    substring_of(weekday_name((c.weekday + offset) % 7), sub)
}

/// The weekday `offset` days after the reading's, with the substring rule applied.
pub fn format_weekday(clock: &ClockReading, offset: u8, sub: Substring) -> (r: String)
    requires
        clock.wf(),
    ensures
        r@ == weekday_text(*clock, offset as int, sub),
{
    let name = weekday_to_string((clock.weekday + offset as u32) % 7);
    apply_substring(name.as_str(), sub)
}

} // verus!
