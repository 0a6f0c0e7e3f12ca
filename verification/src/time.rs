//! The modification time of an entry as the listing shows it.

use vstd::prelude::*;
use vstd::string::*;
use chrono::{Datelike, Timelike};
use crate::text::{digit_str, two_digits};

verus! {

/// The calendar fields of an instant that the listing shows.
#[derive(Clone, Copy, Debug, PartialEq, Eq, Structural)]
pub struct WallClock {
    /// The day of the month, from 1.
    pub day: u32,
    /// The month, from 1.
    pub month: u32,
    /// The hour of the day, from 0.
    pub hour: u32,
    /// The minute of the hour, from 0.
    pub minute: u32,
}

impl WallClock {
    /// Whether the fields name a day, a month, an hour and a minute.
    pub open spec fn well_formed(self) -> bool {
        &&& 1 <= self.day <= 31
        &&& 1 <= self.month <= 12
        &&& self.hour <= 23
        &&& self.minute <= 59
    }

    /// Whether the fields name a day, a month, an hour and a minute.
    pub fn is_well_formed(&self) -> (b: bool)
        ensures
            b == self.well_formed(),
    {
        1 <= self.day && self.day <= 31 && 1 <= self.month && self.month <= 12 && self.hour <= 23
            && self.minute <= 59
    }
}

/// The three-letter name of a month.
pub open spec fn month_name(month: int) -> Seq<char> {
    if month == 1 {
        "Jan"@
    } else if month == 2 {
        "Feb"@
    } else if month == 3 {
        "Mar"@
    } else if month == 4 {
        "Apr"@
    } else if month == 5 {
        "May"@
    } else if month == 6 {
        "Jun"@
    } else if month == 7 {
        "Jul"@
    } else if month == 8 {
        "Aug"@
    } else if month == 9 {
        "Sep"@
    } else if month == 10 {
        "Oct"@
    } else if month == 11 {
        "Nov"@
    } else {
        "Dec"@
    }
}

/// The fields as shown: the day in two digits, the month's name, and the
/// hour and the minute in two digits each, as in `05 Mar 14:32`.
pub open spec fn clock_text(clock: WallClock) -> Seq<char> {
    two_digits(clock.day as nat) + seq![' '] + month_name(clock.month as int) + seq![' ']
        + two_digits(clock.hour as nat) + seq![':'] + two_digits(clock.minute as nat)
}

/// What stands for an instant that could not be placed in the calendar.
pub open spec fn unknown_time_text() -> Seq<char> {
    "unknown"@
}

/// The instant as shown, given the fields that the calendar gave for it.
pub open spec fn time_text(clock: Option<WallClock>) -> Seq<char> {
    match clock {
        Some(fields) => if fields.well_formed() {
            clock_text(fields)
        } else {
            unknown_time_text()
        },
        None => unknown_time_text(),
    }
}

fn month_str(month: u32) -> (s: &'static str)
    ensures
        s@ == month_name(month as int),
{
    match month {
        1 => "Jan",
        2 => "Feb",
        3 => "Mar",
        4 => "Apr",
        5 => "May",
        6 => "Jun",
        7 => "Jul",
        8 => "Aug",
        9 => "Sep",
        10 => "Oct",
        11 => "Nov",
        _ => "Dec",
    }
}

fn push_two_digits(out: &mut String, n: u32)
    requires
        n < 100,
    ensures
        final(out)@ == old(out)@ + two_digits(n as nat),
{
    out.append(digit_str((n / 10) as u8));
    out.append(digit_str((n % 10) as u8));
    assert(final(out)@ =~= old(out)@ + two_digits(n as nat));
}

/// Renders calendar fields as the listing shows them.
pub fn format_clock(clock: &WallClock) -> (s: String)
    requires
        clock.well_formed(),
    ensures
        s@ == clock_text(*clock),
{
    proof {
        reveal_strlit(" ");
        reveal_strlit(":");
    }
    let mut s = String::new();
    push_two_digits(&mut s, clock.day);
    s.append(" ");
    s.append(month_str(clock.month));
    s.append(" ");
    push_two_digits(&mut s, clock.hour);
    s.append(":");
    push_two_digits(&mut s, clock.minute);
    assert(s@ =~= clock_text(*clock));
    s
}

/// Chooses what to show for an instant, given the fields that the calendar
/// gave for it: the fields if they are well formed, and a placeholder if
/// there are none or they are not.
pub fn time_label(clock: Option<WallClock>) -> (s: String)
    ensures
        s@ == time_text(clock),
{
    match clock {
        Some(fields) => {
            if fields.is_well_formed() {
                format_clock(&fields)
            } else {
                String::from_str("unknown")
            }
        },
        None => String::from_str("unknown"),
    }
}

/// A well-formed date has twelve characters: two digits, a space, the three
/// letters of the month, a space, and two digits, a colon and two digits.
pub proof fn law_clock_text_layout(clock: WallClock)
    requires
        clock.well_formed(),
    ensures
        clock_text(clock).len() == 12,
        clock_text(clock).subrange(0, 2) == two_digits(clock.day as nat),
        clock_text(clock)[2] == ' ',
        clock_text(clock).subrange(3, 6) == month_name(clock.month as int),
        clock_text(clock)[6] == ' ',
        clock_text(clock).subrange(7, 9) == two_digits(clock.hour as nat),
        clock_text(clock)[9] == ':',
        clock_text(clock).subrange(10, 12) == two_digits(clock.minute as nat),
{
    reveal_strlit("Jan");
    reveal_strlit("Feb");
    reveal_strlit("Mar");
    reveal_strlit("Apr");
    reveal_strlit("May");
    reveal_strlit("Jun");
    reveal_strlit("Jul");
    reveal_strlit("Aug");
    reveal_strlit("Sep");
    reveal_strlit("Oct");
    reveal_strlit("Nov");
    reveal_strlit("Dec");
    let text = clock_text(clock);
    assert(month_name(clock.month as int).len() == 3);
    assert(text.subrange(0, 2) =~= two_digits(clock.day as nat));
    assert(text.subrange(3, 6) =~= month_name(clock.month as int));
    assert(text.subrange(7, 9) =~= two_digits(clock.hour as nat));
    assert(text.subrange(10, 12) =~= two_digits(clock.minute as nat));
}

/// The calendar fields, in universal time, of the instant `seconds` after
/// the epoch, as `chrono` computes them; `None` for an instant that it
/// cannot place.
pub uninterp spec fn utc_clock(seconds: int) -> Option<WallClock>;

/// The beginning of the year 10000 in universal time, in seconds after
/// the epoch.
pub const YEAR_10000: u64 = 253402300800;

/// The seconds of a day. Local time is less than this ahead of universal
/// time or behind it.
pub const DAY: u64 = 86400;

/// Whether the instant is sure to be placed in the calendar: it lies no
/// more than a day before the epoch and less than a day after the beginning
/// of the year 10000.
pub open spec fn is_placed(seconds: int) -> bool {
    -DAY <= seconds < YEAR_10000 + DAY
}

/// Whether the fields are well formed and hold the hour and the minute of the
/// instant `seconds` after the epoch.
pub open spec fn tells_time_of(fields: WallClock, seconds: int) -> bool {
    &&& fields.well_formed()
    &&& fields.hour == (seconds % 86400) / 3600
    &&& fields.minute == (seconds % 3600) / 60
}

/// The instant `epoch_seconds` as shown where local time is `ahead` seconds
/// ahead of universal time (behind it, if negative): the calendar fields of
/// the instant that many seconds later. Where no offset is known, or the
/// later instant is out of the range of 64 bits, the placeholder is shown.
pub open spec fn local_time_text(epoch_seconds: u64, ahead: Option<i32>) -> Seq<char> {
    match ahead {
        Some(seconds) => if epoch_seconds + seconds <= i64::MAX {
            time_text(utc_clock(epoch_seconds + seconds))
        } else {
            unknown_time_text()
        },
        None => unknown_time_text(),
    }
}

/// Whether `text` is the date of the instant `seconds`, read as universal
/// time: the calendar places the instant, and the text shows its fields, the
/// hour and the minute among them.
pub open spec fn shows_time_of(text: Seq<char>, seconds: int) -> bool {
    &&& utc_clock(seconds) matches Some(fields)
    &&& tells_time_of(fields, seconds)
    &&& text == clock_text(fields)
    &&& text.len() == 12
}

/// Whether `text` is what is shown for the instant `epoch_seconds` where
/// local time is `ahead` seconds ahead of universal time: it is
/// `local_time_text`, and a date wherever the instant in local time is sure
/// to be placed.
pub open spec fn is_local_time_text(text: Seq<char>, epoch_seconds: u64, ahead: Option<i32>) -> bool {
    &&& text == local_time_text(epoch_seconds, ahead)
    &&& match ahead {
        Some(seconds) => is_placed(epoch_seconds + seconds) ==> shows_time_of(
            text,
            epoch_seconds + seconds,
        ),
        None => true,
    }
}

/// Calls `chrono::DateTime::from_timestamp` and reads the day, the month,
/// the hour and the minute of the result, which is in universal time.
/// The fields are a function of the argument alone, and the contract gives
/// them their name. Besides it claims what the source of `chrono` shows:
/// that an instant from the day before the epoch to the day after the
/// beginning of the year 10000 is placed, that the fields lie in the
/// ranges of a calendar, and that the hour and the minute are those of the
/// seconds since midnight.
#[verifier::external_body]
fn utc_fields(seconds: i64) -> (clock: Option<WallClock>)
    ensures
        clock == utc_clock(seconds as int),
        is_placed(seconds as int) ==> clock is Some,
        clock matches Some(fields) ==> tells_time_of(fields, seconds as int),
{
    let utc = chrono::DateTime::from_timestamp(seconds, 0)?;
    Some(WallClock { day: utc.day(), month: utc.month(), hour: utc.hour(), minute: utc.minute() })
}

/// The instant `epoch_seconds` after the epoch as shown in local time, which
/// is `ahead` seconds ahead of universal time at that instant (behind it, if
/// negative). `None` stands for an offset that could not be read; the
/// placeholder is then shown.
pub fn system_time_to_human_time(epoch_seconds: u64, ahead: Option<i32>) -> (s: String)
    ensures
        is_local_time_text(s@, epoch_seconds, ahead),
{
    match ahead {
        Some(seconds) => {
            let local: i128 = epoch_seconds as i128 + seconds as i128;
            if local > i64::MAX as i128 {
                time_label(None)
            } else {
                let clock = utc_fields(local as i64);
                proof {
                    if clock is Some {
                        law_clock_text_layout(clock->0);
                    }
                }
                time_label(clock)
            }
        },
        None => time_label(None),
    }
}

} // verus!
