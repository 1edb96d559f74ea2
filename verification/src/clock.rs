//! The time of day: how it is shown, and the hours at which the screen sleeps.
use chrono::Timelike;
use vstd::prelude::*;
use crate::number::{decimal, digit_char, digit_value};
use crate::text::is_digit;

verus! {

/// The format of a time of day in the settings.
pub open spec fn clock_format() -> Seq<char> {
    "%H:%M"@
}

/// The time of day that chrono reads from a text by a format: the seconds since midnight and the
/// nanoseconds.
pub uninterp spec fn naive_time(s: Seq<char>, format: Seq<char>) -> Option<(u32, u32)>;

/// Two digits, a colon and two digits.
pub open spec fn is_hhmm(s: Seq<char>) -> bool {
    s.len() == 5 && is_digit(s[0]) && is_digit(s[1]) && s[2] == ':' && is_digit(s[3]) && is_digit(
        s[4],
    )
}

pub open spec fn two_digits(a: char, b: char) -> nat {
    10 * digit_value(a) + digit_value(b)
}

/// The time of day that hours and minutes of two digits each stand for, if there is one.
pub open spec fn hhmm_time(s: Seq<char>) -> Option<(u32, u32)> {
    let hours = two_digits(s[0], s[1]);
    let minutes = two_digits(s[3], s[4]);
    if hours < 24 && minutes < 60 {
        Some(((hours * 3600 + minutes * 60) as u32, 0))
    } else {
        None
    }
}

/// `chrono::NaiveTime::parse_from_str`, with the time given as seconds since midnight and
/// nanoseconds. The time is one of a day. By the format of hours and minutes it has neither
/// seconds nor nanoseconds, and a text of two digits, a colon and two digits gives just those
/// hours and minutes. What other texts give is left to the name.
#[verifier::external_body]
fn parse_naive_time(s: &str, format: &str) -> (r: Option<(u32, u32)>)
    ensures
        r == naive_time(s@, format@),
        r matches Some(t) ==> t.0 < 86_400 && t.1 < 2_000_000_000,
        format@ == clock_format() ==> (r matches Some(t) ==> t.0 % 60 == 0 && t.1 == 0),
        format@ == clock_format() && is_hhmm(s@) ==> r == hhmm_time(s@),
{
    match chrono::NaiveTime::parse_from_str(s, format) {
        Ok(t) => Some((t.num_seconds_from_midnight(), t.nanosecond())),
        Err(_) => None,
    }
}

/// `a` comes before `b` in the day.
pub open spec fn earlier(a: (u32, u32), b: (u32, u32)) -> bool {
    a.0 < b.0 || (a.0 == b.0 && a.1 < b.1)
}

/// `now` is at or behind `start` and before `end`; where `end` is not behind `start`, the time in
/// between runs over midnight.
pub open spec fn window(start: (u32, u32), end: (u32, u32), now: (u32, u32)) -> bool {
    if earlier(start, end) {
        !earlier(now, start) && earlier(now, end)
    } else {
        !earlier(now, start) || earlier(now, end)
    }
}

fn is_earlier(a: (u32, u32), b: (u32, u32)) -> (r: bool)
    ensures
        r == earlier(a, b),
{
    a.0 < b.0 || (a.0 == b.0 && a.1 < b.1)
}

/// Whether a time of day lies between two others.
pub fn in_window(start: (u32, u32), end: (u32, u32), now: (u32, u32)) -> (r: bool)
    ensures
        r == window(start, end, now),
{
    if is_earlier(start, end) {
        !is_earlier(now, start) && is_earlier(now, end)
    } else {
        !is_earlier(now, start) || is_earlier(now, end)
    }
}

/// The time of day that a setting gives.
pub fn clock_time(setting: &str) -> (r: Option<(u32, u32)>)
    ensures
        r == naive_time(setting@, clock_format()),
        r matches Some(t) ==> t.0 < 86_400 && t.0 % 60 == 0 && t.1 == 0,
        is_hhmm(setting@) ==> r == hhmm_time(setting@),
{
    parse_naive_time(setting, "%H:%M")
}

/// Whether the screen sleeps at a time of day. It never does where one of the two hours is
/// missing, or is no time.
pub fn is_sleep_time(start_str: &str, end_str: &str, now: (u32, u32)) -> (r: bool)
    ensures
        r == (start_str@.len() > 0 && end_str@.len() > 0 && match (
            naive_time(start_str@, clock_format()),
            naive_time(end_str@, clock_format()),
        ) {
            (Some(start), Some(end)) => window(start, end, now),
            _ => false,
        }),
        is_hhmm(start_str@) && is_hhmm(end_str@) ==> r == match (
            hhmm_time(start_str@),
            hhmm_time(end_str@),
        ) {
            (Some(start), Some(end)) => window(start, end, now),
            _ => false,
        },
{
    if start_str.is_empty() || end_str.is_empty() {
        return false;
    }
    let start = match clock_time(start_str) {
        Some(t) => t,
        None => {
            return false;
        },
    };
    let end = match clock_time(end_str) {
        Some(t) => t,
        None => {
            return false;
        },
    };
    in_window(start, end, now)
}

/// The sleep begins at its first moment and is over at its last, unless the two are the same:
/// then it never ends.
pub proof fn sleep_takes_in_its_start_and_not_its_end(
    start: (u32, u32),
    end: (u32, u32),
    now: (u32, u32),
)
    ensures
        window(start, end, start),
        start != end ==> !window(start, end, end),
        start == end ==> window(start, end, now),
{
}

/// The waking hours are those between the end of the sleep and its start.
pub proof fn waking_hours_are_the_rest(start: (u32, u32), end: (u32, u32), now: (u32, u32))
    requires
        start != end,
    ensures
        window(start, end, now) <==> !window(end, start, now),
{
}

/// A moment: seconds since an epoch, and nanoseconds.
#[derive(Clone, Copy, Debug, PartialEq, Eq, Structural)]
pub struct Stamp {
    pub secs: i64,
    pub nanos: u32,
}

/// The first and the last second that a date can have.
pub const MIN_SECS: i64 = -8_334_601_228_800;

pub const MAX_SECS: i64 = 8_210_266_876_799;

pub const DAY_SECS: i64 = 86_400;

impl Stamp {
    pub open spec fn wf(self) -> bool {
        MIN_SECS <= self.secs <= MAX_SECS && self.nanos < 1_000_000_000
    }

    /// The nanoseconds since the epoch.
    pub open spec fn total(self) -> int {
        self.secs * 1_000_000_000 + self.nanos
    }
}

/// How many nanoseconds it takes from `now` to the next time that the clock stands as at `target`.
pub open spec fn until_next(target: Stamp, now: Stamp) -> int {
    if target.total() <= now.total() {
        target.total() + DAY_SECS * 1_000_000_000 - now.total()
    } else {
        target.total() - now.total()
    }
}

/// The seconds to sleep until the clock stands as at `target`.
pub open spec fn wake_delay(target: Option<Stamp>, now: Stamp) -> int {
    match target {
        Some(t) => {
            let whole = until_next(t, now) / 1_000_000_000;
            if whole > 0 {
                whole + 2
            } else {
                60
            }
        },
        None => 60,
    }
}

/// For how many seconds to sleep until the clock stands as at `target`, a moment of this day: two
/// more than the whole seconds that it takes, so that the hour is past. Where it takes less
/// than a second, or where there is no such moment, it is a minute.
pub fn get_seconds_until_wake(target: Option<Stamp>, now: Stamp) -> (r: u64)
    requires
        now.wf(),
        target matches Some(t) ==> t.wf() && (t.total() <= now.total() ==> t.secs + DAY_SECS
            <= MAX_SECS),
    ensures
        r == wake_delay(target, now),
{
    let t = match target {
        Some(t) => t,
        None => {
            return 60;
        },
    };
    let secs: i64 = if t.secs < now.secs || (t.secs == now.secs && t.nanos <= now.nanos) {
        t.secs + DAY_SECS
    } else {
        t.secs
    };
    let ghost until = until_next(t, now);
    let d: i64 = if t.nanos >= now.nanos {
        secs - now.secs
    } else {
        secs - now.secs - 1
    };
    proof {
        assert(until == (secs - now.secs) * 1_000_000_000 + t.nanos - now.nanos);
        if until >= 0 {
            assert(d == until / 1_000_000_000);
        } else {
            assert(d <= 0);
        }
    }
    if d > 0 {
        d as u64 + 2
    } else {
        60
    }
}

/// The sleep never ends before its hour.
pub proof fn never_wakes_early(target: Stamp, now: Stamp)
    ensures
        wake_delay(Some(target), now) * 1_000_000_000 > until_next(target, now),
{
}

/// A minute of a day, as the clock on the wall has it.
#[derive(Clone, Copy, Debug, PartialEq, Eq, Structural)]
pub struct Moment {
    pub year: i32,
    pub month: u32,
    pub day: u32,
    pub hour: u32,
    pub minute: u32,
}

/// The first and the last year that a date can have.
pub const MIN_YEAR: i32 = -262_143;

pub const MAX_YEAR: i32 = 262_142;

/// A year with a 29th of February.
pub open spec fn leap(year: int) -> bool {
    year % 4 == 0 && (year % 100 != 0 || year % 400 == 0)
}

pub open spec fn days_in_month(year: int, month: int) -> int {
    if month == 2 {
        if leap(year) {
            29
        } else {
            28
        }
    } else if month == 4 || month == 6 || month == 9 || month == 11 {
        30
    } else {
        31
    }
}

impl Moment {
    /// There is such a minute.
    pub open spec fn is_real(self) -> bool {
        &&& MIN_YEAR <= self.year <= MAX_YEAR
        &&& 1 <= self.month <= 12
        &&& 1 <= self.day <= days_in_month(self.year as int, self.month as int)
        &&& self.hour < 24
        &&& self.minute < 60
    }
}

/// What is shown of a minute.
#[derive(Clone, Copy, Debug, PartialEq, Eq, Structural)]
pub enum ClockFormat {
    Year,
    /// Month and day.
    Date,
    /// Hour and minute.
    Time,
}

/// A number of two digits.
pub open spec fn two_digit_text(n: int) -> Seq<char> {
    seq![digit_char((n / 10) as nat), digit_char((n % 10) as nat)]
}

/// A number with zeros before it, up to four digits.
pub open spec fn four_digit_text(n: nat) -> Seq<char> {
    let s = decimal(n);
    if s.len() < 4 {
        Seq::new((4 - s.len()) as nat, |i: int| '0') + s
    } else {
        s
    }
}

/// What is shown of a minute. A year outside of 0 to 9999 has a sign.
pub open spec fn moment_text(m: Moment, f: ClockFormat) -> Seq<char> {
    match f {
        ClockFormat::Year => if 0 <= m.year < 10_000 {
            four_digit_text(m.year as nat)
        } else if m.year < 0 {
            seq!['-'] + four_digit_text((-m.year) as nat)
        } else {
            seq!['+'] + four_digit_text(m.year as nat)
        },
        ClockFormat::Date => two_digit_text(m.month as int) + seq!['-'] + two_digit_text(
            m.day as int,
        ),
        ClockFormat::Time => two_digit_text(m.hour as int) + seq![':'] + two_digit_text(
            m.minute as int,
        ),
    }
}

/// How a format is written.
pub open spec fn format_pattern(f: ClockFormat) -> Seq<char> {
    match f {
        ClockFormat::Year => "%Y"@,
        ClockFormat::Date => "%m-%d"@,
        ClockFormat::Time => "%H:%M"@,
    }
}

/// `chrono::NaiveDate::from_ymd_opt`, `chrono::NaiveDate::and_hms_opt` and
/// `chrono::NaiveDateTime::format`: gives nothing where there is no such minute. Else month, day,
/// hour and minute have two digits each, and the year has four at least, with a sign outside of
/// 0 to 9999.
#[verifier::external_body]
fn format_moment(m: Moment, pattern: &str) -> (r: Option<String>)
    requires
        exists|f: ClockFormat| pattern@ == #[trigger] format_pattern(f),
    ensures
        r is Some <==> m.is_real(),
        forall|f: ClockFormat|
            pattern@ == #[trigger] format_pattern(f) ==> (r matches Some(s) ==> s@ == moment_text(
                m,
                f,
            )),
{
    chrono::NaiveDate::from_ymd_opt(m.year, m.month, m.day)
        .and_then(|d| d.and_hms_opt(m.hour, m.minute, 0))
        .map(|t| t.format(pattern).to_string())
}

/// What is shown of a minute, if there is such a minute.
pub fn clock_text(m: Moment, f: ClockFormat) -> (r: Option<String>)
    ensures
        match r {
            Some(s) => m.is_real() && s@ == moment_text(m, f),
            None => !m.is_real(),
        },
{
    let pattern = match f {
        ClockFormat::Year => "%Y",
        ClockFormat::Date => "%m-%d",
        ClockFormat::Time => "%H:%M",
    };
    assert(pattern@ == format_pattern(f));
    format_moment(m, pattern)
}

/// The time that is shown has two digits, a colon and two digits, and as a setting it is the same
/// time.
pub proof fn time_shown_reads_back(m: Moment)
    requires
        m.is_real(),
    ensures
        is_hhmm(moment_text(m, ClockFormat::Time)),
        hhmm_time(moment_text(m, ClockFormat::Time)) == Some(
            ((m.hour * 3600 + m.minute * 60) as u32, 0u32),
        ),
{
}

} // verus!
