//! What holds of the time of day: when the screen sleeps, for how long, and how a minute is shown.
use vstd::prelude::*;
use crate::clock::{
    clock_format, days_in_month, earlier, four_digit_text, format_pattern, hhmm_time, is_hhmm, leap,
    moment_text, two_digits, until_next, wake_delay, window, ClockFormat, Moment, Stamp, MAX_SECS,
    MAX_YEAR, MIN_SECS, MIN_YEAR,
};
use crate::number::{all_digits, decimal, decimal_reads_back, digit_char, digits_value};
use crate::text::is_digit;

verus! {

/// The nanoseconds since midnight.
pub open spec fn nanos_of(t: (u32, u32)) -> int {
    t.0 * 1_000_000_000 + t.1
}

/// A time of a day.
pub open spec fn of_a_day(t: (u32, u32)) -> bool {
    t.0 < 86_400 && t.1 < 1_000_000_000
}

/// The screen sleeps while less time has passed since the start of the sleep, on a clock that goes
/// round once a day, than passes from its start to its end.
pub proof fn sleep_lasts_from_start_to_end(start: (u32, u32), end: (u32, u32), now: (u32, u32))
    requires
        of_a_day(start),
        of_a_day(end),
        of_a_day(now),
    ensures
        start != end ==> (window(start, end, now) <==> (nanos_of(now) - nanos_of(start))
            % 86_400_000_000_000 < (nanos_of(end) - nanos_of(start)) % 86_400_000_000_000),
        start == end ==> window(start, end, now),
        earlier(start, end) <==> nanos_of(start) < nanos_of(end),
{
    let a = nanos_of(now) - nanos_of(start);
    let b = nanos_of(end) - nanos_of(start);
    assert(0 <= nanos_of(now) < 86_400_000_000_000);
    assert(0 <= nanos_of(start) < 86_400_000_000_000);
    assert(0 <= nanos_of(end) < 86_400_000_000_000);
    assert(a % 86_400_000_000_000 == (if a >= 0 {
        a
    } else {
        a + 86_400_000_000_000
    }));
    assert(b % 86_400_000_000_000 == (if b >= 0 {
        b
    } else {
        b + 86_400_000_000_000
    }));
    if start != end {
        assert(b != 0);
    }
}

/// Hours and minutes of two digits each are that time of day; there are 24 hours of 60 minutes.
pub proof fn hours_and_minutes_are_a_time(h: nat, m: nat)
    requires
        h < 100,
        m < 100,
    ensures
        ({
            let s = seq![
                digit_char(h / 10),
                digit_char(h % 10),
                ':',
                digit_char(m / 10),
                digit_char(m % 10),
            ];
            &&& is_hhmm(s)
            &&& h < 24 && m < 60 ==> hhmm_time(s) == Some(
                (((h * 60 + m) * 60) as u32, 0u32),
            )
            &&& h >= 24 || m >= 60 ==> hhmm_time(s) is None
        }),
        two_digits(digit_char(h / 10), digit_char(h % 10)) == h,
{
}

/// A text of hours and minutes has just those five characters.
pub proof fn hours_and_minutes_have_five_characters(s: Seq<char>)
    ensures
        is_hhmm(s) <==> s.len() == 5 && s[2] == ':' && all_digits(s.take(2)) && all_digits(
            s.skip(3),
        ),
{
    if is_hhmm(s) {
        assert(all_digits(s.take(2)));
        assert(all_digits(s.skip(3)));
    }
    if s.len() == 5 && s[2] == ':' && all_digits(s.take(2)) && all_digits(s.skip(3)) {
        assert(is_digit(s.take(2)[0]) && is_digit(s.take(2)[1]));
        assert(is_digit(s.skip(3)[0]) && is_digit(s.skip(3)[1]));
        assert(s.skip(3)[0] == s[3] && s.skip(3)[1] == s[4]);
    }
}

/// The screen wakes two seconds behind the whole ones that are left until its hour. Where less than
/// a second is left, or there is no such hour, it sleeps for a minute. An hour that is past comes
/// again the next day.
pub proof fn wakes_two_seconds_late(target: Stamp, tomorrow: Stamp, now: Stamp, secs: nat, nanos: nat)
    requires
        nanos < 1_000_000_000,
        tomorrow.secs == target.secs + 86_400,
        tomorrow.nanos == target.nanos,
    ensures
        wake_delay(None, now) == 60,
        secs > 0 && target.total() == now.total() + secs * 1_000_000_000 + nanos ==> wake_delay(
            Some(target),
            now,
        ) == secs + 2,
        nanos > 0 && target.total() == now.total() + nanos ==> wake_delay(Some(target), now) == 60,
        target.total() <= now.total() < tomorrow.total() ==> wake_delay(Some(target), now)
            == wake_delay(Some(tomorrow), now) && until_next(target, now) == until_next(
            tomorrow,
            now,
        ),
        target.total() > now.total() ==> until_next(target, now) == target.total() - now.total(),
        tomorrow.total() == target.total() + 86_400_000_000_000,
{
}

/// A number of two digits has its tens before its ones.
proof fn lemma_two(n: nat)
    requires
        n < 100,
    ensures
        digit_char(n / 10) as u32 == 48 + n / 10,
        digit_char(n % 10) as u32 == 48 + n % 10,
{
}

/// The time is shown as two digits of the hour, a colon, and two digits of the minute; the date as
/// two digits of the month, a dash, and two digits of the day.
pub proof fn time_and_date_have_two_digits_each(m: Moment)
    requires
        m.is_real(),
    ensures
        ({
            let t = moment_text(m, ClockFormat::Time);
            &&& t.len() == 5
            &&& all_digits(t.take(2)) && digits_value(t.take(2)) == m.hour
            &&& t[2] == ':'
            &&& all_digits(t.skip(3)) && digits_value(t.skip(3)) == m.minute
        }),
        ({
            let d = moment_text(m, ClockFormat::Date);
            &&& d.len() == 5
            &&& all_digits(d.take(2)) && digits_value(d.take(2)) == m.month
            &&& d[2] == '-'
            &&& all_digits(d.skip(3)) && digits_value(d.skip(3)) == m.day
        }),
{
    let t = moment_text(m, ClockFormat::Time);
    let d = moment_text(m, ClockFormat::Date);
    lemma_two_digits_value(t.take(2), m.hour as nat);
    lemma_two_digits_value(t.skip(3), m.minute as nat);
    lemma_two_digits_value(d.take(2), m.month as nat);
    lemma_two_digits_value(d.skip(3), m.day as nat);
}

proof fn lemma_two_digits_value(s: Seq<char>, n: nat)
    requires
        n < 100,
        s.len() == 2,
        s[0] == digit_char(n / 10),
        s[1] == digit_char(n % 10),
    ensures
        all_digits(s),
        digits_value(s) == n,
{
    reveal_with_fuel(digits_value, 3);
    lemma_two(n);
    assert(s.drop_last().drop_last() =~= Seq::<char>::empty());
}

proof fn lemma_zero_before(s: Seq<char>)
    ensures
        digits_value(seq!['0'] + s) == digits_value(s),
        all_digits(s) ==> all_digits(seq!['0'] + s),
    decreases s.len(),
{
    let t = seq!['0'] + s;
    if s.len() == 0 {
        assert(t.drop_last() =~= Seq::<char>::empty());
        assert(digits_value(t.drop_last()) == 0);
    } else {
        lemma_zero_before(s.drop_last());
        assert(t.drop_last() =~= seq!['0'] + s.drop_last());
    }
    if all_digits(s) {
        assert forall|i: int| 0 <= i < t.len() implies is_digit(#[trigger] t[i]) by {
            if i > 0 {
                assert(t[i] == s[i - 1]);
            }
        }
    }
}

/// A number with zeros before it is the same number, with four digits at least, and with no zero
/// that is not needed.
pub proof fn zeros_fill_up_to_four(n: nat)
    ensures
        all_digits(four_digit_text(n)),
        digits_value(four_digit_text(n)) == n,
        four_digit_text(n).len() >= 4,
        decimal(n).len() >= 4 ==> four_digit_text(n) == decimal(n),
        decimal(n).len() < 4 ==> four_digit_text(n).len() == 4,
{
    decimal_reads_back(n);
    let s = decimal(n);
    if s.len() < 4 {
        lemma_zero_before(s);
        let a = seq!['0'] + s;
        lemma_zero_before(a);
        let b = seq!['0'] + a;
        lemma_zero_before(b);
        let c = seq!['0'] + b;
        let t = four_digit_text(n);
        if s.len() == 3 {
            assert(t =~= a);
        } else if s.len() == 2 {
            assert(t =~= b);
        } else {
            assert(t =~= c);
        }
    }
}

/// The year is shown with four digits; outside of 0 to 9999 with its sign and as many as it takes,
/// four at least.
pub proof fn year_has_four_digits(m: Moment)
    ensures
        ({
            let y = moment_text(m, ClockFormat::Year);
            &&& 0 <= m.year <= 9999 ==> all_digits(y) && digits_value(y) == m.year && y.len() >= 4
            &&& m.year > 9999 ==> y[0] == '+' && y.skip(1) == four_digit_text(m.year as nat)
            &&& m.year < 0 ==> y[0] == '-' && y.skip(1) == four_digit_text((-m.year) as nat)
        }),
{
    let y = moment_text(m, ClockFormat::Year);
    if 0 <= m.year <= 9999 {
        zeros_fill_up_to_four(m.year as nat);
    } else if m.year > 9999 {
        assert(y.skip(1) =~= four_digit_text(m.year as nat));
    } else {
        assert(y.skip(1) =~= four_digit_text((-m.year) as nat));
    }
}

/// The days of a year come to 365, in a leap year to 366: every fourth year is one, but of the full
/// centuries only every fourth.
pub proof fn year_has_its_days(y: int)
    ensures
        leap(4 * y) <==> y % 25 != 0 || y % 100 == 0,
        !leap(4 * y + 1) && !leap(4 * y + 2) && !leap(4 * y + 3),
        days_in_month(y, 1) == 31 && days_in_month(y, 3) == 31 && days_in_month(y, 5) == 31,
        days_in_month(y, 7) == 31 && days_in_month(y, 8) == 31 && days_in_month(y, 10) == 31,
        days_in_month(y, 12) == 31,
        days_in_month(y, 4) == 30 && days_in_month(y, 6) == 30 && days_in_month(y, 9) == 30,
        days_in_month(y, 11) == 30,
        days_in_month(y, 2) == (if leap(y) {
            29int
        } else {
            28
        }),
{
}

/// How times are written in settings and on the screen, and the ends of the calendar.
pub proof fn formats_are_what_they_show()
    ensures
        clock_format() == seq!['%', 'H', ':', '%', 'M'],
        format_pattern(ClockFormat::Time) == seq!['%', 'H', ':', '%', 'M'],
        format_pattern(ClockFormat::Date) == seq!['%', 'm', '-', '%', 'd'],
        format_pattern(ClockFormat::Year) == seq!['%', 'Y'],
        MIN_YEAR == -262_143 && MAX_YEAR == 262_142,
        MIN_SECS == -8_334_601_228_800 && MAX_SECS == 8_210_266_876_799,
{
    reveal_strlit("%H:%M");
    reveal_strlit("%m-%d");
    reveal_strlit("%Y");
    assert("%H:%M"@ =~= seq!['%', 'H', ':', '%', 'M']);
    assert("%m-%d"@ =~= seq!['%', 'm', '-', '%', 'd']);
    assert("%Y"@ =~= seq!['%', 'Y']);
}

} // verus!
