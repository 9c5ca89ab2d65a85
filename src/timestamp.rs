use vstd::prelude::*;
use vstd::string::*;

verus! {

/// Seconds in a day.
pub const SECS_PER_DAY: u64 = 86400;

/// Whether `y` is a leap year of the Gregorian calendar.
pub open spec fn is_leap(y: int) -> bool {
    (y % 4 == 0 && y % 100 != 0) || y % 400 == 0
}

/// Days in year `y`.
pub open spec fn days_in_year(y: int) -> int {
    if is_leap(y) {
        366
    } else {
        365
    }
}

/// Days from 1970-01-01 to the first day of year `y`.
pub open spec fn days_before_year(y: int) -> int
    decreases y - 1970,
{
    if y <= 1970 {
        0
    } else {
        days_before_year(y - 1) + days_in_year(y - 1)
    }
}

/// Days in month `m` (1 to 12) of year `y`.
pub open spec fn days_in_month(y: int, m: int) -> int {
    if m == 2 {
        if is_leap(y) {
            29
        } else {
            28
        }
    } else if m == 4 || m == 6 || m == 9 || m == 11 {
        30
    } else {
        31
    }
}

/// Days of year `y` before the first day of month `m`.
pub open spec fn days_before_month(y: int, m: int) -> int
    decreases m,
{
    if m <= 1 {
        0
    } else {
        days_before_month(y, m - 1) + days_in_month(y, m - 1)
    }
}

/// Days from 1970-01-01 to the date `y`-`m`-`d`.
pub open spec fn day_number(y: int, m: int, d: int) -> int {
    days_before_year(y) + days_before_month(y, m) + d - 1
}

/// A UTC calendar date and time of day, to the minute.
#[derive(Clone, Copy, Debug, PartialEq, Eq, Structural)]
pub struct CivilTime {
    pub year: u64,
    pub month: u8,
    pub day: u8,
    pub hour: u8,
    pub minute: u8,
}

/// `t` is the UTC date and minute of the instant `secs` seconds after
/// 1970-01-01 00:00:00.
pub open spec fn is_civil_of(t: CivilTime, secs: int) -> bool {
    &&& 1970 <= t.year
    &&& 1 <= t.month <= 12
    &&& 1 <= t.day <= days_in_month(t.year as int, t.month as int)
    &&& day_number(t.year as int, t.month as int, t.day as int) == secs / 86400
    &&& t.hour == (secs % 86400) / 3600
    &&& t.minute == (secs % 3600) / 60
}

/// The UTC date and minute of the instant `secs` seconds after the epoch.
pub open spec fn civil_of(secs: int) -> CivilTime {
    choose|t: CivilTime| is_civil_of(t, secs)
}

proof fn lemma_years_increase(y1: int, y2: int)
    requires
        1970 <= y1 < y2,
    ensures
        days_before_year(y2) >= days_before_year(y1) + days_in_year(y1),
    decreases y2 - y1,
{
    if y2 - 1 > y1 {
        lemma_years_increase(y1, y2 - 1);
    }
}

proof fn lemma_months_increase(y: int, m1: int, m2: int)
    requires
        1 <= m1 < m2,
    ensures
        days_before_month(y, m2) >= days_before_month(y, m1) + days_in_month(y, m1),
    decreases m2 - m1,
{
    if m2 - 1 > m1 {
        lemma_months_increase(y, m1, m2 - 1);
    }
}

proof fn lemma_day_within_year(y: int, m: int, d: int)
    requires
        1 <= m <= 12,
        1 <= d <= days_in_month(y, m),
    ensures
        0 <= days_before_month(y, m) + d - 1 < days_in_year(y),
{
    lemma_months_fill_year(y);
    if m < 12 {
        lemma_months_increase(y, m, 12);
    }
    if m > 1 {
        lemma_months_increase(y, 1, m);
    }
}

/// An instant has exactly one UTC date and minute.
pub proof fn lemma_civil_unique(t1: CivilTime, t2: CivilTime, secs: int)
    requires
        is_civil_of(t1, secs),
        is_civil_of(t2, secs),
    ensures
        t1 == t2,
{
    let (y1, m1, d1) = (t1.year as int, t1.month as int, t1.day as int);
    let (y2, m2, d2) = (t2.year as int, t2.month as int, t2.day as int);
    lemma_day_within_year(y1, m1, d1);
    lemma_day_within_year(y2, m2, d2);
    if y1 < y2 {
        lemma_years_increase(y1, y2);
    }
    if y2 < y1 {
        lemma_years_increase(y2, y1);
    }
    assert(y1 == y2);
    if m1 < m2 {
        lemma_months_increase(y1, m1, m2);
    }
    if m2 < m1 {
        lemma_months_increase(y1, m2, m1);
    }
    assert(m1 == m2);
}

proof fn lemma_months_fill_year(y: int)
    ensures
        days_before_month(y, 12) + days_in_month(y, 12) == days_in_year(y),
{
    reveal_with_fuel(days_before_month, 12);
}

/// The UTC calendar date, hour and minute of a Unix timestamp in seconds.
pub fn civil_from_unix(secs: u64) -> (t: CivilTime)
    ensures
        is_civil_of(t, secs as int),
        t == civil_of(secs as int),
{
    let days: u64 = secs / SECS_PER_DAY;
    let secs_in_day: u64 = secs % SECS_PER_DAY;
    let mut year: u64 = 1970;
    let mut day_of_year: u64 = days;
    loop
        invariant
            1970 <= year,
            day_of_year as int + days_before_year(year as int) == days as int,
            365 * (year - 1970) <= days_before_year(year as int),
            days == secs / 86400,
        ensures
            day_of_year < days_in_year(year as int),
            day_of_year as int + days_before_year(year as int) == days as int,
            1970 <= year,
        decreases day_of_year,
    {
        let leap = (year % 4 == 0 && year % 100 != 0) || year % 400 == 0;
        let len: u64 = if leap {
            366
        } else {
            365
        };
        if day_of_year < len {
            break;
        }
        assert(days_before_year(year + 1) == days_before_year(year as int) + days_in_year(
            year as int,
        ));
        assert(year - 1970 < days / 365 + 1) by (nonlinear_arith)
            requires
                365 * (year - 1970) <= days_before_year(year as int),
                days_before_year(year as int) <= days,
        ;
        day_of_year = day_of_year - len;
        year = year + 1;
    }
    proof {
        lemma_months_fill_year(year as int);
    }
    let mut month: u8 = 1;
    let mut day: u64 = day_of_year + 1;
    let leap = (year % 4 == 0 && year % 100 != 0) || year % 400 == 0;
    loop
        invariant
            1 <= month <= 12,
            1 <= day,
            leap == is_leap(year as int),
            days_before_month(year as int, month as int) + day - 1 == day_of_year,
            day_of_year < days_in_year(year as int),
            days_before_month(year as int, 12) + days_in_month(year as int, 12) == days_in_year(
                year as int,
            ),
        ensures
            1 <= month <= 12,
            1 <= day <= days_in_month(year as int, month as int),
            days_before_month(year as int, month as int) + day - 1 == day_of_year,
        decreases 12 - month,
    {
        let len: u64 = if month == 2 {
            if leap {
                29
            } else {
                28
            }
        } else if month == 4 || month == 6 || month == 9 || month == 11 {
            30
        } else {
            31
        };
        if month == 12 || day <= len {
            break;
        }
        day = day - len;
        month = month + 1;
    }
    let hour: u8 = (secs_in_day / 3600) as u8;
    let minute: u8 = ((secs_in_day % 3600) / 60) as u8;
    assert(secs_in_day % 3600 == secs % 3600) by {
        assert(secs % 86400 % 3600 == secs % 3600) by (nonlinear_arith);
    }
    let t = CivilTime { year, month, day: day as u8, hour, minute };
    proof {
        assert(is_civil_of(t, secs as int));
        lemma_civil_unique(t, civil_of(secs as int), secs as int);
    }
    t
}


/// The decimal digit for `d` (0 to 9).
pub open spec fn digit_char(d: int) -> char {
    if d == 0 {
        '0'
    } else if d == 1 {
        '1'
    } else if d == 2 {
        '2'
    } else if d == 3 {
        '3'
    } else if d == 4 {
        '4'
    } else if d == 5 {
        '5'
    } else if d == 6 {
        '6'
    } else if d == 7 {
        '7'
    } else if d == 8 {
        '8'
    } else {
        '9'
    }
}

/// `n` in decimal, without leading zeros.
pub open spec fn decimal(n: nat) -> Seq<char>
    decreases n,
{
    if n < 10 {
        seq![digit_char(n as int)]
    } else {
        decimal(n / 10) + seq![digit_char((n % 10) as int)]
    }
}

/// `n` (below 100) in two decimal digits, zero-padded.
pub open spec fn two_digits(n: int) -> Seq<char> {
    seq![digit_char(n / 10), digit_char(n % 10)]
}

/// The name of the recording that starts at `t`:
/// `MM-DD-YYYY-HH-MM-recording.wav`, the year without padding.
pub open spec fn filename_of(t: CivilTime) -> Seq<char> {
    two_digits(t.month as int) + seq!['-'] + two_digits(t.day as int) + seq!['-'] + decimal(
        t.year as nat,
    ) + seq!['-'] + two_digits(t.hour as int) + seq!['-'] + two_digits(t.minute as int)
        + "-recording.wav"@
}

/// Appends the digit for `d` to `s`.
fn push_digit(s: &mut String, d: u64)
    requires
        d < 10,
    ensures
        final(s)@ == old(s)@ + seq![digit_char(d as int)],
{
    let text: &str = if d == 0 {
        "0"
    } else if d == 1 {
        "1"
    } else if d == 2 {
        "2"
    } else if d == 3 {
        "3"
    } else if d == 4 {
        "4"
    } else if d == 5 {
        "5"
    } else if d == 6 {
        "6"
    } else if d == 7 {
        "7"
    } else if d == 8 {
        "8"
    } else {
        "9"
    };
    proof {
        reveal_strlit("0");
        reveal_strlit("1");
        reveal_strlit("2");
        reveal_strlit("3");
        reveal_strlit("4");
        reveal_strlit("5");
        reveal_strlit("6");
        reveal_strlit("7");
        reveal_strlit("8");
        reveal_strlit("9");
    }
    assert(text@ =~= seq![digit_char(d as int)]);
    s.append(text);
}

/// Appends `n` in decimal to `s`.
fn push_decimal(s: &mut String, n: u64)
    ensures
        final(s)@ == old(s)@ + decimal(n as nat),
    decreases n,
{
    if n >= 10 {
        push_decimal(s, n / 10);
    }
    push_digit(s, n % 10);
    assert(s@ =~= old(s)@ + decimal(n as nat));
}

/// Appends `n` (below 100) in two digits to `s`.
fn push_two_digits(s: &mut String, n: u8)
    requires
        n < 100,
    ensures
        final(s)@ == old(s)@ + two_digits(n as int),
{
    push_digit(s, (n / 10) as u64);
    push_digit(s, (n % 10) as u64);
    assert(s@ =~= old(s)@ + two_digits(n as int));
}

/// Appends a dash to `s`.
fn push_dash(s: &mut String)
    ensures
        final(s)@ == old(s)@ + seq!['-'],
{
    let dash = "-";
    proof {
        reveal_strlit("-");
    }
    assert(dash@ =~= seq!['-']);
    s.append(dash);
}

impl CivilTime {
    /// The name of a recording that starts at this time:
    /// `MM-DD-YYYY-HH-MM-recording.wav`.
    pub fn filename(&self) -> (r: String)
        requires
            self.month < 100,
            self.day < 100,
            self.hour < 100,
            self.minute < 100,
        ensures
            r@ == filename_of(*self),
    {
        let mut s = String::new();
        push_two_digits(&mut s, self.month);
        push_dash(&mut s);
        push_two_digits(&mut s, self.day);
        push_dash(&mut s);
        push_decimal(&mut s, self.year);
        push_dash(&mut s);
        push_two_digits(&mut s, self.hour);
        push_dash(&mut s);
        push_two_digits(&mut s, self.minute);
        s.append("-recording.wav");
        assert(s@ =~= filename_of(*self));
        s
    }
}

/// The name of the recording that starts `secs` seconds after the Unix
/// epoch, from the UTC date and minute of that instant.
pub fn recording_filename(secs: u64) -> (r: String)
    ensures
        r@ == filename_of(civil_of(secs as int)),
{
    let t = civil_from_unix(secs);
    t.filename()
}

} // verus!
