//! Calendar dates and their texts: the date that a statement carries, the
//! `dd.mm.yyyy` text that the document shows, and the compact clock reading
//! that names generated files.

use vstd::prelude::*;

verus! {

/// The earliest year that a date can have.
pub const MIN_YEAR: i32 = -262143;

/// The latest year that a date can have.
pub const MAX_YEAR: i32 = 262142;

/// Leap years of the proleptic Gregorian calendar.
pub open spec fn is_leap_year(y: int) -> bool {
    (y % 4 == 0 && y % 100 != 0) || y % 400 == 0
}

/// The number of days of month `m` in year `y`.
pub open spec fn days_in_month(y: int, m: int) -> int {
    if m == 2 {
        if is_leap_year(y) {
            29
        } else {
            28
        }
    } else if m == 4 || m == 6 || m == 9 || m == 11 {
        30
    } else {
        31
    }
}

/// A calendar date that exists, with its year in the supported range.
pub open spec fn is_valid_date(y: int, m: int, d: int) -> bool {
    &&& MIN_YEAR <= y <= MAX_YEAR
    &&& 1 <= m <= 12
    &&& 1 <= d <= days_in_month(y, m)
}

/// The char of the decimal digit `d` (0 to 9).
pub open spec fn digit_char(d: int) -> char {
    (48 + d) as char
}

/// The decimal digits of `n`, without leading zeros.
pub open spec fn decimal_text(n: nat) -> Seq<char>
    decreases n,
{
    if n < 10 {
        seq![digit_char(n as int)]
    } else {
        decimal_text(n / 10).push(digit_char((n % 10) as int))
    }
}

/// `s` with zeros put in front until it is `width` chars long.
pub open spec fn zero_padded(s: Seq<char>, width: nat) -> Seq<char>
    decreases width - s.len(),
{
    if s.len() >= width {
        s
    } else {
        zero_padded(seq!['0'] + s, width)
    }
}

/// An integer in decimal, with `-` in front when it is below 0.
pub open spec fn signed_decimal_text(n: int) -> Seq<char> {
    if n < 0 {
        seq!['-'] + decimal_text((-n) as nat)
    } else {
        decimal_text(n as nat)
    }
}

/// `format!("{n:?}")` of std for an `i64`: its decimal digits, with `-` in
/// front when it is below 0 (`Debug` of an integer writes it as `Display` does).
#[verifier::external_body]
pub(crate) fn i64_debug_text(n: i64) -> (r: String)
    ensures
        r@ == signed_decimal_text(n as int),
{
    format!("{n:?}")
}

/// Two decimal digits, zero-padded (for 0 to 99).
pub open spec fn two_digit_text(n: int) -> Seq<char> {
    seq![digit_char(n / 10), digit_char(n % 10)]
}

/// A year as `%Y` writes it: four digits at least, zero-padded, with a sign
/// in front when the year is below 0 or above 9999.
pub open spec fn year_text(y: int) -> Seq<char> {
    if 0 <= y < 10000 {
        zero_padded(decimal_text(y as nat), 4)
    } else if y < 0 {
        seq!['-'] + zero_padded(decimal_text((-y) as nat), 4)
    } else {
        seq!['+'] + zero_padded(decimal_text(y as nat), 4)
    }
}

/// A date as `%d.%m.%Y` writes it.
pub open spec fn date_dmy_text(y: int, m: int, d: int) -> Seq<char> {
    two_digit_text(d) + seq!['.'] + two_digit_text(m) + seq!['.'] + year_text(y)
}

/// `NaiveDate::from_ymd_opt` and `format("%d.%m.%Y")` of chrono: the date as
/// day, month and year, the first two as two digits each, separated by dots.
#[verifier::external_body]
fn format_date_dmy(year: i32, month: u32, day: u32) -> (r: String)
    requires
        is_valid_date(year as int, month as int, day as int),
    ensures
        r@ == date_dmy_text(year as int, month as int, day as int),
{
    chrono::NaiveDate::from_ymd_opt(year, month, day).map(|d| d.format("%d.%m.%Y").to_string()).unwrap_or_default()
}

/// A reading of a UTC clock, to the second.
pub struct ClockReading {
    pub year: i32,
    pub month: u32,
    pub day: u32,
    pub hour: u32,
    pub minute: u32,
    pub second: u32,
}

impl ClockReading {
    /// A reading that a clock can show (a leap second included).
    pub open spec fn is_valid(&self) -> bool {
        &&& is_valid_date(self.year as int, self.month as int, self.day as int)
        &&& self.hour < 24
        &&& self.minute < 60
        &&& self.second <= 60
    }

    /// The reading as `%d/%m/%Y %T` writes it: `dd/mm/yyyy HH:MM:SS`.
    pub open spec fn dmy_hms_text(&self) -> Seq<char> {
        two_digit_text(self.day as int) + seq!['/'] + two_digit_text(self.month as int) + seq!['/']
            + year_text(self.year as int) + seq![' '] + two_digit_text(self.hour as int) + seq![':']
            + two_digit_text(self.minute as int) + seq![':'] + two_digit_text(self.second as int)
    }

    /// The reading of these parts, if a clock can show it.
    pub fn checked(year: i32, month: u32, day: u32, hour: u32, minute: u32, second: u32) -> (r:
        Option<ClockReading>)
        ensures
            r is Some <==> (ClockReading { year, month, day, hour, minute, second }).is_valid(),
            r matches Some(c) ==> c == (ClockReading { year, month, day, hour, minute, second }),
    {
        if StatementDate::from_ymd(year, month, day).is_some() && hour < 24 && minute < 60
            && second <= 60 {
            Some(ClockReading { year, month, day, hour, minute, second })
        } else {
            None
        }
    }

    /// The reading as `%Y%m%d%H%M%S` writes it.
    pub open spec fn compact_text(&self) -> Seq<char> {
        year_text(self.year as int) + two_digit_text(self.month as int) + two_digit_text(
            self.day as int,
        ) + two_digit_text(self.hour as int) + two_digit_text(self.minute as int)
            + two_digit_text(self.second as int)
    }
}

/// `NaiveDate::from_ymd_opt`, `and_hms_opt` and `format("%d/%m/%Y %T")` of
/// chrono: the reading as day, month, year, hours, minutes and seconds, each
/// but the year as two digits.
#[verifier::external_body]
pub(crate) fn format_reading_dmy_hms(reading: &ClockReading) -> (r: String)
    requires
        reading.is_valid(),
        reading.second < 60,
    ensures
        r@ == reading.dmy_hms_text(),
{
    match chrono::NaiveDate::from_ymd_opt(reading.year, reading.month, reading.day) {
        Some(date) => match date.and_hms_opt(reading.hour, reading.minute, reading.second) {
            Some(time) => time.format("%d/%m/%Y %T").to_string(),
            None => String::new(),
        },
        None => String::new(),
    }
}

/// Whether `s` is the compact text of some valid clock reading.
pub open spec fn is_clock_text(s: Seq<char>) -> bool {
    exists|t: ClockReading| t.is_valid() && s == #[trigger] t.compact_text()
}

/// `SystemTime::now()` of std and its `duration_since(UNIX_EPOCH)`: the
/// seconds and nanoseconds since the Unix epoch, or nothing when the clock
/// reads an earlier time. Which time comes back depends on the clock: the
/// contract says only that the nanoseconds stay below one second, as
/// `Duration::subsec_nanos` documents.
#[verifier::external_body]
pub(crate) fn time_since_epoch() -> (r: Option<(u64, u32)>)
    ensures
        r matches Some(t) ==> t.1 < 1_000_000_000,
{
    match std::time::SystemTime::now().duration_since(std::time::UNIX_EPOCH) {
        Ok(d) => Some((d.as_secs(), d.subsec_nanos())),
        Err(_) => None,
    }
}

/// The text that `DateTime::<Utc>::from_timestamp(secs, nanos)` of chrono,
/// formatted with `%Y%m%d%H%M%S`, gives; nothing where chrono has no such
/// time.
pub uninterp spec fn utc_timestamp_text(secs: i64, nanos: u32) -> Option<Seq<char>>;

/// `DateTime::from_timestamp` of chrono, formatted with `%Y%m%d%H%M%S`: the
/// UTC time `secs` seconds and `nanos` nanoseconds after the Unix epoch, or
/// nothing where that time is out of chrono's range. Besides naming the
/// result, the contract says that a text that comes back is the text of a
/// valid clock reading.
#[verifier::external_body]
pub(crate) fn format_utc_timestamp(secs: i64, nanos: u32) -> (r: Option<String>)
    ensures
        r.deep_view() == utc_timestamp_text(secs, nanos),
        r matches Some(s) ==> is_clock_text(s@),
{
    match chrono::DateTime::from_timestamp(secs, nanos) {
        Some(t) => Some(t.format("%Y%m%d%H%M%S").to_string()),
        None => None,
    }
}

/// The date of a statement: a calendar date that exists.
#[derive(Clone, Copy, Debug, PartialEq, Eq)]
pub struct StatementDate {
    year: i32,
    month: u32,
    day: u32,
}

impl StatementDate {
    #[verifier::type_invariant]
    spec fn inv(self) -> bool {
        is_valid_date(self.year as int, self.month as int, self.day as int)
    }

    /// The year.
    pub closed spec fn year_spec(self) -> i32 {
        self.year
    }

    /// The month, 1 to 12.
    pub closed spec fn month_spec(self) -> u32 {
        self.month
    }

    /// The day of the month, from 1.
    pub closed spec fn day_spec(self) -> u32 {
        self.day
    }

    /// The date of `year`, `month`, `day`, if it exists.
    pub fn from_ymd(year: i32, month: u32, day: u32) -> (r: Option<Self>)
        ensures
            r is Some <==> is_valid_date(year as int, month as int, day as int),
            r matches Some(d) ==> d.year_spec() == year && d.month_spec() == month
                && d.day_spec() == day,
    {
        if year < MIN_YEAR || year > MAX_YEAR || month < 1 || month > 12 || day < 1 {
            return None;
        }
        let shifted: u32 = (year as i64 + 400_000) as u32;
        let leap = (shifted % 4 == 0 && shifted % 100 != 0) || shifted % 400 == 0;
        proof {
            let y = year as int;
            let s = shifted as int;
            assert(s == y + 400 * 1000);
            assert(s % 4 == y % 4) by (nonlinear_arith)
                requires
                    s == y + 400 * 1000,
            ;
            assert(s % 100 == y % 100) by (nonlinear_arith)
                requires
                    s == y + 400 * 1000,
            ;
            assert(s % 400 == y % 400) by (nonlinear_arith)
                requires
                    s == y + 400 * 1000,
            ;
            assert(leap == is_leap_year(y));
        }
        let days: u32 = if month == 2 {
            if leap {
                29
            } else {
                28
            }
        } else if month == 4 || month == 6 || month == 9 || month == 11 {
            30
        } else {
            31
        };
        if day > days {
            None
        } else {
            Some(StatementDate { year, month, day })
        }
    }

    /// The year.
    pub fn year(&self) -> (r: i32)
        ensures
            r == self.year_spec(),
    {
        self.year
    }

    /// The month, 1 to 12.
    pub fn month(&self) -> (r: u32)
        ensures
            r == self.month_spec(),
    {
        self.month
    }

    /// The day of the month.
    pub fn day(&self) -> (r: u32)
        ensures
            r == self.day_spec(),
    {
        self.day
    }

    /// The date as the document shows it: `dd.mm.yyyy`.
    pub open spec fn dmy_text(self) -> Seq<char> {
        date_dmy_text(self.year_spec() as int, self.month_spec() as int, self.day_spec() as int)
    }

    /// The date as `dd.mm.yyyy`.
    pub fn format_dmy(&self) -> (r: String)
        ensures
            r@ == self.dmy_text(),
    {
        proof {
            use_type_invariant(self);
        }
        format_date_dmy(self.year, self.month, self.day)
    }
}

} // verus!
