//! Calendar dates of the proleptic Gregorian calendar, fixed offsets from UTC,
//! and the local date of an instant.
use chrono::{Datelike, Timelike};
use vstd::prelude::*;

verus! {

/// The first year a [`CalendarDate`] can hold.
pub const MIN_YEAR: i32 = -262_144;

/// The last year a [`CalendarDate`] can hold.
pub const MAX_YEAR: i32 = 262_143;

/// The number of seconds in a day.
pub const SECONDS_PER_DAY: u32 = 86_400;

/// Whether `year` has a 29th of February.
pub open spec fn is_leap_year(year: int) -> bool {
    year % 4 == 0 && (year % 100 != 0 || year % 400 == 0)
}

/// The number of days of `month` in `year`; 0 where `month` is not one of 1 to 12.
pub open spec fn days_in_month(year: int, month: int) -> int {
    if month == 2 {
        if is_leap_year(year) {
            29
        } else {
            28
        }
    } else if month == 4 || month == 6 || month == 9 || month == 11 {
        30
    } else if 1 <= month <= 12 {
        31
    } else {
        0
    }
}

/// The number of days of `year` that lie before the first of `month`.
pub open spec fn days_before_month(year: int, month: int) -> int
    decreases month,
{
    if month <= 1 {
        0
    } else {
        days_before_month(year, month - 1) + days_in_month(year, month - 1)
    }
}

/// The number of days from 0001-01-01 to the first of January of `year`
/// (negative for the years before).
pub open spec fn days_before_year(year: int) -> int {
    let y = year - 1;
    365 * y + y / 4 - y / 100 + y / 400
}

/// A day of the proleptic Gregorian calendar.
#[derive(Debug, Clone, Copy, PartialEq, Eq, Structural)]
pub struct CalendarDate {
    pub year: i32,
    pub month: u32,
    pub day: u32,
}

impl CalendarDate {
    /// The date names a day that exists, in a year the library handles.
    pub open spec fn is_valid(self) -> bool {
        &&& MIN_YEAR <= self.year <= MAX_YEAR
        &&& 1 <= self.month <= 12
        &&& 1 <= self.day <= days_in_month(self.year as int, self.month as int)
    }

    /// `self` is an earlier day than `other`.
    pub open spec fn before(self, other: CalendarDate) -> bool {
        ||| self.year < other.year
        ||| self.year == other.year && self.month < other.month
        ||| self.year == other.year && self.month == other.month && self.day < other.day
    }

    /// The number of days from 0001-01-01 to this day.
    pub open spec fn day_number(self) -> int {
        days_before_year(self.year as int) + days_before_month(
            self.year as int,
            self.month as int,
        ) + (self.day - 1)
    }

    /// The day after this one.
    pub open spec fn next(self) -> CalendarDate {
        if self.day < days_in_month(self.year as int, self.month as int) {
            CalendarDate { year: self.year, month: self.month, day: (self.day + 1) as u32 }
        } else if self.month < 12 {
            CalendarDate { year: self.year, month: (self.month + 1) as u32, day: 1 }
        } else {
            CalendarDate { year: (self.year + 1) as i32, month: 1, day: 1 }
        }
    }

    /// The day before this one.
    pub open spec fn previous(self) -> CalendarDate {
        if self.day > 1 {
            CalendarDate { year: self.year, month: self.month, day: (self.day - 1) as u32 }
        } else if self.month > 1 {
            CalendarDate {
                year: self.year,
                month: (self.month - 1) as u32,
                day: days_in_month(self.year as int, self.month - 1) as u32,
            }
        } else {
            CalendarDate { year: (self.year - 1) as i32, month: 12, day: 31 }
        }
    }

    /// The date of the given year, month and day, if there is such a day.
    pub fn from_ymd(year: i32, month: u32, day: u32) -> (r: Option<CalendarDate>)
        ensures
            r == (if (CalendarDate { year, month, day }).is_valid() {
                Some(CalendarDate { year, month, day })
            } else {
                None
            }),
    {
        if year < MIN_YEAR || year > MAX_YEAR || month < 1 || month > 12 {
            return None;
        }
        if day < 1 || day > month_length(year, month) {
            return None;
        }
        Some(CalendarDate { year, month, day })
    }

    /// Whether `self` is an earlier day than `other`.
    pub fn is_before(&self, other: &CalendarDate) -> (r: bool)
        ensures
            r == self.before(*other),
    {
        self.year < other.year || (self.year == other.year && (self.month < other.month || (
        self.month == other.month && self.day < other.day)))
    }

    /// The day after this one.
    pub fn successor(&self) -> (r: CalendarDate)
        requires
            self.is_valid(),
            self.year < MAX_YEAR,
        ensures
            r == self.next(),
            r.is_valid(),
    {
        if self.day < month_length(self.year, self.month) {
            CalendarDate { year: self.year, month: self.month, day: self.day + 1 }
        } else if self.month < 12 {
            CalendarDate { year: self.year, month: self.month + 1, day: 1 }
        } else {
            CalendarDate { year: self.year + 1, month: 1, day: 1 }
        }
    }

    /// The day before this one.
    pub fn predecessor(&self) -> (r: CalendarDate)
        requires
            self.is_valid(),
            self.year > MIN_YEAR,
        ensures
            r == self.previous(),
            r.is_valid(),
    {
        if self.day > 1 {
            CalendarDate { year: self.year, month: self.month, day: self.day - 1 }
        } else if self.month > 1 {
            CalendarDate {
                year: self.year,
                month: self.month - 1,
                day: month_length(self.year, self.month - 1),
            }
        } else {
            CalendarDate { year: self.year - 1, month: 12, day: 31 }
        }
    }

    /// The number of days from `self` to `other`: positive where `other` is later.
    pub fn days_until(&self, other: &CalendarDate) -> (r: i64)
        requires
            self.is_valid(),
            other.is_valid(),
        ensures
            r == other.day_number() - self.day_number(),
    {
        let from = shifted_day_number(self);
        let to = shifted_day_number(other);
        to - from
    }

    /// Reads a date written as a year, a month and a day with `-` between them.
    ///
    /// The text is read by chrono's parser: see [`parsed_date`].
    pub fn parse(text: &str) -> (r: Option<CalendarDate>)
        ensures
            r == parsed_date(text@, date_format()),
            r matches Some(d) ==> d.is_valid(),
    {
        parse_with_format(text, "%Y-%m-%d")
    }
}

/// The format in which a marker's date is written.
pub open spec fn date_format() -> Seq<char> {
    "%Y-%m-%d"@
}

/// Whether `year` has a 29th of February.
pub fn leap_year(year: i32) -> (r: bool)
    ensures
        r == is_leap_year(year as int),
{
    year % 4 == 0 && (year % 100 != 0 || year % 400 == 0)
}

/// The number of days of `month` in `year`.
pub fn month_length(year: i32, month: u32) -> (r: u32)
    ensures
        r == days_in_month(year as int, month as int),
{
    if month == 2 {
        if leap_year(year) {
            29
        } else {
            28
        }
    } else if month == 4 || month == 6 || month == 9 || month == 11 {
        30
    } else if 1 <= month && month <= 12 {
        31
    } else {
        0
    }
}

/// The day number of `date`, moved by a whole number of 400-year cycles so that
/// no step of the computation is negative.
fn shifted_day_number(date: &CalendarDate) -> (r: i64)
    requires
        date.is_valid(),
    ensures
        r == date.day_number() + CYCLE_SHIFT_DAYS,
        0 <= r <= 2 * CYCLE_SHIFT_DAYS,
{
    let y: i64 = date.year as i64 - 1 + CYCLE_SHIFT_YEARS;
    let before_year: i64 = 365 * y + y / 4 - y / 100 + y / 400;
    proof {
        lemma_whole_cycles(date.year - 1);
        assert(before_year == days_before_year(date.year as int) + CYCLE_SHIFT_DAYS);
    }
    let mut before_month: i64 = 0;
    let mut m: u32 = 1;
    while m < date.month
        invariant
            1 <= m <= date.month <= 12,
            before_month == days_before_month(date.year as int, m as int),
            0 <= before_month <= 31 * (m - 1),
        decreases date.month - m,
    {
        before_month = before_month + month_length(date.year, m) as i64;
        m = m + 1;
    }
    before_year + before_month + (date.day as i64 - 1)
}

/// Moving a year by whole 400-year cycles moves the leap days counted before
/// it by those of the cycles.
proof fn lemma_whole_cycles(y: int)
    ensures
        (y + 262_400) / 4 == y / 4 + 65_600,
        (y + 262_400) / 100 == y / 100 + 2_624,
        (y + 262_400) / 400 == y / 400 + 656,
{
}

/// A number of years that is a multiple of 400 and larger than any year's distance from 1.
const CYCLE_SHIFT_YEARS: i64 = 262_400;

/// The number of days in [`CYCLE_SHIFT_YEARS`] years.
const CYCLE_SHIFT_DAYS: i64 = 95_839_632;

/// What chrono's `NaiveDate::parse_from_str` makes of `text` under `format`:
/// the date it returns, or `None` where it returns an error.
pub uninterp spec fn parsed_date(text: Seq<char>, format: Seq<char>) -> Option<CalendarDate>;

/// Calls chrono's `NaiveDate::parse_from_str` and copies the year, month and day
/// of the date it returns. The parser's result is a function of the two texts;
/// it is named by [`parsed_date`], not spelled out. A date that chrono returns
/// is a day that exists, in a year between -262143 and 262142.
#[verifier::external_body]
fn parse_with_format(text: &str, format: &str) -> (r: Option<CalendarDate>)
    ensures
        r == parsed_date(text@, format@),
        r matches Some(d) ==> d.is_valid(),
{
    match chrono::NaiveDate::parse_from_str(text, format) {
        Ok(d) => Some(CalendarDate { year: d.year(), month: d.month(), day: d.day() }),
        Err(_) => None,
    }
}

/// A fixed offset of local time from UTC, in seconds; positive to the east.
#[derive(Debug, Clone, Copy, PartialEq, Eq, Structural)]
pub struct UtcOffset {
    pub local_minus_utc: i32,
}

impl UtcOffset {
    /// The offset is less than a day.
    pub open spec fn is_valid(self) -> bool {
        -SECONDS_PER_DAY < self.local_minus_utc < SECONDS_PER_DAY
    }

    /// The offset of `seconds` to the east of UTC, if that is less than a day.
    pub fn east(seconds: i32) -> (r: Option<UtcOffset>)
        ensures
            r == (if -SECONDS_PER_DAY < seconds < SECONDS_PER_DAY {
                Some(UtcOffset { local_minus_utc: seconds })
            } else {
                None
            }),
    {
        if -86_400 < seconds && seconds < 86_400 {
            Some(UtcOffset { local_minus_utc: seconds })
        } else {
            None
        }
    }

    /// The offset of `seconds` to the west of UTC, if that is less than a day.
    pub fn west(seconds: i32) -> (r: Option<UtcOffset>)
        ensures
            r == (if -SECONDS_PER_DAY < seconds < SECONDS_PER_DAY {
                Some(UtcOffset { local_minus_utc: (-seconds) as i32 })
            } else {
                None
            }),
    {
        if -86_400 < seconds && seconds < 86_400 {
            Some(UtcOffset { local_minus_utc: -seconds })
        } else {
            None
        }
    }
}

/// A moment, given by the UTC date on which it falls and the seconds of that
/// day that have passed.
#[derive(Debug, Clone, Copy, PartialEq, Eq, Structural)]
pub struct UtcInstant {
    pub date: CalendarDate,
    pub second_of_day: u32,
}

impl UtcInstant {
    /// The date exists, is neither in the first nor in the last year, and the
    /// second lies within the day.
    pub open spec fn is_valid(self) -> bool {
        &&& self.date.is_valid()
        &&& MIN_YEAR < self.date.year < MAX_YEAR
        &&& self.second_of_day < SECONDS_PER_DAY
    }

    /// The calendar date that a clock set to `offset` shows at this moment.
    pub open spec fn local_date(self, offset: UtcOffset) -> CalendarDate {
        let local_second = self.second_of_day + offset.local_minus_utc;
        if local_second < 0 {
            self.date.previous()
        } else if local_second >= SECONDS_PER_DAY {
            self.date.next()
        } else {
            self.date
        }
    }

    /// The number of seconds from the start of 0001-01-01 UTC to this moment.
    pub open spec fn seconds(self) -> int {
        self.date.day_number() * SECONDS_PER_DAY + self.second_of_day
    }

    /// The moment `second_of_day` seconds into `date`, if both are in range.
    pub fn new(date: CalendarDate, second_of_day: u32) -> (r: Option<UtcInstant>)
        ensures
            r == (if (UtcInstant { date, second_of_day }).is_valid() {
                Some(UtcInstant { date, second_of_day })
            } else {
                None
            }),
    {
        let in_range = match CalendarDate::from_ymd(date.year, date.month, date.day) {
            Some(_) => MIN_YEAR < date.year && date.year < MAX_YEAR,
            None => false,
        };
        if in_range && second_of_day < SECONDS_PER_DAY {
            Some(UtcInstant { date, second_of_day })
        } else {
            None
        }
    }

    /// The moment `seconds` seconds after the start of 1970 in UTC, as chrono
    /// reckons it; `None` where chrono has no date for it.
    pub fn from_unix_seconds(seconds: i64) -> (r: Option<UtcInstant>)
        ensures
            r is Some <==> MIN_UNIX_SECONDS <= seconds <= MAX_UNIX_SECONDS,
            r matches Some(at) ==> at.is_valid() && at.seconds() == seconds + UNIX_EPOCH_DAY_NUMBER
                * SECONDS_PER_DAY,
    {
        instant_of_timestamp(seconds)
    }

    /// The present moment, by the system clock; `None` where the clock
    /// cannot be read, or shows a time before 1970 or beyond chrono's dates.
    pub fn now() -> (r: Option<UtcInstant>)
        ensures
            r matches Some(now) ==> now.is_valid(),
    {
        match seconds_since_epoch() {
            Some(seconds) => if seconds <= 0x7fff_ffff_ffff_ffff {
                UtcInstant::from_unix_seconds(seconds as i64)
            } else {
                None
            },
            None => None,
        }
    }

    /// The calendar date that a clock set to `offset` shows at this moment.
    pub fn date_at(&self, offset: &UtcOffset) -> (r: CalendarDate)
        requires
            self.is_valid(),
            offset.is_valid(),
        ensures
            r == self.local_date(*offset),
            r.is_valid(),
    {
        let local_second: i64 = self.second_of_day as i64 + offset.local_minus_utc as i64;
        if local_second < 0 {
            self.date.predecessor()
        } else if local_second >= 86_400 {
            self.date.successor()
        } else {
            self.date
        }
    }
}

/// The clock could not be read, or shows a time for which there is no date.
#[derive(Debug, Clone, Copy, PartialEq, Eq, Structural)]
pub struct ClockError;

impl ClockError {
    /// What the user is told.
    pub fn message(&self) -> (r: &'static str)
        ensures
            r@ == "the system clock could not be read"@,
    {
        "the system clock could not be read"
    }
}

/// Today's date on a clock set to `offset`; an error where the clock cannot
/// be read.
pub fn today(offset: &UtcOffset) -> (r: Result<CalendarDate, ClockError>)
    requires
        offset.is_valid(),
    ensures
        r matches Ok(day) ==> day.is_valid() && exists|now: UtcInstant|
            now.is_valid() && day == #[trigger] now.local_date(*offset),
{
    match UtcInstant::now() {
        Some(now) => Ok(now.date_at(offset)),
        None => Err(ClockError),
    }
}

/// The number of days from 0001-01-01 to 1970-01-01.
pub const UNIX_EPOCH_DAY_NUMBER: i64 = 719_162;

/// The first second of chrono's first day, -262143-01-01, counted from the
/// start of 1970.
pub const MIN_UNIX_SECONDS: i64 = -8_334_601_228_800;

/// The last second of chrono's last day, 262142-12-31, counted from the start
/// of 1970.
pub const MAX_UNIX_SECONDS: i64 = 8_210_266_876_799;

/// Calls `SystemTime::elapsed` of the standard library on `UNIX_EPOCH` and
/// takes the whole seconds of the duration; `None` where the clock shows a
/// time before 1970. The value differs from call to call, and nothing is
/// claimed of it.
#[verifier::external_body]
fn seconds_since_epoch() -> (r: Option<u64>) {
    match std::time::UNIX_EPOCH.elapsed() {
        Ok(since) => Some(since.as_secs()),
        Err(_) => None,
    }
}

/// Calls chrono's `DateTime::from_timestamp` with no nanoseconds and copies
/// the UTC year, month, day and second of the day of what it returns. chrono
/// returns a date exactly for the seconds that fall on its days, from
/// -262143-01-01 to 262142-12-31; the date is the day in which the second
/// falls, counted from 1970-01-01, and the time the seconds into that day.
#[verifier::external_body]
fn instant_of_timestamp(seconds: i64) -> (r: Option<UtcInstant>)
    ensures
        r is Some <==> MIN_UNIX_SECONDS <= seconds <= MAX_UNIX_SECONDS,
        r matches Some(at) ==> at.is_valid() && at.seconds() == seconds + UNIX_EPOCH_DAY_NUMBER
            * SECONDS_PER_DAY,
{
    match chrono::DateTime::from_timestamp(seconds, 0) {
        Some(at) => Some(
            UtcInstant {
                date: CalendarDate { year: at.year(), month: at.month(), day: at.day() },
                second_of_day: at.num_seconds_from_midnight(),
            },
        ),
        None => None,
    }
}

/// A year has 365 days, or 366 where it is a leap year: the first of January
/// of the next year is that many days later.
pub proof fn lemma_year_length(year: int)
    ensures
        days_before_year(year + 1) == days_before_year(year) + if is_leap_year(year) {
            366int
        } else {
            365int
        },
        days_before_month(year, 12) + 31 == if is_leap_year(year) {
            366int
        } else {
            365int
        },
{
    reveal_with_fuel(days_before_month, 13);
}

/// The days before a month grow with the month, by at least the length of
/// each month passed.
pub proof fn lemma_days_before_month_grows(year: int, earlier: int, later: int)
    requires
        1 <= earlier < later <= 12,
    ensures
        days_before_month(year, earlier) + days_in_month(year, earlier) <= days_before_month(
            year,
            later,
        ),
        0 <= days_before_month(year, earlier),
{
    reveal_with_fuel(days_before_month, 13);
}

/// The first of January comes later in a later year, by at least 365 days a year.
pub proof fn lemma_days_before_year_grows(earlier: int, later: int)
    requires
        earlier <= later,
    ensures
        days_before_year(earlier) + 365 * (later - earlier) <= days_before_year(later),
    decreases later - earlier,
{
    if earlier < later {
        lemma_days_before_year_grows(earlier, later - 1);
        lemma_year_length(later - 1);
    }
}

/// The day after a day has the next day number, and exists.
pub proof fn lemma_next_day(date: CalendarDate)
    requires
        date.is_valid(),
        date.year < MAX_YEAR,
    ensures
        date.next().is_valid(),
        date.next().day_number() == date.day_number() + 1,
        date.before(date.next()),
        date.next().previous() == date,
{
    lemma_year_length(date.year as int);
    reveal_with_fuel(days_before_month, 13);
}

/// The day before a day has the day number before, and exists.
pub proof fn lemma_previous_day(date: CalendarDate)
    requires
        date.is_valid(),
        date.year > MIN_YEAR,
    ensures
        date.previous().is_valid(),
        date.previous().day_number() == date.day_number() - 1,
        date.previous().before(date),
        date.previous().next() == date,
{
    lemma_year_length(date.year - 1);
    reveal_with_fuel(days_before_month, 13);
}

/// The order of dates by year, month and day is the order of their day
/// numbers: a date is before another exactly where fewer days have passed.
pub proof fn lemma_before_is_earlier(a: CalendarDate, b: CalendarDate)
    requires
        a.is_valid(),
        b.is_valid(),
    ensures
        a.before(b) <==> a.day_number() < b.day_number(),
        a == b <==> a.day_number() == b.day_number(),
{
    lemma_day_of_year_bounds(a);
    lemma_day_of_year_bounds(b);
    if a.year < b.year {
        lemma_days_before_year_grows(a.year + 1, b.year as int);
        lemma_year_length(a.year as int);
    } else if b.year < a.year {
        lemma_days_before_year_grows(b.year + 1, a.year as int);
        lemma_year_length(b.year as int);
    } else if a.month < b.month {
        lemma_days_before_month_grows(a.year as int, a.month as int, b.month as int);
    } else if b.month < a.month {
        lemma_days_before_month_grows(a.year as int, b.month as int, a.month as int);
    }
}

/// A day lies within its year: at least 0 and fewer than the year's length of
/// days have passed since the first of January.
pub proof fn lemma_day_of_year_bounds(date: CalendarDate)
    requires
        date.is_valid(),
    ensures
        0 <= date.day_number() - days_before_year(date.year as int) < if is_leap_year(
            date.year as int,
        ) {
            366int
        } else {
            365int
        },
{
    reveal_with_fuel(days_before_month, 13);
}

/// The local date of a moment is the day in which the moment falls once the
/// offset is added to it: its day number is the number of whole days in the
/// local seconds.
pub proof fn lemma_local_date_is_day_of_local_seconds(instant: UtcInstant, offset: UtcOffset)
    requires
        instant.is_valid(),
        offset.is_valid(),
    ensures
        instant.local_date(offset).is_valid(),
        instant.local_date(offset).day_number() == (instant.seconds() + offset.local_minus_utc)
            / (SECONDS_PER_DAY as int),
{
    lemma_next_day(instant.date);
    lemma_previous_day(instant.date);
}

/// A clock further east never shows an earlier date: of two offsets, the
/// greater gives the same local date or a later one.
pub proof fn lemma_local_date_grows_with_offset(
    instant: UtcInstant,
    west: UtcOffset,
    east: UtcOffset,
)
    requires
        instant.is_valid(),
        west.is_valid(),
        east.is_valid(),
        west.local_minus_utc <= east.local_minus_utc,
    ensures
        !instant.local_date(east).before(instant.local_date(west)),
{
    lemma_local_date_is_day_of_local_seconds(instant, west);
    lemma_local_date_is_day_of_local_seconds(instant, east);
    lemma_before_is_earlier(instant.local_date(east), instant.local_date(west));
}

} // verus!
