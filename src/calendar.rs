//! Proleptic Gregorian calendar arithmetic on plain integers.
use vstd::prelude::*;

verus! {

/// Smallest year a date may carry.
pub const MIN_YEAR: i32 = -262144;

/// Largest year a date may carry.
pub const MAX_YEAR: i32 = 262143;

pub open spec fn is_leap_year(y: int) -> bool {
    (y % 4 == 0 && y % 100 != 0) || y % 400 == 0
}

pub open spec fn days_in_month(y: int, m: int) -> int {
    if m == 2 {
        if is_leap_year(y) { 29 } else { 28 }
    } else if m == 4 || m == 6 || m == 9 || m == 11 {
        30
    } else {
        31
    }
}

pub open spec fn days_in_year(y: int) -> int {
    if is_leap_year(y) { 366 } else { 365 }
}

/// Number of days in the months of year `y` that precede month `m`.
pub open spec fn days_before_month(y: int, m: int) -> int
    decreases m,
{
    if m <= 1 {
        0
    } else {
        days_before_month(y, m - 1) + days_in_month(y, m - 1)
    }
}

/// Number of leap years in the years before `y`, counted from an arbitrary origin.
pub open spec fn leap_years_before(y: int) -> int {
    (y - 1) / 4 - (y - 1) / 100 + (y - 1) / 400
}

/// Days from 1970-01-01 to the first day of year `y` (negative before 1970).
pub open spec fn days_before_year(y: int) -> int {
    365 * (y - 1970) + leap_years_before(y) - leap_years_before(1970)
}

/// Days from 1970-01-01 to the given date.
pub open spec fn days_from_civil(y: int, m: int, d: int) -> int {
    days_before_year(y) + days_before_month(y, m) + d - 1
}

pub proof fn lemma_year_step(y: int)
    ensures
        days_before_year(y + 1) == days_before_year(y) + days_in_year(y),
{
    assert((y / 4) - ((y - 1) / 4) == if y % 4 == 0 { 1int } else { 0 });
    assert((y / 100) - ((y - 1) / 100) == if y % 100 == 0 { 1int } else { 0 });
    assert((y / 400) - ((y - 1) / 400) == if y % 400 == 0 { 1int } else { 0 });
}

pub proof fn lemma_year_bounds(a: int, b: int)
    requires
        a <= b,
    ensures
        days_before_year(a) + 365 * (b - a) <= days_before_year(b),
        days_before_year(b) <= days_before_year(a) + 366 * (b - a),
    decreases b - a,
{
    if a < b {
        lemma_year_bounds(a, b - 1);
        lemma_year_step(b - 1);
    }
}

pub proof fn lemma_month_table(y: int)
    ensures
        days_before_month(y, 1) == 0,
        days_before_month(y, 2) == 31,
        days_before_month(y, 3) == 59 + if is_leap_year(y) { 1int } else { 0 },
        days_before_month(y, 4) == 90 + if is_leap_year(y) { 1int } else { 0 },
        days_before_month(y, 5) == 120 + if is_leap_year(y) { 1int } else { 0 },
        days_before_month(y, 6) == 151 + if is_leap_year(y) { 1int } else { 0 },
        days_before_month(y, 7) == 181 + if is_leap_year(y) { 1int } else { 0 },
        days_before_month(y, 8) == 212 + if is_leap_year(y) { 1int } else { 0 },
        days_before_month(y, 9) == 243 + if is_leap_year(y) { 1int } else { 0 },
        days_before_month(y, 10) == 273 + if is_leap_year(y) { 1int } else { 0 },
        days_before_month(y, 11) == 304 + if is_leap_year(y) { 1int } else { 0 },
        days_before_month(y, 12) == 334 + if is_leap_year(y) { 1int } else { 0 },
        days_before_month(y, 13) == days_in_year(y),
{
    reveal_with_fuel(days_before_month, 13);
}

fn is_leap(y: i32) -> (r: bool)
    requires
        MIN_YEAR - 1 <= y <= MAX_YEAR + 1,
    ensures
        r == is_leap_year(y as int),
{
    let z: i64 = y as i64 + YEAR_SHIFT;
    assert(z % 4 == (y as int) % 4 && z % 100 == (y as int) % 100 && z % 400 == (y as int) % 400);
    (z % 4 == 0 && z % 100 != 0) || z % 400 == 0
}

/// Length of month `m` of year `y`.
pub fn month_length(y: i32, m: u32) -> (r: u32)
    requires
        MIN_YEAR <= y <= MAX_YEAR,
        1 <= m <= 12,
    ensures
        r == days_in_month(y as int, m as int),
{
    if m == 2 {
        if is_leap(y) { 29 } else { 28 }
    } else if m == 4 || m == 6 || m == 9 || m == 11 {
        30
    } else {
        31
    }
}

fn month_offset(y: i32, m: u32) -> (r: i64)
    requires
        MIN_YEAR <= y <= MAX_YEAR,
        1 <= m <= 13,
    ensures
        r == days_before_month(y as int, m as int),
{
    proof {
        lemma_month_table(y as int);
    }
    let base: i64 = match m {
        1 => 0,
        2 => 31,
        3 => 59,
        4 => 90,
        5 => 120,
        6 => 151,
        7 => 181,
        8 => 212,
        9 => 243,
        10 => 273,
        11 => 304,
        12 => 334,
        _ => 365,
    };
    if m >= 3 && is_leap(y) {
        base + 1
    } else {
        base
    }
}

/// Shift that makes every year of the supported range positive before a division.
const YEAR_SHIFT: i64 = 400000;

fn year_offset(y: i32) -> (r: i64)
    requires
        MIN_YEAR - 1 <= y <= MAX_YEAR + 1,
    ensures
        r == days_before_year(y as int),
{
    let z: i64 = y as i64 - 1 + YEAR_SHIFT;
    let leaps: i64 = z / 4 - z / 100 + z / 400 - 97000;
    assert(z / 4 == (y as int - 1) / 4 + 100000);
    assert(z / 100 == (y as int - 1) / 100 + 4000);
    assert(z / 400 == (y as int - 1) / 400 + 1000);
    365 * (y as i64 - 1970) + leaps - 477
}

/// A calendar date: year, month of year (1 to 12) and day of month.
#[derive(Clone, Copy, Debug, PartialEq, Eq, Structural)]
pub struct NaiveDate {
    pub year: i32,
    pub month: u32,
    pub day: u32,
}

/// A wall-clock time of day, with a sub-second part in nanoseconds.
#[derive(Clone, Copy, Debug, PartialEq, Eq, Structural)]
pub struct NaiveTime {
    pub hour: u32,
    pub minute: u32,
    pub second: u32,
    pub nano: u32,
}

/// A date and a time of day with no offset attached.
#[derive(Clone, Copy, Debug, PartialEq, Eq, Structural)]
pub struct NaiveDateTime {
    pub date: NaiveDate,
    pub time: NaiveTime,
}

pub const SECONDS_PER_DAY: i64 = 86400;

impl NaiveDate {
    pub open spec fn wf(self) -> bool {
        &&& MIN_YEAR <= self.year <= MAX_YEAR
        &&& 1 <= self.month <= 12
        &&& 1 <= self.day <= days_in_month(self.year as int, self.month as int)
    }

    /// Days from 1970-01-01 to this date.
    pub open spec fn day_number(self) -> int {
        days_from_civil(self.year as int, self.month as int, self.day as int)
    }

    /// The date with the given fields, if they name a day of the calendar.
    pub fn from_ymd_opt(year: i32, month: u32, day: u32) -> (r: Option<NaiveDate>)
        ensures
            r == (if (NaiveDate { year, month, day }).wf() {
                Some(NaiveDate { year, month, day })
            } else {
                None
            }),
    {
        if year < MIN_YEAR || year > MAX_YEAR || month < 1 || month > 12 {
            return None;
        }
        if day < 1 || day > month_length(year, month) {
            return None;
        }
        Some(NaiveDate { year, month, day })
    }

    /// Whether the fields name a day of the supported calendar.
    pub fn is_valid(&self) -> (r: bool)
        ensures
            r == self.wf(),
    {
        NaiveDate::from_ymd_opt(self.year, self.month, self.day).is_some()
    }

    pub fn year(&self) -> (r: i32)
        ensures
            r == self.year,
    {
        self.year
    }

    pub fn month(&self) -> (r: u32)
        ensures
            r == self.month,
    {
        self.month
    }

    pub fn day(&self) -> (r: u32)
        ensures
            r == self.day,
    {
        self.day
    }

    /// Days from 1970-01-01 to this date.
    pub fn days_since_epoch(&self) -> (r: i64)
        requires
            self.wf(),
        ensures
            r == self.day_number(),
            min_day_number() <= r <= max_day_number(),
    {
        proof {
            lemma_day_number_bounds(*self);
        }
        year_offset(self.year) + month_offset(self.year, self.month) + self.day as i64 - 1
    }

    /// The date that lies the given number of days after 1970-01-01.
    pub fn from_days_since_epoch(n: i64) -> (r: NaiveDate)
        requires
            min_day_number() <= n <= max_day_number(),
        ensures
            r.wf(),
            r.day_number() == n,
    {
        let mut y: i64 = 1970 + (n * 400) / 146097;
        if y < MIN_YEAR as i64 {
            y = MIN_YEAR as i64;
        }
        if y > MAX_YEAR as i64 {
            y = MAX_YEAR as i64;
        }
        let mut off: i64 = year_offset(y as i32);
        while off > n
            invariant
                MIN_YEAR <= y <= MAX_YEAR,
                off == days_before_year(y as int),
                min_day_number() <= n <= max_day_number(),
            decreases y - MIN_YEAR,
        {
            proof {
                lemma_year_step(y as int - 1);
                if y <= MIN_YEAR {
                    assert(y == MIN_YEAR);
                }
            }
            y = y - 1;
            off = year_offset(y as i32);
        }
        while year_offset(y as i32 + 1) <= n
            invariant
                MIN_YEAR <= y <= MAX_YEAR,
                days_before_year(y as int) <= n,
                min_day_number() <= n <= max_day_number(),
            decreases MAX_YEAR - y,
        {
            proof {
                lemma_year_step(y as int);
                if y >= MAX_YEAR {
                    assert(y == MAX_YEAR);
                }
            }
            y = y + 1;
        }
        let year: i32 = y as i32;
        proof {
            lemma_year_step(year as int);
            lemma_month_table(year as int);
        }
        let doy: i64 = n - year_offset(year);
        let mut m: u32 = 1;
        while m < 12 && month_offset(year, m + 1) <= doy
            invariant
                1 <= m <= 12,
                MIN_YEAR <= year <= MAX_YEAR,
                days_before_month(year as int, m as int) <= doy,
                0 <= doy < days_in_year(year as int),
            decreases 12 - m,
        {
            m = m + 1;
        }
        assert(days_before_month(year as int, m as int + 1) == days_before_month(year as int, m as int)
            + days_in_month(year as int, m as int));
        let d: i64 = doy - month_offset(year, m) + 1;
        NaiveDate { year, month: m, day: d as u32 }
    }
}

/// Day number of the first supported date.
pub open spec fn min_day_number() -> int {
    days_before_year(MIN_YEAR as int)
}

/// Day number of the last supported date.
pub open spec fn max_day_number() -> int {
    days_before_year(MAX_YEAR as int + 1) - 1
}

pub proof fn lemma_day_number_range()
    ensures
        min_day_number() == -96465658,
        max_day_number() == 95026601,
{
}

/// Smallest whole-second timestamp that names a supported date and time.
pub const MIN_TIMESTAMP: i64 = -8334632851200;

/// Largest whole-second timestamp that names a supported date and time.
pub const MAX_TIMESTAMP: i64 = 8210298412799;

pub const NANOS_PER_SECOND: u32 = 1_000_000_000;

/// Shift of whole days that makes every supported timestamp positive before a division.
const DAY_SHIFT: i64 = 100_000_000;

impl NaiveTime {
    pub open spec fn wf(self) -> bool {
        &&& self.hour < 24
        &&& self.minute < 60
        &&& self.second < 60
        &&& self.nano < NANOS_PER_SECOND
    }

    /// Whole seconds since midnight.
    pub open spec fn second_of_day(self) -> int {
        self.hour * 3600 + self.minute * 60 + self.second
    }

    /// The time with the given fields and no sub-second part, if they name a time of day.
    pub fn from_hms_opt(hour: u32, minute: u32, second: u32) -> (r: Option<NaiveTime>)
        ensures
            r == (if hour < 24 && minute < 60 && second < 60 {
                Some(NaiveTime { hour, minute, second, nano: 0 })
            } else {
                None
            }),
    {
        if hour < 24 && minute < 60 && second < 60 {
            Some(NaiveTime { hour, minute, second, nano: 0 })
        } else {
            None
        }
    }

    /// The time with the given fields, if they name a time of day.
    pub fn from_hms_nano_opt(hour: u32, minute: u32, second: u32, nano: u32) -> (r: Option<
        NaiveTime,
    >)
        ensures
            r == (if (NaiveTime { hour, minute, second, nano }).wf() {
                Some(NaiveTime { hour, minute, second, nano })
            } else {
                None
            }),
    {
        if hour < 24 && minute < 60 && second < 60 && nano < NANOS_PER_SECOND {
            Some(NaiveTime { hour, minute, second, nano })
        } else {
            None
        }
    }

    /// Whether the fields name a time of day.
    pub fn is_valid(&self) -> (r: bool)
        ensures
            r == self.wf(),
    {
        self.hour < 24 && self.minute < 60 && self.second < 60 && self.nano < NANOS_PER_SECOND
    }

    pub fn hour(&self) -> (r: u32)
        ensures
            r == self.hour,
    {
        self.hour
    }

    pub fn minute(&self) -> (r: u32)
        ensures
            r == self.minute,
    {
        self.minute
    }

    pub fn second(&self) -> (r: u32)
        ensures
            r == self.second,
    {
        self.second
    }

    pub fn nanosecond(&self) -> (r: u32)
        ensures
            r == self.nano,
    {
        self.nano
    }
}

impl NaiveDateTime {
    pub open spec fn wf(self) -> bool {
        self.date.wf() && self.time.wf()
    }

    /// Whole seconds since 1970-01-01T00:00:00, the sub-second part left out.
    pub open spec fn seconds(self) -> int {
        self.date.day_number() * 86400 + self.time.second_of_day()
    }

    /// Whether the date and the time are both valid.
    pub fn is_valid(&self) -> (r: bool)
        ensures
            r == self.wf(),
    {
        self.date.is_valid() && self.time.is_valid()
    }

    /// Whole seconds since 1970-01-01T00:00:00; the sub-second part is dropped.
    pub fn timestamp(&self) -> (r: i64)
        requires
            self.wf(),
        ensures
            r == self.seconds(),
            MIN_TIMESTAMP <= r <= MAX_TIMESTAMP,
    {
        proof {
            lemma_day_number_range();
        }
        let days: i64 = self.date.days_since_epoch();
        days * SECONDS_PER_DAY + (self.time.hour as i64) * 3600 + (self.time.minute as i64) * 60
            + self.time.second as i64
    }

    /// The date and time `secs` whole seconds and `nano` nanoseconds after
    /// 1970-01-01T00:00:00, if `secs` lies in the supported range and `nano` is under a second.
    pub fn from_timestamp_opt(secs: i64, nano: u32) -> (r: Option<NaiveDateTime>)
        ensures
            r is Some <==> MIN_TIMESTAMP <= secs <= MAX_TIMESTAMP && nano < NANOS_PER_SECOND,
            r matches Some(dt) ==> dt.wf() && dt.seconds() == secs && dt.time.nano == nano,
    {
        if secs < MIN_TIMESTAMP || secs > MAX_TIMESTAMP || nano >= NANOS_PER_SECOND {
            return None;
        }
        proof {
            lemma_day_number_range();
        }
        let shifted: i64 = secs + DAY_SHIFT * SECONDS_PER_DAY;
        let days: i64 = shifted / SECONDS_PER_DAY - DAY_SHIFT;
        let rem: i64 = shifted % SECONDS_PER_DAY;
        assert(days * 86400 + rem == secs);
        let date = NaiveDate::from_days_since_epoch(days);
        let hour: u32 = (rem / 3600) as u32;
        let minute: u32 = ((rem % 3600) / 60) as u32;
        let second: u32 = (rem % 60) as u32;
        Some(NaiveDateTime { date, time: NaiveTime { hour, minute, second, nano } })
    }
}

/// Offsets lie strictly within a day either side of UTC, counted in minutes.
pub const MINUTES_PER_DAY: i32 = 1440;

/// A date and time of day at a fixed offset east of UTC, in minutes.
#[derive(Clone, Copy, Debug, PartialEq, Eq, Structural)]
pub struct DateTimeFixedOffset {
    pub local: NaiveDateTime,
    pub offset: i32,
}

/// A date and time of day in UTC.
#[derive(Clone, Copy, Debug, PartialEq, Eq, Structural)]
pub struct DateTimeUtc {
    pub utc: NaiveDateTime,
}

impl DateTimeFixedOffset {
    /// Whole seconds since 1970-01-01T00:00:00 UTC.
    pub open spec fn instant(self) -> int {
        self.local.seconds() - self.offset * 60
    }

    pub open spec fn wf(self) -> bool {
        &&& self.local.wf()
        &&& -MINUTES_PER_DAY < self.offset < MINUTES_PER_DAY
        &&& MIN_TIMESTAMP <= self.instant() <= MAX_TIMESTAMP
    }

    /// The local date and time at the given offset, if both are in range.
    pub fn new(local: NaiveDateTime, offset: i32) -> (r: Option<DateTimeFixedOffset>)
        requires
            local.wf(),
        ensures
            r == (if (DateTimeFixedOffset { local, offset }).wf() {
                Some(DateTimeFixedOffset { local, offset })
            } else {
                None
            }),
    {
        if offset <= -MINUTES_PER_DAY || offset >= MINUTES_PER_DAY {
            return None;
        }
        let t: i64 = local.timestamp() - offset as i64 * 60;
        if t < MIN_TIMESTAMP || t > MAX_TIMESTAMP {
            return None;
        }
        Some(DateTimeFixedOffset { local, offset })
    }

    /// Whether the local date and time, the offset and the instant are all in range.
    pub fn is_valid(&self) -> (r: bool)
        ensures
            r == self.wf(),
    {
        self.local.is_valid() && DateTimeFixedOffset::new(self.local, self.offset).is_some()
    }

    /// The same instant, in UTC.
    pub fn to_utc(&self) -> (r: DateTimeUtc)
        requires
            self.wf(),
        ensures
            r.wf(),
            r.utc.seconds() == self.instant(),
            r.utc.time.nano == self.local.time.nano,
    {
        let t: i64 = self.local.timestamp() - self.offset as i64 * 60;
        match NaiveDateTime::from_timestamp_opt(t, self.local.time.nano) {
            Some(utc) => DateTimeUtc { utc },
            None => {
                assert(false);
                DateTimeUtc { utc: self.local }
            },
        }
    }
}

impl DateTimeUtc {
    pub open spec fn wf(self) -> bool {
        self.utc.wf()
    }

    /// The instant `secs` whole seconds and `nano` nanoseconds after the epoch, if in range.
    pub fn from_timestamp_opt(secs: i64, nano: u32) -> (r: Option<DateTimeUtc>)
        ensures
            r is Some <==> MIN_TIMESTAMP <= secs <= MAX_TIMESTAMP && nano < NANOS_PER_SECOND,
            r matches Some(u) ==> u.wf() && u.utc.seconds() == secs && u.utc.time.nano == nano,
    {
        match NaiveDateTime::from_timestamp_opt(secs, nano) {
            Some(utc) => Some(DateTimeUtc { utc }),
            None => None,
        }
    }

    /// Whether the date and time are valid.
    pub fn is_valid(&self) -> (r: bool)
        ensures
            r == self.wf(),
    {
        self.utc.is_valid()
    }

    /// The same instant at offset zero.
    pub fn to_fixed_offset(&self) -> (r: DateTimeFixedOffset)
        requires
            self.wf(),
        ensures
            r.wf(),
            r.local == self.utc,
            r.offset == 0,
    {
        proof {
            lemma_seconds_bounds(self.utc);
        }
        DateTimeFixedOffset { local: self.utc, offset: 0 }
    }
}

/// Every supported date has a day number in the supported range.
pub proof fn lemma_day_number_bounds(d: NaiveDate)
    requires
        d.wf(),
    ensures
        min_day_number() <= d.day_number() <= max_day_number(),
{
    lemma_year_bounds(MIN_YEAR as int, d.year as int);
    lemma_year_bounds(d.year as int + 1, MAX_YEAR as int + 1);
    lemma_year_step(d.year as int);
    lemma_month_table(d.year as int);
    assert(days_before_month(d.year as int, d.month as int + 1) == days_before_month(
        d.year as int,
        d.month as int,
    ) + days_in_month(d.year as int, d.month as int));
}

/// Every supported date and time lies in the supported range of timestamps.
pub proof fn lemma_seconds_bounds(dt: NaiveDateTime)
    requires
        dt.wf(),
    ensures
        MIN_TIMESTAMP <= dt.seconds() <= MAX_TIMESTAMP,
{
    lemma_day_number_bounds(dt.date);
    lemma_day_number_range();
}

/// A supported date lies before the first day of the following year.
proof fn lemma_day_number_within_year(d: NaiveDate)
    requires
        d.wf(),
    ensures
        days_before_year(d.year as int) <= d.day_number() < days_before_year(d.year as int + 1),
{
    lemma_year_step(d.year as int);
    lemma_month_table(d.year as int);
}

/// Two supported dates with the same day number are the same date.
pub proof fn lemma_day_number_injective(a: NaiveDate, b: NaiveDate)
    requires
        a.wf(),
        b.wf(),
        a.day_number() == b.day_number(),
    ensures
        a == b,
{
    lemma_day_number_within_year(a);
    lemma_day_number_within_year(b);
    if a.year < b.year {
        lemma_year_bounds(a.year as int + 1, b.year as int);
    } else if b.year < a.year {
        lemma_year_bounds(b.year as int + 1, a.year as int);
    }
    assert(a.year == b.year);
    lemma_month_table(a.year as int);
}

/// Two supported dates and times with the same seconds and sub-second part are equal.
pub proof fn lemma_seconds_injective(a: NaiveDateTime, b: NaiveDateTime)
    requires
        a.wf(),
        b.wf(),
        a.seconds() == b.seconds(),
        a.time.nano == b.time.nano,
    ensures
        a == b,
{
    let sa = a.time.second_of_day();
    let sb = b.time.second_of_day();
    assert(0 <= sa < 86400 && 0 <= sb < 86400);
    assert(a.date.day_number() == b.date.day_number()) by {
        if a.date.day_number() < b.date.day_number() {
            assert(a.seconds() < b.seconds()) by (nonlinear_arith)
                requires
                    a.seconds() == a.date.day_number() * 86400 + sa,
                    b.seconds() == b.date.day_number() * 86400 + sb,
                    a.date.day_number() < b.date.day_number(),
                    0 <= sa < 86400,
                    0 <= sb < 86400,
            ;
        } else if b.date.day_number() < a.date.day_number() {
            assert(b.seconds() < a.seconds()) by (nonlinear_arith)
                requires
                    a.seconds() == a.date.day_number() * 86400 + sa,
                    b.seconds() == b.date.day_number() * 86400 + sb,
                    b.date.day_number() < a.date.day_number(),
                    0 <= sa < 86400,
                    0 <= sb < 86400,
            ;
        }
    }
    lemma_day_number_injective(a.date, b.date);
    assert(sa == sb);
    assert(a.time.hour == b.time.hour);
    assert(a.time.minute == b.time.minute);
}

} // verus!
