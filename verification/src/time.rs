//! Points in time with a fixed offset from UTC, and the calendar of Zurich.
//!
//! A [`FixedDateTime`] holds what the rest of the library reads of a date and time:
//! the instant and the offset. The calendar itself (parsing, formatting, the rules of
//! the time zone) is chrono's and chrono-tz's; each of their functions that is used
//! stands behind one small function here.

use vstd::prelude::*;

verus! {

/// The first second that a date and time can denote.
pub const MIN_SECONDS: i64 = -8334601228800;

/// The last second that a date and time can denote.
pub const MAX_SECONDS: i64 = 8210266876799;

/// The first day that a date can denote, counted from 1970-01-01.
pub const MIN_DAY: i64 = -96465292;

/// The last day that a date can denote, counted from 1970-01-01.
pub const MAX_DAY: i64 = 95026236;

/// A point in time together with an offset from UTC.
#[derive(Debug, Clone, Copy)]
pub struct FixedDateTime {
    seconds: i64,
    nanos: u32,
    offset: i32,
}

impl FixedDateTime {
    #[verifier::type_invariant]
    spec fn valid(self) -> bool {
        &&& MIN_SECONDS <= self.seconds <= MAX_SECONDS
        &&& self.nanos < 2_000_000_000
        &&& self.seconds == MAX_SECONDS ==> self.nanos < 1_000_000_000
        &&& -86400 < self.offset < 86400
    }

    /// Seconds since 1970-01-01T00:00:00Z, leap seconds not counted.
    pub closed spec fn unix(self) -> int {
        self.seconds as int
    }

    /// Nanoseconds after that second; a value of a whole second or more denotes a
    /// leap second.
    pub closed spec fn subsec(self) -> int {
        self.nanos as int
    }

    /// Seconds by which local time is ahead of UTC.
    pub closed spec fn east(self) -> int {
        self.offset as int
    }

    /// The point in time with the given parts.
    pub closed spec fn of_parts(unix: int, subsec: int, east: int) -> FixedDateTime {
        FixedDateTime { seconds: unix as i64, nanos: subsec as u32, offset: east as i32 }
    }

    /// The day of the local calendar, counted from 1970-01-01.
    pub open spec fn local_day(self) -> int {
        (self.unix() + self.east()) / 86400
    }

    /// The instant, for comparison: earlier instants have smaller pairs.
    pub open spec fn not_after(self, other: FixedDateTime) -> bool {
        self.unix() < other.unix() || (self.unix() == other.unix() && self.subsec()
            <= other.subsec())
    }

    /// Puts the parts together, if they denote a point in time.
    pub fn new(seconds: i64, nanos: u32, offset: i32) -> (r: Option<FixedDateTime>)
        ensures
            r is Some <==> {
                &&& MIN_SECONDS <= seconds <= MAX_SECONDS
                &&& nanos < 2_000_000_000
                &&& seconds == MAX_SECONDS ==> nanos < 1_000_000_000
                &&& -86400 < offset < 86400
            },
            r matches Some(d) ==> d == FixedDateTime::of_parts(
                seconds as int,
                nanos as int,
                offset as int,
            ) && d.unix() == seconds && d.subsec() == nanos && d.east() == offset,
    {
        if seconds < MIN_SECONDS || seconds > MAX_SECONDS || nanos >= 2_000_000_000 || (seconds
            == MAX_SECONDS && nanos >= 1_000_000_000) || offset <= -86400 || offset >= 86400 {
            None
        } else {
            Some(FixedDateTime { seconds, nanos, offset })
        }
    }

    /// Seconds since 1970-01-01T00:00:00Z.
    pub fn seconds(&self) -> (r: i64)
        ensures
            r == self.unix(),
            MIN_SECONDS <= r <= MAX_SECONDS,
    {
        proof {
            use_type_invariant(self);
        }
        self.seconds
    }

    /// Nanoseconds after the second.
    pub fn nanos(&self) -> (r: u32)
        ensures
            r == self.subsec(),
            r < 2_000_000_000,
    {
        proof {
            use_type_invariant(self);
        }
        self.nanos
    }

    /// Seconds by which local time is ahead of UTC.
    pub fn offset(&self) -> (r: i32)
        ensures
            r == self.east(),
            -86400 < r < 86400,
    {
        proof {
            use_type_invariant(self);
        }
        self.offset
    }

    /// Whether this point in time does not come after the other one.
    pub fn is_not_after(&self, other: &FixedDateTime) -> (r: bool)
        ensures
            r == self.not_after(*other),
    {
        self.seconds < other.seconds || (self.seconds == other.seconds && self.nanos
            <= other.nanos)
    }

    /// The day of the local calendar, counted from 1970-01-01.
    pub fn day(&self) -> (r: i64)
        ensures
            r == self.local_day(),
            MIN_DAY - 1 <= r <= MAX_DAY + 1,
    {
        proof {
            use_type_invariant(self);
        }
        floor_div_day(self.seconds + (self.offset as i64))
    }
}

impl DeepView for FixedDateTime {
    type V = FixedDateTime;

    open spec fn deep_view(&self) -> FixedDateTime {
        *self
    }
}

/// Days, rounded down.
fn floor_div_day(n: i64) -> (r: i64)
    requires
        -9_000_000_000_000 < n < 9_000_000_000_000,
    ensures
        r == (n as int) / 86400,
{
    if n >= 0 {
        n / 86400
    } else {
        let m: i64 = -(n + 1);
        -(m / 86400) - 1
    }
}

/// A date and a time of day without a time zone.
#[derive(Debug, Clone, Copy)]
pub struct LocalDateTime {
    day: i64,
    second: u32,
    nanos: u32,
}

impl LocalDateTime {
    #[verifier::type_invariant]
    spec fn valid(self) -> bool {
        &&& MIN_DAY <= self.day <= MAX_DAY
        &&& self.second < 86400
        &&& self.nanos < 2_000_000_000
    }

    /// The day, counted from 1970-01-01.
    pub closed spec fn date(self) -> int {
        self.day as int
    }

    /// The second of the day.
    pub closed spec fn second_of_day(self) -> int {
        self.second as int
    }

    /// Nanoseconds after that second.
    pub closed spec fn subsec(self) -> int {
        self.nanos as int
    }

    /// The date and time with the given parts.
    pub closed spec fn of_parts(date: int, second_of_day: int, subsec: int) -> LocalDateTime {
        LocalDateTime { day: date as i64, second: second_of_day as u32, nanos: subsec as u32 }
    }

    /// The given hour and minute on the given day, if there is such a moment.
    pub fn at(day: i64, hour: u32, minute: u32) -> (r: Option<LocalDateTime>)
        ensures
            r is Some <==> MIN_DAY <= day <= MAX_DAY && hour < 24 && minute < 60,
            r matches Some(t) ==> {
                &&& t == LocalDateTime::of_parts(day as int, hour * 3600 + minute * 60, 0)
                &&& t.date() == day
                &&& t.second_of_day() == hour * 3600 + minute * 60
                &&& t.subsec() == 0
            },
    {
        if day < MIN_DAY || day > MAX_DAY || hour >= 24 || minute >= 60 {
            None
        } else {
            Some(LocalDateTime { day, second: hour * 3600 + minute * 60, nanos: 0 })
        }
    }

    /// The day, counted from 1970-01-01.
    pub fn day(&self) -> (r: i64)
        ensures
            r == self.date(),
            MIN_DAY <= r <= MAX_DAY,
    {
        proof {
            use_type_invariant(self);
        }
        self.day
    }

    /// The second of the day.
    pub fn second(&self) -> (r: u32)
        ensures
            r == self.second_of_day(),
            r < 86400,
    {
        proof {
            use_type_invariant(self);
        }
        self.second
    }

    /// Nanoseconds after that second.
    pub fn nanos(&self) -> (r: u32)
        ensures
            r == self.subsec(),
            r < 2_000_000_000,
    {
        proof {
            use_type_invariant(self);
        }
        self.nanos
    }
}

/// What a local date and time means in a time zone.
#[derive(Debug, Clone, Copy)]
pub enum LocalMapping {
    /// The clock shows it once.
    Single(FixedDateTime),
    /// The clock shows it twice.
    Ambiguous(FixedDateTime, FixedDateTime),
    /// The clock never shows it.
    Missing,
}

// ---------------------------------------------------------------------------
// chrono and chrono-tz
// ---------------------------------------------------------------------------

/// The offset of Zurich from UTC, in seconds, at a second since 1970.
pub uninterp spec fn zurich_offset(unix: int) -> int;

/// What `DateTime::parse_from_rfc3339` reads from a text.
pub uninterp spec fn rfc3339_value(text: Seq<char>) -> Option<FixedDateTime>;

/// What `NaiveDateTime::parse_from_str` reads from a text in a given format.
pub uninterp spec fn naive_value(text: Seq<char>, format: Seq<char>) -> Option<LocalDateTime>;

/// What Zurich's clock makes of a local date and time.
pub uninterp spec fn zurich_local(local: LocalDateTime) -> LocalMapping;

/// What `DateTime::to_rfc3339` writes.
pub uninterp spec fn rfc3339_text(time: FixedDateTime) -> Seq<char>;

/// The whole seconds of the difference of two points in time.
pub uninterp spec fn seconds_apart(later: FixedDateTime, earlier: FixedDateTime) -> int;

/// A point in time moved back by a number of minutes.
pub uninterp spec fn moved_back(time: FixedDateTime, minutes: int) -> Option<FixedDateTime>;

/// What `NaiveDate::format` writes for a day, as year, month and day of the month.
pub uninterp spec fn date_text(day: int) -> Seq<char>;

/// The year, month and day of the month of a day counted from 1970-01-01.
pub uninterp spec fn civil_date(day: int) -> (i32, u32, u32);

/// What `NaiveTime` displays for a second of the day and the nanoseconds after it.
pub uninterp spec fn clock_text(second: int, nanos: int) -> Seq<char>;

/// What `NaiveDateTime` displays.
pub uninterp spec fn naive_text(local: LocalDateTime) -> Seq<char>;

/// `chrono::Utc::now`: the current time, whatever it is, with the offset of UTC and
/// without a leap second.
#[verifier::external_body]
pub(crate) fn utc_now() -> (r: FixedDateTime)
    ensures
        r.east() == 0,
        r.subsec() < 1_000_000_000,
{
    let t = chrono::Utc::now();
    FixedDateTime { seconds: t.timestamp(), nanos: t.timestamp_subsec_nanos(), offset: 0 }
}

/// `DateTime::with_timezone` for `chrono_tz::Europe::Zurich`, with the offset then
/// fixed: the same instant, with the offset that Zurich has at that second.
#[verifier::external_body]
pub(crate) fn in_zurich(time: FixedDateTime) -> (r: FixedDateTime)
    ensures
        r.unix() == time.unix(),
        r.subsec() == time.subsec(),
        r.east() == zurich_offset(time.unix()),
{
    let utc = chrono::DateTime::from_timestamp(time.seconds, 0).unwrap();
    let there = utc.with_timezone(&chrono_tz::Europe::Zurich).fixed_offset();
    FixedDateTime { offset: there.offset().local_minus_utc(), ..time }
}

/// `chrono::DateTime::parse_from_rfc3339`: its value, or nothing where it fails. What
/// the RFC 3339 grammar accepts is not spelled out.
#[verifier::external_body]
pub(crate) fn parse_rfc3339(text: &str) -> (r: Option<FixedDateTime>)
    ensures
        r == rfc3339_value(text@),
{
    let t = chrono::DateTime::parse_from_rfc3339(text).ok()?;
    Some(
        FixedDateTime {
            seconds: t.timestamp(),
            nanos: t.timestamp_subsec_nanos(),
            offset: t.offset().local_minus_utc(),
        },
    )
}

/// `chrono::NaiveDateTime::parse_from_str`: its value, or nothing where it fails. What
/// a format accepts is not spelled out.
#[verifier::external_body]
pub(crate) fn parse_naive(text: &str, format: &str) -> (r: Option<LocalDateTime>)
    ensures
        r == naive_value(text@, format@),
{
    let t = chrono::NaiveDateTime::parse_from_str(text, format).ok()?;
    Some(
        LocalDateTime {
            day: t.date().to_epoch_days() as i64,
            second: chrono::Timelike::num_seconds_from_midnight(&t.time()),
            nanos: chrono::Timelike::nanosecond(&t.time()),
        },
    )
}

/// `TimeZone::from_local_datetime` for `chrono_tz::Europe::Zurich`, with the offsets
/// then fixed. Which local times Zurich's clock skips or repeats is not spelled out.
#[verifier::external_body]
pub(crate) fn zurich_from_local(local: LocalDateTime) -> (r: LocalMapping)
    ensures
        r == zurich_local(local),
{
    let clock = chrono::NaiveTime::from_num_seconds_from_midnight_opt(local.second, 0).unwrap();
    let clock = chrono::Timelike::with_nanosecond(&clock, local.nanos).unwrap();
    let naive = chrono::NaiveDate::from_epoch_days(local.day as i32).unwrap().and_time(clock);
    let fix = |t: chrono::DateTime<chrono_tz::Tz>| FixedDateTime {
        seconds: t.timestamp(),
        nanos: t.timestamp_subsec_nanos(),
        offset: t.fixed_offset().offset().local_minus_utc(),
    };
    match chrono::TimeZone::from_local_datetime(&chrono_tz::Europe::Zurich, &naive) {
        chrono::LocalResult::Single(t) => LocalMapping::Single(fix(t)),
        chrono::LocalResult::Ambiguous(a, b) => LocalMapping::Ambiguous(fix(a), fix(b)),
        chrono::LocalResult::None => LocalMapping::Missing,
    }
}

/// `chrono::DateTime::to_rfc3339`. The notation is not spelled out.
#[verifier::external_body]
pub(crate) fn write_rfc3339(time: FixedDateTime) -> (r: String)
    ensures
        r@ == rfc3339_text(time),
{
    let utc = chrono::DateTime::from_timestamp(time.seconds, 0).unwrap();
    let utc = chrono::Timelike::with_nanosecond(&utc, time.nanos).unwrap();
    utc.with_timezone(&chrono::FixedOffset::east_opt(time.offset).unwrap()).to_rfc3339()
}

/// The difference of two `chrono::DateTime`s and `TimeDelta::num_seconds` of it: the
/// whole seconds from `earlier` to `later`, rounded towards zero. How leap seconds
/// count is not spelled out.
#[verifier::external_body]
pub(crate) fn seconds_between(later: FixedDateTime, earlier: FixedDateTime) -> (r: i64)
    ensures
        r == seconds_apart(later, earlier),
        later.subsec() < 1_000_000_000 && earlier.subsec() < 1_000_000_000 ==> r == toward_zero(
            (later.unix() - earlier.unix()) * 1_000_000_000 + (later.subsec() - earlier.subsec()),
            1_000_000_000,
        ),
        -20_000_000_000_000 < r < 20_000_000_000_000,
{
    let a = chrono::DateTime::from_timestamp(later.seconds, 0).unwrap();
    let a = chrono::Timelike::with_nanosecond(&a, later.nanos).unwrap();
    let b = chrono::DateTime::from_timestamp(earlier.seconds, 0).unwrap();
    let b = chrono::Timelike::with_nanosecond(&b, earlier.nanos).unwrap();
    (a - b).num_seconds()
}

/// `chrono::DateTime::checked_sub_signed` for a number of minutes: the same offset and
/// an instant that many minutes earlier, as far as there is one. How a leap second
/// moves is not spelled out.
#[verifier::external_body]
pub(crate) fn move_back(time: FixedDateTime, minutes: i32) -> (r: Option<FixedDateTime>)
    ensures
        r == moved_back(time, minutes as int),
        time.subsec() < 1_000_000_000 ==> (r is Some <==> MIN_SECONDS <= time.unix() - 60 * minutes
            <= MAX_SECONDS),
        time.subsec() < 1_000_000_000 ==> (r matches Some(d) ==> {
            &&& d.unix() == time.unix() - 60 * minutes
            &&& d.subsec() == time.subsec()
            &&& d.east() == time.east()
        }),
{
    let t = chrono::DateTime::from_timestamp(time.seconds, 0).unwrap();
    let t = chrono::Timelike::with_nanosecond(&t, time.nanos).unwrap();
    let t = t.checked_sub_signed(chrono::TimeDelta::minutes(minutes as i64))?;
    Some(FixedDateTime { seconds: t.timestamp(), nanos: t.timestamp_subsec_nanos(), ..time })
}

/// `chrono::NaiveDate::format` with the format `%Y-%m-%d`, for a day counted from
/// 1970-01-01. What the format writes is not spelled out.
#[verifier::external_body]
pub(crate) fn format_date(day: i64) -> (r: String)
    requires
        MIN_DAY <= day <= MAX_DAY,
    ensures
        r@ == date_text(day as int),
{
    chrono::NaiveDate::from_epoch_days(day as i32).unwrap().format("%Y-%m-%d").to_string()
}

/// `chrono::Datelike` on the date of a day counted from 1970-01-01: the year, the
/// month and the day of the month. The calendar is not spelled out.
#[verifier::external_body]
pub(crate) fn civil(day: i64) -> (r: (i32, u32, u32))
    requires
        MIN_DAY <= day <= MAX_DAY,
    ensures
        r == civil_date(day as int),
{
    let t = chrono::NaiveDate::from_epoch_days(day as i32).unwrap();
    (chrono::Datelike::year(&t), chrono::Datelike::month(&t), chrono::Datelike::day(&t))
}

/// `Display` of `chrono::NaiveTime`. The notation is not spelled out.
#[verifier::external_body]
pub(crate) fn write_clock(second: u32, nanos: u32) -> (r: String)
    requires
        second < 86400,
        nanos < 2_000_000_000,
    ensures
        r@ == clock_text(second as int, nanos as int),
{
    let t = chrono::NaiveTime::from_num_seconds_from_midnight_opt(second, 0).unwrap();
    chrono::Timelike::with_nanosecond(&t, nanos).unwrap().to_string()
}

/// `Display` of `chrono::NaiveDateTime`. The notation is not spelled out.
#[verifier::external_body]
pub(crate) fn write_naive(local: LocalDateTime) -> (r: String)
    ensures
        r@ == naive_text(local),
{
    let clock = chrono::NaiveTime::from_num_seconds_from_midnight_opt(local.second, 0).unwrap();
    let clock = chrono::Timelike::with_nanosecond(&clock, local.nanos).unwrap();
    let day = chrono::NaiveDate::from_epoch_days(local.day as i32).unwrap();
    day.and_time(clock).to_string()
}

// ---------------------------------------------------------------------------
// Time as the library uses it
// ---------------------------------------------------------------------------

/// Division that rounds towards zero.
pub open spec fn toward_zero(a: int, b: int) -> int {
    if a >= 0 {
        a / b
    } else {
        -((-a) / b)
    }
}

/// The whole minutes from `earlier` to `later`, rounded towards zero.
pub open spec fn minutes_apart(later: FixedDateTime, earlier: FixedDateTime) -> int {
    toward_zero(seconds_apart(later, earlier), 60)
}

/// The whole minutes from `earlier` to `later`.
pub fn minutes_between(later: FixedDateTime, earlier: FixedDateTime) -> (r: i64)
    ensures
        r == minutes_apart(later, earlier),
{
    let s: i64 = seconds_between(later, earlier);
    if s >= 0 {
        s / 60
    } else {
        -((-s) / 60)
    }
}

/// The same instant with the offset of Zurich.
pub open spec fn zurich(time: FixedDateTime) -> FixedDateTime {
    FixedDateTime::of_parts(time.unix(), time.subsec(), zurich_offset(time.unix()))
}

/// The time in Zurich at a Unix timestamp, which is read as a signed number; nothing
/// where it lies outside the calendar.
pub open spec fn timestamp_value(timestamp: u64) -> Option<FixedDateTime> {
    let seconds = timestamp as i64;
    if MIN_SECONDS <= seconds <= MAX_SECONDS {
        Some(zurich(FixedDateTime::of_parts(seconds as int, 0, 0)))
    } else {
        None
    }
}

/// The same instant with the offset of Zurich.
pub fn to_zurich(time: FixedDateTime) -> (r: FixedDateTime)
    ensures
        r == zurich(time),
{
    in_zurich(time)
}

/// A reading of the clock in Zurich: it has the offset that holds there at that instant,
/// and is no leap second.
pub open spec fn zurich_reading(time: FixedDateTime) -> bool {
    time.east() == zurich_offset(time.unix()) && time.subsec() < 1_000_000_000
}

/// The current time in Zurich.
pub fn now_fixed() -> (r: FixedDateTime)
    ensures
        zurich_reading(r),
{
    in_zurich(utc_now())
}

/// The time in Zurich at a Unix timestamp.
pub fn timestamp_to_fixed(timestamp: u64) -> (r: Option<FixedDateTime>)
    ensures
        r == timestamp_value(timestamp),
        r matches Some(t) ==> t.unix() == timestamp as i64 && t.subsec() == 0,
{
    match FixedDateTime::new(timestamp as i64, 0, 0) {
        Some(utc) => {
            assert(utc == FixedDateTime::of_parts(timestamp as i64 as int, 0, 0));
            Some(to_zurich(utc))
        },
        None => None,
    }
}

/// Whole minutes between two points in time: what is left of the seconds is less than a
/// minute and has their sign.
pub proof fn law_minutes_are_whole(later: FixedDateTime, earlier: FixedDateTime)
    ensures
        ({
            let seconds = seconds_apart(later, earlier);
            let minutes = minutes_apart(later, earlier);
            if seconds >= 0 {
                60 * minutes <= seconds < 60 * minutes + 60
            } else {
                60 * minutes - 60 < seconds <= 60 * minutes
            }
        }),
{
}

/// A timestamp within the calendar denotes the instant of so many seconds, told with the
/// offset of Zurich at that instant.
pub proof fn law_timestamps_are_seconds(timestamp: u64)
    requires
        timestamp <= MAX_SECONDS,
    ensures
        -86400 < zurich_offset(timestamp as int) < 86400 ==> {
            &&& timestamp_value(timestamp) is Some
            &&& timestamp_value(timestamp)->0.unix() == timestamp
            &&& timestamp_value(timestamp)->0.subsec() == 0
            &&& timestamp_value(timestamp)->0.east() == zurich_offset(timestamp as int)
        },
{
}

/// Of two points in time the one with fewer seconds is earlier, whatever their offsets; in
/// the same second, the one with fewer nanoseconds.
pub proof fn law_order_of_instants(a: FixedDateTime, b: FixedDateTime)
    ensures
        a.unix() < b.unix() ==> a.not_after(b) && !b.not_after(a),
        a.unix() == b.unix() && a.subsec() < b.subsec() ==> a.not_after(b) && !b.not_after(a),
        a.unix() == b.unix() && a.subsec() == b.subsec() ==> a.not_after(b) && b.not_after(a),
{
}

/// The local day of a point in time has 86400 seconds, among them its own second by the
/// local clock.
pub proof fn law_local_day_holds_the_second(t: FixedDateTime)
    ensures
        86400 * t.local_day() <= t.unix() + t.east() < 86400 * t.local_day() + 86400,
{
}

} // verus!
