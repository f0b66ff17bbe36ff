//! Instants, time spans and times of day, and the clock and calendar that `chrono` supplies.

use chrono::{Datelike, Timelike};
use vstd::prelude::*;

verus! {

/// An instant in UTC: whole seconds since the Unix epoch and the nanoseconds past them.
/// Instants are ordered first by `secs`, then by `nanos`, as `chrono` orders them.
#[derive(Clone, Copy, Debug, PartialEq, Eq, Structural)]
pub struct Timestamp {
    pub secs: i64,
    pub nanos: u32,
}

/// A length of time: whole seconds and the nanoseconds past them (below one second).
#[derive(Clone, Copy, Debug, Hash, PartialEq, Eq, Structural)]
pub struct Span {
    secs: u64,
    nanos: u32,
}

/// A time of day with whole-second precision.
#[derive(Clone, Copy, Debug, Hash, PartialEq, Eq, Structural)]
pub struct TimeOfDay {
    hour: u32,
    minute: u32,
    second: u32,
}

/// A calendar date of the proleptic Gregorian calendar, with astronomical year numbers
/// (the year before 1 is 0).
#[derive(Clone, Copy, Debug, PartialEq, Eq, Structural)]
pub struct Date {
    pub year: i32,
    pub month: u32,
    pub day: u32,
}

/// How a local date and time of day maps to an instant in the local time zone.
#[derive(Clone, Copy, Debug, PartialEq, Eq, Structural)]
pub enum LocalResolution {
    /// The local time names exactly one instant.
    Single(Timestamp),
    /// The local time falls in a fold and names two instants, in the order the time zone
    /// lists them (not necessarily the earlier first).
    Ambiguous(Timestamp, Timestamp),
    /// The local time falls in a gap and names no instant.
    Nonexistent,
}

/// `a` comes strictly before `b`.
pub open spec fn before(a: Timestamp, b: Timestamp) -> bool {
    a.secs < b.secs || (a.secs == b.secs && a.nanos < b.nanos)
}

/// The earlier of two instants; the first one when they are equal.
pub open spec fn earliest(a: Timestamp, b: Timestamp) -> Timestamp {
    if before(b, a) {
        b
    } else {
        a
    }
}

/// The number of nanoseconds in a second.
pub open spec fn nanos_per_sec() -> int {
    1_000_000_000
}

/// The instant `span` after `t`, for `t` with nanoseconds below one second.
pub open spec fn after_span(t: Timestamp, span: Span) -> (int, int) {
    let nanos = t.nanos + span.spec_nanos();
    if nanos >= nanos_per_sec() {
        (t.secs + span.spec_secs() + 1, nanos - nanos_per_sec())
    } else {
        (t.secs + span.spec_secs(), nanos)
    }
}

/// The UTC seconds of the first instant that `chrono` represents: January 1 of the year
/// -262143, at midnight (`NaiveDate::MIN`).
pub open spec fn first_chrono_secs() -> int {
    -8334601228800
}

/// The UTC seconds of the last instant that `chrono` represents: December 31 of the year
/// 262142, at 23:59:59 (`NaiveDate::MAX`).
pub open spec fn last_chrono_secs() -> int {
    8210266876799
}

/// The first year that `chrono` represents dates in.
pub open spec fn first_chrono_year() -> int {
    -262143
}

/// The last year that `chrono` represents dates in.
pub open spec fn last_chrono_year() -> int {
    262142
}

/// The year `y` has a 29th of February: it is divisible by 4, and by 400 where it is
/// divisible by 100.
pub open spec fn is_leap_year(y: int) -> bool {
    y % 4 == 0 && (y % 100 != 0 || y % 400 == 0)
}

/// The number of days of month `m` (1 to 12) in year `y`.
pub open spec fn days_in_month(y: int, m: int) -> int {
    if m == 2 {
        if is_leap_year(y) {
            29
        } else {
            28
        }
    } else if m == 4 || m == 6 || m == 9 || m == 11 {
        30
    } else {
        31
    }
}

impl Date {
    /// The date is one of the calendar, in a year that `chrono` represents.
    pub open spec fn valid(self) -> bool {
        &&& first_chrono_year() <= self.year <= last_chrono_year()
        &&& 1 <= self.month <= 12
        &&& 1 <= self.day <= days_in_month(self.year as int, self.month as int)
    }

    /// The day after this date; none after the last date that `chrono` represents.
    pub open spec fn spec_next(self) -> Option<Date> {
        if (self.day as int) < days_in_month(self.year as int, self.month as int) {
            Some(Date { day: (self.day + 1) as u32, ..self })
        } else if self.month < 12 {
            Some(Date { month: (self.month + 1) as u32, day: 1, ..self })
        } else if self.year < last_chrono_year() {
            Some(Date { year: (self.year + 1) as i32, month: 1, day: 1 })
        } else {
            None
        }
    }

    /// The number of days from January 1, 1970 to this date (negative before it).
    pub open spec fn days_from_epoch(self) -> int {
        let y: int = if self.month <= 2 {
            self.year - 1
        } else {
            self.year as int
        };
        let era = y / 400;
        let yoe = y - era * 400;
        let mp: int = if self.month > 2 {
            self.month - 3
        } else {
            self.month + 9
        };
        let doy = (153 * mp + 2) / 5 + self.day - 1;
        let doe = yoe * 365 + yoe / 4 - yoe / 100 + doy;
        era * 146097 + doe - 719468
    }
}

/// The seconds since the Unix epoch that the local date and time `date`, `time` would be
/// in UTC: the instant that the local clock shows then, less the zone's offset.
pub open spec fn local_clock_secs(date: Date, time: TimeOfDay) -> int {
    date.days_from_epoch() * 86400 + time.seconds_of_day()
}

/// The instant `t` is one that the local date and time `date`, `time` can name in a time
/// zone: a whole second, less than one day away from the clock reading (`chrono` keeps a
/// zone's offset from UTC below one day).
pub open spec fn names_local_time(t: Timestamp, date: Date, time: TimeOfDay) -> bool {
    &&& t.nanos == 0
    &&& local_clock_secs(date, time) - 86400 < t.secs < local_clock_secs(date, time) + 86400
}

/// `r` is an answer that a time zone can give for the local date and time `date`, `time`:
/// one instant, or the two instants of a fold in either order, each named by that date and
/// time; or none, in a gap.
pub open spec fn possible_resolution(date: Date, time: TimeOfDay, r: LocalResolution) -> bool {
    match r {
        LocalResolution::Single(t) => names_local_time(t, date, time),
        LocalResolution::Ambiguous(a, b) => names_local_time(a, date, time) && names_local_time(
            b,
            date,
            time,
        ),
        LocalResolution::Nonexistent => true,
    }
}

/// `chrono` represents the instant `t` and the instant `span` after it: `t` is no leap
/// second, and both lie between its first and last instants.
pub open spec fn sum_in_chrono_range(t: Timestamp, span: Span) -> bool {
    &&& t.nanos < nanos_per_sec()
    &&& first_chrono_secs() <= t.secs
    &&& after_span(t, span).0 <= last_chrono_secs()
}

impl Timestamp {
    /// This instant comes strictly before `other`.
    pub fn is_before(&self, other: &Timestamp) -> (res: bool)
        ensures
            res == before(*self, *other),
    {
        self.secs < other.secs || (self.secs == other.secs && self.nanos < other.nanos)
    }

    /// The earlier of `self` and `other`; `self` when they are equal (`Ord::min`).
    pub fn earliest(self, other: Timestamp) -> (res: Timestamp)
        ensures
            res == earliest(self, other),
    {
        if other.is_before(&self) {
            other
        } else {
            self
        }
    }
}

impl Span {
    /// The nanoseconds stay below one second.
    #[verifier::type_invariant]
    pub open spec fn valid(self) -> bool {
        self.spec_nanos() < 1_000_000_000
    }

    /// The whole seconds.
    pub closed spec fn spec_secs(self) -> u64 {
        self.secs
    }

    /// The nanoseconds past the whole seconds.
    pub closed spec fn spec_nanos(self) -> u32 {
        self.nanos
    }

    /// The span of `secs` whole seconds.
    pub closed spec fn spec_from_secs(secs: u64) -> Span {
        Span { secs, nanos: 0 }
    }

    /// The span of `secs` whole seconds has those seconds and no nanoseconds.
    pub proof fn lemma_from_secs_parts(secs: u64)
        ensures
            Span::spec_from_secs(secs).spec_secs() == secs,
            Span::spec_from_secs(secs).spec_nanos() == 0,
    {
    }

    /// A span of whole seconds (`Duration::from_secs`).
    pub fn from_secs(secs: u64) -> (res: Span)
        ensures
            res == Span::spec_from_secs(secs),
            res.spec_secs() == secs,
            res.spec_nanos() == 0,
    {
        Span { secs, nanos: 0 }
    }

    /// A span of `secs` seconds and `nanos` nanoseconds, with whole seconds carried out of
    /// `nanos` (`Duration::new`).
    pub fn new(secs: u64, nanos: u32) -> (res: Span)
        requires
            secs + nanos / 1_000_000_000 <= u64::MAX,
        ensures
            res.spec_secs() == secs + nanos / 1_000_000_000,
            res.spec_nanos() == nanos % 1_000_000_000,
    {
        Span { secs: secs + (nanos / 1_000_000_000) as u64, nanos: nanos % 1_000_000_000 }
    }

    /// The whole seconds.
    pub fn as_secs(&self) -> (res: u64)
        ensures
            res == self.spec_secs(),
    {
        self.secs
    }

    /// The nanoseconds past the whole seconds, below one second.
    pub fn subsec_nanos(&self) -> (res: u32)
        ensures
            res == self.spec_nanos(),
            res < 1_000_000_000,
    {
        proof {
            use_type_invariant(self);
        }
        self.nanos
    }
}

impl TimeOfDay {
    /// The hour, minute and second are those of a time of day.
    #[verifier::type_invariant]
    pub open spec fn valid(self) -> bool {
        self.spec_hour() < 24 && self.spec_minute() < 60 && self.spec_second() < 60
    }

    /// The hour, below 24.
    pub closed spec fn spec_hour(self) -> u32 {
        self.hour
    }

    /// The minute, below 60.
    pub closed spec fn spec_minute(self) -> u32 {
        self.minute
    }

    /// The second, below 60.
    pub closed spec fn spec_second(self) -> u32 {
        self.second
    }

    /// The time of day `hour:minute:second`, where that is one (`NaiveTime::from_hms_opt`).
    pub fn from_hms_opt(hour: u32, minute: u32, second: u32) -> (res: Option<TimeOfDay>)
        ensures
            res is Some <==> hour < 24 && minute < 60 && second < 60,
            res matches Some(t) ==> t.spec_hour() == hour && t.spec_minute() == minute
                && t.spec_second() == second,
    {
        if hour < 24 && minute < 60 && second < 60 {
            Some(TimeOfDay { hour, minute, second })
        } else {
            None
        }
    }

    /// The hour.
    pub fn hour(&self) -> (res: u32)
        ensures
            res == self.spec_hour(),
            res < 24,
    {
        proof {
            use_type_invariant(self);
        }
        self.hour
    }

    /// The minute.
    pub fn minute(&self) -> (res: u32)
        ensures
            res == self.spec_minute(),
            res < 60,
    {
        proof {
            use_type_invariant(self);
        }
        self.minute
    }

    /// The second.
    pub fn second(&self) -> (res: u32)
        ensures
            res == self.spec_second(),
            res < 60,
    {
        proof {
            use_type_invariant(self);
        }
        self.second
    }

    /// Seconds since midnight.
    pub open spec fn seconds_of_day(self) -> int {
        self.spec_hour() * 3600 + self.spec_minute() * 60 + self.spec_second()
    }

    /// This time plus `minutes` minutes, wrapping past midnight
    /// (`NaiveTime::overflowing_add_signed`, without the day count).
    pub fn wrapping_add_minutes(&self, minutes: u32) -> (res: TimeOfDay)
        requires
            minutes <= 1440,
        ensures
            res.seconds_of_day() == (self.seconds_of_day() + minutes * 60) % 86400,
    {
        proof {
            use_type_invariant(self);
        }
        let total: u32 = self.hour * 3600 + self.minute * 60 + self.second + minutes * 60;
        let wrapped: u32 = total % 86400;
        let hour = wrapped / 3600;
        let minute = (wrapped % 3600) / 60;
        let second = wrapped % 60;
        assert(hour * 3600 + minute * 60 + second == wrapped) by (nonlinear_arith)
            requires
                hour == wrapped / 3600,
                minute == (wrapped % 3600) / 60,
                second == wrapped % 60,
        ;
        assert(hour < 24) by (nonlinear_arith)
            requires
                hour == wrapped / 3600,
                wrapped < 86400,
        ;
        TimeOfDay { hour, minute, second }
    }
}

// ---------------------------------------------------------------------------------------
// The clock and calendar of `chrono`
// ---------------------------------------------------------------------------------------

/// What `chrono::DateTime::parse_from_rfc3339` reads from a string, as UTC seconds and
/// nanoseconds (`timestamp`, `timestamp_subsec_nanos`); `None` where it refuses the string.
pub uninterp spec fn rfc3339_instant(s: Seq<char>) -> Option<(i64, u32)>;

/// What `chrono::NaiveTime::parse_from_str(s, "%H:%M")` reads from a string, as hour,
/// minute and second; `None` where it refuses the string.
pub uninterp spec fn hour_minute_time(s: Seq<char>) -> Option<(u32, u32, u32)>;

/// An instant that `chrono::Utc::now` can read: not before the Unix epoch (it panics on a
/// clock set earlier), no leap second, and no later than the last instant `chrono`
/// represents.
pub open spec fn clock_reading(t: Timestamp) -> bool {
    0 <= t.secs <= last_chrono_secs() && t.nanos < nanos_per_sec()
}

/// The current instant (`chrono::Utc::now`). Which instant it is rests on the clock; the
/// contract claims only what every reading is: `Utc::now` takes the seconds and
/// sub-second nanoseconds since the epoch of `SystemTime` and builds the instant with
/// `DateTime::from_timestamp(..).unwrap()`, so it is a `clock_reading`.
#[verifier::external_body]
pub(crate) fn utc_now() -> (res: Timestamp)
    ensures
        clock_reading(res),
{
    let now = chrono::Utc::now();
    Timestamp { secs: now.timestamp(), nanos: now.timestamp_subsec_nanos() }
}

/// Today's date in the local time zone (`chrono::Local::now().date_naive()`), as year,
/// month and day. Which date it is rests on the clock and the time zone; the contract
/// claims only that it is a date that `chrono` represents.
#[verifier::external_body]
pub(crate) fn local_today() -> (res: Date)
    ensures
        res.valid(),
{
    let d = chrono::Local::now().date_naive();
    Date { year: d.year(), month: d.month(), day: d.day() }
}

/// How `time` on `date` maps to instants in the local time zone
/// (`NaiveDateTime::and_local_timezone(Local)`). Which answer it is rests on the machine's
/// time zone; the contract claims what every zone of `chrono` gives: each instant is a
/// whole second less than a day from the clock reading (an offset is below one day). The
/// order of the two instants of a fold is left unsaid: `chrono`'s documentation says the
/// earliest comes first, while its tz-info rules list the smaller offset, the later instant,
/// first.
#[verifier::external_body]
pub(crate) fn resolve_local(date: Date, time: TimeOfDay) -> (res: LocalResolution)
    requires
        date.valid(),
    ensures
        possible_resolution(date, time, res),
{
    let d = chrono::NaiveDate::from_ymd_opt(date.year, date.month, date.day).unwrap();
    let t = chrono::NaiveTime::from_hms_opt(time.hour, time.minute, time.second).unwrap();
    match chrono::NaiveDateTime::new(d, t).and_local_timezone(chrono::Local) {
        chrono::LocalResult::Single(a) => LocalResolution::Single(
            Timestamp { secs: a.timestamp(), nanos: a.timestamp_subsec_nanos() },
        ),
        chrono::LocalResult::Ambiguous(a, b) => LocalResolution::Ambiguous(
            Timestamp { secs: a.timestamp(), nanos: a.timestamp_subsec_nanos() },
            Timestamp { secs: b.timestamp(), nanos: b.timestamp_subsec_nanos() },
        ),
        chrono::LocalResult::None => LocalResolution::Nonexistent,
    }
}

/// Reads an RFC 3339 date and time (`DateTime::parse_from_rfc3339`), as the UTC instant.
/// The contract claims only that the answer is the one `chrono` gives for these characters.
#[verifier::external_body]
pub(crate) fn parse_rfc3339(s: &str) -> (res: Option<Timestamp>)
    ensures
        match res {
            Some(t) => rfc3339_instant(s@) == Some((t.secs, t.nanos)),
            None => rfc3339_instant(s@) is None,
        },
{
    match chrono::DateTime::parse_from_rfc3339(s) {
        Ok(t) => Some(Timestamp { secs: t.timestamp(), nanos: t.timestamp_subsec_nanos() }),
        Err(_) => None,
    }
}

/// Reads a time of day in the form `HH:MM` (`NaiveTime::parse_from_str(s, "%H:%M")`).
/// The contract claims that the answer is the one `chrono` gives for these characters, and
/// that what it gives is a time of day.
#[verifier::external_body]
pub(crate) fn parse_hour_minute(s: &str) -> (res: Option<TimeOfDay>)
    ensures
        match res {
            Some(t) => hour_minute_time(s@) == Some(
                (t.spec_hour(), t.spec_minute(), t.spec_second()),
            ),
            None => hour_minute_time(s@) is None,
        },
{
    match chrono::NaiveTime::parse_from_str(s, "%H:%M") {
        Ok(t) => Some(TimeOfDay { hour: t.hour(), minute: t.minute(), second: t.second() }),
        Err(_) => None,
    }
}

/// The instant `span` after `t` (`TimeDelta::from_std`, `DateTime::from_timestamp` and
/// `DateTime::checked_add_signed`); `None` where the span, `t` or the sum is out of
/// `chrono`'s range. The contract claims the sum for an answer, and, for `t` no leap second,
/// an answer exactly where `t` and the sum lie in `chrono`'s range: `from_timestamp` refuses
/// an instant outside it, `checked_add_signed` refuses a sum outside it, and a span that fits
/// that range is far below the largest `TimeDelta` (`i64::MAX` milliseconds), while a larger
/// one is refused by `from_std` or gives a sum outside the range. For a leap second it says
/// nothing of whether there is an answer. A span keeps its nanoseconds below one second, so
/// `Duration::new` carries nothing into the seconds.
#[verifier::external_body]
pub(crate) fn utc_add_span(t: Timestamp, span: Span) -> (res: Option<Timestamp>)
    ensures
        res matches Some(r) ==> t.nanos < 1_000_000_000 ==> (r.secs as int, r.nanos as int)
            == after_span(t, span),
        t.nanos < 1_000_000_000 ==> (res is Some <==> sum_in_chrono_range(t, span)),
{
    let delta = match chrono::TimeDelta::from_std(std::time::Duration::new(span.secs, span.nanos)) {
        Ok(d) => d,
        Err(_) => return None,
    };
    match chrono::DateTime::from_timestamp(t.secs, t.nanos) {
        Some(start) => match start.checked_add_signed(delta) {
            Some(r) => Some(Timestamp { secs: r.timestamp(), nanos: r.timestamp_subsec_nanos() }),
            None => None,
        },
        None => None,
    }
}

/// The day after `date` (`NaiveDate::succ_opt`), as year, month and day; `None` after the
/// last date that `chrono` represents. The contract claims the calendar's next day.
#[verifier::external_body]
pub(crate) fn next_date(date: Date) -> (res: Option<Date>)
    requires
        date.valid(),
    ensures
        res == date.spec_next(),
{
    let d = chrono::NaiveDate::from_ymd_opt(date.year, date.month, date.day).unwrap();
    match d.succ_opt() {
        Some(n) => Some(Date { year: n.year(), month: n.month(), day: n.day() }),
        None => None,
    }
}

} // verus!
