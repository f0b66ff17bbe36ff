//! Restart schedules whose daily time has no fallback for a gap of the local clock.
//!
//! A daily time that falls in a gap names no instant and is an error here; the schedules of
//! `schedule` fall back to the next whole hour instead.

use crate::controller::schedule::interval::interval_outcome;
use crate::controller::schedule::daily::{day_candidate, daily_next, DayResolution};
use crate::controller::schedule::{combine_next, combine_next_exec, ScheduleError};
use crate::time::{
    before, earliest, first_chrono_secs, last_chrono_secs, local_today, possible_resolution, Date, resolve_local, utc_add_span, utc_now, LocalResolution, Span,
    TimeOfDay, Timestamp,
};
use vstd::prelude::*;

verus! {

/// Restart every time this span has passed.
#[derive(Debug, Clone, Copy, PartialEq, Eq, Structural)]
pub struct IntervalTime(pub Span);

impl IntervalTime {
    /// Restart every `duration`.
    pub fn new(duration: Span) -> (res: Self)
        ensures
            res.0 == duration,
    {
        Self(duration)
    }

    /// Restart every `secs` seconds: the interval of the span of `secs` seconds.
    pub fn from_secs(secs: u64) -> (res: Self)
        ensures
            res.0 == Span::spec_from_secs(secs),
            res.0.spec_secs() == secs,
            res.0.spec_nanos() == 0,
    {
        let duration = Span::from_secs(secs);
        Self::new(duration)
    }

    /// The span between restarts.
    pub fn span(&self) -> (res: Span)
        ensures
            res == self.0,
    {
        self.0
    }

    /// The next restart, one span after `now`. An answer is the sum; where `chrono` cannot
    /// represent the span or the sum, the answer is `IntervalOutOfRange`.
    pub fn next_restart_time_from(&self, now: Timestamp) -> (res: Result<Timestamp, ScheduleError>)
        ensures
            interval_outcome(self.0, now, res),
    {
        match utc_add_span(now, self.0) {
            Some(t) => Ok(t),
            None => Err(ScheduleError::IntervalOutOfRange),
        }
    }

    /// The next restart, one span after the current instant.
    pub fn next_restart_time(&self) -> (res: Result<Timestamp, ScheduleError>)
        ensures
            exists|now: Timestamp| crate::time::clock_reading(now) && interval_outcome(self.0, now, res),
    {
        let now = utc_now();
        self.next_restart_time_from(now)
    }
}

/// Restart every day at this local time of day.
#[derive(Debug, Clone, Copy, PartialEq, Eq, Structural)]
pub struct DailyTime(pub TimeOfDay);

/// `res` is what the daily time `time` answers for today's resolution of it, at the instant
/// `now`: the only instant, or the earliest one of a fold, when it is still to come, and one day
/// later once it has come (for an instant with nanoseconds below one second, which is every
/// instant but a leap second); an error where the time falls in a gap, or where the day after
/// cannot be represented.
pub open spec fn daily_time_outcome(
    time: TimeOfDay,
    first: LocalResolution,
    now: Timestamp,
    res: Result<Timestamp, ScheduleError>,
) -> bool {
    let candidate = match first {
        LocalResolution::Single(t) => Some(t),
        LocalResolution::Ambiguous(a, b) => Some(earliest(a, b)),
        LocalResolution::Nonexistent => None,
    };
    match candidate {
        None => res == Err::<Timestamp, ScheduleError>(ScheduleError::UnresolvableLocalTime(time)),
        Some(c) => if before(now, c) {
            res == Ok::<Timestamp, ScheduleError>(c)
        } else {
            match res {
                Ok(t) => c.nanos < 1_000_000_000 ==> t.secs == c.secs + 86400 && t.nanos == c.nanos
                    && first_chrono_secs() <= c.secs && c.secs + 86400 <= last_chrono_secs(),
                Err(e) => e == ScheduleError::IntervalOutOfRange && !(c.nanos < 1_000_000_000
                    && first_chrono_secs() <= c.secs && c.secs + 86400 <= last_chrono_secs()),
            }
        },
    }
}

/// `res` is what a daily time `time` answers for some local date, some resolution of `time`
/// on it that a time zone can give, and some instant.
pub open spec fn daily_time_answer(time: TimeOfDay, res: Result<Timestamp, ScheduleError>) -> bool {
    exists|today: Date, first: LocalResolution, now: Timestamp|
        #![trigger possible_resolution(today, time, first), daily_time_outcome(time, first, now, res)]
        today.valid() && possible_resolution(today, time, first) && daily_time_outcome(time, first, now, res)
}

/// Where today's scheduled time names an instant `c` that `chrono` represents one day on,
/// and tomorrow's names the instant one day after `c` (no change of the local offset in
/// between), the daily time answers what the daily schedule answers from the same
/// resolutions at the same instant.
pub proof fn law_daily_time_agrees_with_daily_schedule(
    time: TimeOfDay,
    today: DayResolution,
    tomorrow: DayResolution,
    c: Timestamp,
    now: Timestamp,
    res: Result<Timestamp, ScheduleError>,
)
    requires
        daily_time_outcome(time, today.scheduled, now, res),
        !(today.scheduled is Nonexistent),
        day_candidate(today) == Some(c),
        c.nanos < 1_000_000_000,
        first_chrono_secs() <= c.secs,
        c.secs + 86400 <= last_chrono_secs(),
        day_candidate(tomorrow) == Some(Timestamp { secs: (c.secs + 86400) as i64, nanos: c.nanos }),
    ensures
        res == daily_next(time, today, Some(tomorrow), now),
{
}

impl DailyTime {
    /// Restart every day at `time`.
    pub fn new(time: TimeOfDay) -> (res: Self)
        ensures
            res.0 == time,
    {
        Self(time)
    }

    /// The scheduled time of day.
    pub fn time(&self) -> (res: TimeOfDay)
        ensures
            res == self.0,
    {
        self.0
    }

    /// The next restart, from today's resolution of the scheduled time in the local time
    /// zone, at the instant `now`: where the local time falls in a fold the earliest instant
    /// is taken, and a time that is not after `now` moves on by one day.
    pub fn next_restart_time_from(&self, first: LocalResolution, now: Timestamp) -> (res: Result<
        Timestamp,
        ScheduleError,
    >)
        ensures
            daily_time_outcome(self.0, first, now, res),
    {
        let next = match first {
            LocalResolution::Single(t) => t,
            LocalResolution::Ambiguous(a, b) => a.earliest(b),
            LocalResolution::Nonexistent => {
                return Err(ScheduleError::UnresolvableLocalTime(self.0));
            },
        };
        if now.is_before(&next) {
            return Ok(next);
        }
        let one_day = Span::from_secs(86400);
        match utc_add_span(next, one_day) {
            Some(t) => Ok(t),
            None => Err(ScheduleError::IntervalOutOfRange),
        }
    }

    /// The next restart, from the local date and time zone and the current instant.
    pub fn next_restart_time(&self) -> (res: Result<Timestamp, ScheduleError>)
        ensures
            daily_time_answer(self.0, res),
    {
        let today = local_today();
        let first = resolve_local(today, self.0);
        let now = utc_now();
        self.next_restart_time_from(first, now)
    }
}

/// A container's restart schedule: an interval, a daily time, or both.
#[derive(Debug, Clone, Copy, PartialEq, Eq, Structural)]
pub struct RestartSchedule {
    interval: Option<IntervalTime>,
    daily_at: Option<DailyTime>,
}

impl RestartSchedule {
    /// A schedule has at least one part.
    #[verifier::type_invariant]
    closed spec fn has_a_part(self) -> bool {
        self.interval is Some || self.daily_at is Some
    }

    /// The interval part.
    pub closed spec fn spec_interval(self) -> Option<IntervalTime> {
        self.interval
    }

    /// The daily part.
    pub closed spec fn spec_daily_at(self) -> Option<DailyTime> {
        self.daily_at
    }

    /// A schedule from its parts; `None` where there is neither.
    pub fn new(interval: Option<IntervalTime>, daily_at: Option<DailyTime>) -> (res: Option<Self>)
        ensures
            res is None <==> interval is None && daily_at is None,
            res matches Some(s) ==> s.spec_interval() == interval && s.spec_daily_at() == daily_at,
    {
        if interval.is_none() && daily_at.is_none() {
            return None;
        }
        Some(Self { interval, daily_at })
    }

    /// `next` is a next restart that the interval part can give: none without the part, and
    /// one interval after some instant with it.
    pub open spec fn interval_part_next(part: Option<IntervalTime>, next: Option<Timestamp>) -> bool {
        match part {
            None => next is None,
            Some(i) => next matches Some(t) && exists|now: Timestamp|
                interval_outcome(i.0, now, Ok(t)),
        }
    }

    /// `next` is a next restart that the daily part can give: none without the part, and the
    /// daily answer for its time, some local date and some instant with it.
    pub open spec fn daily_part_next(part: Option<DailyTime>, next: Option<Timestamp>) -> bool {
        match part {
            None => next is None,
            Some(dl) => next matches Some(t) && daily_time_answer(dl.0, Ok(t)),
        }
    }

    /// Calculates the next restart time for a container: the next restart of each part, and
    /// the earlier of the two where there are two. An error of either part is the answer.
    pub fn calc_next_restart_time(&self) -> (res: Result<Option<Timestamp>, ScheduleError>)
        ensures
            res matches Ok(next) ==> next is Some && exists|
                i: Option<Timestamp>,
                d: Option<Timestamp>,
            |
                next == combine_next(i, d) && Self::interval_part_next(self.spec_interval(), i)
                    && Self::daily_part_next(self.spec_daily_at(), d),
            res matches Err(e) ==> (self.spec_interval() matches Some(i) && exists|now: Timestamp|
                interval_outcome(i.0, now, Err::<Timestamp, ScheduleError>(e)))
                || (self.spec_daily_at() matches Some(dl) && daily_time_answer(
                dl.0,
                Err::<Timestamp, ScheduleError>(e),
            )),
    {
        proof {
            use_type_invariant(self);
        }
        let interval_time = match self.interval {
            Some(t) => Some(t.next_restart_time()?),
            None => None,
        };
        let daily_time = match self.daily_at {
            Some(t) => Some(t.next_restart_time()?),
            None => None,
        };
        Ok(combine_next_exec(interval_time, daily_time))
    }
}

} // verus!
