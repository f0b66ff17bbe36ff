//! Restarts at a fixed time of day in the local time zone.

use crate::time::{
    before, earliest, local_today, next_date, possible_resolution, resolve_local, utc_now, Date,
    LocalResolution, TimeOfDay, Timestamp,
};
use super::ScheduleError;
use vstd::prelude::*;

verus! {

/// Restart a container every day at this local time of day.
#[derive(Debug, Clone, Copy, Hash, PartialEq, Eq, Structural)]
pub struct ScheduleDaily(pub TimeOfDay);

/// The instant that a day's restart is taken from: the only instant of the scheduled time;
/// the earliest one where the time falls in a fold; and where it falls in a gap, the only
/// instant of the next whole hour after it (`on_the_hour`), if that one is unique.
pub open spec fn daily_candidate(first: LocalResolution, on_the_hour: LocalResolution) -> Option<
    Timestamp,
> {
    match first {
        LocalResolution::Single(t) => Some(t),
        LocalResolution::Ambiguous(a, b) => Some(earliest(a, b)),
        LocalResolution::Nonexistent => match on_the_hour {
            LocalResolution::Single(t) => Some(t),
            _ => None,
        },
    }
}

/// How one day's instance of the scheduled time resolves in the local time zone: the
/// scheduled time itself, and the next whole hour after it (read only where the scheduled
/// time falls in a gap).
#[derive(Debug, Clone, Copy, PartialEq, Eq, Structural)]
pub struct DayResolution {
    pub scheduled: LocalResolution,
    pub on_the_hour: LocalResolution,
}

/// The instant of a day's restart, where it has one.
pub open spec fn day_candidate(day: DayResolution) -> Option<Timestamp> {
    daily_candidate(day.scheduled, day.on_the_hour)
}

/// What the daily schedule answers at the instant `now`, from how today's and tomorrow's
/// instances of the scheduled time resolve: today's restart while it is still to come, and
/// tomorrow's once it has come; an error where the day taken has no instant, or where there
/// is no tomorrow.
pub open spec fn daily_next(
    time: TimeOfDay,
    today: DayResolution,
    tomorrow: Option<DayResolution>,
    now: Timestamp,
) -> Result<Timestamp, ScheduleError> {
    match day_candidate(today) {
        None => Err(ScheduleError::UnresolvableLocalTime(time)),
        Some(c) => if before(now, c) {
            Ok(c)
        } else {
            match tomorrow {
                None => Err(ScheduleError::UnresolvableLocalTime(time)),
                Some(t) => match day_candidate(t) {
                    None => Err(ScheduleError::UnresolvableLocalTime(time)),
                    Some(c2) => Ok(c2),
                },
            }
        },
    }
}

/// `h` is the next whole hour after `time`, wrapping past midnight, with the seconds of
/// `time`.
pub open spec fn is_next_whole_hour(time: TimeOfDay, h: TimeOfDay) -> bool {
    &&& h.spec_hour() == (time.spec_hour() + 1) % 24
    &&& h.spec_minute() == 0
    &&& h.spec_second() == time.spec_second()
}

/// `day` is how `time` on `date` resolves through the time zone `resolve`: the scheduled
/// time itself, and, only where that falls in a gap, the next whole hour after it.
pub open spec fn day_resolved_by<F: Fn(Date, TimeOfDay) -> LocalResolution>(
    resolve: F,
    date: Date,
    time: TimeOfDay,
    day: DayResolution,
) -> bool {
    &&& call_ensures(resolve, (date, time), day.scheduled)
    &&& if day.scheduled is Nonexistent {
        exists|h: TimeOfDay| is_next_whole_hour(time, h) && call_ensures(resolve, (date, h), day.on_the_hour)
    } else {
        day.on_the_hour == LocalResolution::Nonexistent
    }
}

/// `tomorrow` is how `time` resolves through `resolve` on the day after, where there is one.
pub open spec fn tomorrow_resolved_by<F: Fn(Date, TimeOfDay) -> LocalResolution>(
    resolve: F,
    next: Option<Date>,
    time: TimeOfDay,
    tomorrow: Option<DayResolution>,
) -> bool {
    match next {
        None => tomorrow is None,
        Some(d) => tomorrow matches Some(t) && day_resolved_by(resolve, d, time, t),
    }
}

/// `day` is an answer that a time zone can give for `time` on `date`: the scheduled time
/// and, only where that falls in a gap, the next whole hour after it.
pub open spec fn day_possible(date: Date, time: TimeOfDay, day: DayResolution) -> bool {
    &&& possible_resolution(date, time, day.scheduled)
    &&& if day.scheduled is Nonexistent {
        exists|h: TimeOfDay| is_next_whole_hour(time, h) && possible_resolution(date, h, day.on_the_hour)
    } else {
        day.on_the_hour == LocalResolution::Nonexistent
    }
}

/// `res` is what the daily schedule at `time` answers for some local date `today` and
/// some instant `now`, with today's and tomorrow's instances of `time` resolved as a time
/// zone can resolve them on `today` and on the day after it.
pub open spec fn daily_answer(time: TimeOfDay, res: Result<Timestamp, ScheduleError>) -> bool {
    exists|today: Date, today_res: DayResolution, tomorrow: Option<DayResolution>, now: Timestamp|
        #![trigger daily_next(time, today_res, tomorrow, now), today.spec_next()]
        today.valid() && day_possible(today, time, today_res) && match today.spec_next() {
            None => tomorrow is None,
            Some(d) => tomorrow matches Some(t) && day_possible(d, time, t),
        } && res == daily_next(time, today_res, tomorrow, now)
}

/// The next daily restart comes after the instant it is worked out at, where tomorrow's
/// instance of the scheduled time lies ahead of that instant.
pub proof fn law_daily_restart_is_ahead(
    time: TimeOfDay,
    today: DayResolution,
    tomorrow: Option<DayResolution>,
    now: Timestamp,
)
    requires
        tomorrow matches Some(t) ==> (day_candidate(t) matches Some(c) ==> before(now, c)),
    ensures
        daily_next(time, today, tomorrow, now) matches Ok(next) ==> before(now, next),
{
}

/// The instant of a day's restart, where it has one.
fn day_candidate_exec(day: DayResolution) -> (res: Option<Timestamp>)
    ensures
        res == day_candidate(day),
{
    match day.scheduled {
        LocalResolution::Single(t) => Some(t),
        LocalResolution::Ambiguous(a, b) => Some(a.earliest(b)),
        LocalResolution::Nonexistent => match day.on_the_hour {
            LocalResolution::Single(t) => Some(t),
            _ => None,
        },
    }
}

impl ScheduleDaily {
    /// The scheduled time of day.
    pub open spec fn spec_time(self) -> TimeOfDay {
        self.0
    }

    /// Restart every day at `time`.
    pub fn new(time: TimeOfDay) -> (res: Self)
        ensures
            res.spec_time() == time,
    {
        Self(time)
    }

    /// The scheduled time of day.
    pub fn time(&self) -> (res: TimeOfDay)
        ensures
            res == self.spec_time(),
    {
        self.0
    }

    /// The next whole hour after the scheduled time, wrapping past midnight: the time used
    /// where the scheduled time falls in a gap of the local clock.
    pub fn next_whole_hour(&self) -> (res: TimeOfDay)
        ensures
            res.spec_hour() == (self.spec_time().spec_hour() + 1) % 24,
            res.spec_minute() == 0,
            res.spec_second() == self.spec_time().spec_second(),
    {
        let minute = self.0.minute();
        let h = self.0.hour();
        let s = self.0.second();
        let minutes_to_next_hour: u32 = 60 - minute;
        let res = self.0.wrapping_add_minutes(minutes_to_next_hour);
        proof {
            use_type_invariant(&res);
            assert(res.seconds_of_day() == ((h + 1) % 24) * 3600 + s) by (nonlinear_arith)
                requires
                    res.seconds_of_day() == (h * 3600 + minute * 60 + s + minutes_to_next_hour
                        * 60) % 86400,
                    minutes_to_next_hour == 60 - minute,
                    h < 24,
                    s < 60,
            ;
            assert(res.spec_hour() == (h + 1) % 24 && res.spec_minute() == 0) by (nonlinear_arith)
                requires
                    res.spec_hour() * 3600 + res.spec_minute() * 60 + res.spec_second() == ((h
                        + 1) % 24) * 3600 + s,
                    res.spec_hour() < 24,
                    res.spec_minute() < 60,
                    res.spec_second() < 60,
                    s < 60,
            ;
        }
        res
    }

    /// The next restart at the instant `now`, from how today's and tomorrow's instances of
    /// the scheduled time resolve in the local time zone. Where the local time falls in a
    /// fold the earliest instant is taken, and where it falls in a gap, the next whole hour;
    /// today's restart counts while it is still to come, and tomorrow's after that.
    pub fn next_restart_time_from(
        &self,
        today: DayResolution,
        tomorrow: Option<DayResolution>,
        now: Timestamp,
    ) -> (res: Result<Timestamp, ScheduleError>)
        ensures
            res == daily_next(self.spec_time(), today, tomorrow, now),
    {
        let candidate = match day_candidate_exec(today) {
            Some(c) => c,
            None => {
                return Err(ScheduleError::UnresolvableLocalTime(self.0));
            },
        };
        if now.is_before(&candidate) {
            return Ok(candidate);
        }
        match tomorrow {
            None => Err(ScheduleError::UnresolvableLocalTime(self.0)),
            Some(t) => match day_candidate_exec(t) {
                Some(c) => Ok(c),
                None => Err(ScheduleError::UnresolvableLocalTime(self.0)),
            },
        }
    }

    /// How this schedule's time resolves on `date` through the time zone `resolve`. The
    /// next whole hour is looked up only where the scheduled time falls in a gap; otherwise
    /// it is left as no instant.
    fn resolve_day<F: Fn(Date, TimeOfDay) -> LocalResolution>(&self, date: Date, resolve: &F) -> (res: DayResolution)
        requires
            date.valid(),
            forall|d: Date, t: TimeOfDay| d.valid() ==> call_requires(*resolve, (d, t)),
        ensures
            day_resolved_by(*resolve, date, self.spec_time(), res),
    {
        let scheduled = resolve(date, self.0);
        let on_the_hour = match scheduled {
            LocalResolution::Nonexistent => {
                let h = self.next_whole_hour();
                let r = resolve(date, h);
                assert(is_next_whole_hour(self.spec_time(), h));
                r
            },
            _ => LocalResolution::Nonexistent,
        };
        DayResolution { scheduled, on_the_hour }
    }

    /// The next restart on the local date `today` at the instant `now`, with each local
    /// date and time resolved through the time zone `resolve`: today's and the next day's
    /// instances of the scheduled time (and of the next whole hour where one falls in a gap)
    /// give the answer of `next_restart_time_from`.
    pub fn next_restart_time_in<F: Fn(Date, TimeOfDay) -> LocalResolution>(
        &self,
        today: Date,
        now: Timestamp,
        resolve: F,
    ) -> (res: Result<Timestamp, ScheduleError>)
        requires
            today.valid(),
            forall|d: Date, t: TimeOfDay| d.valid() ==> call_requires(resolve, (d, t)),
        ensures
            exists|today_res: DayResolution, tomorrow: Option<DayResolution>|
                day_resolved_by(resolve, today, self.spec_time(), today_res)
                    && tomorrow_resolved_by(resolve, today.spec_next(), self.spec_time(), tomorrow)
                    && res == daily_next(self.spec_time(), today_res, tomorrow, now),
    {
        let today_res = self.resolve_day(today, &resolve);
        let tomorrow = match next_date(today) {
            Some(d) => Some(self.resolve_day(d, &resolve)),
            None => None,
        };
        self.next_restart_time_from(today_res, tomorrow, now)
    }

    /// The next restart, from the local date and time zone and the current instant: the
    /// answer of `next_restart_time_in` for today's local date, the current instant and the
    /// machine's time zone.
    pub fn next_restart_time(&self) -> (res: Result<Timestamp, ScheduleError>)
        ensures
            daily_answer(self.spec_time(), res),
    {
        let date = local_today();
        let now = utc_now();
        let res = self.next_restart_time_in(date, now, resolve_local);
        proof {
            let time = self.spec_time();
            let (today_res, tomorrow) = choose|today_res: DayResolution, tomorrow: Option<DayResolution>|
                day_resolved_by(resolve_local, date, time, today_res)
                    && tomorrow_resolved_by(resolve_local, date.spec_next(), time, tomorrow)
                    && res == daily_next(time, today_res, tomorrow, now);
            lemma_resolved_is_possible(date, time, today_res);
            if let Some(d) = date.spec_next() {
                lemma_resolved_is_possible(d, time, tomorrow->0);
            }
            assert(daily_next(time, today_res, tomorrow, now) == res);
        }
        res
    }
}

/// What the machine's time zone resolves is what a time zone can resolve.
pub(crate) proof fn lemma_resolved_is_possible(date: Date, time: TimeOfDay, day: DayResolution)
    requires
        date.valid(),
        day_resolved_by(resolve_local, date, time, day),
    ensures
        day_possible(date, time, day),
{
    if day.scheduled is Nonexistent {
        let h = choose|h: TimeOfDay| is_next_whole_hour(time, h) && call_ensures(resolve_local, (date, h), day.on_the_hour);
        assert(possible_resolution(date, h, day.on_the_hour));
    }
}

} // verus!
