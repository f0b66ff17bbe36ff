//! When a container is to be restarted on a schedule: every so often, at a time of day, or
//! whichever of the two comes first.

use crate::time::{earliest, local_today, resolve_local, utc_now, Date, TimeOfDay, LocalResolution, Timestamp};
use crate::text::{push_two_digits, string_from_chars, two_digits};
use vstd::prelude::*;

pub mod daily;
pub mod interval;

pub use daily::ScheduleDaily;
pub use interval::ScheduleInterval;

verus! {

/// Why the next restart of a schedule could not be worked out.
#[derive(Debug, Clone, Copy, PartialEq, Eq, Structural)]
pub enum ScheduleError {
    /// The interval, or the instant one interval from now, is out of `chrono`'s range.
    IntervalOutOfRange,
    /// The scheduled time of day names no single local instant, or the day after it is out
    /// of `chrono`'s range.
    UnresolvableLocalTime(TimeOfDay),
}

/// A time of day as `HH:MM:SS`.
pub open spec fn time_text(t: TimeOfDay) -> Seq<char> {
    two_digits(t.spec_hour() as nat) + seq![':'] + two_digits(t.spec_minute() as nat) + seq![':']
        + two_digits(t.spec_second() as nat)
}

/// The words that tell what went wrong for each error of a schedule.
pub open spec fn schedule_error_text(e: ScheduleError) -> Seq<char> {
    match e {
        ScheduleError::IntervalOutOfRange => "Duration conversion failed"@,
        ScheduleError::UnresolvableLocalTime(t) => "Failed to resolve scheduled time "@ + time_text(t)
            + " to a valid local time"@,
    }
}

impl ScheduleError {
    /// What went wrong, in words.
    pub fn message(&self) -> (res: String)
        ensures
            res@ == schedule_error_text(*self),
    {
        match self {
            ScheduleError::IntervalOutOfRange => String::from_str("Duration conversion failed"),
            ScheduleError::UnresolvableLocalTime(t) => {
                let mut v: Vec<char> = Vec::new();
                push_two_digits(&mut v, t.hour());
                v.push(':');
                push_two_digits(&mut v, t.minute());
                v.push(':');
                push_two_digits(&mut v, t.second());
                assert(v@ =~= time_text(*t));
                let mut m = String::from_str("Failed to resolve scheduled time ");
                m.append(string_from_chars(&v, 0, v.len()).as_str());
                m.append(" to a valid local time");
                assert(v@.subrange(0, v@.len() as int) =~= v@);
                m
            },
        }
    }
}

/// A container's restart schedule: an interval, a daily time, or both.
#[derive(Debug, Clone, Copy, Hash, PartialEq, Eq, Structural)]
pub struct RestartSchedule {
    /// The interval of time between restarts if container is set to restart on an interval via a
    /// label.
    interval: Option<ScheduleInterval>,

    /// The daily time a container is scheduled to restart if a container is scheduled to restart
    /// at a specific time every day via a label.
    daily_at: Option<ScheduleDaily>,
}

/// The next restart of a schedule from the next restart of each of its parts: the earlier one
/// where there are two.
pub open spec fn combine_next(interval: Option<Timestamp>, daily: Option<Timestamp>) -> Option<
    Timestamp,
> {
    match (interval, daily) {
        (Some(i), None) => Some(i),
        (None, Some(d)) => Some(d),
        (Some(i), Some(d)) => Some(earliest(i, d)),
        (None, None) => None,
    }
}

/// The answer of a part of a schedule, where it answered.
pub open spec fn answered(part: Option<Result<Timestamp, ScheduleError>>) -> Option<Timestamp> {
    match part {
        Some(Ok(t)) => Some(t),
        _ => None,
    }
}

/// What a schedule answers from what its parts answered: the error of the interval part,
/// else the error of the daily part, else the earlier of the next restarts they gave.
pub open spec fn combine_outcomes(
    interval: Option<Result<Timestamp, ScheduleError>>,
    daily: Option<Result<Timestamp, ScheduleError>>,
) -> Result<Option<Timestamp>, ScheduleError> {
    match (interval, daily) {
        (Some(Err(e)), _) => Err(e),
        (_, Some(Err(e))) => Err(e),
        _ => Ok(combine_next(answered(interval), answered(daily))),
    }
}

/// Where a schedule has both parts, its next restart is the earlier of the two next restarts.
pub proof fn law_combined_is_earliest(interval: Timestamp, daily: Timestamp)
    ensures
        combine_next(Some(interval), Some(daily)) matches Some(t) && (t == interval || t == daily)
            && !crate::time::before(interval, t) && !crate::time::before(daily, t),
{
}

/// The next restart of each part of a schedule, combined.
pub fn combine_next_exec(interval: Option<Timestamp>, daily: Option<Timestamp>) -> (res: Option<
    Timestamp,
>)
    ensures
        res == combine_next(interval, daily),
{
    match (interval, daily) {
        (Some(i), None) => Some(i),
        (None, Some(d)) => Some(d),
        (Some(i), Some(d)) => Some(i.earliest(d)),
        (None, None) => None,
    }
}

impl RestartSchedule {
    /// A schedule has at least one part.
    #[verifier::type_invariant]
    closed spec fn has_a_part(self) -> bool {
        self.interval is Some || self.daily_at is Some
    }

    /// The interval part.
    pub closed spec fn spec_interval(self) -> Option<ScheduleInterval> {
        self.interval
    }

    /// The daily part.
    pub closed spec fn spec_daily_at(self) -> Option<ScheduleDaily> {
        self.daily_at
    }

    /// A schedule from its parts; `None` where there is neither.
    pub fn new(interval: Option<ScheduleInterval>, daily_at: Option<ScheduleDaily>) -> (res: Option<
        Self,
    >)
        ensures
            res is None <==> interval is None && daily_at is None,
            res matches Some(s) ==> s.spec_interval() == interval && s.spec_daily_at() == daily_at,
    {
        if interval.is_none() && daily_at.is_none() {
            return None;
        }
        Some(Self { interval, daily_at })
    }

    /// The interval part.
    pub fn interval(&self) -> (res: Option<ScheduleInterval>)
        ensures
            res == self.spec_interval(),
            res is None ==> self.spec_daily_at() is Some,
    {
        proof {
            use_type_invariant(self);
        }
        self.interval
    }

    /// The daily part.
    pub fn daily_at(&self) -> (res: Option<ScheduleDaily>)
        ensures
            res == self.spec_daily_at(),
    {
        self.daily_at
    }

    /// `next` is a next restart that the interval part can give: none without the part, and
    /// one interval after some instant with it.
    pub open spec fn interval_part_next(part: Option<ScheduleInterval>, next: Option<Timestamp>) -> bool {
        match part {
            None => next is None,
            Some(i) => next matches Some(t) && exists|now: Timestamp|
                interval::interval_outcome(i.spec_span(), now, Ok(t)),
        }
    }

    /// `next` is a next restart that the daily part can give: none without the part, and
    /// with it the daily answer for its time of day, some local date and some instant.
    pub open spec fn daily_part_next(part: Option<ScheduleDaily>, next: Option<Timestamp>) -> bool {
        match part {
            None => next is None,
            Some(d) => next matches Some(t) && daily::daily_answer(
                d.spec_time(),
                Ok::<Timestamp, ScheduleError>(t),
            ),
        }
    }

    /// `next` is a next restart that this schedule can give: the earlier of what its parts
    /// can give.
    pub open spec fn possible_next(self, next: Option<Timestamp>) -> bool {
        next is Some && exists|i: Option<Timestamp>, d: Option<Timestamp>|
            next == combine_next(i, d) && Self::interval_part_next(self.spec_interval(), i)
                && Self::daily_part_next(self.spec_daily_at(), d)
    }

    /// `e` is an error that a part of this schedule gives at some instant: the interval part
    /// where the instant one interval later is out of `chrono`'s range, the daily part where
    /// the local date and time zone leave no instant to restart at.
    pub open spec fn may_fail_with(self, e: ScheduleError) -> bool {
        ||| self.spec_interval() matches Some(i) && exists|now: Timestamp|
            interval::interval_outcome(i.spec_span(), now, Err::<Timestamp, ScheduleError>(e))
        ||| self.spec_daily_at() matches Some(d) && daily::daily_answer(
            d.spec_time(),
            Err::<Timestamp, ScheduleError>(e),
        )
    }

    /// The next restart on the local date `today` at the instant `now`, with local dates and
    /// times resolved through the time zone `resolve`: the answer of each part (the
    /// interval's at `now`, the daily time's on `today` at `now`), combined as
    /// `combine_outcomes` says.
    pub fn calc_next_restart_time_at<F: Fn(Date, TimeOfDay) -> LocalResolution>(
        &self,
        today: Date,
        now: Timestamp,
        resolve: F,
    ) -> (res: Result<Option<Timestamp>, ScheduleError>)
        requires
            today.valid(),
            forall|d: Date, t: TimeOfDay| d.valid() ==> call_requires(resolve, (d, t)),
        ensures
            res matches Ok(next) ==> next is Some,
            exists|i: Option<Result<Timestamp, ScheduleError>>, d: Option<Result<Timestamp, ScheduleError>>|
                #![trigger combine_outcomes(i, d)]
                res == combine_outcomes(i, d) && match self.spec_interval() {
                    None => i is None,
                    Some(iv) => i matches Some(r) && interval::interval_outcome(iv.spec_span(), now, r),
                } && match self.spec_daily_at() {
                    None => d is None,
                    Some(dl) => d matches Some(r) && exists|
                        today_res: daily::DayResolution,
                        tomorrow: Option<daily::DayResolution>,
                    |
                        daily::day_resolved_by(resolve, today, dl.spec_time(), today_res)
                            && daily::tomorrow_resolved_by(resolve, today.spec_next(), dl.spec_time(), tomorrow)
                            && r == daily::daily_next(dl.spec_time(), today_res, tomorrow, now),
                },
    {
        proof {
            use_type_invariant(self);
        }
        let interval_res = match self.interval {
            Some(t) => Some(t.next_restart_time_from(now)),
            None => None,
        };
        let daily_res = match self.daily_at {
            Some(t) => Some(t.next_restart_time_in(today, now, resolve)),
            None => None,
        };
        let res = match (interval_res, daily_res) {
            (Some(Err(e)), _) => Err(e),
            (_, Some(Err(e))) => Err(e),
            _ => {
                let i = match interval_res {
                    Some(Ok(t)) => Some(t),
                    _ => None,
                };
                let d = match daily_res {
                    Some(Ok(t)) => Some(t),
                    _ => None,
                };
                Ok(combine_next_exec(i, d))
            },
        };
        assert(res == combine_outcomes(interval_res, daily_res));
        res
    }

    /// `r` is what the daily part at `time` answers on the local date `today` at the instant
    /// `now`, for some resolutions of today and the next date that a time zone can give.
    pub open spec fn daily_part_at(time: TimeOfDay, today: Date, now: Timestamp, r: Result<Timestamp, ScheduleError>) -> bool {
        exists|today_res: daily::DayResolution, tomorrow: Option<daily::DayResolution>|
            #![trigger daily::daily_next(time, today_res, tomorrow, now)]
            daily::day_possible(today, time, today_res) && match today.spec_next() {
                None => tomorrow is None,
                Some(nd) => tomorrow matches Some(t) && daily::day_possible(nd, time, t),
            } && r == daily::daily_next(time, today_res, tomorrow, now)
    }

    /// `res` is what this schedule answers on the local date `today` at the instant `now`:
    /// both parts worked out at that one reading, combined as `combine_outcomes` says.
    pub open spec fn answer_at(self, today: Date, now: Timestamp, res: Result<Option<Timestamp>, ScheduleError>) -> bool {
        exists|i: Option<Result<Timestamp, ScheduleError>>, d: Option<Result<Timestamp, ScheduleError>>|
            #![trigger combine_outcomes(i, d)]
            res == combine_outcomes(i, d) && match self.spec_interval() {
                None => i is None,
                Some(iv) => i matches Some(r) && interval::interval_outcome(iv.spec_span(), now, r),
            } && match self.spec_daily_at() {
                None => d is None,
                Some(dl) => d matches Some(r) && Self::daily_part_at(dl.spec_time(), today, now, r),
            }
    }

    /// Calculates the next restart time for a container: the next restart of each part, and
    /// the earlier of the two where there are two. An error of either part is the answer.
    /// Both parts are worked out at one reading of the clock and the local date.
    pub fn calc_next_restart_time(&self) -> (res: Result<Option<Timestamp>, ScheduleError>)
        ensures
            exists|today: Date, now: Timestamp| today.valid() && crate::time::clock_reading(now) && self.answer_at(today, now, res),
            res matches Ok(next) ==> self.possible_next(next),
            res matches Err(e) ==> self.may_fail_with(e),
    {
        proof {
            use_type_invariant(self);
        }
        let today = local_today();
        let now = utc_now();
        let res = self.calc_next_restart_time_at(today, now, resolve_local);
        proof {
            let (i, d) = choose|i: Option<Result<Timestamp, ScheduleError>>, d: Option<Result<Timestamp, ScheduleError>>|
                res == combine_outcomes(i, d) && match self.spec_interval() {
                    None => i is None,
                    Some(iv) => i matches Some(r) && interval::interval_outcome(iv.spec_span(), now, r),
                } && match self.spec_daily_at() {
                    None => d is None,
                    Some(dl) => d matches Some(r) && exists|
                        today_res: daily::DayResolution,
                        tomorrow: Option<daily::DayResolution>,
                    |
                        daily::day_resolved_by(resolve_local, today, dl.spec_time(), today_res)
                            && daily::tomorrow_resolved_by(resolve_local, today.spec_next(), dl.spec_time(), tomorrow)
                            && r == daily::daily_next(dl.spec_time(), today_res, tomorrow, now),
                };
            if let Some(dl) = self.spec_daily_at() {
                let r = d->0;
                let (today_res, tomorrow) = choose|
                    today_res: daily::DayResolution,
                    tomorrow: Option<daily::DayResolution>,
                |
                    daily::day_resolved_by(resolve_local, today, dl.spec_time(), today_res)
                        && daily::tomorrow_resolved_by(resolve_local, today.spec_next(), dl.spec_time(), tomorrow)
                        && r == daily::daily_next(dl.spec_time(), today_res, tomorrow, now);
                daily::lemma_resolved_is_possible(today, dl.spec_time(), today_res);
                if let Some(nd) = today.spec_next() {
                    daily::lemma_resolved_is_possible(nd, dl.spec_time(), tomorrow->0);
                }
                assert(daily::daily_answer(dl.spec_time(), r));
                assert(Self::daily_part_at(dl.spec_time(), today, now, r));
            }
            assert(self.answer_at(today, now, res));
            if let Ok(next) = res {
                assert(next == combine_next(answered(i), answered(d)));
                assert(Self::interval_part_next(self.spec_interval(), answered(i)));
                assert(Self::daily_part_next(self.spec_daily_at(), answered(d)));
            }
        }
        res
    }
}

} // verus!
