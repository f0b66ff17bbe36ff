//! Restarts that repeat after a fixed length of time.

use crate::time::{after_span, sum_in_chrono_range, utc_add_span, utc_now, Span, Timestamp};
use super::ScheduleError;
use vstd::prelude::*;

verus! {

/// Restart a container every time this span has passed.
#[derive(Debug, Clone, Copy, Hash, PartialEq, Eq, Structural)]
pub struct ScheduleInterval(pub Span);

/// `res` is what an interval of `span` answers at the instant `now`: the instant one span
/// later (for an instant with nanoseconds below one second, which is every instant but a leap
/// second), or an error, which comes only where `chrono` cannot represent `now` or the sum.
pub open spec fn interval_outcome(span: Span, now: Timestamp, res: Result<Timestamp, ScheduleError>) -> bool {
    match res {
        Ok(t) => now.nanos < 1_000_000_000 ==> (t.secs as int, t.nanos as int) == after_span(now, span)
            && sum_in_chrono_range(now, span),
        Err(e) => e == ScheduleError::IntervalOutOfRange && !sum_in_chrono_range(now, span),
    }
}

impl ScheduleInterval {
    /// The span between restarts.
    pub open spec fn spec_span(self) -> Span {
        self.0
    }

    /// Restart every `duration`.
    pub fn new(duration: Span) -> (res: Self)
        ensures
            res.spec_span() == duration,
    {
        ScheduleInterval(duration)
    }

    /// Restart every `secs` seconds: the interval of the span of `secs` seconds.
    pub fn from_secs(secs: u64) -> (res: Self)
        ensures
            res.spec_span() == Span::spec_from_secs(secs),
            res.spec_span().spec_secs() == secs,
            res.spec_span().spec_nanos() == 0,
    {
        let duration = Span::from_secs(secs);
        Self::new(duration)
    }

    /// The span between restarts.
    pub fn span(&self) -> (res: Span)
        ensures
            res == self.spec_span(),
    {
        self.0
    }

    /// The next restart, one span after `now`. An answer is the sum; where `chrono` cannot
    /// represent the span or the sum, the answer is `IntervalOutOfRange`.
    pub fn next_restart_time_from(&self, now: Timestamp) -> (res: Result<Timestamp, ScheduleError>)
        ensures
            interval_outcome(self.spec_span(), now, res),
    {
        match utc_add_span(now, self.0) {
            Some(t) => Ok(t),
            None => Err(ScheduleError::IntervalOutOfRange),
        }
    }

    /// The next restart, one span after the current instant.
    pub fn next_restart_time(&self) -> (res: Result<Timestamp, ScheduleError>)
        ensures
            exists|now: Timestamp| crate::time::clock_reading(now) && interval_outcome(self.spec_span(), now, res),
    {
        let now = utc_now();
        self.next_restart_time_from(now)
    }
}

} // verus!
