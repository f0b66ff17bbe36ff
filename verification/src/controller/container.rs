//! The containers that carry restart labels, as the controller tracks them.

use crate::controller::label_parser::names_view;
use crate::controller::schedule::{RestartSchedule, ScheduleError};
use crate::text::{chars_of, lower};
use crate::time::{before, clock_reading, utc_now, Timestamp};
use vstd::prelude::*;

pub mod container_name;
pub mod health;

pub use container_name::ContainerName;
pub use health::ContainerHealth;

verus! {

/// Holds required information for docker containers with RTT labels.
#[derive(Debug)]
pub struct Container {
    /// The name of the container.
    pub name: ContainerName,
    /// The health state of the container.
    pub health: ContainerHealth,
    /// Containers that this container depends on.
    pub depends_on: Vec<ContainerName>,
    /// Containers that this container needs to be healthy.
    pub depends_on_healthy: Vec<ContainerName>,
    /// The last restart time of this container.
    pub start_time: Option<Timestamp>,
    /// The restart schedule of this container.
    pub restart_schedule: Option<RestartSchedule>,
    /// The next restart time for this container.
    pub next_restart_time: Option<Timestamp>,
}

/// A tracked container, as plain values.
pub struct ContainerView {
    pub name: Seq<char>,
    pub health: ContainerHealth,
    pub depends_on: Seq<Seq<char>>,
    pub depends_on_healthy: Seq<Seq<char>>,
    pub start_time: Option<Timestamp>,
    pub restart_schedule: Option<RestartSchedule>,
    pub next_restart_time: Option<Timestamp>,
}

impl View for Container {
    type V = ContainerView;

    open spec fn view(&self) -> ContainerView {
        ContainerView {
            name: self.name@,
            health: self.health,
            depends_on: names_view(self.depends_on@),
            depends_on_healthy: names_view(self.depends_on_healthy@),
            start_time: self.start_time,
            restart_schedule: self.restart_schedule,
            next_restart_time: self.next_restart_time,
        }
    }
}

/// A scheduled restart is due at `now`: the container has a next restart time and `now` is
/// not before it.
pub open spec fn scheduled_restart_due(next_restart_time: Option<Timestamp>, now: Timestamp) -> bool {
    match next_restart_time {
        Some(next) => !before(now, next),
        None => false,
    }
}

impl Container {
    /// A container that has not been inspected yet: no health state and no start time.
    pub fn new(
        name: ContainerName,
        depends_on: Vec<ContainerName>,
        depends_on_healthy: Vec<ContainerName>,
        restart_schedule: Option<RestartSchedule>,
        next_restart_time: Option<Timestamp>,
    ) -> (res: Self)
        ensures
            res.name@ == name@,
            res.health == ContainerHealth::NoHealthcheck,
            res.depends_on@ == depends_on@,
            res.depends_on_healthy@ == depends_on_healthy@,
            res.start_time is None,
            res.restart_schedule == restart_schedule,
            res.next_restart_time == next_restart_time,
    {
        Self {
            name,
            health: ContainerHealth::NoHealthcheck,
            depends_on,
            depends_on_healthy,
            start_time: None,
            restart_schedule,
            next_restart_time,
        }
    }

    /// Sets the health state of the container from a state field of `docker inspect`.
    pub fn set_health(&mut self, field: &str)
        ensures
            final(self)@ == (ContainerView { health: health::health_of(field@), ..old(self)@ }),
    {
        self.health = ContainerHealth::new(field);
    }

    /// Sets the start time of the container which is parsed from docker-cli output.
    pub fn set_start_time(&mut self, start_time: Timestamp)
        ensures
            final(self)@ == (ContainerView { start_time: Some(start_time), ..old(self)@ }),
    {
        self.start_time = Some(start_time);
    }

    /// Sets the next restart time for a container based on its schedule value: none without
    /// a schedule, and the schedule's next restart otherwise. Where the schedule cannot work
    /// it out, the error is the answer and the container is left as it was.
    pub fn set_next_restart_time(&mut self) -> (res: Result<(), ScheduleError>)
        ensures
            res is Err ==> final(self)@ == old(self)@,
            res is Ok ==> final(self)@ == (ContainerView {
                next_restart_time: final(self).next_restart_time,
                ..old(self)@
            }),
            res is Ok ==> match old(self).restart_schedule {
                None => final(self).next_restart_time is None,
                Some(s) => s.possible_next(final(self).next_restart_time),
            },
            old(self).restart_schedule is None ==> res is Ok,
            res matches Err(e) ==> old(self).restart_schedule matches Some(s) && s.may_fail_with(e),
    {
        let next = match &self.restart_schedule {
            Some(schedule) => schedule.calc_next_restart_time()?,
            None => None,
        };
        self.next_restart_time = next;
        Ok(())
    }

    /// Whether a scheduled restart is due at the instant `now`.
    pub fn needs_scheduled_restart_at(&self, now: Timestamp) -> (res: bool)
        ensures
            res == scheduled_restart_due(self.next_restart_time, now),
    {
        match self.next_restart_time {
            Some(next_restart_time) => !now.is_before(&next_restart_time),
            None => false,
        }
    }

    /// Determines if a container needs to be restarted based on the next restart time that
    /// was set, at the current instant.
    pub fn needs_scheduled_restart(&self) -> (res: bool)
        ensures
            exists|now: Timestamp| clock_reading(now) && res == scheduled_restart_due(self.next_restart_time, now),
    {
        let now = utc_now();
        self.needs_scheduled_restart_at(now)
    }
}

/// Represents the possible health states of a container.
#[derive(Debug, Clone, Copy, PartialEq, Eq, Structural)]
pub enum HealthState {
    Healthy,
    UnHealthy,
    Starting,
    NoHealthcheck,
}

/// The health state that a state field names, compared without regard to the case of its
/// letters.
pub open spec fn health_state_of(field: Seq<char>) -> HealthState {
    let f = lower(field);
    if f == "healthy"@ {
        HealthState::Healthy
    } else if f == "unhealthy"@ {
        HealthState::UnHealthy
    } else if f == "starting"@ {
        HealthState::Starting
    } else {
        HealthState::NoHealthcheck
    }
}

impl HealthState {
    /// The health state that `field` names: `healthy`, `unhealthy` or `starting` in any
    /// case of letters, and `NoHealthcheck` for anything else.
    pub fn parse(field: &str) -> (res: HealthState)
        ensures
            res == health_state_of(field@),
    {
        let v = chars_of(field);
        if health::lower_equals(&v, "healthy") {
            HealthState::Healthy
        } else if health::lower_equals(&v, "unhealthy") {
            HealthState::UnHealthy
        } else if health::lower_equals(&v, "starting") {
            HealthState::Starting
        } else {
            HealthState::NoHealthcheck
        }
    }
}

} // verus!
