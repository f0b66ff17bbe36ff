//! One cycle of restart decisions.
//!
//! The containers are looked at in dependency order. A container is restarted when its
//! scheduled restart is due, when a container whose health it watches is unhealthy, or when
//! a container whose restarts it watches started more recently than it did or was restarted
//! earlier in the same cycle. Restarting is work for docker, so the cycle is a machine:
//! `next_restart` names the next container to restart, and `record_restart` takes the
//! outcome.

use crate::controller::cache::{has_name, lemma_lookup, lookup, names_of, RttCache};
use crate::controller::container::{scheduled_restart_due, ContainerHealth, ContainerName, ContainerView};
use crate::controller::label_parser::names_view;
use crate::controller::schedule::ScheduleError;
use crate::time::{before, clock_reading, utc_now, Timestamp};
use vstd::prelude::*;

verus! {

/// The container `dependency` started strictly after the container that watches it.
pub open spec fn started_later(dependency: Option<Timestamp>, dependent: Option<Timestamp>) -> bool {
    match (dependency, dependent) {
        (Some(dep_start), Some(own_start)) => before(own_start, dep_start),
        _ => false,
    }
}

/// A watched container counts as restarted only where both start times are known and it
/// started strictly after its watcher; one that started at the same instant or earlier does
/// not count.
pub proof fn law_started_later_is_strictly_after(dependency: Timestamp, dependent: Timestamp)
    ensures
        started_later(Some(dependency), Some(dependent)) <==> (dependent.secs < dependency.secs
            || (dependent.secs == dependency.secs && dependent.nanos < dependency.nanos)),
        started_later(Some(dependency), Some(dependent)) ==> !started_later(
            Some(dependent),
            Some(dependency),
        ),
{
}

/// A container whose health `c` watches is tracked and unhealthy.
pub open spec fn watched_unhealthy(s: Seq<ContainerView>, c: ContainerView) -> bool {
    exists|k: int|
        0 <= k < c.depends_on_healthy.len() && has_name(s, #[trigger] c.depends_on_healthy[k])
            && lookup(s, c.depends_on_healthy[k]).health == ContainerHealth::UnHealthy
}

/// A container whose restarts `c` watches was restarted earlier in this cycle, or is tracked
/// and started after `c` did.
pub open spec fn watched_restarted(
    s: Seq<ContainerView>,
    restarted: Seq<Seq<char>>,
    c: ContainerView,
) -> bool {
    exists|k: int|
        0 <= k < c.depends_on.len() && (restarted.contains(#[trigger] c.depends_on[k]) || (
        has_name(s, c.depends_on[k]) && started_later(
            lookup(s, c.depends_on[k]).start_time,
            c.start_time,
        )))
}

/// The container `c` is to be restarted at `now`, given the tracked containers and the
/// containers restarted earlier in this cycle.
pub open spec fn needs_restart(
    s: Seq<ContainerView>,
    restarted: Seq<Seq<char>>,
    c: ContainerView,
    now: Timestamp,
) -> bool {
    scheduled_restart_due(c.next_restart_time, now) || watched_unhealthy(s, c) || watched_restarted(
        s,
        restarted,
        c,
    )
}

/// A container that watches the restarts of a container restarted earlier in the cycle is
/// restarted too.
pub proof fn law_cascade_restart(
    s: Seq<ContainerView>,
    restarted: Seq<Seq<char>>,
    c: ContainerView,
    now: Timestamp,
    dependency: Seq<char>,
)
    requires
        c.depends_on.contains(dependency),
        restarted.contains(dependency),
    ensures
        needs_restart(s, restarted, c, now),
{
    let k = choose|k: int| 0 <= k < c.depends_on.len() && c.depends_on[k] == dependency;
    assert(restarted.contains(c.depends_on[k]));
}

/// A container is restarted once its next restart time has come.
pub proof fn law_scheduled_restart(
    s: Seq<ContainerView>,
    restarted: Seq<Seq<char>>,
    c: ContainerView,
    now: Timestamp,
)
    requires
        c.next_restart_time matches Some(next) && !before(now, next),
    ensures
        needs_restart(s, restarted, c, now),
{
}

/// A container is restarted when a tracked container whose health it watches is unhealthy.
pub proof fn law_unhealthy_restart(
    s: Seq<ContainerView>,
    restarted: Seq<Seq<char>>,
    c: ContainerView,
    now: Timestamp,
    watched: Seq<char>,
)
    requires
        c.depends_on_healthy.contains(watched),
        has_name(s, watched),
        lookup(s, watched).health == ContainerHealth::UnHealthy,
    ensures
        needs_restart(s, restarted, c, now),
{
    let k = choose|k: int| 0 <= k < c.depends_on_healthy.len() && c.depends_on_healthy[k] == watched;
    assert(has_name(s, c.depends_on_healthy[k]));
}

/// A container is restarted when a tracked container whose restarts it watches started after
/// it did.
pub proof fn law_dependency_restart(
    s: Seq<ContainerView>,
    restarted: Seq<Seq<char>>,
    c: ContainerView,
    now: Timestamp,
    dependency: Seq<char>,
)
    requires
        c.depends_on.contains(dependency),
        has_name(s, dependency),
        started_later(lookup(s, dependency).start_time, c.start_time),
    ensures
        needs_restart(s, restarted, c, now),
{
    let k = choose|k: int| 0 <= k < c.depends_on.len() && c.depends_on[k] == dependency;
    assert(has_name(s, c.depends_on[k]));
}

/// A container whose watched containers all started at or before it did, none of them
/// restarted in this cycle, with no unhealthy watched container and no due schedule, is not
/// restarted: an earlier start of a watched container is no reason to restart.
pub proof fn law_earlier_dependency_no_restart(
    s: Seq<ContainerView>,
    restarted: Seq<Seq<char>>,
    c: ContainerView,
    now: Timestamp,
)
    requires
        !scheduled_restart_due(c.next_restart_time, now),
        forall|w: Seq<char>|
            c.depends_on_healthy.contains(w) && has_name(s, w) ==> lookup(s, w).health
                != ContainerHealth::UnHealthy,
        forall|d: Seq<char>| c.depends_on.contains(d) ==> !restarted.contains(d),
        forall|d: Seq<char>|
            c.depends_on.contains(d) && has_name(s, d) ==> match (lookup(s, d).start_time, c.start_time) {
                (Some(dep_start), Some(own_start)) => dep_start.secs < own_start.secs || (
                dep_start.secs == own_start.secs && dep_start.nanos <= own_start.nanos),
                _ => true,
            },
    ensures
        !needs_restart(s, restarted, c, now),
{
    assert forall|d: Seq<char>|
        c.depends_on.contains(d) implies !restarted.contains(d) && !(has_name(s, d) && started_later(
            lookup(s, d).start_time,
            c.start_time,
        )) by {}
    law_no_reason_no_restart(s, restarted, c, now);
}

/// Without a due schedule, an unhealthy watched container, or a watched container that
/// restarted, a container is not restarted.
pub proof fn law_no_reason_no_restart(
    s: Seq<ContainerView>,
    restarted: Seq<Seq<char>>,
    c: ContainerView,
    now: Timestamp,
)
    requires
        !scheduled_restart_due(c.next_restart_time, now),
        forall|w: Seq<char>|
            c.depends_on_healthy.contains(w) && has_name(s, w) ==> lookup(s, w).health
                != ContainerHealth::UnHealthy,
        forall|d: Seq<char>|
            c.depends_on.contains(d) ==> !restarted.contains(d) && !(has_name(s, d) && started_later(
                lookup(s, d).start_time,
                c.start_time,
            )),
    ensures
        !needs_restart(s, restarted, c, now),
{
    assert forall|k: int| 0 <= k < c.depends_on_healthy.len() implies !(has_name(
        s,
        #[trigger] c.depends_on_healthy[k],
    ) && lookup(s, c.depends_on_healthy[k]).health == ContainerHealth::UnHealthy) by {
        assert(c.depends_on_healthy.contains(c.depends_on_healthy[k]));
    }
    assert forall|k: int| 0 <= k < c.depends_on.len() implies !(restarted.contains(
        #[trigger] c.depends_on[k],
    ) || (has_name(s, c.depends_on[k]) && started_later(
        lookup(s, c.depends_on[k]).start_time,
        c.start_time,
    ))) by {
        assert(c.depends_on.contains(c.depends_on[k]));
    }
}

impl RestartCycle {
    /// No container is restarted twice in one cycle.
    pub proof fn law_restarted_once(&self)
        requires
            self.wf(),
        ensures
            self.restarted_view().no_duplicates(),
    {
    }
}

/// The state of one cycle of restart decisions.
pub struct RestartCycle {
    containers: RttCache,
    order: Vec<ContainerName>,
    position: usize,
    restarted: Vec<ContainerName>,
    /// The position in `containers` of the container named last, and whether its restart
    /// was a scheduled one.
    pending: Option<(usize, bool)>,
}

impl RestartCycle {
    /// The tracked containers.
    pub closed spec fn containers_view(&self) -> Seq<ContainerView> {
        self.containers@
    }

    /// The order in which the containers are looked at.
    pub closed spec fn order_view(&self) -> Seq<Seq<char>> {
        names_view(self.order@)
    }

    /// How many names of the order have been looked at.
    pub closed spec fn position_view(&self) -> int {
        self.position as int
    }

    /// The containers restarted in this cycle, in the order of their restarts.
    pub closed spec fn restarted_view(&self) -> Seq<Seq<char>> {
        names_view(self.restarted@)
    }

    /// The container named last, whose outcome is awaited, and whether its restart is a
    /// scheduled one.
    pub closed spec fn pending_view(&self) -> Option<(int, bool)> {
        match self.pending {
            Some((i, scheduled)) => Some((i as int, scheduled)),
            None => None,
        }
    }

    /// The state is consistent: every name of the order is tracked, no container is
    /// restarted twice, and a container awaiting its outcome is tracked and not restarted
    /// yet.
    pub closed spec fn wf(&self) -> bool {
        &&& self.containers.wf()
        &&& self.position <= self.order@.len()
        &&& forall|p: int|
            0 <= p < self.order@.len() ==> has_name(self.containers@, #[trigger] self.order@[p]@)
        &&& self.restarted_view().no_duplicates()
        &&& match self.pending {
            Some((i, _)) => i < self.containers@.len() && !self.restarted_view().contains(
                self.containers@[i as int].name,
            ),
            None => true,
        }
    }

    /// The container at position `p` of the order is to be restarted at `now`: it was not
    /// restarted yet in this cycle, and `needs_restart` holds of it.
    pub open spec fn selects(&self, p: int, now: Timestamp) -> bool {
        let name = self.order_view()[p];
        &&& !self.restarted_view().contains(name)
        &&& needs_restart(
            self.containers_view(),
            self.restarted_view(),
            lookup(self.containers_view(), name),
            now,
        )
    }

    /// `after` and `res` are what looking for the next container to restart at `now` gives
    /// from `before`: the first container of the order from the current position on that is
    /// to be restarted, now awaiting its outcome, with the position just past it; or none,
    /// with the position at the end of the order. The tracked containers, the order and the
    /// restarts so far stay as they were.
    pub open spec fn next_restart_outcome(
        before: Self,
        after: Self,
        now: Timestamp,
        res: Option<ContainerName>,
    ) -> bool {
        &&& after.containers_view() == before.containers_view()
        &&& after.order_view() == before.order_view()
        &&& after.restarted_view() == before.restarted_view()
        &&& match res {
            None => {
                &&& after.position_view() == before.order_view().len()
                &&& after.pending_view() is None
                &&& forall|p: int|
                    before.position_view() <= p < before.order_view().len() ==> !before.selects(
                        p,
                        now,
                    )
            },
            Some(name) => {
                let p = after.position_view() - 1;
                &&& before.position_view() <= p < before.order_view().len()
                &&& name@ == before.order_view()[p]
                &&& before.selects(p, now)
                &&& forall|q: int| before.position_view() <= q < p ==> !before.selects(q, now)
                &&& after.pending_view() matches Some((i, scheduled)) && 0 <= i
                    < before.containers_view().len() && before.containers_view()[i].name == name@
                    && scheduled == scheduled_restart_due(
                    lookup(before.containers_view(), name@).next_restart_time,
                    now,
                )
            },
        }
    }

    /// A cycle over `containers` in the order `sorted`, with nothing restarted yet.
    pub fn new(containers: RttCache, sorted: Vec<ContainerName>) -> (res: Self)
        requires
            forall|x: Seq<char>| names_view(sorted@).contains(x) ==> has_name(containers@, x),
        ensures
            res.wf(),
            res.containers_view() == containers@,
            res.order_view() == names_view(sorted@),
            res.position_view() == 0,
            res.restarted_view() == Seq::<Seq<char>>::empty(),
            res.pending_view() is None,
    {
        proof {
            use_type_invariant(&containers);
        }
        let res = RestartCycle {
            containers,
            order: sorted,
            position: 0,
            restarted: Vec::new(),
            pending: None,
        };
        assert forall|p: int| 0 <= p < res.order@.len() implies has_name(
            res.containers@,
            #[trigger] res.order@[p]@,
        ) by {
            assert(names_view(res.order@)[p] == res.order@[p]@);
        }
        assert(res.restarted_view() =~= Seq::<Seq<char>>::empty());
        res
    }

    /// Whether the container at position `i` of `containers` is to be restarted at `now`, and
    /// whether that restart is a scheduled one.
    fn decide(&self, i: usize, now: Timestamp) -> (res: (bool, bool))
        requires
            self.wf(),
            i < self.containers_view().len(),
        ensures
            res.0 == needs_restart(
                self.containers_view(),
                self.restarted_view(),
                self.containers_view()[i as int],
                now,
            ),
            res.1 == scheduled_restart_due(self.containers_view()[i as int].next_restart_time, now),
    {
        let ghost s = self.containers@;
        let container = self.containers.entry(i);
        let scheduled = container.needs_scheduled_restart_at(now);
        if scheduled {
            return (true, true);
        }
        let mut k: usize = 0;
        while k < container.depends_on_healthy.len()
            invariant
                self.wf(),
                s == self.containers@,
                i < s.len(),
                container@ == s[i as int],
                !scheduled_restart_due(container@.next_restart_time, now),
                k <= container.depends_on_healthy.len(),
                forall|j: int|
                    0 <= j < k ==> !(has_name(s, #[trigger] container@.depends_on_healthy[j])
                        && lookup(s, container@.depends_on_healthy[j]).health
                        == ContainerHealth::UnHealthy),
            decreases container.depends_on_healthy.len() - k,
        {
            assert(container@.depends_on_healthy[k as int] == container.depends_on_healthy@[k as int]@);
            match self.containers.get(&container.depends_on_healthy[k]) {
                Some(dep) => {
                    if dep.health == ContainerHealth::UnHealthy {
                        return (true, false);
                    }
                },
                None => {},
            }
            k += 1;
        }
        let mut k: usize = 0;
        while k < container.depends_on.len()
            invariant
                self.wf(),
                s == self.containers@,
                i < s.len(),
                container@ == s[i as int],
                !scheduled_restart_due(container@.next_restart_time, now),
                k <= container.depends_on.len(),
                !watched_unhealthy(s, container@),
                forall|j: int|
                    0 <= j < k ==> !(self.restarted_view().contains(
                        #[trigger] container@.depends_on[j],
                    ) || (has_name(s, container@.depends_on[j]) && started_later(
                        lookup(s, container@.depends_on[j]).start_time,
                        container@.start_time,
                    ))),
            decreases container.depends_on.len() - k,
        {
            let dep_name = &container.depends_on[k];
            assert(container@.depends_on[k as int] == dep_name@);
            if self.was_restarted(dep_name) {
                return (true, false);
            }
            match self.containers.get(dep_name) {
                Some(dep) => {
                    match (dep.start_time, container.start_time) {
                        (Some(dep_start), Some(container_start)) => {
                            if container_start.is_before(&dep_start) {
                                return (true, false);
                            }
                        },
                        _ => {},
                    }
                },
                None => {},
            }
            k += 1;
        }
        (false, false)
    }

    /// The container `name` was restarted in this cycle.
    fn was_restarted(&self, name: &ContainerName) -> (res: bool)
        ensures
            res == self.restarted_view().contains(name@),
    {
        let mut k: usize = 0;
        while k < self.restarted.len()
            invariant
                k <= self.restarted.len(),
                forall|j: int| 0 <= j < k ==> self.restarted@[j]@ != name@,
            decreases self.restarted.len() - k,
        {
            if self.restarted[k].same_as(name) {
                assert(self.restarted_view()[k as int] == name@);
                return true;
            }
            k += 1;
        }
        proof {
            if self.restarted_view().contains(name@) {
                let j = choose|j: int|
                    0 <= j < self.restarted_view().len() && self.restarted_view()[j] == name@;
                assert(self.restarted@[j]@ == name@);
            }
        }
        false
    }

    /// Looks at the containers of the order from the current position on, at the instant
    /// `now`, and names the first one to restart; `None` once the order is done.
    pub fn next_restart_at(&mut self, now: Timestamp) -> (res: Option<ContainerName>)
        requires
            old(self).wf(),
            old(self).pending_view() is None,
        ensures
            final(self).wf(),
            Self::next_restart_outcome(*old(self), *final(self), now, res),
    {
        let ghost start = self.position as int;
        while self.position < self.order.len()
            invariant
                self.wf(),
                self.pending is None,
                self.containers_view() == old(self).containers_view(),
                self.order_view() == old(self).order_view(),
                self.restarted_view() == old(self).restarted_view(),
                start <= self.position,
                start == old(self).position_view(),
                forall|q: int| start <= q < self.position ==> !old(self).selects(q, now),
            decreases self.order.len() - self.position,
        {
            let p = self.position;
            let name = &self.order[p];
            assert(self.order_view()[p as int] == name@);
            if !self.was_restarted(name) {
                assert(has_name(self.containers@, self.order@[p as int]@));
                let i = match self.containers.find(name) {
                    Some(i) => i,
                    None => {
                        assert(false);
                        0
                    },
                };
                proof {
                    lemma_lookup(self.containers@, i as int);
                }
                let (needs, scheduled) = self.decide(i, now);
                if needs {
                    let name = name.clone();
                    self.position = p + 1;
                    self.pending = Some((i, scheduled));
                    return Some(name);
                }
            }
            self.position = p + 1;
        }
        None
    }

    /// Names the next container to restart, looking at the containers at the current
    /// instant; `None` once the order is done.
    pub fn next_restart(&mut self) -> (res: Option<ContainerName>)
        requires
            old(self).wf(),
            old(self).pending_view() is None,
        ensures
            final(self).wf(),
            exists|now: Timestamp| clock_reading(now) && Self::next_restart_outcome(*old(self), *final(self), now, res),
    {
        let now = utc_now();
        self.next_restart_at(now)
    }

    /// Takes the outcome of restarting the container named last. A restart that succeeded
    /// counts as a restart of this cycle, and after a scheduled one the container's next
    /// restart time is worked out anew; where that fails, the error is the answer and the
    /// time stays as it was. A failed restart changes nothing.
    pub fn record_restart(&mut self, succeeded: bool) -> (res: Result<(), ScheduleError>)
        requires
            old(self).wf(),
            old(self).pending_view() is Some,
        ensures
            final(self).wf(),
            final(self).pending_view() is None,
            final(self).order_view() == old(self).order_view(),
            final(self).position_view() == old(self).position_view(),
            ({
                let (i, scheduled) = old(self).pending_view()->0;
                let s = old(self).containers_view();
                if !succeeded {
                    &&& final(self).restarted_view() == old(self).restarted_view()
                    &&& final(self).containers_view() == s
                    &&& res is Ok
                } else {
                    &&& final(self).restarted_view() == old(self).restarted_view().push(s[i].name)
                    &&& !scheduled ==> final(self).containers_view() == s && res is Ok
                    &&& scheduled && res is Err ==> final(self).containers_view() == s
                    &&& scheduled && s[i].restart_schedule is None ==> res is Ok
                    &&& scheduled ==> (res matches Err(e) ==> s[i].restart_schedule matches Some(sch)
                        && sch.may_fail_with(e))
                    &&& scheduled && res is Ok ==> final(self).containers_view() == s.update(
                        i,
                        ContainerView {
                            next_restart_time: final(self).containers_view()[i].next_restart_time,
                            ..s[i]
                        },
                    ) && match s[i].restart_schedule {
                        None => final(self).containers_view()[i].next_restart_time is None,
                        Some(sch) => sch.possible_next(final(self).containers_view()[i].next_restart_time),
                    }
                }
            }),
    {
        let (i, scheduled) = match self.pending {
            Some(p) => p,
            None => {
                assert(false);
                (0, false)
            },
        };
        self.pending = None;
        if !succeeded {
            return Ok(());
        }
        let name = self.containers.entry(i).name.clone();
        let ghost before = self.restarted@;
        self.restarted.push(name);
        assert(self.restarted_view() =~= names_view(before).push(name@));
        if scheduled {
            let res = self.containers.set_next_restart_time_at(i);
            proof {
                assert(names_of(self.containers@) =~= names_of(old(self).containers_view()));
                assert forall|p: int| 0 <= p < self.order@.len() implies has_name(
                    self.containers@,
                    #[trigger] self.order@[p]@,
                ) by {
                    assert(has_name(old(self).containers_view(), self.order@[p]@));
                }
            }
            res
        } else {
            Ok(())
        }
    }

    /// The tracked containers, with the next restart times set in this cycle.
    pub fn finish(self) -> (res: RttCache)
        ensures
            res@ == self.containers_view(),
            self.wf() ==> res.wf(),
    {
        self.containers
    }
}

} // verus!
