//! What docker reports: the containers that `docker ps` lists, which of them carry restart
//! labels, and their health states and start times as `docker inspect` prints them.

use crate::controller::cache::{has_name, lemma_lookup, lookup, names_of, position_of, RttCache};
use crate::controller::container::health::health_of;
use crate::controller::container::{Container, ContainerHealth, ContainerName, ContainerView};
use crate::controller::label_parser::{
    labels_readable, labels_spec, names_view, RttLabels, RttLabelsView,
};
use crate::controller::schedule::{RestartSchedule, ScheduleError};
use crate::controller::ControllerError;
use crate::text::{
    chars_of, lines, lines_exec, ranges_view, string_from_chars, trim, trim_range,
    trim_start_char, trim_start_char_range, words_exec, words_from,
};
use crate::time::{parse_rfc3339, rfc3339_instant, Timestamp};
use vstd::prelude::*;

verus! {

/// One container as `docker ps --format json` lists it: its name and its labels.
#[derive(Debug)]
pub struct DockerPsEntry {
    pub name: String,
    pub labels: String,
}

/// A listed container, as plain values.
pub struct DockerPsEntryView {
    pub name: Seq<char>,
    pub labels: Seq<char>,
}

impl View for DockerPsEntry {
    type V = DockerPsEntryView;

    open spec fn view(&self) -> DockerPsEntryView {
        DockerPsEntryView { name: self.name@, labels: self.labels@ }
    }
}

/// The listed containers, as plain values.
pub open spec fn entries_view(entries: Seq<DockerPsEntry>) -> Seq<DockerPsEntryView> {
    entries.map_values(|e: DockerPsEntry| e@)
}

/// The state that the controller keeps from one cycle to the next.
#[derive(Debug)]
pub struct State {
    pub containers: RttCache,
}

impl Default for State {
    fn default() -> (res: Self)
        ensures
            res.containers@ == Seq::<ContainerView>::empty(),
            res.containers.wf(),
    {
        State { containers: RttCache::new() }
    }
}

// ---------------------------------------------------------------------------------------
// Specification
// ---------------------------------------------------------------------------------------

/// The listed container is monitored: its labels enable monitoring.
pub open spec fn monitored(e: DockerPsEntryView) -> bool {
    labels_spec(e.labels) is Some
}

/// The names of the monitored containers of a listing, in order.
pub open spec fn monitored_names(entries: Seq<DockerPsEntryView>) -> Seq<Seq<char>>
    decreases entries.len(),
{
    if entries.len() == 0 {
        Seq::empty()
    } else if monitored(entries.last()) {
        monitored_names(entries.drop_last()).push(entries.last().name)
    } else {
        monitored_names(entries.drop_last())
    }
}

/// The restart schedule holds what the labels say.
pub open spec fn schedule_matches(schedule: Option<RestartSchedule>, lv: RttLabelsView) -> bool {
    match schedule {
        None => lv.interval is None && lv.daily_time is None,
        Some(s) => {
            &&& match s.spec_interval() {
                Some(i) => lv.interval == Some((i.0.spec_secs() as nat, i.0.spec_nanos() as nat)),
                None => lv.interval is None,
            }
            &&& match s.spec_daily_at() {
                Some(d) => lv.daily_time == Some(
                    (d.0.spec_hour(), d.0.spec_minute(), d.0.spec_second()),
                ),
                None => lv.daily_time is None,
            }
        },
    }
}

/// The next restart time is none without a schedule; the one kept in `state` where the
/// container was tracked there with the same schedule; and one that the schedule gives
/// otherwise.
pub open spec fn next_time_matches(c: ContainerView, state: Seq<ContainerView>) -> bool {
    match c.restart_schedule {
        None => c.next_restart_time is None,
        Some(s) => if has_name(state, c.name) && lookup(state, c.name).restart_schedule == Some(s) {
            c.next_restart_time == lookup(state, c.name).next_restart_time
        } else {
            s.possible_next(c.next_restart_time)
        },
    }
}

/// The container `name` was tracked in `state` with the schedule `s`, so its next restart
/// time is kept rather than worked out anew.
pub open spec fn schedule_kept(state: Seq<ContainerView>, name: Seq<char>, s: RestartSchedule) -> bool {
    has_name(state, name) && lookup(state, name).restart_schedule == Some(s)
}

/// `e` is an error that the monitored listed container `name` with labels `lv` can give: the
/// schedule its labels describe is not kept from `state`, and a part of it fails with `e` at
/// some clock reading.
pub open spec fn schedule_error_of(
    lv: RttLabelsView,
    name: Seq<char>,
    state: Seq<ContainerView>,
    e: ScheduleError,
) -> bool {
    exists|s: RestartSchedule|
        #![trigger s.may_fail_with(e)]
        schedule_matches(Some(s), lv) && !schedule_kept(state, name, s) && s.may_fail_with(e)
}

/// The container is the one that labels `lv` describe, not inspected yet.
pub open spec fn built_from(c: ContainerView, lv: RttLabelsView, state: Seq<ContainerView>) -> bool {
    &&& c.health == ContainerHealth::NoHealthcheck
    &&& c.start_time is None
    &&& c.depends_on == lv.watch_restarted
    &&& c.depends_on_healthy == lv.watch_unhealthy
    &&& schedule_matches(c.restart_schedule, lv)
    &&& next_time_matches(c, state)
}

/// The container comes from the listed container `j`, the last monitored one of its name
/// among the first `k`.
pub open spec fn built_from_entry(
    c: ContainerView,
    entries: Seq<DockerPsEntryView>,
    j: int,
    k: int,
    state: Seq<ContainerView>,
) -> bool {
    &&& 0 <= j < k <= entries.len()
    &&& entries[j].name == c.name
    &&& labels_spec(entries[j].labels) matches Some(lv) && built_from(c, lv, state)
    &&& forall|j2: int|
        j < j2 < k && #[trigger] entries[j2].name == c.name ==> !monitored(entries[j2])
}

/// The container comes from the last monitored listed container of its name among the
/// first `k`.
pub open spec fn built_from_listing(
    c: ContainerView,
    entries: Seq<DockerPsEntryView>,
    k: int,
    state: Seq<ContainerView>,
) -> bool {
    exists|j: int| #[trigger] built_from_entry(c, entries, j, k, state)
}

/// Why a line of `docker inspect` output could not be taken.
pub enum InspectFailure {
    /// The line does not hold a name, a start time and a health state.
    Format,
    /// The container named is not tracked.
    Missing(Seq<char>),
    /// The start time of the container named is not an RFC 3339 date and time.
    Timestamp(Seq<char>),
}

/// The containers after one line of `docker inspect` output: an empty line changes nothing;
/// otherwise, after any leading `/`, the line holds the name of a tracked container, its
/// start time and its health state field, separated by white space.
pub open spec fn inspect_line(s: Seq<ContainerView>, line: Seq<char>) -> Result<
    Seq<ContainerView>,
    InspectFailure,
> {
    if line.len() == 0 {
        Ok(s)
    } else {
        let parts = words_from(trim_start_char(line, '/'), 0);
        if parts.len() < 3 {
            Err(InspectFailure::Format)
        } else if !has_name(s, parts[0]) {
            Err(InspectFailure::Missing(parts[0]))
        } else {
            match rfc3339_instant(parts[1]) {
                None => Err(InspectFailure::Timestamp(parts[0])),
                Some((secs, nanos)) => Ok(
                    s.update(
                        position_of(s, parts[0]),
                        ContainerView {
                            health: health_of(parts[2]),
                            start_time: Some(Timestamp { secs, nanos }),
                            ..lookup(s, parts[0])
                        },
                    ),
                ),
            }
        }
    }
}

/// The containers after the lines of `docker inspect` output, one after the other; the
/// first line that cannot be taken is the answer.
pub open spec fn inspect_lines(s: Seq<ContainerView>, lines: Seq<Seq<char>>) -> Result<
    Seq<ContainerView>,
    InspectFailure,
>
    decreases lines.len(),
{
    if lines.len() == 0 {
        Ok(s)
    } else {
        match inspect_lines(s, lines.drop_last()) {
            Err(e) => Err(e),
            Ok(s2) => inspect_line(s2, lines.last()),
        }
    }
}

impl ControllerError {
    /// The failure of `docker inspect` output that this error reports, if it reports one.
    pub open spec fn as_inspect_failure(&self) -> Option<InspectFailure> {
        match self {
            ControllerError::IncorrectInspectFormat => Some(InspectFailure::Format),
            ControllerError::MissingContainer(name) => Some(InspectFailure::Missing(name@)),
            ControllerError::InvalidTimestamp(name) => Some(InspectFailure::Timestamp(name@)),
            _ => None,
        }
    }
}

// ---------------------------------------------------------------------------------------
// Implementation
// ---------------------------------------------------------------------------------------

/// The lines of `docker ps` output, each with white space removed at both ends. Empty output
/// means that no container runs.
pub fn docker_ps_lines(output: &str) -> (res: Result<Vec<String>, ControllerError>)
    ensures
        output@.len() == 0 <==> res is Err,
        res matches Err(e) ==> e is NoContainersRunningOnHost,
        res matches Ok(ls) ==> ls@.map_values(|l: String| l@) == lines(output@).map_values(
            |l: Seq<char>| trim(l),
        ),
{
    let v = chars_of(output);
    if v.len() == 0 {
        return Err(ControllerError::NoContainersRunningOnHost);
    }
    let ranges = lines_exec(&v);
    let mut res: Vec<String> = Vec::new();
    let mut k: usize = 0;
    while k < ranges.len()
        invariant
            k <= ranges.len(),
            crate::text::ranges_within(v@, ranges@),
            res@.map_values(|l: String| l@) =~= ranges_view(v@, ranges@).take(k as int).map_values(
                |l: Seq<char>| trim(l),
            ),
        decreases ranges.len() - k,
    {
        let (lo, hi) = ranges[k];
        let (a, b) = trim_range(&v, lo, hi);
        let line = string_from_chars(&v, a, b);
        let ghost before = res@;
        res.push(line);
        assert(res@.map_values(|l: String| l@) =~= before.map_values(|l: String| l@).push(line@));
        assert(ranges_view(v@, ranges@).take(k + 1) =~= ranges_view(v@, ranges@).take(
            k as int,
        ).push(v@.subrange(lo as int, hi as int)));
        k += 1;
    }
    assert(ranges_view(v@, ranges@).take(ranges.len() as int) =~= ranges_view(v@, ranges@));
    Ok(res)
}

/// Collects the monitored containers of a listing: the names of the monitored containers in
/// the order listed, and one tracked container per name, built from the last monitored listed
/// container of that name. A container's next restart time is the one kept in `app_state`
/// where its schedule is unchanged, and newly worked out otherwise; where that fails, the
/// error is the answer. A listing with no monitored container is an error.
pub fn build_rtt_containers(entries: &Vec<DockerPsEntry>, app_state: &State) -> (res: Result<
    (Vec<ContainerName>, RttCache),
    ControllerError,
>)
    requires
        forall|j: int| 0 <= j < entries.len() ==> labels_readable(#[trigger] entries@[j].labels@),
    ensures
        match res {
            Ok((names, cache)) => {
                let es = entries_view(entries@);
                &&& names_view(names@) == monitored_names(es)
                &&& names_view(names@).len() > 0
                &&& cache.wf()
                &&& forall|x: Seq<char>| has_name(cache@, x) <==> monitored_names(es).contains(x)
                &&& forall|i: int|
                    0 <= i < cache@.len() ==> built_from_listing(
                        #[trigger] cache@[i],
                        es,
                        es.len() as int,
                        app_state.containers@,
                    )
            },
            Err(ControllerError::NoRTTLabelsDetected) => monitored_names(entries_view(entries@)).len()
                == 0,
            Err(ControllerError::Schedule(e)) => exists|j: int|
                0 <= j < entries.len() && (#[trigger] labels_spec(entries@[j].labels@) matches Some(lv)
                    && schedule_error_of(lv, entries@[j].name@, app_state.containers@, e)),
            Err(_) => false,
        },
{
    proof {
        use_type_invariant(&app_state.containers);
    }
    let ghost es = entries_view(entries@);
    let ghost state = app_state.containers@;
    let mut names: Vec<ContainerName> = Vec::new();
    let mut cache = RttCache::new();
    let mut k: usize = 0;
    while k < entries.len()
        invariant
            k <= entries.len(),
            es == entries_view(entries@),
            state == app_state.containers@,
            app_state.containers.wf(),
            forall|j: int| 0 <= j < entries.len() ==> labels_readable(#[trigger] entries@[j].labels@),
            names_view(names@) == monitored_names(es.take(k as int)),
            cache.wf(),
            forall|x: Seq<char>| has_name(cache@, x) <==> monitored_names(es.take(k as int)).contains(x),
            forall|i: int|
                0 <= i < cache@.len() ==> built_from_listing(#[trigger] cache@[i], es, k as int, state),
        decreases entries.len() - k,
    {
        let entry = &entries[k];
        assert(es[k as int] == entry@);
        assert(es.take(k + 1).drop_last() =~= es.take(k as int));
        assert(es.take(k + 1).last() == es[k as int]);
        let ghost old_cache = cache@;
        match RttLabels::parse(entry.labels.as_str()) {
            Ok(Some(labels)) => {
                let container = match container_for_entry(entry, labels, app_state) {
                    Ok(c) => c,
                    Err(e) => {
                        assert(labels_spec(entries@[k as int].labels@) matches Some(lv)
                            && schedule_error_of(lv, entries@[k as int].name@, state, e));
                        return Err(ControllerError::Schedule(e));
                    },
                };
                let ghost cv = container@;
                let name = container.name.clone();
                names.push(name);
                cache.insert(container);
                proof {
                    lemma_insert_names(old_cache, cache@, cv, es, k as int);
                    lemma_insert_built(old_cache, cache@, cv, es, k as int, state);
                    assert(names_view(names@) =~= monitored_names(es.take(k as int)).push(cv.name));
                }
            },
            _ => {
                proof {
                    lemma_skip_entry(cache@, es, k as int, state);
                }
            },
        }
        k += 1;
    }
    assert(es.take(entries.len() as int) =~= es);
    if cache.is_empty() {
        proof {
            if monitored_names(es).len() > 0 {
                assert(monitored_names(es).contains(monitored_names(es)[0]));
                assert(has_name(cache@, monitored_names(es)[0]));
                assert(false);
            }
        }
        return Err(ControllerError::NoRTTLabelsDetected);
    }
    proof {
        lemma_lookup(cache@, 0);
        assert(names_view(names@).contains(cache@[0].name));
    }
    Ok((names, cache))
}

/// The container that a monitored listed container describes. Its next restart time is the
/// one kept in `app_state` where its schedule is unchanged, and newly worked out otherwise;
/// where that fails, the error is the answer.
fn container_for_entry(entry: &DockerPsEntry, labels: RttLabels, app_state: &State) -> (res: Result<
    Container,
    ScheduleError,
>)
    requires
        app_state.containers.wf(),
    ensures
        res matches Ok(c) ==> c@.name == entry.name@ && built_from(
            c@,
            labels.view(),
            app_state.containers@,
        ),
        res matches Err(e) ==> schedule_error_of(labels.view(), entry.name@, app_state.containers@, e),
{
    let ghost lv = labels.view();
    let ghost state = app_state.containers@;
    let name = ContainerName::new(entry.name.as_str());
    let schedule = RestartSchedule::new(labels.interval_time, labels.daily_time);
    let next_restart_time = match schedule {
        Some(s) => {
            let reused = match app_state.containers.get(&name) {
                Some(existing) => match existing.restart_schedule {
                    Some(kept) => if kept == s {
                        Some(existing.next_restart_time)
                    } else {
                        None
                    },
                    None => None,
                },
                None => None,
            };
            match reused {
                Some(next) => next,
                None => match s.calc_next_restart_time() {
                    Ok(next) => next,
                    Err(e) => {
                        assert(schedule_matches(Some(s), lv));
                        assert(!schedule_kept(state, name@, s));
                        return Err(e);
                    },
                },
            }
        },
        None => None,
    };
    let container = Container::new(
        name,
        labels.watch_restarted,
        labels.watch_unhealthy,
        schedule,
        next_restart_time,
    );
    let ghost cv = container@;
    assert(cv.depends_on == lv.watch_restarted);
    assert(cv.depends_on_healthy == lv.watch_unhealthy);
    assert(schedule_matches(cv.restart_schedule, lv));
    assert(next_time_matches(cv, state));
    Ok(container)
}

/// A listed container that is not monitored leaves every tracked container built from the
/// last monitored listed container of its name.
proof fn lemma_skip_entry(
    cache: Seq<ContainerView>,
    es: Seq<DockerPsEntryView>,
    k: int,
    state: Seq<ContainerView>,
)
    requires
        0 <= k < es.len(),
        !monitored(es[k]),
        forall|i: int| 0 <= i < cache.len() ==> built_from_listing(#[trigger] cache[i], es, k, state),
    ensures
        forall|i: int| 0 <= i < cache.len() ==> built_from_listing(#[trigger] cache[i], es, k + 1, state),
{
    assert forall|i: int| 0 <= i < cache.len() implies built_from_listing(
        #[trigger] cache[i],
        es,
        k + 1,
        state,
    ) by {
        let j = choose|j: int| #[trigger] built_from_entry(cache[i], es, j, k, state);
        assert(built_from_entry(cache[i], es, j, k + 1, state));
    }
}

/// Tracking a container named after the monitored listed container `k` tracks the monitored
/// names of the first `k + 1` listed containers.
proof fn lemma_insert_names(
    old_cache: Seq<ContainerView>,
    new_cache: Seq<ContainerView>,
    cv: ContainerView,
    es: Seq<DockerPsEntryView>,
    k: int,
)
    requires
        0 <= k < es.len(),
        es[k].name == cv.name,
        monitored(es[k]),
        forall|x: Seq<char>| has_name(old_cache, x) <==> monitored_names(es.take(k)).contains(x),
        es.take(k + 1).drop_last() == es.take(k),
        es.take(k + 1).last() == es[k],
        has_name(old_cache, cv.name) ==> exists|i: int|
            0 <= i < old_cache.len() && old_cache[i].name == cv.name && new_cache == old_cache.update(
                i,
                cv,
            ),
        !has_name(old_cache, cv.name) ==> new_cache == old_cache.push(cv),
    ensures
        monitored_names(es.take(k + 1)) == monitored_names(es.take(k)).push(cv.name),
        forall|x: Seq<char>| has_name(new_cache, x) <==> monitored_names(es.take(k + 1)).contains(x),
{
    let m = monitored_names(es.take(k));
    assert(monitored_names(es.take(k + 1)) == m.push(cv.name));
    if has_name(old_cache, cv.name) {
        let i0 = choose|i: int|
            0 <= i < old_cache.len() && old_cache[i].name == cv.name && new_cache == old_cache.update(
                i,
                cv,
            );
        assert(names_of(new_cache) =~= names_of(old_cache));
        assert(m.contains(cv.name));
    } else {
        assert(names_of(new_cache) =~= names_of(old_cache).push(cv.name));
    }
    assert forall|x: Seq<char>| has_name(new_cache, x) <==> m.push(cv.name).contains(x) by {
        if has_name(old_cache, x) {
            let p = choose|p: int| 0 <= p < names_of(old_cache).len() && names_of(old_cache)[p] == x;
            if !has_name(old_cache, cv.name) {
                assert(names_of(new_cache)[p] == x);
            }
        }
        if x == cv.name && !has_name(old_cache, cv.name) {
            assert(names_of(new_cache)[old_cache.len() as int] == x);
        }
        if has_name(new_cache, x) && !has_name(old_cache, cv.name) && x != cv.name {
            let p = choose|p: int| 0 <= p < names_of(new_cache).len() && names_of(new_cache)[p] == x;
            assert(names_of(old_cache)[p] == x);
        }
        if m.contains(x) {
            let p = choose|p: int| 0 <= p < m.len() && m[p] == x;
            assert(m.push(cv.name)[p] == x);
        }
        if x == cv.name {
            assert(m.push(cv.name)[m.len() as int] == x);
        }
        if m.push(cv.name).contains(x) && x != cv.name {
            let p = choose|p: int| 0 <= p < m.len() + 1 && m.push(cv.name)[p] == x;
            assert(m[p] == x);
        }
    }
}

/// Tracking a container built from the listed container `k` keeps every tracked container
/// built from the last monitored listed container of its name.
proof fn lemma_insert_built(
    old_cache: Seq<ContainerView>,
    new_cache: Seq<ContainerView>,
    cv: ContainerView,
    es: Seq<DockerPsEntryView>,
    k: int,
    state: Seq<ContainerView>,
)
    requires
        0 <= k < es.len(),
        es[k].name == cv.name,
        labels_spec(es[k].labels) matches Some(lv) && built_from(cv, lv, state),
        names_of(old_cache).no_duplicates(),
        names_of(new_cache).no_duplicates(),
        forall|i: int| 0 <= i < old_cache.len() ==> built_from_listing(#[trigger] old_cache[i], es, k, state),
        has_name(old_cache, cv.name) ==> exists|i: int|
            0 <= i < old_cache.len() && old_cache[i].name == cv.name && new_cache == old_cache.update(
                i,
                cv,
            ),
        !has_name(old_cache, cv.name) ==> new_cache == old_cache.push(cv),
    ensures
        forall|i: int| 0 <= i < new_cache.len() ==> built_from_listing(#[trigger] new_cache[i], es, k + 1, state),
{
    assert(built_from_entry(cv, es, k, k + 1, state));
    assert forall|i: int| 0 <= i < new_cache.len() implies built_from_listing(
        #[trigger] new_cache[i],
        es,
        k + 1,
        state,
    ) by {
        if new_cache[i] == cv {
            assert(built_from_entry(new_cache[i], es, k, k + 1, state));
        } else {
            assert(i < old_cache.len());
            assert(new_cache[i] == old_cache[i]);
            assert(old_cache[i].name != cv.name) by {
                if old_cache[i].name == cv.name {
                    if has_name(old_cache, cv.name) {
                        let i0 = choose|i0: int|
                            0 <= i0 < old_cache.len() && old_cache[i0].name == cv.name && new_cache
                                == old_cache.update(i0, cv);
                        assert(names_of(old_cache)[i] == names_of(old_cache)[i0]);
                    } else {
                        assert(names_of(old_cache)[i] == cv.name);
                    }
                }
            }
            assert(built_from_listing(old_cache[i], es, k, state));
            let j = choose|j: int| #[trigger] built_from_entry(old_cache[i], es, j, k, state);
            assert(built_from_entry(new_cache[i], es, j, k + 1, state));
        }
    }
}

/// The arguments of the `docker inspect` call that reports the start time and health state
/// of the named containers. With no tracked container there is nothing to inspect.
pub fn inspect_arguments(container_names: &Vec<ContainerName>, containers: &RttCache) -> (res: Result<
    Vec<String>,
    ControllerError,
>)
    ensures
        containers@.len() == 0 <==> res is Err,
        res matches Err(e) ==> e is NoRTTLabelsDetected,
        res matches Ok(args) ==> args@.map_values(|a: String| a@) == seq![
            "inspect"@,
            "--format"@,
            "{{.Name}} {{.State.StartedAt}} {{if .State.Health}}{{.State.Health.Status}}{{else}}none{{end}}"@,
        ] + names_view(container_names@),
{
    if containers.is_empty() {
        return Err(ControllerError::NoRTTLabelsDetected);
    }
    let mut args: Vec<String> = Vec::new();
    args.push(String::from_str("inspect"));
    args.push(String::from_str("--format"));
    args.push(
        String::from_str(
            "{{.Name}} {{.State.StartedAt}} {{if .State.Health}}{{.State.Health.Status}}{{else}}none{{end}}",
        ),
    );
    let ghost head = args@.map_values(|a: String| a@);
    let mut k: usize = 0;
    while k < container_names.len()
        invariant
            k <= container_names.len(),
            args@.map_values(|a: String| a@) =~= head + names_view(container_names@).take(k as int),
        decreases container_names.len() - k,
    {
        let a = container_names[k].to_string();
        let ghost before = args@;
        args.push(a);
        assert(args@.map_values(|a: String| a@) =~= before.map_values(|a: String| a@).push(a@));
        assert(names_view(container_names@).take(k + 1) =~= names_view(container_names@).take(
            k as int,
        ).push(container_names@[k as int]@));
        k += 1;
    }
    assert(names_view(container_names@).take(container_names.len() as int) =~= names_view(
        container_names@,
    ));
    Ok(args)
}

/// Takes the output of `docker inspect`: for each line, the health state and start time of
/// the container it names. The first line that cannot be taken is the answer.
pub fn apply_inspect_output(output: &str, containers: RttCache) -> (res: Result<RttCache, ControllerError>)
    ensures
        match inspect_lines(containers@, lines(output@)) {
            Ok(s) => res matches Ok(c) && c@ == s && c.wf(),
            Err(f) => res matches Err(e) && e.as_inspect_failure() == Some(f),
        },
{
    proof {
        use_type_invariant(&containers);
    }
    let mut cache = containers;
    let ghost s0 = cache@;
    let v = chars_of(output);
    let ranges = lines_exec(&v);
    let ghost ls = lines(output@);
    let mut k: usize = 0;
    while k < ranges.len()
        invariant
            k <= ranges.len(),
            v@ == output@,
            s0 == containers@,
            ls == lines(output@),
            crate::text::ranges_within(v@, ranges@),
            ranges_view(v@, ranges@) == ls,
            cache.wf(),
            inspect_lines(s0, ls.take(k as int)) == Ok::<Seq<ContainerView>, InspectFailure>(
                cache@,
            ),
        decreases ranges.len() - k,
    {
        let (lo, hi) = ranges[k];
        let ghost line = v@.subrange(lo as int, hi as int);
        assert(ls[k as int] == line);
        assert(ls.take(k + 1).drop_last() =~= ls.take(k as int));
        assert(ls.take(k + 1).last() == line);
        if lo < hi {
            let start = trim_start_char_range(&v, lo, hi, '/');
            let part = crate::text::string_from_chars(&v, start, hi);
            let w = chars_of(part.as_str());
            let words = words_exec(&w);
            let ghost parts = words_from(trim_start_char(line, '/'), 0);
            assert(ranges_view(w@, words@) == parts);
            if words.len() < 3 {
                proof {
                    assert(inspect_line(cache@, line) == Err::<Seq<ContainerView>, InspectFailure>(InspectFailure::Format));
                    assert(inspect_lines(s0, ls.take(k + 1)) == Err::<Seq<ContainerView>, InspectFailure>(InspectFailure::Format));
                    lemma_inspect_prefix_fails(s0, ls, k as int, InspectFailure::Format);
                    assert(inspect_lines(containers@, lines(output@)) == Err::<Seq<ContainerView>, InspectFailure>(InspectFailure::Format));
                }
                return Err(ControllerError::IncorrectInspectFormat);
            }
            let (n0, n1) = words[0];
            let (t0, t1) = words[1];
            let (h0, h1) = words[2];
            assert(parts[0] == w@.subrange(n0 as int, n1 as int));
            assert(parts[1] == w@.subrange(t0 as int, t1 as int));
            assert(parts[2] == w@.subrange(h0 as int, h1 as int));
            let name = ContainerName::from_string(string_from_chars(&w, n0, n1));
            let i = match cache.find(&name) {
                Some(i) => i,
                None => {
                    proof {
                        lemma_inspect_prefix_fails(s0, ls, k as int, InspectFailure::Missing(name@));
                        assert(inspect_lines(containers@, lines(output@)) == Err::<Seq<ContainerView>, InspectFailure>(InspectFailure::Missing(name@)));
                    }
                    return Err(ControllerError::MissingContainer(name));
                },
            };
            let stamp_text = string_from_chars(&w, t0, t1);
            let stamp = match parse_rfc3339(stamp_text.as_str()) {
                Some(t) => t,
                None => {
                    proof {
                        lemma_inspect_prefix_fails(s0, ls, k as int, InspectFailure::Timestamp(name@));
                        assert(inspect_lines(containers@, lines(output@)) == Err::<Seq<ContainerView>, InspectFailure>(InspectFailure::Timestamp(name@)));
                    }
                    return Err(ControllerError::InvalidTimestamp(name));
                },
            };
            let health_text = string_from_chars(&w, h0, h1);
            proof {
                lemma_lookup(cache@, i as int);
            }
            cache.set_health_and_start_time(i, health_text.as_str(), stamp);
        }
        k += 1;
    }
    assert(ls.take(ranges.len() as int) =~= ls);
    Ok(cache)
}

/// Where the lines up to `k` leave the containers as they are and line `k` fails, all the
/// lines fail the same way.
proof fn lemma_inspect_prefix_fails(
    s0: Seq<ContainerView>,
    ls: Seq<Seq<char>>,
    k: int,
    f: InspectFailure,
)
    requires
        0 <= k < ls.len(),
        inspect_lines(s0, ls.take(k + 1)) == Err::<Seq<ContainerView>, InspectFailure>(f),
    ensures
        inspect_lines(s0, ls) == Err::<Seq<ContainerView>, InspectFailure>(f),
    decreases ls.len() - k,
{
    if k + 1 < ls.len() {
        assert(ls.take(k + 2).drop_last() =~= ls.take(k + 1));
        lemma_inspect_prefix_fails(s0, ls, k + 1, f);
    } else {
        assert(ls.take(k + 1) =~= ls);
    }
}

} // verus!
