//! The controller: which containers to watch, what docker reports of them, in which order
//! to look at them, and which of them to restart.

use vstd::prelude::*;

pub mod basic_schedule;
pub mod cache;
pub mod container;
pub mod fetch;
pub mod graph;
pub mod label_parser;
pub mod restart;
pub mod schedule;

use cache::{has_name, lemma_lookup, lookup, names_of, RttCache};
use container::{ContainerName, ContainerView};
use graph::{
    graph_add_edge, graph_add_node, graph_edges, graph_new, graph_nodes, graph_toposort, is_path,
    on_cycle,
};
use label_parser::names_view;

verus! {

/// Why a cycle of the controller stopped.
#[derive(Debug)]
pub enum ControllerError {
    /// `docker ps` listed no container.
    NoContainersRunningOnHost,
    /// No listed container carries the label that enables monitoring.
    NoRTTLabelsDetected,
    /// The watched restarts of the monitored containers form a cycle through this container.
    CircularDependency(ContainerName),
    /// The next restart time of a monitored container could not be worked out.
    Schedule(schedule::ScheduleError),
    /// A line of `docker inspect` output does not hold a name, a start time and a health state.
    IncorrectInspectFormat,
    /// `docker inspect` reported a container that is not tracked.
    MissingContainer(ContainerName),
    /// `docker inspect` reported a start time that is not an RFC 3339 date and time.
    InvalidTimestamp(ContainerName),
}

/// The words that tell what went wrong for each error of a cycle.
pub open spec fn controller_error_text(e: ControllerError) -> Seq<char> {
    match e {
        ControllerError::NoContainersRunningOnHost => "No containers running on host machine"@,
        ControllerError::NoRTTLabelsDetected =>
            "No containers with restart-that-thang labels running on host machine"@,
        ControllerError::CircularDependency(name) => "Circular dependency detected at "@ + name@,
        ControllerError::Schedule(e) => schedule::schedule_error_text(e),
        ControllerError::IncorrectInspectFormat => "Incorrect string format from inspect result"@,
        ControllerError::MissingContainer(name) => "Failed to get container "@ + name@
            + " from hashmap"@,
        ControllerError::InvalidTimestamp(name) => "Failed to parse timestamp for "@ + name@,
    }
}

impl ControllerError {
    /// What went wrong, in words.
    pub fn message(&self) -> (res: String)
        ensures
            res@ == controller_error_text(*self),
    {
        match self {
            ControllerError::NoContainersRunningOnHost => String::from_str(
                "No containers running on host machine",
            ),
            ControllerError::NoRTTLabelsDetected => String::from_str(
                "No containers with restart-that-thang labels running on host machine",
            ),
            ControllerError::CircularDependency(name) => {
                let mut m = String::from_str("Circular dependency detected at ");
                m.append(name.as_str());
                m
            },
            ControllerError::Schedule(e) => e.message(),
            ControllerError::IncorrectInspectFormat => String::from_str(
                "Incorrect string format from inspect result",
            ),
            ControllerError::MissingContainer(name) => {
                let mut m = String::from_str("Failed to get container ");
                m.append(name.as_str());
                m.append(" from hashmap");
                m
            },
            ControllerError::InvalidTimestamp(name) => {
                let mut m = String::from_str("Failed to parse timestamp for ");
                m.append(name.as_str());
                m
            },
        }
    }
}

// ---------------------------------------------------------------------------------------
// The order in which containers are looked at
// ---------------------------------------------------------------------------------------

/// The tracked container `dependent` watches the restarts of the tracked container
/// `dependency`.
pub open spec fn depends_on_name(
    s: Seq<ContainerView>,
    dependent: Seq<char>,
    dependency: Seq<char>,
) -> bool {
    &&& has_name(s, dependent)
    &&& has_name(s, dependency)
    &&& lookup(s, dependent).depends_on.contains(dependency)
}

/// Each name in `path` is a tracked container that the next one watches.
pub open spec fn is_dependency_path(s: Seq<ContainerView>, path: Seq<Seq<char>>) -> bool {
    forall|k: int| 0 <= k < path.len() - 1 ==> depends_on_name(s, path[k + 1], #[trigger] path[k])
}

/// Watched restarts lead from the container `name` back to itself.
pub open spec fn dependency_cycle_through(s: Seq<ContainerView>, name: Seq<char>) -> bool {
    exists|path: Seq<Seq<char>>|
        path.len() >= 2 && path[0] == name && path.last() == name && #[trigger] is_dependency_path(
            s,
            path,
        )
}

/// `order` lists every tracked container once, and each watched container before the
/// containers that watch it.
pub open spec fn is_dependency_order(s: Seq<ContainerView>, order: Seq<Seq<char>>) -> bool {
    &&& order.no_duplicates()
    &&& forall|x: Seq<char>| order.contains(x) <==> has_name(s, x)
    &&& forall|p: int, q: int|
        0 <= p < order.len() && 0 <= q < order.len() && depends_on_name(s, order[q], order[p])
            ==> p < q
}

/// The edge from position `e.0` to position `e.1`: the container at `e.1` watches the one at
/// `e.0`.
pub open spec fn is_dependency_edge(s: Seq<ContainerView>, e: (usize, usize)) -> bool {
    e.0 < s.len() && e.1 < s.len() && s[e.1 as int].depends_on.contains(s[e.0 as int].name)
}

/// Sort monitored containers based on their restart based dependencies: every monitored
/// container once, each watched container before the containers that watch it. A watched
/// container that is not monitored is left out of the ordering. A cycle of watched restarts
/// is reported by a container on it.
pub fn rtt_containers_topo_sort(containers: &RttCache) -> (res: Result<Vec<ContainerName>, ControllerError>)
    ensures
        res matches Ok(sorted) ==> is_dependency_order(containers@, names_view(sorted@)),
        res matches Err(e) ==> e matches ControllerError::CircularDependency(name) && has_name(
            containers@,
            name@,
        ) && dependency_cycle_through(containers@, name@),
{
    proof {
        use_type_invariant(containers);
    }
    let ghost s = containers@;
    let n = containers.len();
    let mut graph = graph_new();
    let mut i: usize = 0;
    while i < n
        invariant
            i <= n == s.len(),
            graph_nodes(graph) == Set::new(|x: usize| x < i),
            graph_edges(graph) == Set::<(usize, usize)>::empty(),
        decreases n - i,
    {
        graph_add_node(&mut graph, i);
        assert(graph_nodes(graph) =~= Set::new(|x: usize| x < i + 1));
        i += 1;
    }
    i = 0;
    while i < n
        invariant
            i <= n == s.len(),
            s == containers@,
            containers.wf(),
            graph_nodes(graph) == Set::new(|x: usize| x < n),
            graph_edges(graph) == Set::new(
                |e: (usize, usize)| is_dependency_edge(s, e) && e.1 < i,
            ),
        decreases n - i,
    {
        let c = containers.entry(i);
        let mut k: usize = 0;
        while k < c.depends_on.len()
            invariant
                i < n == s.len(),
                k <= c.depends_on.len(),
                s == containers@,
                containers.wf(),
                c@ == s[i as int],
                graph_nodes(graph) == Set::new(|x: usize| x < n),
                graph_edges(graph) == Set::new(
                    |e: (usize, usize)|
                        is_dependency_edge(s, e) && (e.1 < i || (e.1 == i && s[i as int].depends_on.take(
                            k as int,
                        ).contains(s[e.0 as int].name))),
                ),
            decreases c.depends_on.len() - k,
        {
            let ghost dep = c@.depends_on[k as int];
            proof {
                lemma_take_one_more(c@.depends_on, k as int);
            }
            match containers.find(&c.depends_on[k]) {
                Some(j) => {
                    graph_add_edge(&mut graph, j, i);
                    proof {
                        lemma_lookup(s, j as int);
                        assert forall|x: usize| #[trigger] graph_nodes(graph).contains(x) <==> x < n by {}
                        assert(graph_nodes(graph) =~= Set::new(|x: usize| x < n));
                        assert forall|e: (usize, usize)|
                            #[trigger] graph_edges(graph).contains(e) <==> (is_dependency_edge(s, e) && (
                            e.1 < i || (e.1 == i && s[i as int].depends_on.take(k + 1).contains(
                                s[e.0 as int].name,
                            )))) by {
                            if e.0 < n && s[e.0 as int].name == dep {
                                assert(names_of(s)[e.0 as int] == names_of(s)[j as int]);
                            }
                        }
                        assert(graph_edges(graph) =~= Set::new(
                            |e: (usize, usize)|
                                is_dependency_edge(s, e) && (e.1 < i || (e.1 == i && s[i as int].depends_on.take(
                                    k + 1,
                                ).contains(s[e.0 as int].name))),
                        ));
                    }
                },
                None => {
                    proof {
                        assert forall|e: (usize, usize)|
                            #[trigger] graph_edges(graph).contains(e) <==> (is_dependency_edge(s, e) && (
                            e.1 < i || (e.1 == i && s[i as int].depends_on.take(k + 1).contains(
                                s[e.0 as int].name,
                            )))) by {
                            if e.0 < n && s[e.0 as int].name == dep {
                                assert(names_of(s)[e.0 as int] == dep);
                            }
                        }
                        assert(graph_edges(graph) =~= Set::new(
                            |e: (usize, usize)|
                                is_dependency_edge(s, e) && (e.1 < i || (e.1 == i && s[i as int].depends_on.take(
                                    k + 1,
                                ).contains(s[e.0 as int].name))),
                        ));
                    }
                },
            }
            k += 1;
        }
        proof {
            assert(s[i as int].depends_on.take(k as int) =~= s[i as int].depends_on);
            assert(graph_edges(graph) =~= Set::new(
                |e: (usize, usize)| is_dependency_edge(s, e) && e.1 < i + 1,
            ));
        }
        i += 1;
    }
    assert(graph_edges(graph) =~= Set::new(|e: (usize, usize)| is_dependency_edge(s, e)));
    match graph_toposort(&graph) {
        Ok(order) => {
            let mut sorted: Vec<ContainerName> = Vec::new();
            let mut p: usize = 0;
            while p < order.len()
                invariant
                    p <= order.len(),
                    s == containers@,
                    n == s.len(),
                    forall|x: usize| order@.contains(x) <==> x < n,
                    names_view(sorted@) =~= order@.take(p as int).map_values(
                        |j: usize| s[j as int].name,
                    ),
                decreases order.len() - p,
            {
                let j = order[p];
                assert(order@.contains(j));
                let name = containers.entry(j).name.clone();
                let ghost before = sorted@;
                sorted.push(name);
                assert(names_view(sorted@) =~= names_view(before).push(name@));
                assert(order@.take(p + 1) =~= order@.take(p as int).push(j));
                p += 1;
            }
            proof {
                assert(order@.take(order.len() as int) =~= order@);
                lemma_order_names(s, order@, names_view(sorted@));
            }
            Ok(sorted)
        },
        Err(j) => {
            let name = containers.entry(j).name.clone();
            proof {
                lemma_cycle_names(s, j);
            }
            Err(ControllerError::CircularDependency(name))
        },
    }
}

/// A prefix one longer holds what the shorter one holds and the next element.
pub proof fn lemma_take_one_more<A>(s: Seq<A>, k: int)
    requires
        0 <= k < s.len(),
    ensures
        forall|x: A| #[trigger] s.take(k + 1).contains(x) <==> (s.take(k).contains(x) || s[k] == x),
{
    assert forall|x: A| #[trigger] s.take(k + 1).contains(x) <==> (s.take(k).contains(x) || s[k]
        == x) by {
        if s.take(k).contains(x) {
            let idx = choose|idx: int| 0 <= idx < k && #[trigger] s.take(k)[idx] == x;
            assert(s.take(k + 1)[idx] == x);
        }
        if s[k] == x {
            assert(s.take(k + 1)[k] == x);
        }
        if s.take(k + 1).contains(x) && s[k] != x {
            let idx = choose|idx: int| 0 <= idx < k + 1 && #[trigger] s.take(k + 1)[idx] == x;
            assert(s.take(k)[idx] == x);
        }
    }
}

/// The names at the positions of a topological order of the dependency edges form a
/// dependency order.
proof fn lemma_order_names(s: Seq<ContainerView>, order: Seq<usize>, out: Seq<Seq<char>>)
    requires
        names_of(s).no_duplicates(),
        s.len() <= usize::MAX,
        graph::is_topological_order(
            order,
            Set::new(|x: usize| x < s.len()),
            Set::new(|e: (usize, usize)| is_dependency_edge(s, e)),
        ),
        out == order.map_values(|j: usize| s[j as int].name),
    ensures
        is_dependency_order(s, out),
{
    assert forall|p: int, q: int| 0 <= p < out.len() && 0 <= q < out.len() && out[p] == out[q]
        implies p == q by {
        assert(order.contains(order[p]) && order.contains(order[q]));
        assert(names_of(s)[order[p] as int] == names_of(s)[order[q] as int]);
    }
    assert forall|x: Seq<char>| out.contains(x) <==> has_name(s, x) by {
        if out.contains(x) {
            let p = choose|p: int| 0 <= p < out.len() && out[p] == x;
            assert(order.contains(order[p]));
            assert(names_of(s)[order[p] as int] == x);
        }
        if has_name(s, x) {
            let j = choose|j: int| 0 <= j < names_of(s).len() && names_of(s)[j] == x;
            assert(Set::new(|y: usize| y < s.len()).contains(j as usize));
            assert(order.contains(j as usize));
            let p = choose|p: int| 0 <= p < order.len() && order[p] == j as usize;
            assert(out[p] == s[order[p] as int].name);
            assert(names_of(s)[j] == s[j].name);
            assert(out[p] == x);
        }
    }
    assert forall|p: int, q: int|
        0 <= p < out.len() && 0 <= q < out.len() && depends_on_name(s, out[q], out[p]) implies p
        < q by {
        assert(order.contains(order[p]) && order.contains(order[q]));
        lemma_lookup(s, order[q] as int);
        assert(is_dependency_edge(s, (order[p], order[q])));
        assert(Set::new(|e: (usize, usize)| is_dependency_edge(s, e)).contains((order[p], order[q])));
    }
}

/// A node on a cycle of dependency edges names a container on a cycle of watched restarts.
proof fn lemma_cycle_names(s: Seq<ContainerView>, j: usize)
    requires
        names_of(s).no_duplicates(),
        Set::new(|x: usize| x < s.len()).contains(j),
        on_cycle(j, Set::new(|e: (usize, usize)| is_dependency_edge(s, e))),
    ensures
        j < s.len(),
        has_name(s, s[j as int].name),
        dependency_cycle_through(s, s[j as int].name),
{
    let edges = Set::new(|e: (usize, usize)| is_dependency_edge(s, e));
    let path = choose|path: Seq<usize>|
        path.len() >= 2 && path[0] == j && path.last() == j && #[trigger] is_path(path, edges);
    let names = path.map_values(|x: usize| s[x as int].name);
    lemma_lookup(s, j as int);
    assert forall|k: int| 0 <= k < names.len() - 1 implies depends_on_name(
        s,
        names[k + 1],
        #[trigger] names[k],
    ) by {
        assert(edges.contains((path[k], path[k + 1])));
        lemma_lookup(s, path[k] as int);
        lemma_lookup(s, path[k + 1] as int);
    }
    assert(is_dependency_path(s, names));
    assert(names[0] == s[j as int].name);
    assert(names.last() == s[j as int].name);
}

} // verus!
