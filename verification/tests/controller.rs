use restart_that_thang::controller::cache::RttCache;
use restart_that_thang::controller::container::{Container, ContainerHealth, ContainerName};
use restart_that_thang::controller::fetch::{
    apply_inspect_output, build_rtt_containers, docker_ps_lines, inspect_arguments, DockerPsEntry,
};
use restart_that_thang::controller::restart::RestartCycle;
use restart_that_thang::controller::{rtt_containers_topo_sort, ControllerError};
use restart_that_thang::time::Timestamp;
use restart_that_thang::State;

fn entry(name: &str, labels: &str) -> DockerPsEntry {
    DockerPsEntry { name: name.to_string(), labels: labels.to_string() }
}

fn names(list: &[ContainerName]) -> Vec<String> {
    list.iter().map(|n| n.to_string()).collect()
}

fn container(name: &str, depends_on: &[&str], depends_on_healthy: &[&str]) -> Container {
    Container::new(
        ContainerName::new(name),
        depends_on.iter().map(|d| ContainerName::new(d)).collect(),
        depends_on_healthy.iter().map(|d| ContainerName::new(d)).collect(),
        None,
        None,
    )
}

fn cache_of(containers: Vec<Container>) -> RttCache {
    let mut cache = RttCache::new();
    for c in containers {
        cache.insert(c);
    }
    cache
}

fn at(secs: i64) -> Timestamp {
    Timestamp { secs, nanos: 0 }
}

#[test]
fn docker_ps_lines_split_and_trim() {
    let lines = docker_ps_lines("  {\"Names\":\"a\"} \r\n{\"Names\":\"b\"}\n").unwrap();
    assert_eq!(lines, vec!["{\"Names\":\"a\"}".to_string(), "{\"Names\":\"b\"}".to_string()]);
    assert!(matches!(docker_ps_lines(""), Err(ControllerError::NoContainersRunningOnHost)));
}

#[test]
fn only_labelled_containers_are_tracked() {
    let entries = vec![
        entry("web", "rtt.enable=true,rtt.watch.restarts=db"),
        entry("other", "com.example=1"),
        entry("db", "rtt.enable=true"),
    ];
    let (order, cache) = build_rtt_containers(&entries, &State::default()).unwrap();
    assert_eq!(names(&order), vec!["web", "db"]);
    assert_eq!(cache.len(), 2);
    let web = cache.get(&ContainerName::new("web")).unwrap();
    assert_eq!(names(&web.depends_on), vec!["db"]);
    assert_eq!(web.health, ContainerHealth::NoHealthcheck);
    assert!(web.start_time.is_none());
    assert!(web.next_restart_time.is_none());
    assert!(cache.get(&ContainerName::new("other")).is_none());
}

#[test]
fn no_labelled_container_is_an_error() {
    let entries = vec![entry("other", "com.example=1")];
    assert!(matches!(
        build_rtt_containers(&entries, &State::default()),
        Err(ControllerError::NoRTTLabelsDetected)
    ));
}

#[test]
fn scheduled_container_gets_a_next_restart_time() {
    let entries = vec![entry("web", "rtt.enable=true,rtt.schedule.interval=1h")];
    let before = chrono::Utc::now().timestamp();
    let (_, cache) = build_rtt_containers(&entries, &State::default()).unwrap();
    let next = cache.get(&ContainerName::new("web")).unwrap().next_restart_time.unwrap();
    assert!(next.secs >= before + 3600 && next.secs <= before + 3602);
}

#[test]
fn unchanged_schedule_keeps_its_next_restart_time() {
    let entries = vec![entry("web", "rtt.enable=true,rtt.schedule.interval=1h")];
    let (_, first) = build_rtt_containers(&entries, &State::default()).unwrap();
    let kept = first.get(&ContainerName::new("web")).unwrap().next_restart_time;
    let state = State { containers: first };
    let (_, second) = build_rtt_containers(&entries, &state).unwrap();
    assert_eq!(second.get(&ContainerName::new("web")).unwrap().next_restart_time, kept);

    let changed = vec![entry("web", "rtt.enable=true,rtt.schedule.interval=2h")];
    let (_, third) = build_rtt_containers(&changed, &state).unwrap();
    let next = third.get(&ContainerName::new("web")).unwrap().next_restart_time.unwrap();
    assert!(next.secs > kept.unwrap().secs + 3000);
}

#[test]
fn inspect_arguments_name_the_containers() {
    let cache = cache_of(vec![container("a", &[], &[])]);
    let args = inspect_arguments(&vec![ContainerName::new("a")], &cache).unwrap();
    assert_eq!(args[0], "inspect");
    assert_eq!(args[1], "--format");
    assert_eq!(args[3], "a");
    assert_eq!(args.len(), 4);
    assert!(matches!(
        inspect_arguments(&vec![], &RttCache::new()),
        Err(ControllerError::NoRTTLabelsDetected)
    ));
}

#[test]
fn inspect_output_sets_health_and_start_time() {
    let cache = cache_of(vec![container("web", &[], &[]), container("db", &[], &[])]);
    let output = "/web 2024-01-02T03:04:05.123456789Z healthy\n\n/db 2024-01-02T04:04:05+01:00 none\n";
    let cache = apply_inspect_output(output, cache).unwrap();
    let web = cache.get(&ContainerName::new("web")).unwrap();
    assert_eq!(web.health, ContainerHealth::Healthy);
    assert_eq!(web.start_time, Some(Timestamp { secs: 1704164645, nanos: 123456789 }));
    let db = cache.get(&ContainerName::new("db")).unwrap();
    assert_eq!(db.health, ContainerHealth::NoHealthcheck);
    assert_eq!(db.start_time, Some(Timestamp { secs: 1704164645, nanos: 0 }));
}

#[test]
fn inspect_output_errors() {
    let fresh = || cache_of(vec![container("web", &[], &[])]);
    assert!(matches!(
        apply_inspect_output("/web 2024-01-02T03:04:05Z\n", fresh()),
        Err(ControllerError::IncorrectInspectFormat)
    ));
    match apply_inspect_output("/ghost 2024-01-02T03:04:05Z healthy\n", fresh()) {
        Err(ControllerError::MissingContainer(name)) => assert_eq!(name.as_str(), "ghost"),
        other => panic!("unexpected {other:?}"),
    }
    match apply_inspect_output("/web yesterday healthy\n", fresh()) {
        Err(ControllerError::InvalidTimestamp(name)) => assert_eq!(name.as_str(), "web"),
        other => panic!("unexpected {other:?}"),
    }
}

#[test]
fn topo_sort_puts_dependencies_first() {
    let cache = cache_of(vec![
        container("app", &["db", "missing"], &[]),
        container("db", &["vpn"], &[]),
        container("vpn", &[], &[]),
    ]);
    let order = names(&rtt_containers_topo_sort(&cache).unwrap());
    assert_eq!(order.len(), 3);
    let pos = |n: &str| order.iter().position(|x| x == n).unwrap();
    assert!(pos("vpn") < pos("db"));
    assert!(pos("db") < pos("app"));
}

#[test]
fn topo_sort_reports_cycles() {
    let cache = cache_of(vec![container("a", &["b"], &[]), container("b", &["a"], &[])]);
    match rtt_containers_topo_sort(&cache) {
        Err(ControllerError::CircularDependency(name)) => {
            assert!(name.as_str() == "a" || name.as_str() == "b")
        }
        other => panic!("unexpected {other:?}"),
    }
    let cache = cache_of(vec![container("self", &["self"], &[])]);
    assert!(matches!(
        rtt_containers_topo_sort(&cache),
        Err(ControllerError::CircularDependency(_))
    ));
}

fn run_cycle(cache: RttCache, order: &[&str], now: Timestamp) -> Vec<String> {
    let order: Vec<ContainerName> = order.iter().map(|n| ContainerName::new(n)).collect();
    let mut cycle = RestartCycle::new(cache, order);
    let mut restarted = vec![];
    while let Some(name) = cycle.next_restart_at(now) {
        restarted.push(name.to_string());
        cycle.record_restart(true).unwrap();
    }
    restarted
}

#[test]
fn newer_dependency_and_cascade_restart() {
    let mut vpn = container("vpn", &[], &[]);
    vpn.start_time = Some(at(200));
    let mut app = container("app", &["vpn"], &[]);
    app.start_time = Some(at(100));
    let mut web = container("web", &["app"], &[]);
    web.start_time = Some(at(300));
    let cache = cache_of(vec![vpn, app, web]);
    assert_eq!(run_cycle(cache, &["vpn", "app", "web"], at(1000)), vec!["app", "web"]);
}

#[test]
fn unhealthy_watched_container_restarts_watcher() {
    let mut db = container("db", &[], &[]);
    db.health = ContainerHealth::UnHealthy;
    let api = container("api", &[], &["db"]);
    let idle = container("idle", &[], &["missing"]);
    let cache = cache_of(vec![db, api, idle]);
    assert_eq!(run_cycle(cache, &["db", "api", "idle"], at(0)), vec!["api"]);
}

#[test]
fn scheduled_restart_is_due_at_its_time() {
    let mut job = container("job", &[], &[]);
    job.next_restart_time = Some(at(500));
    let cache = cache_of(vec![job]);
    assert!(run_cycle(cache, &["job"], at(499)).is_empty());
    let mut job = container("job", &[], &[]);
    job.next_restart_time = Some(at(500));
    let cache = cache_of(vec![job]);
    assert_eq!(run_cycle(cache, &["job"], at(500)), vec!["job"]);
}

#[test]
fn failed_restart_does_not_cascade() {
    let mut vpn = container("vpn", &[], &[]);
    vpn.next_restart_time = Some(at(0));
    let app = container("app", &["vpn"], &[]);
    let cache = cache_of(vec![vpn, app]);
    let order = vec![ContainerName::new("vpn"), ContainerName::new("app")];
    let mut cycle = RestartCycle::new(cache, order);
    let first = cycle.next_restart_at(at(10)).unwrap();
    assert_eq!(first.as_str(), "vpn");
    cycle.record_restart(false).unwrap();
    assert!(cycle.next_restart_at(at(10)).is_none());
    let cache = cycle.finish();
    assert_eq!(cache.get(&ContainerName::new("vpn")).unwrap().next_restart_time, Some(at(0)));
}

#[test]
fn duplicated_order_restarts_once() {
    let mut job = container("job", &[], &[]);
    job.next_restart_time = Some(at(0));
    let cache = cache_of(vec![job]);
    assert_eq!(run_cycle(cache, &["job", "job"], at(10)), vec!["job"]);
}

#[test]
fn controller_errors_have_messages() {
    assert_eq!(
        ControllerError::CircularDependency(ContainerName::new("a")).message(),
        "Circular dependency detected at a"
    );
    assert_eq!(
        ControllerError::NoContainersRunningOnHost.message(),
        "No containers running on host machine"
    );
}

#[test]
fn controller_errors_name_the_container() {
    assert_eq!(
        ControllerError::MissingContainer(ContainerName::new("web")).message(),
        "Failed to get container web from hashmap"
    );
    assert_eq!(
        ControllerError::InvalidTimestamp(ContainerName::new("db")).message(),
        "Failed to parse timestamp for db"
    );
}

#[test]
fn container_name_as_ref_gives_the_text() {
    let name = ContainerName::new("proxy");
    let text: &str = name.as_ref();
    assert_eq!(text, "proxy");
}

#[test]
fn unreadable_schedule_keeps_the_container_and_unmonitored_overflow_is_ignored() {
    let entries = vec![
        entry("web", "rtt.enable=true,rtt.schedule.interval=xh"),
        entry("big", "rtt.schedule.interval=999999999999999999d"),
    ];
    let (order, cache) = build_rtt_containers(&entries, &State::default()).unwrap();
    assert_eq!(names(&order), vec!["web"]);
    let web = cache.get(&ContainerName::new("web")).unwrap();
    assert!(web.restart_schedule.is_none());
    assert!(web.next_restart_time.is_none());
}

#[test]
fn a_name_from_a_string_equals_the_name_of_its_text() {
    assert!(ContainerName::from("web".to_string()) == ContainerName::new("web"));
    assert!(ContainerName::from_string("db".to_string()) == ContainerName::new("db"));
    assert_eq!(ContainerName::new("web").to_string(), "web");
}
