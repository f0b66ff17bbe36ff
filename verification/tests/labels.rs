use restart_that_thang::controller::label_parser::{LabelError, RttLabels};

fn names(list: &[restart_that_thang::controller::container::ContainerName]) -> Vec<String> {
    list.iter().map(|n| n.to_string()).collect()
}

#[test]
fn labels_without_enable_are_not_monitored() {
    let labels = "com.docker.compose.project=media,rtt.watch.restarts=gluetun";
    assert!(RttLabels::parse(labels).unwrap().is_none());
}

#[test]
fn readme_gluetun_labels() {
    let labels = "rtt.enable=true,rtt.schedule.interval=150m,rtt.watch.unhealthy=invidious,invidious-companion";
    let parsed = RttLabels::parse(labels).unwrap().unwrap();
    assert!(parsed.watch_restarted.is_empty());
    assert_eq!(names(&parsed.watch_unhealthy), vec!["invidious", "invidious-companion"]);
    let interval = parsed.interval_time.unwrap();
    assert_eq!(interval.span().as_secs(), 150 * 60);
    assert_eq!(interval.span().subsec_nanos(), 0);
    assert!(parsed.daily_time.is_none());
}

#[test]
fn readme_invidious_labels() {
    let labels = "rtt.enable=true,rtt.watch.restarts=gluetun,rtt.schedule.interval=1h,com.docker.compose.service=invidious";
    let parsed = RttLabels::parse(labels).unwrap().unwrap();
    assert_eq!(names(&parsed.watch_restarted), vec!["gluetun"]);
    assert!(parsed.watch_unhealthy.is_empty());
    assert_eq!(parsed.interval_time.unwrap().span().as_secs(), 3600);
}

#[test]
fn long_form_labels_are_read() {
    let labels = "restart-that-thang.enable=true,restart-that-thang.watch.restarts=db,cache,restart-that-thang.schedule.time=23:00";
    let parsed = RttLabels::parse(labels).unwrap().unwrap();
    assert_eq!(names(&parsed.watch_restarted), vec!["db", "cache"]);
    let time = parsed.daily_time.unwrap().time();
    assert_eq!((time.hour(), time.minute(), time.second()), (23, 0, 0));
}

#[test]
fn watch_list_stops_at_next_label() {
    let got = RttLabels::parse_watch_restarted("a=b,rtt.watch.restarts=one,two,three,x=y,four");
    assert_eq!(names(&got), vec!["one", "two", "three"]);
    let none = RttLabels::parse_watch_unhealthy("rtt.enable=true");
    assert!(none.is_empty());
}

#[test]
fn interval_units() {
    let secs = |v: &str| {
        RttLabels::parse_schedule_interval(&format!("rtt.schedule.interval={v}"))
            .unwrap()
            .map(|i| i.span().as_secs())
    };
    assert_eq!(secs("2d"), Some(2 * 86400));
    assert_eq!(secs("3h"), Some(3 * 3600));
    assert_eq!(secs("45m"), Some(45 * 60));
    assert_eq!(secs("50s"), Some(50));
    assert_eq!(secs("2D"), Some(2 * 86400));
    assert_eq!(secs("+7s"), Some(7));
    assert_eq!(secs("10w"), None);
    assert_eq!(RttLabels::parse_schedule_interval("rtt.enable=true").unwrap().map(|i| i.span().as_secs()), None);
}

#[test]
fn interval_errors_by_unit() {
    let err = |v: &str| RttLabels::parse_schedule_interval(&format!("rtt.schedule.interval={v}")).unwrap_err();
    assert_eq!(err("xd"), LabelError::InvalidDays);
    assert_eq!(err("1.5h"), LabelError::InvalidHours);
    assert_eq!(err("m"), LabelError::InvalidMinutes);
    assert_eq!(err("-3s"), LabelError::InvalidSeconds);
}

#[test]
fn interval_overflow_is_detected() {
    assert!(RttLabels::interval_overflows("rtt.schedule.interval=213503982334602d"));
    assert!(!RttLabels::interval_overflows("rtt.schedule.interval=213503982334601d"));
    assert!(!RttLabels::interval_overflows("rtt.schedule.interval=18446744073709551615s"));
    assert!(!RttLabels::interval_overflows("rtt.enable=true"));
}

#[test]
fn daily_time_errors() {
    let err = RttLabels::parse_schedule_time("rtt.schedule.time=25:00").unwrap_err();
    assert_eq!(err, LabelError::InvalidTime);
    let parsed = RttLabels::parse("rtt.enable=true,rtt.schedule.time=noon").unwrap().unwrap();
    assert!(parsed.daily_time.is_none());
    let ok = RttLabels::parse_schedule_time("rtt.schedule.time=07:05").unwrap().unwrap();
    assert_eq!((ok.time().hour(), ok.time().minute()), (7, 5));
}

#[test]
fn both_schedules_can_be_set() {
    let labels = "rtt.enable=true,rtt.schedule.interval=30s,rtt.schedule.time=04:00";
    let parsed = RttLabels::parse(labels).unwrap().unwrap();
    assert_eq!(parsed.interval_time.unwrap().span().as_secs(), 30);
    assert_eq!(parsed.daily_time.unwrap().time().hour(), 4);
}

#[test]
fn label_errors_have_messages() {
    assert_eq!(LabelError::InvalidDays.message(), "Invalid format for days");
    assert!(LabelError::InvalidTime.message().contains("HH:MM"));
}

#[test]
fn unreadable_schedule_labels_keep_the_container_monitored() {
    let parsed = RttLabels::parse("rtt.enable=true,rtt.schedule.interval=xh").unwrap().unwrap();
    assert!(parsed.interval_time.is_none());
    assert!(parsed.daily_time.is_none());
    let parsed =
        RttLabels::parse("rtt.enable=true,rtt.schedule.interval=1.5h,rtt.schedule.time=04:30")
            .unwrap()
            .unwrap();
    assert!(parsed.interval_time.is_none());
    assert_eq!(parsed.daily_time.unwrap().time().hour(), 4);
}

#[test]
fn monitoring_is_enabled_by_either_form() {
    assert!(RttLabels::enables_monitoring("a=b,rtt.enable=true"));
    assert!(RttLabels::enables_monitoring("restart-that-thang.enable=true"));
    assert!(!RttLabels::enables_monitoring("rtt.enable=false"));
}
