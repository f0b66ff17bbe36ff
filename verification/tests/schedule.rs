use restart_that_thang::controller::basic_schedule::{self, DailyTime, IntervalTime};
use restart_that_thang::controller::schedule::{
    combine_next_exec, RestartSchedule, ScheduleError, ScheduleInterval,
};
use restart_that_thang::controller::schedule::ScheduleDaily;
use restart_that_thang::time::{Date, LocalResolution, Span, TimeOfDay, Timestamp};

fn at(secs: i64, nanos: u32) -> Timestamp {
    Timestamp { secs, nanos }
}

#[test]
fn interval_next_restart_adds_the_span() {
    let interval = ScheduleInterval::from_secs(90);
    assert_eq!(interval.next_restart_time_from(at(1000, 5)).unwrap(), at(1090, 5));
    let with_nanos = ScheduleInterval::new(Span::new(1, 1_500_000_000));
    assert_eq!(with_nanos.span().as_secs(), 2);
    assert_eq!(with_nanos.next_restart_time_from(at(0, 600_000_000)).unwrap(), at(3, 100_000_000));
    let huge = ScheduleInterval::from_secs(u64::MAX);
    assert_eq!(huge.next_restart_time_from(at(0, 0)), Err(ScheduleError::IntervalOutOfRange));
}

#[test]
fn interval_time_matches_schedule_interval() {
    let interval = IntervalTime::from_secs(60);
    assert_eq!(interval.span().as_secs(), 60);
    assert_eq!(interval.next_restart_time_from(at(40, 0)).unwrap(), at(100, 0));
}

#[test]
fn schedule_needs_a_part() {
    assert!(RestartSchedule::new(None, None).is_none());
    let s = RestartSchedule::new(Some(ScheduleInterval::from_secs(5)), None).unwrap();
    assert!(s.interval().is_some());
    assert!(s.daily_at().is_none());
    assert!(basic_schedule::RestartSchedule::new(None, None).is_none());
}

#[test]
fn schedule_with_both_parts_takes_the_earlier() {
    let daily = restart_that_thang::controller::schedule::ScheduleDaily::new(
        TimeOfDay::from_hms_opt(0, 0, 0).unwrap(),
    );
    let s = RestartSchedule::new(Some(ScheduleInterval::from_secs(10)), Some(daily)).unwrap();
    let before = chrono::Utc::now().timestamp();
    let next = s.calc_next_restart_time().unwrap().unwrap();
    assert!(next.secs <= before + 11);
}

#[test]
fn combine_takes_earliest() {
    assert_eq!(combine_next_exec(Some(at(5, 0)), Some(at(3, 0))), Some(at(3, 0)));
    assert_eq!(combine_next_exec(Some(at(3, 1)), Some(at(3, 2))), Some(at(3, 1)));
    assert_eq!(combine_next_exec(None, Some(at(7, 0))), Some(at(7, 0)));
    assert_eq!(combine_next_exec(None, None), None);
}

#[test]
fn daily_time_without_fallback() {
    let daily = DailyTime::new(TimeOfDay::from_hms_opt(2, 30, 0).unwrap());
    assert_eq!(
        daily.next_restart_time_from(LocalResolution::Nonexistent, at(0, 0)),
        Err(ScheduleError::UnresolvableLocalTime(TimeOfDay::from_hms_opt(2, 30, 0).unwrap()))
    );
    assert_eq!(
        daily.next_restart_time_from(LocalResolution::Single(at(100, 0)), at(50, 0)),
        Ok(at(100, 0))
    );
    assert_eq!(
        daily.next_restart_time_from(LocalResolution::Ambiguous(at(100, 0), at(3700, 0)), at(100, 0)),
        Ok(at(86500, 0))
    );
    assert_eq!(
        daily.next_restart_time_from(LocalResolution::Ambiguous(at(3700, 0), at(100, 0)), at(50, 0)),
        Ok(at(100, 0))
    );
}

#[test]
fn time_of_day_bounds() {
    assert!(TimeOfDay::from_hms_opt(24, 0, 0).is_none());
    assert!(TimeOfDay::from_hms_opt(23, 60, 0).is_none());
    assert!(TimeOfDay::from_hms_opt(23, 59, 59).is_some());
    let t = TimeOfDay::from_hms_opt(23, 30, 15).unwrap().wrapping_add_minutes(45);
    assert_eq!((t.hour(), t.minute(), t.second()), (0, 15, 15));
}

#[test]
fn schedule_errors_have_messages() {
    assert_eq!(ScheduleError::IntervalOutOfRange.message(), "Duration conversion failed");
    assert_eq!(
        ScheduleError::UnresolvableLocalTime(TimeOfDay::from_hms_opt(7, 5, 9).unwrap()).message(),
        "Failed to resolve scheduled time 07:05:09 to a valid local time"
    );
}

#[test]
fn interval_reaches_the_last_instant_chrono_represents() {
    let last: i64 = 8210266876799;
    let first: i64 = -8334601228800;
    let five = ScheduleInterval::from_secs(5);
    assert_eq!(five.next_restart_time_from(at(last - 5, 999_999_999)).unwrap(), at(last, 999_999_999));
    assert_eq!(five.next_restart_time_from(at(last - 4, 0)), Err(ScheduleError::IntervalOutOfRange));
    assert_eq!(five.next_restart_time_from(at(first, 0)).unwrap(), at(first + 5, 0));
    assert_eq!(five.next_restart_time_from(at(first - 1, 0)), Err(ScheduleError::IntervalOutOfRange));
}

#[test]
fn schedule_at_an_instant_combines_its_parts() {
    // A time zone at UTC: local midnight of 1970-01-02 is 86400.
    let utc = |d: Date, t: TimeOfDay| {
        let day = chrono::NaiveDate::from_ymd_opt(d.year, d.month, d.day).unwrap();
        let local = day.and_hms_opt(t.hour(), t.minute(), t.second()).unwrap();
        LocalResolution::Single(Timestamp { secs: local.and_utc().timestamp(), nanos: 0 })
    };
    let today = Date { year: 1970, month: 1, day: 2 };
    let nine = ScheduleDaily::new(TimeOfDay::from_hms_opt(9, 0, 0).unwrap());
    let both = RestartSchedule::new(Some(ScheduleInterval::from_secs(60)), Some(nine)).unwrap();
    assert_eq!(both.calc_next_restart_time_at(today, at(86400, 0), utc), Ok(Some(at(86460, 0))));
    assert_eq!(
        both.calc_next_restart_time_at(today, at(86400 + 9 * 3600 - 30, 0), utc),
        Ok(Some(at(86400 + 9 * 3600, 0)))
    );
    let huge = RestartSchedule::new(Some(ScheduleInterval::from_secs(u64::MAX)), Some(nine)).unwrap();
    assert_eq!(
        huge.calc_next_restart_time_at(today, at(86400, 0), utc),
        Err(ScheduleError::IntervalOutOfRange)
    );
    let daily_only = RestartSchedule::new(None, Some(nine)).unwrap();
    assert_eq!(
        daily_only.calc_next_restart_time_at(today, at(86400 + 10 * 3600, 0), utc),
        Ok(Some(at(2 * 86400 + 9 * 3600, 0)))
    );
}

#[test]
fn from_secs_is_the_span_of_those_seconds() {
    assert_eq!(ScheduleInterval::from_secs(3600), ScheduleInterval::new(Span::from_secs(3600)));
    assert_eq!(IntervalTime::from_secs(9000), IntervalTime::new(Span::from_secs(9000)));
}
