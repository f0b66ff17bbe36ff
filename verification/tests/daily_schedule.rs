//! The daily schedule against a fixed clock in a fixed time zone: US Eastern time in 2025,
//! where daylight saving time starts on 9 March at 02:00 (the clock moves on to 03:00) and
//! ends on 2 November at 02:00 (the clock goes back to 01:00).

use chrono::{NaiveDate, NaiveDateTime};
use restart_that_thang::controller::schedule::daily::DayResolution;
use restart_that_thang::controller::schedule::ScheduleDaily;
use restart_that_thang::time::{Date, LocalResolution, TimeOfDay, Timestamp};

/// How a local date and time resolves in US Eastern time in 2025.
fn eastern(date: Date, time: TimeOfDay) -> LocalResolution {
    let day = NaiveDate::from_ymd_opt(date.year, date.month, date.day).unwrap();
    let local = day.and_hms_opt(time.hour(), time.minute(), time.second()).unwrap();
    let spring = NaiveDate::from_ymd_opt(2025, 3, 9).unwrap();
    let fall = NaiveDate::from_ymd_opt(2025, 11, 2).unwrap();
    let at = |d: NaiveDate, h: u32| d.and_hms_opt(h, 0, 0).unwrap();
    let utc_with_offset = |hours: i64| -> Timestamp {
        let utc: NaiveDateTime = local + chrono::TimeDelta::hours(hours);
        Timestamp { secs: utc.and_utc().timestamp(), nanos: 0 }
    };
    if local >= at(spring, 2) && local < at(spring, 3) {
        LocalResolution::Nonexistent
    } else if local >= at(fall, 1) && local < at(fall, 2) {
        // Listed as chrono's tz-info rules list a fold: the smaller offset (standard time),
        // which is the later instant, first.
        LocalResolution::Ambiguous(utc_with_offset(5), utc_with_offset(4))
    } else if local >= at(spring, 3) && local < at(fall, 1) {
        LocalResolution::Single(utc_with_offset(4))
    } else {
        LocalResolution::Single(utc_with_offset(5))
    }
}

/// The earliest instant of a local time.
fn earliest(resolution: LocalResolution) -> Timestamp {
    match resolution {
        LocalResolution::Single(t) => t,
        LocalResolution::Ambiguous(a, b) => {
            if b.secs < a.secs || (b.secs == a.secs && b.nanos < a.nanos) {
                b
            } else {
                a
            }
        }
        LocalResolution::Nonexistent => panic!("no such local time"),
    }
}

fn date(year: i32, month: u32, day: u32) -> Date {
    Date { year, month, day }
}

/// A clock that stands still at a local time.
struct MockClock {
    today: Date,
    now_utc: Timestamp,
}

impl MockClock {
    fn new(year: i32, month: u32, day: u32, hour: u32, min: u32) -> Self {
        let today = date(year, month, day);
        let now_utc = earliest(eastern(today, TimeOfDay::from_hms_opt(hour, min, 0).unwrap()));
        Self { today, now_utc }
    }
}

/// The next restart of `schedule` as the clock and the time zone above see it.
fn next_restart_time_impl(schedule: &ScheduleDaily, clock: &MockClock) -> Timestamp {
    schedule.next_restart_time_in(clock.today, clock.now_utc, eastern).unwrap()
}

/// The instant of a local date and time, the earliest one in a fold.
fn local(year: i32, month: u32, day: u32, hour: u32, min: u32) -> Timestamp {
    earliest(eastern(date(year, month, day), TimeOfDay::from_hms_opt(hour, min, 0).unwrap()))
}

fn daily(hour: u32, minute: u32) -> ScheduleDaily {
    ScheduleDaily::new(TimeOfDay::from_hms_opt(hour, minute, 0).unwrap())
}

#[test]
fn test_scheduled_for_today_time_is_in_future() {
    let clock = MockClock::new(2025, 1, 15, 10, 0);
    let schedule = daily(14, 0);
    let result = next_restart_time_impl(&schedule, &clock);
    assert_eq!(result, local(2025, 1, 15, 14, 0));
}

#[test]
fn test_scheduled_for_tomorrow_time_is_in_past() {
    let clock = MockClock::new(2025, 1, 15, 10, 0);
    let schedule = daily(9, 0);
    let result = next_restart_time_impl(&schedule, &clock);
    assert_eq!(result, local(2025, 1, 16, 9, 0));
}

#[test]
fn test_scheduled_for_tomorrow_time_is_now() {
    let clock = MockClock::new(2025, 1, 15, 12, 0);
    let schedule = daily(12, 0);
    let result = next_restart_time_impl(&schedule, &clock);
    assert_eq!(result, local(2025, 1, 16, 12, 0));
}

#[test]
fn test_scheduled_for_tomorrow_crossing_midnight() {
    let clock = MockClock::new(2025, 1, 15, 23, 0);
    let schedule = daily(1, 0);
    let result = next_restart_time_impl(&schedule, &clock);
    assert_eq!(result, local(2025, 1, 16, 1, 0));
}

#[test]
fn test_scheduled_for_tomorrow_crossing_new_month() {
    let clock = MockClock::new(2025, 11, 30, 23, 0);
    let schedule = daily(22, 0);
    let result = next_restart_time_impl(&schedule, &clock);
    assert_eq!(result, local(2025, 12, 1, 22, 0));
}

#[test]
fn test_scheduled_for_tomorrow_crossing_new_year() {
    let clock = MockClock::new(2025, 12, 31, 23, 0);
    let schedule = daily(22, 0);
    let result = next_restart_time_impl(&schedule, &clock);
    assert_eq!(result, local(2026, 1, 1, 22, 0));
}

// A scheduled time of 0130 should not be impacted by spring forward.
#[test]
fn test_ds_sf_0130_should_be_unaffected() {
    let clock = MockClock::new(2025, 3, 9, 0, 0);
    let schedule = daily(1, 30);
    let result = next_restart_time_impl(&schedule, &clock);
    assert_eq!(result, local(2025, 3, 9, 1, 30));
}

// A scheduled time of 0200, an hour which will not exist, should return a time of 0300.
#[test]
fn test_ds_sf_0200_should_be_0300() {
    let clock = MockClock::new(2025, 3, 9, 0, 0);
    let schedule = daily(2, 0);
    let result = next_restart_time_impl(&schedule, &clock);
    assert_eq!(result, local(2025, 3, 9, 3, 0));
}

// A scheduled time of 0230, an hour which will not exist, should return a time of 0300.
#[test]
fn test_ds_sf_0230_should_be_0300() {
    let clock = MockClock::new(2025, 3, 9, 0, 0);
    let schedule = daily(2, 30);
    let result = next_restart_time_impl(&schedule, &clock);
    assert_eq!(result, local(2025, 3, 9, 3, 0));
}

// A scheduled time of 0201, an hour which will not exist, should return a time of 0300.
#[test]
fn test_ds_sf_0201_should_be_0300() {
    let clock = MockClock::new(2025, 3, 9, 0, 0);
    let schedule = daily(2, 1);
    let result = next_restart_time_impl(&schedule, &clock);
    assert_eq!(result, local(2025, 3, 9, 3, 0));
}

// A scheduled time of 0259, an hour which will not exist, should return a time of 0300.
#[test]
fn test_ds_sf_0259_should_be_0300() {
    let clock = MockClock::new(2025, 3, 9, 0, 0);
    let schedule = daily(2, 59);
    let result = next_restart_time_impl(&schedule, &clock);
    assert_eq!(result, local(2025, 3, 9, 3, 0));
}

#[test]
fn test_ds_sf_0300_should_stay_0300() {
    let clock = MockClock::new(2025, 3, 9, 0, 0);
    let schedule = daily(3, 0);
    let result = next_restart_time_impl(&schedule, &clock);
    assert_eq!(result, local(2025, 3, 9, 3, 0));
}

#[test]
fn test_ds_sf_day_after_0300_should_be_0300_again() {
    let clock = MockClock::new(2025, 3, 10, 0, 0);
    let schedule = daily(3, 0);
    let result = next_restart_time_impl(&schedule, &clock);
    assert_eq!(result, local(2025, 3, 10, 3, 0));
}

#[test]
fn test_ds_fb_0130_is_first_occurring_0130() {
    let clock = MockClock::new(2025, 11, 2, 1, 20);
    let schedule = daily(1, 30);
    let result = next_restart_time_impl(&schedule, &clock);
    assert_eq!(result, local(2025, 11, 2, 1, 30));
}

#[test]
fn test_ds_fb_after_first_0130_returns_0130_tomorrow() {
    let clock = MockClock::new(2025, 11, 2, 1, 40);
    let schedule = daily(1, 30);
    let result = next_restart_time_impl(&schedule, &clock);
    assert_eq!(result, local(2025, 11, 3, 1, 30));
}

#[test]
fn next_whole_hour_wraps_past_midnight() {
    let schedule = daily(23, 30);
    let next = schedule.next_whole_hour();
    assert_eq!((next.hour(), next.minute(), next.second()), (0, 0, 0));
    let schedule = daily(2, 15);
    let next = schedule.next_whole_hour();
    assert_eq!((next.hour(), next.minute(), next.second()), (3, 0, 0));
}

#[test]
fn gap_without_a_single_next_hour_is_an_error() {
    let schedule = daily(2, 30);
    let now = Timestamp { secs: 0, nanos: 0 };
    let gap = DayResolution {
        scheduled: LocalResolution::Nonexistent,
        on_the_hour: LocalResolution::Nonexistent,
    };
    let res = schedule.next_restart_time_from(gap, None, now);
    assert!(res.is_err());
    let today = DayResolution {
        scheduled: LocalResolution::Single(Timestamp { secs: -5, nanos: 0 }),
        on_the_hour: LocalResolution::Nonexistent,
    };
    assert!(schedule.next_restart_time_from(today, None, now).is_err());
    assert_eq!(
        schedule.next_restart_time_from(today, Some(today), now),
        Ok(Timestamp { secs: -5, nanos: 0 })
    );
}

#[test]
fn the_current_clock_gives_a_time_ahead() {
    let schedule = daily(4, 0);
    let next = schedule.next_restart_time().unwrap();
    let now = chrono::Utc::now().timestamp();
    assert!(next.secs > now - 1);
    assert!(next.secs <= now + 2 * 86400);
}

#[test]
fn a_gap_the_next_hour_cannot_fill_is_an_error_naming_the_time() {
    let schedule = daily(2, 30);
    let nowhere = |_d: Date, _t: TimeOfDay| LocalResolution::Nonexistent;
    let err = schedule
        .next_restart_time_in(date(2025, 3, 9), Timestamp { secs: 0, nanos: 0 }, nowhere)
        .unwrap_err();
    assert_eq!(err.message(), "Failed to resolve scheduled time 02:30:00 to a valid local time");
}

#[test]
fn the_last_date_has_no_tomorrow() {
    let schedule = daily(9, 0);
    let utc = |d: Date, t: TimeOfDay| {
        let day = NaiveDate::from_ymd_opt(d.year, d.month, d.day).unwrap();
        let local = day.and_hms_opt(t.hour(), t.minute(), t.second()).unwrap();
        LocalResolution::Single(Timestamp { secs: local.and_utc().timestamp(), nanos: 0 })
    };
    let last = date(262142, 12, 31);
    let late = Timestamp { secs: 8210266876799, nanos: 0 };
    assert!(schedule.next_restart_time_in(last, late, utc).is_err());
    let early = Timestamp { secs: 8210266876799 - 86399, nanos: 0 };
    assert_eq!(
        schedule.next_restart_time_in(last, early, utc),
        Ok(Timestamp { secs: 8210266876799 - 86399 + 9 * 3600, nanos: 0 })
    );
}
