//! Reading the restart labels of a container.
//!
//! Docker prints a container's labels as one comma-separated list of `key=value` entries.
//! A label of this controller is written in a short form, with the prefix `rtt.`, or in a
//! long form, with the prefix `restart-that-thang.`.

use crate::controller::container::ContainerName;
use crate::controller::schedule::{ScheduleDaily, ScheduleInterval};
use crate::text::{
    chars_of, concat_all, lower_char, concat_ranges, find_from_exec, lower, lower_range, parse_u64_exec,
    parse_u64_spec, pieces_before_assignment, pieces_before_assignment_exec, ranges_view,
    ranges_within, second_piece, second_piece_exec, string_from_chars, contains_pattern,
};
use crate::time::{hour_minute_time, parse_hour_minute, Span};
use vstd::prelude::*;

verus! {

/// Why the restart labels of a container could not be read.
#[derive(Debug, Clone, Copy, PartialEq, Eq, Structural)]
pub enum LabelError {
    /// The count of an interval in days is not a number.
    InvalidDays,
    /// The count of an interval in hours is not a number.
    InvalidHours,
    /// The count of an interval in minutes is not a number.
    InvalidMinutes,
    /// The count of an interval in seconds is not a number.
    InvalidSeconds,
    /// The daily time is not in the form `HH:MM`.
    InvalidTime,
}

/// The words that tell what went wrong for each error of the labels.
pub open spec fn label_error_text(e: LabelError) -> Seq<char> {
    match e {
        LabelError::InvalidDays => "Invalid format for days"@,
        LabelError::InvalidHours => "Invalid format for hours"@,
        LabelError::InvalidMinutes => "Invalid format for minutes"@,
        LabelError::InvalidSeconds => "Invalid format for seconds"@,
        LabelError::InvalidTime => "Invalid time format. Use HH:MM format -> '23:00'"@,
    }
}

impl LabelError {
    /// What went wrong, in words.
    pub fn message(&self) -> (res: &'static str)
        ensures
            res@ == label_error_text(*self),
    {
        match self {
            LabelError::InvalidDays => "Invalid format for days",
            LabelError::InvalidHours => "Invalid format for hours",
            LabelError::InvalidMinutes => "Invalid format for minutes",
            LabelError::InvalidSeconds => "Invalid format for seconds",
            LabelError::InvalidTime => "Invalid time format. Use HH:MM format -> '23:00'",
        }
    }
}

/// The various label values that will be parsed for containers monitored by RTT.
#[derive(Debug)]
pub struct RttLabels {
    /// If a container is in this list was restarted, this container will need to be restarted.
    pub watch_restarted: Vec<ContainerName>,
    /// Restart this container if a listed container becomes unhealthy.
    pub watch_unhealthy: Vec<ContainerName>,
    /// Restart this container every so often.
    pub interval_time: Option<ScheduleInterval>,
    /// Restart this container every day at a time.
    pub daily_time: Option<ScheduleDaily>,
}

/// What a set of labels says, as plain values.
pub struct RttLabelsView {
    pub watch_restarted: Seq<Seq<char>>,
    pub watch_unhealthy: Seq<Seq<char>>,
    /// The interval between restarts, as whole seconds and nanoseconds.
    pub interval: Option<(nat, nat)>,
    /// The daily restart time, as hour, minute and second.
    pub daily_time: Option<(u32, u32, u32)>,
}

/// The texts of a sequence of container names.
pub open spec fn names_view(names: Seq<ContainerName>) -> Seq<Seq<char>> {
    names.map_values(|n: ContainerName| n@)
}

impl RttLabels {
    /// What these labels say.
    pub open spec fn view(&self) -> RttLabelsView {
        RttLabelsView {
            watch_restarted: names_view(self.watch_restarted@),
            watch_unhealthy: names_view(self.watch_unhealthy@),
            interval: match self.interval_time {
                Some(i) => Some((i.0.spec_secs() as nat, i.0.spec_nanos() as nat)),
                None => None,
            },
            daily_time: match self.daily_time {
                Some(d) => Some((d.0.spec_hour(), d.0.spec_minute(), d.0.spec_second())),
                None => None,
            },
        }
    }
}

// ---------------------------------------------------------------------------------------
// Specification
// ---------------------------------------------------------------------------------------

/// The label that enables monitoring, short form.
pub open spec fn enable_short() -> Seq<char> {
    "rtt.enable=true"@
}

/// The label that enables monitoring, long form.
pub open spec fn enable_long() -> Seq<char> {
    "restart-that-thang.enable=true"@
}

/// The key of the list of containers whose restarts are watched, short form.
pub open spec fn watch_restarts_short() -> Seq<char> {
    "rtt.watch.restarts="@
}

/// The key of the list of containers whose restarts are watched, long form.
pub open spec fn watch_restarts_long() -> Seq<char> {
    "restart-that-thang.watch.restarts="@
}

/// The key of the list of containers whose health is watched, short form.
pub open spec fn watch_unhealthy_short() -> Seq<char> {
    "rtt.watch.unhealthy="@
}

/// The key of the list of containers whose health is watched, long form.
pub open spec fn watch_unhealthy_long() -> Seq<char> {
    "restart-that-thang.watch.unhealthy="@
}

/// The key of the restart interval, short form.
pub open spec fn interval_short() -> Seq<char> {
    "rtt.schedule.interval="@
}

/// The key of the restart interval, long form.
pub open spec fn interval_long() -> Seq<char> {
    "restart-that-thang.schedule.interval="@
}

/// The key of the daily restart time, short form.
pub open spec fn time_short() -> Seq<char> {
    "rtt.schedule.time="@
}

/// The key of the daily restart time, long form.
pub open spec fn time_long() -> Seq<char> {
    "restart-that-thang.schedule.time="@
}

/// The labels enable monitoring.
pub open spec fn is_enabled(labels: Seq<char>) -> bool {
    contains_pattern(labels, enable_short()) || contains_pattern(labels, enable_long())
}

/// The text after a key: after its short form where that occurs, else after its long form.
pub open spec fn label_value(labels: Seq<char>, short: Seq<char>, long: Seq<char>) -> Option<
    Seq<char>,
> {
    match second_piece(labels, short) {
        Some(part) => Some(part),
        None => second_piece(labels, long),
    }
}

/// The list that a key names: the comma-separated entries after it, up to the next entry
/// that is a `key=value` pair.
pub open spec fn label_list(labels: Seq<char>, short: Seq<char>, long: Seq<char>) -> Seq<
    Seq<char>,
> {
    match label_value(labels, short, long) {
        None => Seq::empty(),
        Some(part) => pieces_before_assignment(part, 0),
    }
}

/// The single value that a key names: the entries of its list joined, where that is not
/// empty.
pub open spec fn label_text(labels: Seq<char>, short: Seq<char>, long: Seq<char>) -> Option<
    Seq<char>,
> {
    match label_value(labels, short, long) {
        None => None,
        Some(part) => {
            let v = concat_all(pieces_before_assignment(part, 0));
            if v.len() == 0 {
                None
            } else {
                Some(v)
            }
        },
    }
}

/// The seconds in one interval unit: `d`, `h`, `m` or `s`.
pub open spec fn unit_secs(u: char) -> Option<nat> {
    if u == 'd' {
        Some(86400)
    } else if u == 'h' {
        Some(3600)
    } else if u == 'm' {
        Some(60)
    } else if u == 's' {
        Some(1)
    } else {
        None
    }
}

/// The error for a count that is not a number, by unit.
pub open spec fn unit_error(u: char) -> LabelError {
    if u == 'd' {
        LabelError::InvalidDays
    } else if u == 'h' {
        LabelError::InvalidHours
    } else if u == 'm' {
        LabelError::InvalidMinutes
    } else {
        LabelError::InvalidSeconds
    }
}

/// What an interval value says, in any case of letters: a count and a unit (`2d`, `3h`,
/// `45m`, `50s`) give the interval in seconds; a count that is not a number is an error;
/// any other unit gives no interval.
pub open spec fn interval_from_text(value: Seq<char>) -> Result<Option<nat>, LabelError> {
    let d = lower(value);
    if d.len() > 0 && unit_secs(d.last()) is Some {
        match parse_u64_spec(d.drop_last()) {
            None => Err(unit_error(d.last())),
            Some(n) => Ok(Some((n as nat) * unit_secs(d.last())->0)),
        }
    } else {
        Ok(None)
    }
}

/// What the interval label says.
pub open spec fn interval_spec(labels: Seq<char>) -> Result<Option<nat>, LabelError> {
    match label_text(labels, interval_short(), interval_long()) {
        None => Ok(None),
        Some(v) => interval_from_text(v),
    }
}

/// The interval label gives more seconds than a `u64` holds, which the computation of the
/// interval does not survive.
pub open spec fn interval_overflows(labels: Seq<char>) -> bool {
    interval_spec(labels) matches Ok(Some(n)) && n > u64::MAX
}

/// What the daily time label says, as hour, minute and second.
pub open spec fn daily_spec(labels: Seq<char>) -> Result<Option<(u32, u32, u32)>, LabelError> {
    match label_text(labels, time_short(), time_long()) {
        None => Ok(None),
        Some(v) => match hour_minute_time(v) {
            None => Err(LabelError::InvalidTime),
            Some(t) => Ok(Some(t)),
        },
    }
}

/// The interval that the interval label gives, in seconds: none where the label is missing,
/// names no unit, or has a count that is not a number.
pub open spec fn interval_or_none(labels: Seq<char>) -> Option<nat> {
    match interval_spec(labels) {
        Ok(Some(n)) => Some(n),
        _ => None,
    }
}

/// The time of day that the daily time label gives: none where the label is missing or is
/// not in the form `HH:MM`.
pub open spec fn daily_or_none(labels: Seq<char>) -> Option<(u32, u32, u32)> {
    match daily_spec(labels) {
        Ok(Some(t)) => Some(t),
        _ => None,
    }
}

/// The labels can be read without an interval that outgrows a `u64` count of seconds: where
/// monitoring is enabled, the interval label does not give more seconds than that.
pub open spec fn labels_readable(labels: Seq<char>) -> bool {
    is_enabled(labels) ==> !interval_overflows(labels)
}

/// What a container's labels say: nothing where monitoring is not enabled; otherwise the
/// watched containers and the schedule. A schedule label that cannot be read gives no
/// schedule of its kind; the container is monitored all the same.
#[verifier::opaque]
pub open spec fn labels_spec(labels: Seq<char>) -> Option<RttLabelsView> {
    if !is_enabled(labels) {
        None
    } else {
        Some(
            RttLabelsView {
                watch_restarted: label_list(labels, watch_restarts_short(), watch_restarts_long()),
                watch_unhealthy: label_list(labels, watch_unhealthy_short(), watch_unhealthy_long()),
                interval: match interval_or_none(labels) {
                    Some(n) => Some((n, 0nat)),
                    None => None,
                },
                daily_time: daily_or_none(labels),
            },
        )
    }
}

/// Labels that enable monitoring always describe a monitored container, whatever their
/// schedule labels hold.
pub proof fn law_enabled_labels_are_monitored(labels: Seq<char>)
    requires
        is_enabled(labels),
    ensures
        labels_spec(labels) is Some,
{
    reveal(labels_spec);
}

/// A container without the label that enables monitoring is not monitored.
pub proof fn law_enable_label_required(labels: Seq<char>)
    requires
        !contains_pattern(labels, enable_short()),
        !contains_pattern(labels, enable_long()),
    ensures
        labels_spec(labels) is None,
{
    reveal(labels_spec);
}

/// Where the short form of a key does not occur, its long form is read.
pub proof fn law_long_form_label(labels: Seq<char>, short: Seq<char>, long: Seq<char>)
    requires
        second_piece(labels, short) is None,
    ensures
        label_value(labels, short, long) == second_piece(labels, long),
{
}

/// An interval of `n` units is `n` times the seconds of the unit (`d`, `h`, `m` or `s`),
/// whatever the case of the unit's letter.
pub proof fn law_interval_units(count: Seq<char>, unit: char, n: u64)
    requires
        parse_u64_spec(count) == Some(n),
        unit_secs(lower_char(unit)) is Some,
    ensures
        interval_from_text(count.push(unit)) == Ok::<Option<nat>, LabelError>(
            Some((n as nat) * unit_secs(lower_char(unit))->0),
        ),
{
    let d = crate::text::unsigned_digits(count);
    assert forall|i: int| 0 <= i < count.len() implies lower_char(count[i]) == count[i] by {
        if i > 0 || count[0] != '+' {
            if count.len() > 0 && count[0] == '+' {
                assert(d[i - 1] == count[i]);
                assert(crate::text::is_digit(d[i - 1]));
            } else {
                assert(d[i] == count[i]);
                assert(crate::text::is_digit(d[i]));
            }
        }
    }
    assert(lower(count.push(unit)).drop_last() =~= count);
    assert(lower(count.push(unit)).last() == lower_char(unit));
}

// ---------------------------------------------------------------------------------------
// Implementation
// ---------------------------------------------------------------------------------------

/// A copy of `v[lo..hi]`.
fn copy_range(v: &Vec<char>, lo: usize, hi: usize) -> (res: Vec<char>)
    requires
        lo <= hi <= v.len(),
    ensures
        res@ == v@.subrange(lo as int, hi as int),
{
    let mut res: Vec<char> = Vec::new();
    let mut i = lo;
    while i < hi
        invariant
            lo <= i <= hi <= v.len(),
            res@ == v@.subrange(lo as int, i as int),
        decreases hi - i,
    {
        res.push(v[i]);
        assert(v@.subrange(lo as int, i + 1) =~= v@.subrange(lo as int, i as int).push(v@[i as int]));
        i += 1;
    }
    res
}

/// The text after a key in `v`.
fn label_value_exec(v: &Vec<char>, short: &str, long: &str) -> (res: Option<Vec<char>>)
    ensures
        match res {
            Some(part) => label_value(v@, short@, long@) == Some(part@),
            None => label_value(v@, short@, long@) is None,
        },
{
    let s = chars_of(short);
    match second_piece_exec(v, &s) {
        Some((lo, hi)) => Some(copy_range(v, lo, hi)),
        None => {
            let l = chars_of(long);
            match second_piece_exec(v, &l) {
                Some((lo, hi)) => Some(copy_range(v, lo, hi)),
                None => None,
            }
        },
    }
}

/// The list that a key names in `v`, as container names.
fn label_list_exec(v: &Vec<char>, short: &str, long: &str) -> (res: Vec<ContainerName>)
    ensures
        names_view(res@) == label_list(v@, short@, long@),
{
    match label_value_exec(v, short, long) {
        None => {
            let res: Vec<ContainerName> = Vec::new();
            assert(names_view(res@) =~= Seq::<Seq<char>>::empty());
            res
        },
        Some(part) => {
            let ranges = pieces_before_assignment_exec(&part);
            let mut res: Vec<ContainerName> = Vec::new();
            let mut k: usize = 0;
            while k < ranges.len()
                invariant
                    k <= ranges.len(),
                    ranges_within(part@, ranges@),
                    names_view(res@) =~= ranges_view(part@, ranges@).take(k as int),
                decreases ranges.len() - k,
            {
                let (lo, hi) = ranges[k];
                let name = ContainerName::from_string(string_from_chars(&part, lo, hi));
                let ghost before = res@;
                res.push(name);
                assert(names_view(res@) =~= names_view(before).push(name@));
                assert(ranges_view(part@, ranges@).take(k + 1) =~= ranges_view(part@, ranges@).take(
                    k as int,
                ).push(part@.subrange(lo as int, hi as int)));
                k += 1;
            }
            assert(ranges_view(part@, ranges@).take(ranges.len() as int) =~= ranges_view(
                part@,
                ranges@,
            ));
            res
        },
    }
}

/// The single value that a key names in `v`.
fn label_text_exec(v: &Vec<char>, short: &str, long: &str) -> (res: Option<Vec<char>>)
    ensures
        match res {
            Some(t) => label_text(v@, short@, long@) == Some(t@),
            None => label_text(v@, short@, long@) is None,
        },
{
    match label_value_exec(v, short, long) {
        None => None,
        Some(part) => {
            let ranges = pieces_before_assignment_exec(&part);
            let joined = concat_ranges(&part, &ranges);
            if joined.len() == 0 {
                None
            } else {
                Some(joined)
            }
        },
    }
}

/// What an interval value says, in seconds.
fn interval_from_chars(value: &Vec<char>) -> (res: Result<Option<u64>, LabelError>)
    requires
        !(interval_from_text(value@) matches Ok(Some(n)) && n > u64::MAX),
    ensures
        match res {
            Ok(Some(n)) => interval_from_text(value@) == Ok::<Option<nat>, LabelError>(
                Some(n as nat),
            ),
            Ok(None) => interval_from_text(value@) == Ok::<Option<nat>, LabelError>(None),
            Err(e) => interval_from_text(value@) == Err::<Option<nat>, LabelError>(e),
        },
{
    let d = lower_range(value, 0, value.len());
    assert(value@.subrange(0, value@.len() as int) =~= value@);
    if d.len() == 0 {
        return Ok(None);
    }
    let unit = d[d.len() - 1];
    let (per_unit, error): (u64, LabelError) = if unit == 'd' {
        (86400, LabelError::InvalidDays)
    } else if unit == 'h' {
        (3600, LabelError::InvalidHours)
    } else if unit == 'm' {
        (60, LabelError::InvalidMinutes)
    } else if unit == 's' {
        (1, LabelError::InvalidSeconds)
    } else {
        return Ok(None);
    };
    assert(d@.subrange(0, d.len() - 1) =~= d@.drop_last());
    match parse_u64_exec(&d, 0, d.len() - 1) {
        None => Err(error),
        Some(n) => {
            assert(n * per_unit <= u64::MAX);
            Ok(Some(n * per_unit))
        },
    }
}

impl RttLabels {
    /// The interval label of `labels` gives more seconds than a `u64` holds.
    pub fn interval_overflows(labels: &str) -> (res: bool)
        ensures
            res == interval_overflows(labels@),
    {
        let v = chars_of(labels);
        match label_text_exec(&v, "rtt.schedule.interval=", "restart-that-thang.schedule.interval=") {
            None => false,
            Some(value) => {
                let d = lower_range(&value, 0, value.len());
                assert(value@.subrange(0, value@.len() as int) =~= value@);
                if d.len() == 0 {
                    return false;
                }
                let unit = d[d.len() - 1];
                let per_unit: u64 = if unit == 'd' {
                    86400
                } else if unit == 'h' {
                    3600
                } else if unit == 'm' {
                    60
                } else if unit == 's' {
                    1
                } else {
                    return false;
                };
                assert(d@.subrange(0, d.len() - 1) =~= d@.drop_last());
                match parse_u64_exec(&d, 0, d.len() - 1) {
                    None => false,
                    Some(n) => n > u64::MAX / per_unit,
                }
            },
        }
    }

    /// The labels enable monitoring: they hold `rtt.enable=true` or
    /// `restart-that-thang.enable=true`.
    pub fn enables_monitoring(labels: &str) -> (res: bool)
        ensures
            res == is_enabled(labels@),
    {
        let v = chars_of(labels);
        match find_from_exec(&v, &chars_of("rtt.enable=true"), 0) {
            Some(_) => true,
            None => find_from_exec(&v, &chars_of("restart-that-thang.enable=true"), 0).is_some(),
        }
    }

    /// Parses all RTT labels: `None` where monitoring is not enabled; otherwise the watched
    /// containers and the schedule. A schedule label that cannot be read gives no schedule of
    /// its kind, so parsing never fails.
    pub fn parse(labels: &str) -> (res: Result<Option<Self>, LabelError>)
        requires
            labels_readable(labels@),
        ensures
            res is Ok,
            res matches Ok(Some(l)) ==> labels_spec(labels@) == Some(l.view()),
            res matches Ok(None) ==> labels_spec(labels@) is None,
    {
        reveal(labels_spec);
        if !Self::enables_monitoring(labels) {
            return Ok(None);
        }
        let watch_restarted = Self::parse_watch_restarted(labels);
        let watch_unhealthy = Self::parse_watch_unhealthy(labels);
        let interval_time = match Self::parse_schedule_interval(labels) {
            Ok(i) => i,
            Err(_) => None,
        };
        let daily_time = match Self::parse_schedule_time(labels) {
            Ok(d) => d,
            Err(_) => None,
        };
        Ok(Some(Self { watch_restarted, watch_unhealthy, interval_time, daily_time }))
    }

    /// Parses label that indicates which containers should be monitored for restarts.
    pub fn parse_watch_restarted(labels: &str) -> (res: Vec<ContainerName>)
        ensures
            names_view(res@) == label_list(labels@, watch_restarts_short(), watch_restarts_long()),
    {
        let v = chars_of(labels);
        label_list_exec(&v, "rtt.watch.restarts=", "restart-that-thang.watch.restarts=")
    }

    /// Parses label that indicates which containers should be monitored for unhealthy state.
    pub fn parse_watch_unhealthy(labels: &str) -> (res: Vec<ContainerName>)
        ensures
            names_view(res@) == label_list(
                labels@,
                watch_unhealthy_short(),
                watch_unhealthy_long(),
            ),
    {
        let v = chars_of(labels);
        label_list_exec(&v, "rtt.watch.unhealthy=", "restart-that-thang.watch.unhealthy=")
    }

    /// Parses the label used to set interval based restarts.
    pub fn parse_schedule_interval(labels: &str) -> (res: Result<Option<ScheduleInterval>, LabelError>)
        requires
            !interval_overflows(labels@),
        ensures
            match res {
                Ok(Some(i)) => interval_spec(labels@) == Ok::<Option<nat>, LabelError>(
                    Some(i.0.spec_secs() as nat),
                ) && i.0.spec_nanos() == 0,
                Ok(None) => interval_spec(labels@) == Ok::<Option<nat>, LabelError>(None),
                Err(e) => interval_spec(labels@) == Err::<Option<nat>, LabelError>(e),
            },
    {
        let v = chars_of(labels);
        match label_text_exec(&v, "rtt.schedule.interval=", "restart-that-thang.schedule.interval=") {
            None => Ok(None),
            Some(value) => match interval_from_chars(&value)? {
                None => Ok(None),
                Some(total_seconds) => Ok(Some(ScheduleInterval::new(Span::from_secs(total_seconds)))),
            },
        }
    }

    /// Parses the label for containers to be restarted at a specific time of day.
    pub fn parse_schedule_time(labels: &str) -> (res: Result<Option<ScheduleDaily>, LabelError>)
        ensures
            match res {
                Ok(Some(d)) => daily_spec(labels@) == Ok::<
                    Option<(u32, u32, u32)>,
                    LabelError,
                >(Some((d.0.spec_hour(), d.0.spec_minute(), d.0.spec_second()))),
                Ok(None) => daily_spec(labels@) == Ok::<Option<(u32, u32, u32)>, LabelError>(None),
                Err(e) => daily_spec(labels@) == Err::<Option<(u32, u32, u32)>, LabelError>(e),
            },
    {
        let v = chars_of(labels);
        match label_text_exec(&v, "rtt.schedule.time=", "restart-that-thang.schedule.time=") {
            None => Ok(None),
            Some(value) => {
                let text = string_from_chars(&value, 0, value.len());
                assert(value@.subrange(0, value@.len() as int) =~= value@);
                match parse_hour_minute(text.as_str()) {
                    None => Err(LabelError::InvalidTime),
                    Some(time) => Ok(Some(ScheduleDaily::new(time))),
                }
            },
        }
    }
}

} // verus!
