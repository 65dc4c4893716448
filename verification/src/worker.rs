//! The rules of a run: when the schedule starts, how long to wait before
//! a call is tried again, and what state of charge the schedule starts with.

use vstd::prelude::*;
use crate::errors::{ForecastValuesError, SchedulerError, SchedulingError, WorkerError};

verus! {

/// Seconds to wait after the first failure of a call.
pub const FIRST_WAIT: u64 = 5;

/// The longest wait, in seconds, after which a call is tried once more.
pub const LAST_WAIT: u64 = 20;

/// Minutes in a day.
pub const DAY_MINUTES: i64 = 1_440;

/// Minute of the day, 23:15, from which on a run plans into the next day at once.
pub const LATE_MINUTE: u32 = 1_395;

/// Hour of the day before which a run plans the rest of the day.
pub const EVENING_HOUR: u32 = 21;

/// What follows an attempt of a call.
#[derive(Clone, Copy, Debug, PartialEq, Eq, Structural)]
pub enum RetryStep {
    /// The outcome stands, good or bad.
    Finish,
    /// Sleep for `secs` seconds and try again; wait `next_wait` after the next failure.
    Sleep { secs: u64, next_wait: u64 },
}

/// The minutes of a day that lie between the start of a run and the start of its schedule.
#[derive(Clone, Copy, Debug, PartialEq, Eq, Structural)]
pub struct RunMinutes {
    pub run_start_minute: usize,
    pub run_end_minute: usize,
}

/// What follows an attempt that came after a wait of `wait` was due: a
/// success stands; a failure is tried again after `wait` seconds, with
/// twice the wait due next, as long as `wait` is at most `LAST_WAIT`.
pub fn retry_step(succeeded: bool, wait: u64) -> (step: RetryStep)
    ensures
        step == if succeeded || wait > LAST_WAIT {
            RetryStep::Finish
        } else {
            RetryStep::Sleep { secs: wait, next_wait: (2 * wait) as u64 }
        },
{
    if succeeded || wait > LAST_WAIT {
        RetryStep::Finish
    } else {
        RetryStep::Sleep { secs: wait, next_wait: 2 * wait }
    }
}

/// Whether a run that starts at `hour`:`minute` local time plans from the
/// next hour on: it does before 21:00 and from 23:15 on; in between it
/// plans the whole next day.
pub fn starts_within_the_hour(hour: u32, minute: u32) -> (r: bool)
    requires
        hour < 24,
        minute < 60,
    ensures
        r == (hour < EVENING_HOUR || hour * 60 + minute >= LATE_MINUTE),
{
    hour < EVENING_HOUR || hour * 60 + minute >= LATE_MINUTE
}

/// `t` moved back to the last quarter of an hour on a clock that is
/// `offset` seconds ahead of UTC.
pub open spec fn spec_quarter_start(t: int, offset: int) -> int {
    t - (t + offset) % 900
}

/// `t` moved back to the last quarter of an hour on a clock that is
/// `offset` seconds ahead of UTC.
pub fn quarter_start(t: i64, offset: i32) -> (r: i64)
    requires
        i64::MIN / 2 <= t <= i64::MAX / 2,
    ensures
        r == spec_quarter_start(t as int, offset as int),
        t - 900 < r <= t,
{
    let rest = (t + offset as i64) % 900;
    if rest < 0 {
        t - (rest + 900)
    } else {
        t - rest
    }
}

/// The start of a schedule that is planned at once: an hour after the
/// start of the run, moved back to the quarter of an hour on the local clock.
pub fn start_within_the_hour(run_start: i64, offset: i32) -> (r: i64)
    requires
        i64::MIN / 4 <= run_start <= i64::MAX / 4,
    ensures
        r == spec_quarter_start(run_start + 3_600, offset as int),
{
    quarter_start(run_start + 3_600, offset)
}

/// The minute of the day, counted back from the end of the day at
/// `day_end`, that `t` falls in.
pub open spec fn minute_before(day_end: int, t: int) -> int {
    DAY_MINUTES - (day_end - t) / 60
}

/// The minutes between the start of a run and the start of its schedule:
/// those of the day of the run, and those of the day of the schedule where
/// that is a later day.
pub fn run_minutes(run_start: i64, run_day_end: i64, schedule_start: i64, schedule_day_end: i64) -> (r: (
    RunMinutes,
    Option<RunMinutes>,
))
    requires
        run_day_end - 86_400 <= run_start <= run_day_end,
        run_start <= schedule_start,
        schedule_day_end - 86_400 <= schedule_start <= schedule_day_end,
        i64::MIN / 2 <= run_day_end <= i64::MAX / 2,
        i64::MIN / 2 <= schedule_day_end <= i64::MAX / 2,
    ensures
        r.0.run_start_minute == minute_before(run_day_end as int, run_start as int),
        r.0.run_end_minute == if schedule_start < run_day_end {
            minute_before(run_day_end as int, schedule_start as int)
        } else {
            DAY_MINUTES as int
        },
        r.1 == if schedule_start > run_day_end {
            Some(
                RunMinutes {
                    run_start_minute: 0,
                    run_end_minute: minute_before(
                        schedule_day_end as int,
                        schedule_start as int,
                    ) as usize,
                },
            )
        } else {
            None
        },
        r.0.run_start_minute <= r.0.run_end_minute <= DAY_MINUTES,
        r.1 is Some ==> r.1->Some_0.run_end_minute <= DAY_MINUTES,
{
    let mut first = RunMinutes {
        run_start_minute: (DAY_MINUTES - (run_day_end - run_start) / 60) as usize,
        run_end_minute: DAY_MINUTES as usize,
    };
    let mut second: Option<RunMinutes> = None;
    if schedule_start < run_day_end {
        first.run_end_minute = (DAY_MINUTES - (run_day_end - schedule_start) / 60) as usize;
    } else if schedule_start > run_day_end {
        second = Some(
            RunMinutes {
                run_start_minute: 0,
                run_end_minute: (DAY_MINUTES - (schedule_day_end - schedule_start) / 60) as usize,
            },
        );
    }
    (first, second)
}

/// The whole percents of state of charge that `power_used` makes,
/// counted towards zero and held to -128..=127.
pub open spec fn spec_soc_change(power_used: int, soc_kwh: int) -> int {
    let whole = if power_used >= 0 {
        power_used / soc_kwh
    } else {
        -((-power_used) / soc_kwh)
    };
    if whole < -128 {
        -128
    } else if whole > 127 {
        127
    } else {
        whole
    }
}

/// The state of charge that a schedule starts with: the measured one
/// plus the whole percents that `power_used` makes, never under 10.
pub open spec fn spec_start_soc(soc_in: int, power_used: int, soc_kwh: int) -> int {
    let change = spec_soc_change(power_used, soc_kwh);
    if soc_in + change < 10 {
        10
    } else {
        soc_in + change
    }
}

/// The state of charge that a schedule starts with, from the one that
/// was measured at the start of the run and the energy that the battery
/// takes in until the schedule starts.
pub fn start_soc(soc_in: u8, power_used: i64, soc_kwh: i32) -> (r: u8)
    requires
        soc_kwh > 0,
        soc_in <= 100,
        soc_in + spec_soc_change(power_used as int, soc_kwh as int) <= 127,
    ensures
        r == spec_start_soc(soc_in as int, power_used as int, soc_kwh as int),
        r >= 10,
{
    let whole: i64 = power_used / soc_kwh as i64;
    let change: i64 = if whole < -128 {
        -128
    } else if whole > 127 {
        127
    } else {
        whole
    };
    let soc = soc_in as i64 + change;
    if soc < 10 {
        10
    } else {
        soc as u8
    }
}

/// The places on the minute axis of the values of a forecast: minutes
/// from the first of them. A forecast without values is refused.
pub fn minute_offsets(times: &Vec<i64>) -> (r: Result<Vec<i64>, ForecastValuesError>)
    ensures
        r is Ok <==> times.len() > 0,
        r is Err ==> r->Err_0 == ForecastValuesError::EmptyForecastValues,
        r is Ok ==> r->Ok_0@.len() == times.len() && forall|i: int|
            0 <= i < times.len() ==> (#[trigger] r->Ok_0@[i]) == floor_minute(times[i] as int)
                - floor_minute(times[0] as int),
{
    if times.len() == 0 {
        return Err(ForecastValuesError::EmptyForecastValues);
    }
    let base: i128 = minute_of(times[0]) as i128;
    let mut offsets: Vec<i64> = Vec::with_capacity(times.len());
    let mut i: usize = 0;
    while i < times.len()
        invariant
            i <= times.len(),
            times.len() > 0,
            base == floor_minute(times[0] as int),
            offsets.len() == i,
            forall|j: int|
                0 <= j < i ==> (#[trigger] offsets@[j]) == floor_minute(times[j] as int)
                    - floor_minute(times[0] as int),
        decreases times.len() - i,
    {
        offsets.push((minute_of(times[i]) as i128 - base) as i64);
        i += 1;
    }
    Ok(offsets)
}

/// The minute since the epoch that the second `t` falls in, counted
/// towards zero.
pub open spec fn floor_minute(t: int) -> int {
    if t >= 0 {
        t / 60
    } else {
        -((-t) / 60)
    }
}

/// The minute since the epoch that the second `t` falls in, counted
/// towards zero.
pub fn minute_of(t: i64) -> (r: i64)
    ensures
        r == floor_minute(t as int),
        -0x0400_0000_0000_0000 <= r <= 0x0400_0000_0000_0000,
{
    t / 60
}

/// The text that says what the scheduler refused.
pub open spec fn spec_error_text(e: SchedulerError) -> Seq<char> {
    match e {
        SchedulerError::InconsistentInputLength =>
            "wrong input data length between tariffs, consumption and production"@,
        SchedulerError::InvalidBatteryModel => "battery parameters must be positive"@,
    }
}

impl SchedulingError {
    /// What the scheduler refused, as an error of building a schedule.
    pub fn from_error(e: SchedulerError) -> (r: SchedulingError)
        ensures
            r.0@ == spec_error_text(e),
    {
        match e {
            SchedulerError::InconsistentInputLength => SchedulingError(
                "wrong input data length between tariffs, consumption and production".to_owned(),
            ),
            SchedulerError::InvalidBatteryModel => SchedulingError(
                "battery parameters must be positive".to_owned(),
            ),
        }
    }

    /// The error as it is shown.
    pub fn message(&self) -> (text: String)
        ensures
            text@ == "error while building schedule: "@ + self.0@,
    {
        let mut text = String::new();
        text.push_str("error while building schedule: ");
        text.push_str(self.0.as_str());
        assert(text@ =~= "error while building schedule: "@ + self.0@);
        text
    }
}

/// A failure to align the series of a schedule as the error of the run
/// that wanted the schedule.
pub fn preformat_failure(e: &SchedulingError) -> (r: WorkerError)
    ensures
        match r {
            WorkerError::GetScheduleError(text) => text@ == "error preformatting data: "@
                + "error while building schedule: "@ + e.0@,
            _ => false,
        },
{
    let mut text = String::new();
    text.push_str("error preformatting data: ");
    text.push_str(e.message().as_str());
    assert(text@ =~= "error preformatting data: "@ + "error while building schedule: "@ + e.0@);
    WorkerError::GetScheduleError(text)
}

} // verus!
