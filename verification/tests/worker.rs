use mygrid_scheduler::block::{BlockType, Status};
use mygrid_scheduler::errors::{ForecastValuesError, SchedulerError, SchedulingError, WorkerError};
use mygrid_scheduler::text::push_padded;
use mygrid_scheduler::worker::{
    minute_of, minute_offsets, preformat_failure, quarter_start, retry_step, run_minutes, start_soc,
    start_within_the_hour, starts_within_the_hour, RetryStep, RunMinutes,
};

#[test]
fn a_success_stands() {
    assert_eq!(retry_step(true, 5), RetryStep::Finish);
    assert_eq!(retry_step(true, 40), RetryStep::Finish);
}

#[test]
fn a_failure_is_tried_again_after_5_10_and_20_seconds() {
    assert_eq!(retry_step(false, 5), RetryStep::Sleep { secs: 5, next_wait: 10 });
    assert_eq!(retry_step(false, 10), RetryStep::Sleep { secs: 10, next_wait: 20 });
    assert_eq!(retry_step(false, 20), RetryStep::Sleep { secs: 20, next_wait: 40 });
    assert_eq!(retry_step(false, 40), RetryStep::Finish);
}

#[test]
fn four_attempts_are_made_in_all() {
    let mut wait = 5;
    let mut attempts = 1;
    let mut slept = 0;
    while let RetryStep::Sleep { secs, next_wait } = retry_step(false, wait) {
        slept += secs;
        wait = next_wait;
        attempts += 1;
    }
    assert_eq!(attempts, 4);
    assert_eq!(slept, 35);
}

#[test]
fn a_run_before_nine_in_the_evening_plans_at_once() {
    assert!(starts_within_the_hour(0, 0));
    assert!(starts_within_the_hour(20, 59));
    assert!(!starts_within_the_hour(21, 0));
    assert!(!starts_within_the_hour(23, 14));
    assert!(starts_within_the_hour(23, 15));
    assert!(starts_within_the_hour(23, 59));
}

#[test]
fn quarter_start_goes_by_the_local_clock() {
    assert_eq!(quarter_start(1_700_000_000, 0), 1_699_999_200);
    assert_eq!(quarter_start(1_700_000_000, 3_600), 1_699_999_200);
    // a clock five minutes ahead has its quarters five minutes early
    assert_eq!(quarter_start(1_700_000_000, 300), 1_699_999_800);
    assert_eq!(quarter_start(-1, 0), -900);
    assert_eq!(quarter_start(0, -1), -899);
}

#[test]
fn a_schedule_planned_at_once_starts_an_hour_later_on_the_quarter() {
    // 22:13:20 gives 23:00:00
    assert_eq!(start_within_the_hour(1_700_000_000, 3_600), 1_700_002_800);
    assert_eq!(start_within_the_hour(1_700_000_100, 0), 1_700_003_700);
}

#[test]
fn run_minutes_within_one_day() {
    // the day ends at 86 400; the run starts at 10:00 and the schedule at 11:00
    let (first, second) = run_minutes(36_000, 86_400, 39_600, 86_400);
    assert_eq!(first, RunMinutes { run_start_minute: 600, run_end_minute: 660 });
    assert_eq!(second, None);
}

#[test]
fn run_minutes_up_to_the_end_of_the_day() {
    let (first, second) = run_minutes(82_800, 86_400, 86_400, 172_800);
    assert_eq!(first, RunMinutes { run_start_minute: 1_380, run_end_minute: 1_440 });
    assert_eq!(second, None);
}

#[test]
fn run_minutes_into_the_next_day() {
    // the run starts at 23:30, the schedule at 00:30 of the next day
    let (first, second) = run_minutes(84_600, 86_400, 88_200, 172_800);
    assert_eq!(first, RunMinutes { run_start_minute: 1_410, run_end_minute: 1_440 });
    assert_eq!(second, Some(RunMinutes { run_start_minute: 0, run_end_minute: 30 }));
}

#[test]
fn start_soc_adds_whole_percents() {
    assert_eq!(start_soc(50, 0, 170_000), 50);
    assert_eq!(start_soc(50, 169_999, 170_000), 50);
    assert_eq!(start_soc(50, 170_000, 170_000), 51);
    assert_eq!(start_soc(50, 1_700_000, 170_000), 60);
    assert_eq!(start_soc(50, -169_999, 170_000), 50);
    assert_eq!(start_soc(50, -170_000, 170_000), 49);
}

#[test]
fn start_soc_is_never_under_ten() {
    assert_eq!(start_soc(12, -340_000, 170_000), 10);
    assert_eq!(start_soc(12, -510_000, 170_000), 10);
    assert_eq!(start_soc(0, 0, 170_000), 10);
    assert_eq!(start_soc(100, i64::MIN, 1), 10);
}

#[test]
fn start_soc_may_pass_a_hundred() {
    assert_eq!(start_soc(100, 27 * 170_000, 170_000), 127);
    assert_eq!(start_soc(0, i64::MAX, 1), 127);
}

#[test]
fn minute_offsets_count_from_the_first_value() {
    assert_eq!(minute_offsets(&vec![3_600, 7_200, 10_859, 10_860]), Ok(vec![0, 60, 120, 121]));
    assert_eq!(minute_offsets(&vec![7_200, 3_600]), Ok(vec![0, -60]));
    assert_eq!(minute_offsets(&vec![59]), Ok(vec![0]));
    assert_eq!(minute_offsets(&vec![i64::MIN, i64::MAX]), Ok(vec![0, i64::MAX / 60 - i64::MIN / 60]));
}

#[test]
fn minute_offsets_refuse_an_empty_forecast() {
    assert_eq!(minute_offsets(&vec![]), Err(ForecastValuesError::EmptyForecastValues));
}

#[test]
fn minute_of_counts_towards_zero() {
    assert_eq!(minute_of(0), 0);
    assert_eq!(minute_of(119), 1);
    assert_eq!(minute_of(-1), 0);
    assert_eq!(minute_of(-60), -1);
}

#[test]
fn what_was_refused_is_said_in_words() {
    assert_eq!(
        SchedulingError::from_error(SchedulerError::InconsistentInputLength),
        SchedulingError("wrong input data length between tariffs, consumption and production".to_string())
    );
    assert_eq!(
        SchedulingError::from_error(SchedulerError::InvalidBatteryModel).message(),
        "error while building schedule: battery parameters must be positive"
    );
}

#[test]
fn a_failure_to_align_becomes_an_error_of_the_run() {
    assert_eq!(
        preformat_failure(&SchedulingError("no data".to_string())),
        WorkerError::GetScheduleError("error preformatting data: error while building schedule: no data".to_string())
    );
}

#[test]
fn block_types_are_shown_six_wide() {
    assert_eq!(BlockType::Charge.label(), "Charge");
    assert_eq!(BlockType::Hold.label(), "Hold  ");
    assert_eq!(BlockType::Use.label(), "Use   ");
}

#[test]
fn statuses_are_shown_nine_wide() {
    assert_eq!(Status::Waiting.label(), "Waiting  ");
    assert_eq!(Status::Started.label(), "Started  ");
    assert_eq!(Status::Error.label(), "Error    ");
    assert_eq!(Status::Full(7).label(), "Full:   7");
    assert_eq!(Status::Full(85).label(), "Full:  85");
    assert_eq!(Status::Full(100).label(), "Full: 100");
    assert_eq!(Status::Full(1000).label(), "Full: 1000");
}

#[test]
fn push_padded_fills_with_blanks() {
    let mut text = String::from("[");
    push_padded(&mut text, 5, 4);
    push_padded(&mut text, 12_345, 4);
    push_padded(&mut text, 0, 0);
    assert_eq!(text, "[   5123450");
}
