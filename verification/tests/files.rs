use mygrid_scheduler::errors::WorkerError;
use mygrid_scheduler::files::{
    base_data_file_name, base_data_file_pattern, expiry_of, file_expired, is_expired, schedule_file_name,
    schedule_file_pattern,
};

#[test]
fn a_schedule_file_is_named_by_its_start_and_end() {
    assert_eq!(
        schedule_file_name("/data/schedules/", 1_700_000_100, 1_700_086_500),
        "/data/schedules/202311142215_202311152215_schedule.json"
    );
    assert_eq!(schedule_file_name("", 0, 253_402_300_799), "197001010000_999912312359_schedule.json");
}

#[test]
fn a_base_data_file_is_named_by_its_day() {
    assert_eq!(base_data_file_name("/data/base/", 1_699_920_000), "/data/base/202311140000_base_data.json");
}

#[test]
fn the_stamp_leaves_the_seconds_out() {
    assert_eq!(base_data_file_name("", 59), "197001010000_base_data.json");
    assert_eq!(base_data_file_name("", 60), "197001010001_base_data.json");
}

#[test]
fn patterns_match_any_stamp() {
    assert_eq!(schedule_file_pattern("/data/schedules/"), "/data/schedules/*_schedule.json");
    assert_eq!(base_data_file_pattern("/data/base/"), "/data/base/*_base_data.json");
}

#[test]
fn a_file_expires_after_more_than_48_hours() {
    assert!(!is_expired(172_800, 0));
    assert!(is_expired(172_801, 0));
    assert!(!is_expired(0, 172_801));
    assert!(is_expired(i64::MAX, i64::MIN));
    assert!(!is_expired(i64::MIN, i64::MAX));
}

#[test]
fn file_expired_reads_the_stamp() {
    // 14 November 2023, 22:15
    assert_eq!(file_expired("202311142215", 1_700_000_100 + 172_800), Ok(false));
    assert_eq!(file_expired("202311142215", 1_700_000_100 + 172_801), Ok(true));
    assert_eq!(file_expired("202311142215", 0), Ok(false));
}

#[test]
fn file_expired_refuses_what_is_no_stamp() {
    for stamp in ["", "schedule.jso", "202313142215", "202311142260", "2023111422155"] {
        match file_expired(stamp, 0) {
            Err(WorkerError::CleanUpError(text)) => assert!(text.starts_with("error parsing date: ")),
            other => panic!("{:?}", other),
        }
    }
}

#[test]
fn expiry_of_says_why_a_stamp_was_not_read() {
    assert_eq!(
        expiry_of(Err("input contains invalid characters".to_string()), 0),
        Err(WorkerError::CleanUpError("error parsing date: input contains invalid characters".to_string()))
    );
    assert_eq!(expiry_of(Ok(0), 172_801), Ok(true));
    assert_eq!(expiry_of(Ok(0), 172_800), Ok(false));
}
