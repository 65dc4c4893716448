//! How the files of a run are named, and when a file has had its day.

use chrono::{DateTime, NaiveDateTime};
use vstd::prelude::*;
use crate::errors::WorkerError;

verus! {

/// The last second of the year 9999: the latest time that gets a stamp of twelve digits.
pub const MAX_STAMP_TIME: i64 = 253_402_300_799;

/// Seconds after which a file is removed: 48 hours.
pub const KEEP_SECS: i64 = 172_800;

/// An error of chrono's parser.
#[verifier::external_type_specification]
#[verifier::external_body]
pub struct ExParseError(chrono::ParseError);

/// The stamp of a time: year, month, day, hour and minute in UTC, as digits.
pub uninterp spec fn stamp_of(t: int) -> Seq<char>;

/// The time that a stamp stands for, if it stands for one.
pub uninterp spec fn stamp_time(stamp: Seq<char>) -> Option<int>;

/// `DateTime::from_timestamp` and `DateTime::format` of chrono, with the
/// format `%Y%m%d%H%M`: the claim is that the text is a function of the
/// time alone. The times admitted are those of the years 1970 to 9999,
/// for which `from_timestamp` gives a date.
#[verifier::external_body]
fn format_stamp(t: i64) -> (stamp: String)
    requires
        0 <= t <= MAX_STAMP_TIME,
    ensures
        stamp@ == stamp_of(t as int),
{
    DateTime::from_timestamp(t, 0).unwrap().format("%Y%m%d%H%M").to_string()
}

/// `NaiveDateTime::parse_from_str` of chrono, with the format
/// `%Y%m%d%H%M`, and the seconds since the epoch of what it read, taken
/// as UTC: the claim is that whether the text is read, and as what time,
/// depends on the text alone.
#[verifier::external_body]
fn parse_stamp(stamp: &str) -> (r: Result<i64, chrono::ParseError>)
    ensures
        r is Ok <==> stamp_time(stamp@) is Some,
        r is Ok ==> stamp_time(stamp@) == Some(r->Ok_0 as int),
{
    match NaiveDateTime::parse_from_str(stamp, "%Y%m%d%H%M") {
        Ok(read) => Ok(read.and_utc().timestamp()),
        Err(e) => Err(e),
    }
}

/// The text of an error of chrono's parser, from its `Display`.
#[verifier::external_body]
fn parse_error_text(e: &chrono::ParseError) -> (text: String) {
    e.to_string()
}

/// The name of a file that holds something for the time from `start` on:
/// the directory, the stamp and the ending.
pub open spec fn spec_stamped_name(path: Seq<char>, t: int, ending: Seq<char>) -> Seq<char> {
    path + stamp_of(t) + ending
}

/// The name of the file of a schedule from `start` to `end`.
pub open spec fn spec_schedule_file_name(path: Seq<char>, start: int, end: int) -> Seq<char> {
    path + stamp_of(start) + "_"@ + stamp_of(end) + "_schedule.json"@
}

/// A file of the time `file_time` has had its day at `as_of`: it is more
/// than 48 hours older.
pub open spec fn spec_is_expired(as_of: int, file_time: int) -> bool {
    as_of - file_time > KEEP_SECS
}

/// The name of the file of a schedule from `schedule_start` to
/// `schedule_end`, in the directory `path`: the two stamps in UTC, start
/// then end, and `_schedule.json`.
pub fn schedule_file_name(path: &str, schedule_start: i64, schedule_end: i64) -> (name: String)
    requires
        0 <= schedule_start <= MAX_STAMP_TIME,
        0 <= schedule_end <= MAX_STAMP_TIME,
    ensures
        name@ == spec_schedule_file_name(path@, schedule_start as int, schedule_end as int),
{
    let mut name = String::new();
    name.push_str(path);
    name.push_str(format_stamp(schedule_start).as_str());
    name.push_str("_");
    name.push_str(format_stamp(schedule_end).as_str());
    name.push_str("_schedule.json");
    assert(name@ =~= spec_schedule_file_name(path@, schedule_start as int, schedule_end as int));
    name
}

/// The name of the file of the base data of the day that starts at
/// `date_time`, in the directory `path`.
pub fn base_data_file_name(path: &str, date_time: i64) -> (name: String)
    requires
        0 <= date_time <= MAX_STAMP_TIME,
    ensures
        name@ == spec_stamped_name(path@, date_time as int, "_base_data.json"@),
{
    let mut name = String::new();
    name.push_str(path);
    name.push_str(format_stamp(date_time).as_str());
    name.push_str("_base_data.json");
    assert(name@ =~= spec_stamped_name(path@, date_time as int, "_base_data.json"@));
    name
}

/// The pattern that the files of schedules in the directory `path` match.
pub fn schedule_file_pattern(path: &str) -> (pattern: String)
    ensures
        pattern@ == path@ + "*_schedule.json"@,
{
    let mut pattern = String::new();
    pattern.push_str(path);
    pattern.push_str("*_schedule.json");
    assert(pattern@ =~= path@ + "*_schedule.json"@);
    pattern
}

/// The pattern that the files of base data in the directory `path` match.
pub fn base_data_file_pattern(path: &str) -> (pattern: String)
    ensures
        pattern@ == path@ + "*_base_data.json"@,
{
    let mut pattern = String::new();
    pattern.push_str(path);
    pattern.push_str("*_base_data.json");
    assert(pattern@ =~= path@ + "*_base_data.json"@);
    pattern
}

/// Whether a file of the time `file_time` is more than 48 hours older than `as_of`.
pub fn is_expired(as_of: i64, file_time: i64) -> (r: bool)
    ensures
        r == spec_is_expired(as_of as int, file_time as int),
{
    as_of as i128 - file_time as i128 > KEEP_SECS as i128
}

/// Whether the file whose name starts with `stamp` is to be removed at
/// `as_of`, given how the stamp was read: a stamp that was not read is an
/// error of cleaning up that says why.
pub fn expiry_of(read: Result<i64, String>, as_of: i64) -> (r: Result<bool, WorkerError>)
    ensures
        match read {
            Ok(file_time) => r == Ok::<bool, WorkerError>(
                spec_is_expired(as_of as int, file_time as int),
            ),
            Err(why) => match r {
                Err(WorkerError::CleanUpError(text)) => text@ == "error parsing date: "@ + why@,
                _ => false,
            },
        },
{
    match read {
        Ok(file_time) => Ok(is_expired(as_of, file_time)),
        Err(why) => {
            let mut text = String::new();
            text.push_str("error parsing date: ");
            text.push_str(why.as_str());
            assert(text@ =~= "error parsing date: "@ + why@);
            Err(WorkerError::CleanUpError(text))
        },
    }
}

/// Whether the file whose name starts with `stamp` is to be removed at
/// `as_of`: it is if its stamp stands for a time more than 48 hours before
/// `as_of`. A stamp that stands for no time is an error of cleaning up.
pub fn file_expired(stamp: &str, as_of: i64) -> (r: Result<bool, WorkerError>)
    ensures
        r is Ok <==> stamp_time(stamp@) is Some,
        r is Ok ==> r->Ok_0 == spec_is_expired(as_of as int, stamp_time(stamp@)->Some_0),
        r is Err ==> r->Err_0 is CleanUpError,
{
    let read = match parse_stamp(stamp) {
        Ok(file_time) => Ok(file_time),
        Err(e) => Err(parse_error_text(&e)),
    };
    expiry_of(read, as_of)
}

} // verus!
