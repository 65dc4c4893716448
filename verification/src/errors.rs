//! Errors of the scheduler.

use vstd::prelude::*;

verus! {

/// What the scheduler refuses.
#[derive(Clone, Copy, Debug, PartialEq, Eq, Structural)]
pub enum SchedulerError {
    /// The quarter-hourly series do not have one common length.
    InconsistentInputLength,
    /// A battery parameter that must be positive is not.
    InvalidBatteryModel,
}

} // verus!

verus! {

/// An error that occurred while a schedule was built, as text.
#[derive(Clone, Debug, PartialEq, Eq)]
pub struct SchedulingError(pub String);

/// What can be wrong with a series of forecast values.
#[derive(Clone, Copy, Debug, PartialEq, Eq, Structural)]
pub enum ForecastValuesError {
    /// The series is empty.
    EmptyForecastValues,
    /// The series does not cover a day hour by hour.
    WrongForecastLength,
}

/// What can go wrong in a run that creates a schedule; each holds a description.
#[derive(Clone, Debug, PartialEq, Eq)]
pub enum WorkerError {
    RunSchemaError(String),
    SaveScheduleError(String),
    SaveBaseDataError(String),
    CleanUpError(String),
    EstimateSocError(String),
    GetScheduleError(String),
}

/// What can go wrong in talking to the inverter's cloud; each holds a description.
#[derive(Clone, Debug, PartialEq, Eq)]
pub enum FoxError {
    GetSocError(String),
    PostRequestError(String),
}

} // verus!
