//! Plans when a household battery is charged from the grid, held, or used,
//! so that a day of quarter-hourly prices costs least.
//!
//! The library counts in whole units: energy in millionths of a kWh,
//! prices in millionths of a currency unit per kWh, costs in their
//! product, efficiencies in per-mille, times in seconds since the epoch
//! in UTC. Divisions round to the nearest unit, halves away from zero.
//!
//! `planning` holds the planning run, `search` and `seek` the search for
//! the cheapest schedule, `accountant` and `charge` the cost of a block,
//! `assemble` the blocks of the schedule in time, `laws` and `optimal`
//! what holds of every schedule.

pub mod units;
pub mod errors;
pub mod text;
pub mod battery;
pub mod block;
pub mod schedule;
pub mod series;
pub mod tariffs;
pub mod accountant;
pub mod charge;
pub mod seek;
pub mod search;
pub mod optimal;
pub mod assemble;
pub mod planning;
pub mod laws;
pub mod lookup;
pub mod files;
pub mod fox;
pub mod worker;
