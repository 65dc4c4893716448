//! The schedule: the inputs of one planning run and what it produced.

use vstd::prelude::*;
use crate::battery::BatteryModel;
use crate::block::{BlockType, Status};
use crate::units::MAX_QUARTERS;

verus! {

/// Quarter-hourly buy prices over the horizon.
#[derive(Debug)]
pub struct Tariffs {
    pub buy: Vec<i32>,
    pub length: usize,
}

/// A block of the produced schedule, with its place in time.
#[derive(Clone, Copy, Debug, PartialEq, Eq, Structural)]
pub struct Block {
    /// The start time of the block.
    pub block_id: i64,
    pub block_type: BlockType,
    /// Start of the first quarter of the block, in seconds since the epoch.
    pub start_time: i64,
    /// Start of the last quarter of the block, in seconds since the epoch.
    pub end_time: i64,
    pub start_hour: usize,
    pub start_minute: usize,
    pub end_hour: usize,
    pub end_minute: usize,
    /// Length in quarters.
    pub size: usize,
    pub cost: i128,
    pub charge_in: i64,
    pub charge_out: i64,
    /// State of charge measured when the block started, once known.
    pub true_soc_in: Option<usize>,
    pub soc_in: usize,
    pub soc_out: usize,
    pub soc_kwh: i32,
    pub status: Status,
}

/// What one planning run returns.
#[derive(Debug)]
pub struct SchedulerResult {
    /// Cost of the baseline, rounded to hundredths of a currency unit.
    pub base_cost: i128,
    /// Cost of the returned schedule, rounded to hundredths of a currency unit.
    pub total_cost: i128,
    pub start_time: i64,
    /// End of the last block, exclusive.
    pub end_time: i64,
    pub blocks: Vec<Block>,
}

/// The quarters to plan: the three aligned series and the battery.
#[derive(Debug)]
pub struct Horizon {
    pub tariffs: Tariffs,
    /// Household consumption per quarter.
    pub cons: Vec<i32>,
    /// Generation less consumption per quarter.
    pub net_prod: Vec<i32>,
    pub model: BatteryModel,
}

/// The block schedule from a start time on, with the horizon it was planned for.
#[derive(Debug)]
pub struct Schedule {
    pub date_time: i64,
    pub blocks: Vec<Block>,
    pub total_cost: i128,
    pub horizon: Horizon,
}

/// The mathematical value of a `Horizon`: what a schedule is planned from.
pub struct HorizonModel {
    pub tariffs: Seq<i32>,
    pub cons: Seq<i32>,
    pub net_prod: Seq<i32>,
    pub model: BatteryModel,
}

impl View for Horizon {
    type V = HorizonModel;

    open spec fn view(&self) -> HorizonModel {
        HorizonModel {
            tariffs: self.tariffs.buy@,
            cons: self.cons@,
            net_prod: self.net_prod@,
            model: self.model,
        }
    }
}

impl HorizonModel {
    /// Number of quarters in the horizon.
    pub open spec fn quarters(&self) -> int {
        self.tariffs.len() as int
    }

    /// The three series have one length, which is at most `MAX_QUARTERS`,
    /// and the battery model is well formed.
    pub open spec fn wf(&self) -> bool {
        &&& self.cons.len() == self.tariffs.len()
        &&& self.net_prod.len() == self.tariffs.len()
        &&& self.tariffs.len() <= MAX_QUARTERS
        &&& self.model.wf()
    }

    /// Price in quarter `i`.
    pub open spec fn tariff(&self, i: int) -> int {
        self.tariffs[i] as int
    }

    /// Household consumption in quarter `i`.
    pub open spec fn consumption(&self, i: int) -> int {
        self.cons[i] as int
    }

    /// Generation less consumption in quarter `i`.
    pub open spec fn net_production(&self, i: int) -> int {
        self.net_prod[i] as int
    }
}

impl Horizon {
    /// The length that the prices are said to have is the one they have,
    /// and the value of the horizon is well formed.
    pub open spec fn wf(&self) -> bool {
        &&& self.tariffs.buy.len() == self.tariffs.length
        &&& self@.wf()
    }
}

} // verus!
