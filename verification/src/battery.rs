//! The battery as the scheduler sees it.

use vstd::prelude::*;
use crate::errors::SchedulerError;
use crate::units::{
    div_round, lemma_mul_bounds, lemma_mul_nonneg, lemma_round_quotient_bounds, round_quotient,
    MAX_TARGET, MIN_SOC,
};

verus! {

/// The largest magnitude a stored charge can take: ninety times the largest `soc_kwh`.
pub const CHARGE_MAX: i64 = 193_273_528_320;

/// Capacity, charge rate and efficiencies of the battery. Energies are in
/// millionths of a kWh, efficiencies in per-mille.
#[derive(Clone, Copy, Debug, PartialEq, Eq, Structural)]
pub struct BatteryModel {
    /// Usable capacity ceiling.
    pub bat_kwh: i32,
    /// Energy per percent of state of charge.
    pub soc_kwh: i32,
    /// Most energy drawn from the grid per quarter while charging.
    pub charge_step_kwh: i32,
    /// Share of the energy drawn while charging that ends up stored.
    pub charge_eff: i32,
    /// Share of the stored energy that reaches the household.
    pub discharge_eff: i32,
    /// State of charge, in percent, that is never used.
    pub min_soc_pct: u8,
    /// Least improvement over the baseline, in cost units, for which a schedule is preferred.
    pub min_saving: i64,
}

impl BatteryModel {
    /// The parameters that must be positive are, and the reserve is the fixed one.
    pub open spec fn wf(&self) -> bool {
        &&& self.soc_kwh > 0
        &&& self.charge_step_kwh > 0
        &&& self.charge_eff > 0
        &&& self.discharge_eff > 0
        &&& self.min_soc_pct == MIN_SOC
    }

    /// The capacity ceiling holds the highest charge target.
    pub open spec fn reserve_fits(&self) -> bool {
        MAX_TARGET * self.soc_kwh <= self.bat_kwh
    }

    /// Stored energy above the reserve at a state of charge of `soc` percent;
    /// a state outside 10..=100 counts as the nearest end.
    pub open spec fn spec_charge_of_soc(&self, soc: int) -> int {
        let held = if soc < 10 {
            10
        } else if soc > 100 {
            100
        } else {
            soc
        };
        (held - 10) * self.soc_kwh
    }

    /// State of charge, in percent, of a stored energy of `charge` above the reserve.
    pub open spec fn spec_soc_of_charge(&self, charge: int) -> int {
        let above = round_quotient(charge, self.soc_kwh as int);
        if above < 0 {
            10
        } else if above > 90 {
            100
        } else {
            10 + above
        }
    }

    /// Builds a model, or refuses one in which `soc_kwh`, `charge_step_kwh`,
    /// `charge_eff` or `discharge_eff` is not positive.
    pub fn new(
        bat_kwh: i32,
        soc_kwh: i32,
        charge_step_kwh: i32,
        charge_eff: i32,
        discharge_eff: i32,
        min_saving: i64,
    ) -> (r: Result<BatteryModel, SchedulerError>)
        ensures
            r is Ok <==> soc_kwh > 0 && charge_step_kwh > 0 && charge_eff > 0 && discharge_eff > 0,
            r is Err ==> r == Err::<BatteryModel, SchedulerError>(SchedulerError::InvalidBatteryModel),
            r is Ok ==> r->Ok_0.wf() && r->Ok_0 == (BatteryModel {
                bat_kwh,
                soc_kwh,
                charge_step_kwh,
                charge_eff,
                discharge_eff,
                min_soc_pct: MIN_SOC,
                min_saving,
            }),
    {
        if soc_kwh <= 0 || charge_step_kwh <= 0 || charge_eff <= 0 || discharge_eff <= 0 {
            Err(SchedulerError::InvalidBatteryModel)
        } else {
            Ok(
                BatteryModel {
                    bat_kwh,
                    soc_kwh,
                    charge_step_kwh,
                    charge_eff,
                    discharge_eff,
                    min_soc_pct: MIN_SOC,
                    min_saving,
                },
            )
        }
    }

    /// Whether the model is well formed.
    pub fn is_valid(&self) -> (r: bool)
        ensures
            r == self.wf(),
    {
        self.soc_kwh > 0 && self.charge_step_kwh > 0 && self.charge_eff > 0
            && self.discharge_eff > 0 && self.min_soc_pct == MIN_SOC
    }

    /// Stored energy above the reserve at a state of charge of `soc` percent.
    pub fn charge_of_soc(&self, soc: u8) -> (r: i64)
        ensures
            r == self.spec_charge_of_soc(soc as int),
            self.soc_kwh > 0 ==> 0 <= r <= MAX_TARGET * self.soc_kwh,
            -CHARGE_MAX <= r <= CHARGE_MAX,
    {
        let held: i64 = if soc < 10 {
            10
        } else if soc > 100 {
            100
        } else {
            soc as i64
        };
        proof {
            lemma_mul_bounds(held - 10, self.soc_kwh as int, 90, 0x8000_0000);
            if self.soc_kwh > 0 {
                lemma_mul_nonneg(held - 10, self.soc_kwh as int, 90, self.soc_kwh as int);
            }
        }
        (held - 10) * (self.soc_kwh as i64)
    }

    /// State of charge, in percent, of a stored energy of `charge` above the reserve.
    pub fn soc_of_charge(&self, charge: i64) -> (r: usize)
        requires
            self.wf(),
        ensures
            r == self.spec_soc_of_charge(charge as int),
            10 <= r <= 100,
    {
        let above = div_round(charge as i128, self.soc_kwh as i128);
        if above < 0 {
            10
        } else if above > 90 {
            100
        } else {
            10 + above as usize
        }
    }
}

/// A state of charge is between 10 and 100 percent, and grows with the charge.
pub proof fn lemma_soc_of_charge(m: BatteryModel, c1: int, c2: int)
    requires
        m.wf(),
        c1 <= c2,
    ensures
        10 <= m.spec_soc_of_charge(c1) <= m.spec_soc_of_charge(c2) <= 100,
        c1 >= 0 ==> m.spec_soc_of_charge(c1) == if round_quotient(c1, m.soc_kwh as int) > 90 {
            100
        } else {
            10 + round_quotient(c1, m.soc_kwh as int)
        },
{
    crate::units::lemma_round_quotient_monotone(c1, c2, m.soc_kwh as int);
    lemma_round_quotient_bounds(c1, m.soc_kwh as int);
}

} // verus!
