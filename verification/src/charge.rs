//! Sizing and pricing of a charge from the grid.

use vstd::prelude::*;
use crate::battery::{BatteryModel, CHARGE_MAX};
use crate::schedule::{Horizon, HorizonModel};
use crate::units::{
    div_round, lemma_mul_bounds, lemma_round_quotient_bounds, round_quotient, EFF_SCALE,
    RESIDUE_MIN,
};

verus! {

/// Energy to draw from the grid to lift the stored charge from `charge` to
/// the target of `soc_level` percent above the reserve.
pub open spec fn charge_need(model: BatteryModel, soc_level: int, charge: int) -> int {
    round_quotient((soc_level * model.soc_kwh - charge) * EFF_SCALE, model.charge_eff as int)
}

/// Number of quarters that draw a full charge step.
pub open spec fn full_steps(model: BatteryModel, need: int) -> int {
    if need <= 0 {
        0
    } else {
        need / (model.charge_step_kwh as int)
    }
}

/// What is left of `need` after the full charge steps.
pub open spec fn residue(model: BatteryModel, need: int) -> int {
    if need <= 0 {
        0
    } else {
        need % (model.charge_step_kwh as int)
    }
}

/// Number of quarters that a charge of `need` takes: the full steps, and
/// one more for a residue of at least `RESIDUE_MIN`.
pub open spec fn charge_slots(model: BatteryModel, need: int) -> int {
    full_steps(model, need) + if residue(model, need) >= RESIDUE_MIN {
        1int
    } else {
        0int
    }
}

/// Energy drawn in the `k`-th quarter of a charge of `need`.
pub open spec fn increment(model: BatteryModel, need: int, k: int) -> int {
    if k < full_steps(model, need) {
        model.charge_step_kwh as int
    } else {
        residue(model, need)
    }
}

/// No quarter of a charge draws more than a charge step, or less than nothing.
pub proof fn lemma_increment(model: BatteryModel, need: int, k: int)
    requires
        model.wf(),
    ensures
        0 <= increment(model, need, k) <= model.charge_step_kwh,
        0 <= full_steps(model, need),
        0 <= residue(model, need) < model.charge_step_kwh,
        0 <= charge_slots(model, need),
{
    let step = model.charge_step_kwh as int;
    if need > 0 {
        assert(0 <= need % step < step && need / step >= 0) by (nonlinear_arith)
            requires
                need > 0,
                step > 0,
        ;
    }
}

impl HorizonModel {
    /// Quarter at which a charge of `need` that starts at `start` ends: it
    /// never runs past the horizon.
    pub open spec fn charge_end(&self, start: int, need: int) -> int {
        if start + charge_slots(self.model, need) < self.quarters() {
            start + charge_slots(self.model, need)
        } else {
            self.quarters()
        }
    }

    /// Cost of the energy drawn from the grid in `[start, end)` by a charge
    /// of `need` that starts at `start`.
    pub open spec fn charge_cost(&self, start: int, need: int, end: int) -> int
        decreases end - start,
    {
        if end <= start {
            0
        } else {
            self.charge_cost(start, need, end - 1) + self.tariff(end - 1) * increment(
                self.model,
                need,
                end - 1 - start,
            )
        }
    }

    /// A charge costs at most 2^62 per quarter.
    pub proof fn lemma_charge_cost(&self, start: int, need: int, end: int)
        requires
            self.wf(),
            0 <= start <= end <= self.quarters(),
        ensures
            -(end - start) * 0x4000_0000_0000_0000 <= self.charge_cost(start, need, end) <= (end
                - start) * 0x4000_0000_0000_0000,
        decreases end - start,
    {
        if start < end {
            self.lemma_charge_cost(start, need, end - 1);
            let drawn = increment(self.model, need, end - 1 - start);
            lemma_increment(self.model, need, end - 1 - start);
            lemma_mul_bounds(self.tariff(end - 1), drawn, 0x8000_0000, 0x8000_0000);
        }
    }

    /// A charge ends at or after its start, within the horizon, and takes
    /// no quarter where nothing is to be drawn.
    pub proof fn lemma_charge_end(&self, start: int, need: int)
        requires
            self.wf(),
            0 <= start <= self.quarters(),
        ensures
            start <= self.charge_end(start, need) <= self.quarters(),
            need <= 0 ==> self.charge_end(start, need) == start,
    {
        lemma_increment(self.model, need, 0);
    }
}

impl Horizon {
    /// Prices a charge of `charge` from the grid that starts at `start`, and
    /// says where it ends. The charge is drawn in full steps, then its
    /// residue if that is at least `RESIDUE_MIN`, and stops at the end of the
    /// horizon.
    pub fn charge_cost_charge_end(&self, start: usize, charge: i64) -> (r: (i128, usize))
        requires
            self.wf(),
            start <= self.tariffs.length,
        ensures
            r.1 == self@.charge_end(start as int, charge as int),
            r.0 == self@.charge_cost(start as int, charge as int, r.1 as int),
            start <= r.1 <= self.tariffs.length,
            -(r.1 - start) * 0x4000_0000_0000_0000 <= r.0 <= (r.1 - start) * 0x4000_0000_0000_0000,
    {
        let step: i128 = self.model.charge_step_kwh as i128;
        let need: i128 = charge as i128;
        let (full, rem): (i128, i128) = if need <= 0 {
            (0, 0)
        } else {
            (need / step, need % step)
        };
        let slots: i128 = if rem >= RESIDUE_MIN {
            full + 1
        } else {
            full
        };
        let end: usize = if start as i128 + slots < self.tariffs.length as i128 {
            (start as i128 + slots) as usize
        } else {
            self.tariffs.length
        };
        let mut cost: i128 = 0;
        let mut i: usize = start;
        while i < end
            invariant
                self.wf(),
                start <= i <= end <= self.tariffs.length,
                step == self.model.charge_step_kwh,
                full == full_steps(self.model, charge as int),
                rem == residue(self.model, charge as int),
                0 <= rem <= step,
                cost == self@.charge_cost(start as int, charge as int, i as int),
                -(i - start) * 0x4000_0000_0000_0000 <= cost <= (i - start) * 0x4000_0000_0000_0000,
            decreases end - i,
        {
            let drawn: i128 = if ((i - start) as i128) < full {
                step
            } else {
                rem
            };
            let tariff: i128 = self.tariffs.buy[i] as i128;
            proof {
                lemma_mul_bounds(tariff as int, drawn as int, 0x8000_0000, 0x8000_0000);
            }
            cost = cost + tariff * drawn;
            i += 1;
        }
        (cost, end)
    }

    /// Energy to draw from the grid to reach the target of `soc_level`
    /// percent from a stored charge of `charge`.
    pub fn charge_needed(&self, soc_level: usize, charge: i64) -> (need: i64)
        requires
            self.wf(),
            soc_level <= 100,
            -CHARGE_MAX <= charge <= CHARGE_MAX,
        ensures
            need == charge_need(self.model, soc_level as int, charge as int),
    {
        proof {
            lemma_mul_bounds(soc_level as int, self.model.soc_kwh as int, 100, 0x8000_0000);
        }
        let target: i128 = soc_level as i128 * self.model.soc_kwh as i128;
        proof {
            lemma_round_quotient_bounds(
                (target - charge) * EFF_SCALE,
                self.model.charge_eff as int,
            );
        }
        div_round((target - charge as i128) * EFF_SCALE, self.model.charge_eff as i128) as i64
    }
}

} // verus!
