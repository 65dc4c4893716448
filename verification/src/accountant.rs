//! Cost and ending charge of one period under one block type.

use vstd::prelude::*;
use crate::battery::{BatteryModel, CHARGE_MAX};
use crate::block::{BlockType, PeriodMetrics};
use crate::schedule::{Horizon, HorizonModel};
use crate::units::{
    div_round, lemma_mul_bounds, lemma_round_quotient_bounds, round_quotient, EFF_SCALE,
    MAX_QUARTERS,
};

verus! {

/// The largest magnitude of the cost of one quarter, 2^104.
pub const SLOT_COST_MAX: i128 = 0x0100_0000_0000_0000_0000_0000_0000;

/// Change of the stored charge that a net production of `net_prod` asks for:
/// a deficit drains more than it delivers, a surplus stores less than it offers.
pub open spec fn flow(model: BatteryModel, net_prod: int) -> int {
    if net_prod < 0 {
        round_quotient(net_prod * EFF_SCALE, model.discharge_eff as int)
    } else {
        round_quotient(net_prod * model.charge_eff, EFF_SCALE as int)
    }
}

/// Energy bought from the grid to make up for `deficit` on the battery's side.
pub open spec fn grid_energy(model: BatteryModel, net_prod: int, deficit: int) -> int {
    if net_prod < 0 {
        round_quotient(deficit * model.discharge_eff, EFF_SCALE as int)
    } else {
        round_quotient(deficit * EFF_SCALE, model.charge_eff as int)
    }
}

/// Charge after a quarter that began with `charge`: never below `hold_level`
/// once the grid has filled in, never above the capacity ceiling.
pub open spec fn slot_charge(model: BatteryModel, hold_level: int, charge: int, net_prod: int) -> int {
    let net_add = charge + flow(model, net_prod);
    if net_add < hold_level {
        hold_level
    } else if net_add < model.bat_kwh {
        net_add
    } else {
        model.bat_kwh as int
    }
}

/// Cost of a quarter that began with `charge`: what is missing down to
/// `hold_level` is bought at `tariff`.
pub open spec fn slot_cost(
    model: BatteryModel,
    hold_level: int,
    charge: int,
    net_prod: int,
    tariff: int,
) -> int {
    let net_add = charge + flow(model, net_prod);
    if net_add < hold_level {
        tariff * grid_energy(model, net_prod, hold_level - net_add)
    } else {
        0
    }
}

/// The level that a block of `block_type` keeps in the battery.
pub open spec fn hold_level_of(block_type: BlockType, charge_in: int) -> int {
    if block_type == BlockType::Use {
        0
    } else {
        charge_in
    }
}

/// `x` lies between `a` and `b`, whichever is the larger.
pub open spec fn between(x: int, a: int, b: int) -> bool {
    (a <= x <= b) || (b <= x <= a)
}

/// One quarter costs at most `SLOT_COST_MAX`, and leaves the charge
/// between the hold level and the capacity ceiling, or where it was.
pub proof fn lemma_slot(model: BatteryModel, hold_level: int, charge: int, net_prod: int, tariff: int)
    requires
        model.wf(),
        -CHARGE_MAX <= hold_level <= CHARGE_MAX,
        -CHARGE_MAX <= charge <= CHARGE_MAX,
        -0x8000_0000 <= net_prod < 0x8000_0000,
        -0x8000_0000 <= tariff < 0x8000_0000,
    ensures
        -SLOT_COST_MAX <= slot_cost(model, hold_level, charge, net_prod, tariff) <= SLOT_COST_MAX,
        between(slot_charge(model, hold_level, charge, net_prod), hold_level, model.bat_kwh as int),
        -CHARGE_MAX <= slot_charge(model, hold_level, charge, net_prod) <= CHARGE_MAX,
        -0x200_0000_0000 <= flow(model, net_prod) <= 0x4000_0000_0000_0000,
        net_prod < 0 ==> flow(model, net_prod) <= 0,
        net_prod >= 0 ==> flow(model, net_prod) >= 0,
        charge + flow(model, net_prod) < hold_level ==> 0 <= grid_energy(
            model,
            net_prod,
            hold_level - (charge + flow(model, net_prod)),
        ) <= 0x200_0000_0000_0000_0000,
{
    let scale = EFF_SCALE as int;
    let discharge_eff = model.discharge_eff as int;
    let charge_eff = model.charge_eff as int;
    lemma_mul_bounds(net_prod, charge_eff, 0x8000_0000, 0x8000_0000);
    lemma_round_quotient_bounds(net_prod * scale, discharge_eff);
    lemma_round_quotient_bounds(net_prod * charge_eff, scale);
    if net_prod >= 0 {
        assert(net_prod * charge_eff >= 0) by (nonlinear_arith)
            requires
                net_prod >= 0,
                charge_eff > 0,
        ;
    }
    let net_add = charge + flow(model, net_prod);
    if net_add < hold_level {
        let deficit = hold_level - net_add;
        lemma_mul_bounds(deficit, discharge_eff, 0x400_0000_0000, 0x8000_0000);
        assert(deficit * discharge_eff >= 0) by (nonlinear_arith)
            requires
                deficit > 0,
                discharge_eff > 0,
        ;
        lemma_round_quotient_bounds(deficit * discharge_eff, scale);
        lemma_round_quotient_bounds(deficit * scale, charge_eff);
        let bought = grid_energy(model, net_prod, deficit);
        lemma_mul_bounds(tariff, bought, 0x8000_0000, 0x200_0000_0000_0000_0000);
    }
}

impl HorizonModel {
    /// Charge at the end of `[start, end)` walked quarter by quarter from `charge_in`.
    pub open spec fn period_charge(&self, hold_level: int, charge_in: int, start: int, end: int) -> int
        decreases end - start,
    {
        if end <= start {
            charge_in
        } else {
            slot_charge(
                self.model,
                hold_level,
                self.period_charge(hold_level, charge_in, start, end - 1),
                self.net_production(end - 1),
            )
        }
    }

    /// Cost of the grid purchases in `[start, end)` walked quarter by quarter from `charge_in`.
    pub open spec fn period_cost(&self, hold_level: int, charge_in: int, start: int, end: int) -> int
        decreases end - start,
    {
        if end <= start {
            0
        } else {
            self.period_cost(hold_level, charge_in, start, end - 1) + slot_cost(
                self.model,
                hold_level,
                self.period_charge(hold_level, charge_in, start, end - 1),
                self.net_production(end - 1),
                self.tariff(end - 1),
            )
        }
    }

    /// Cost of the household's consumption in `[start, end)` bought from the grid.
    pub open spec fn consumption_cost(&self, start: int, end: int) -> int
        decreases end - start,
    {
        if end <= start {
            0
        } else {
            self.consumption_cost(start, end - 1) + self.tariff(end - 1) * self.consumption(end - 1)
        }
    }

    /// Cost of a period of `block_type`: the household's consumption while
    /// charging, else the grid purchases of the walk.
    pub open spec fn metrics_cost(&self, block_type: BlockType, start: int, end: int, charge_in: int) -> int {
        if block_type == BlockType::Charge {
            self.consumption_cost(start, end)
        } else {
            self.period_cost(hold_level_of(block_type, charge_in), charge_in, start, end)
        }
    }

    /// Charge at the end of a period of `block_type`: unchanged while
    /// charging, else the charge at the end of the walk.
    pub open spec fn metrics_charge(&self, block_type: BlockType, start: int, end: int, charge_in: int) -> int {
        if block_type == BlockType::Charge {
            charge_in
        } else {
            self.period_charge(hold_level_of(block_type, charge_in), charge_in, start, end)
        }
    }

    /// A period costs at most `SLOT_COST_MAX` per quarter and leaves the
    /// charge in range; a charge that starts within the capacity stays there.
    pub proof fn lemma_period(&self, hold_level: int, charge_in: int, start: int, end: int)
        requires
            self.wf(),
            0 <= start <= end <= self.quarters(),
            -CHARGE_MAX <= hold_level <= CHARGE_MAX,
            -CHARGE_MAX <= charge_in <= CHARGE_MAX,
        ensures
            -(end - start) * SLOT_COST_MAX <= self.period_cost(hold_level, charge_in, start, end) <= (
            end - start) * SLOT_COST_MAX,
            -CHARGE_MAX <= self.period_charge(hold_level, charge_in, start, end) <= CHARGE_MAX,
            0 <= hold_level <= self.model.bat_kwh && 0 <= charge_in <= self.model.bat_kwh ==> 0
                <= self.period_charge(hold_level, charge_in, start, end) <= self.model.bat_kwh,
            start == end ==> self.period_cost(hold_level, charge_in, start, end) == 0
                && self.period_charge(hold_level, charge_in, start, end) == charge_in,
        decreases end - start,
    {
        if start < end {
            self.lemma_period(hold_level, charge_in, start, end - 1);
            lemma_slot(
                self.model,
                hold_level,
                self.period_charge(hold_level, charge_in, start, end - 1),
                self.net_production(end - 1),
                self.tariff(end - 1),
            );
        }
    }

    /// The household's consumption over a period costs at most 2^62 per quarter.
    pub proof fn lemma_consumption_cost(&self, start: int, end: int)
        requires
            self.wf(),
            0 <= start <= end <= self.quarters(),
        ensures
            -(end - start) * 0x4000_0000_0000_0000 <= self.consumption_cost(start, end) <= (end
                - start) * 0x4000_0000_0000_0000,
        decreases end - start,
    {
        if start < end {
            self.lemma_consumption_cost(start, end - 1);
            lemma_mul_bounds(
                self.tariff(end - 1),
                self.consumption(end - 1),
                0x8000_0000,
                0x8000_0000,
            );
        }
    }
}

impl Horizon {
    /// Adds the net production of quarter `np_idx` to the period: the charge
    /// follows it between the hold level and the capacity ceiling, and what
    /// is missing down to the hold level is bought at the quarter's price.
    pub fn add_net_prod(&self, np_idx: usize, np_item: i32, pm: &mut PeriodMetrics)
        requires
            self.wf(),
            np_idx < self.tariffs.length,
            -CHARGE_MAX <= old(pm).charge_out <= CHARGE_MAX,
            -CHARGE_MAX <= old(pm).hold_level <= CHARGE_MAX,
            -MAX_QUARTERS * SLOT_COST_MAX <= old(pm).cost <= MAX_QUARTERS * SLOT_COST_MAX,
        ensures
            final(pm).charge_out == slot_charge(
                self.model,
                old(pm).hold_level as int,
                old(pm).charge_out as int,
                np_item as int,
            ),
            final(pm).cost == old(pm).cost + slot_cost(
                self.model,
                old(pm).hold_level as int,
                old(pm).charge_out as int,
                np_item as int,
                self@.tariff(np_idx as int),
            ),
            -SLOT_COST_MAX <= final(pm).cost - old(pm).cost <= SLOT_COST_MAX,
            final(pm).block_type == old(pm).block_type,
            final(pm).start == old(pm).start,
            final(pm).size == old(pm).size,
            final(pm).charge_in == old(pm).charge_in,
            final(pm).hold_level == old(pm).hold_level,
    {
        let np: i128 = np_item as i128;
        let scale: i128 = EFF_SCALE;
        let tariff: i128 = self.tariffs.buy[np_idx] as i128;
        let hold: i128 = pm.hold_level as i128;
        let discharge_eff: i128 = self.model.discharge_eff as i128;
        let charge_eff: i128 = self.model.charge_eff as i128;
        proof {
            lemma_slot(self.model, hold as int, pm.charge_out as int, np as int, tariff as int);
            lemma_mul_bounds(np as int, charge_eff as int, 0x8000_0000, 0x8000_0000);
        }
        let change: i128 = if np < 0 {
            div_round(np * scale, discharge_eff)
        } else {
            div_round(np * charge_eff, scale)
        };
        let net_add: i128 = pm.charge_out as i128 + change;
        if net_add < hold {
            let deficit: i128 = hold - net_add;
            proof {
                lemma_mul_bounds(deficit as int, discharge_eff as int, 0x400_0000_0000, 0x8000_0000);
            }
            let bought: i128 = if np < 0 {
                div_round(deficit * discharge_eff, scale)
            } else {
                div_round(deficit * scale, charge_eff)
            };
            proof {
                lemma_mul_bounds(
                    tariff as int,
                    bought as int,
                    0x8000_0000,
                    0x200_0000_0000_0000_0000,
                );
            }
            pm.cost = pm.cost + tariff * bought;
            pm.charge_out = pm.hold_level;
        } else if net_add < self.model.bat_kwh as i128 {
            pm.charge_out = net_add as i64;
        } else {
            pm.charge_out = self.model.bat_kwh as i64;
        }
    }

    /// Accounts for the period `[start, end)` under `block_type`, entered
    /// with `charge_in`. A Hold keeps the charge it came with, a Use may
    /// drain the battery; both take in the surplus of the panels. A Charge
    /// leaves the panels out and pays for the household's consumption.
    pub fn update_for_pv(&self, block_type: BlockType, start: usize, end: usize, charge_in: i64) -> (pm:
        PeriodMetrics)
        requires
            self.wf(),
            start <= end <= self.tariffs.length,
            -CHARGE_MAX <= charge_in <= CHARGE_MAX,
        ensures
            pm.block_type == block_type,
            pm.start == start,
            pm.size == end - start,
            pm.charge_in == charge_in,
            pm.hold_level == hold_level_of(block_type, charge_in as int),
            pm.cost == self@.metrics_cost(block_type, start as int, end as int, charge_in as int),
            pm.charge_out == self@.metrics_charge(
                block_type,
                start as int,
                end as int,
                charge_in as int,
            ),
            -(end - start) * SLOT_COST_MAX <= pm.cost <= (end - start) * SLOT_COST_MAX,
            block_type == BlockType::Charge ==> -(end - start) * 0x4000_0000_0000_0000 <= pm.cost
                <= (end - start) * 0x4000_0000_0000_0000,
            -CHARGE_MAX <= pm.charge_out <= CHARGE_MAX,
            0 <= charge_in <= self.model.bat_kwh ==> 0 <= pm.charge_out <= self.model.bat_kwh,
    {
        let mut pm = PeriodMetrics {
            block_type,
            start,
            size: end - start,
            charge_in,
            charge_out: charge_in,
            hold_level: if block_type != BlockType::Use {
                charge_in
            } else {
                0
            },
            cost: 0,
        };
        let ghost hold = pm.hold_level as int;
        if block_type == BlockType::Charge {
            let mut i: usize = start;
            while i < end
                invariant
                    self.wf(),
                    start <= i <= end <= self.tariffs.length,
                    pm.cost == self@.consumption_cost(start as int, i as int),
                    -(i - start) * 0x4000_0000_0000_0000 <= pm.cost <= (i - start)
                        * 0x4000_0000_0000_0000,
                    pm.block_type == block_type,
                    pm.start == start,
                    pm.size == end - start,
                    pm.charge_in == charge_in,
                    pm.charge_out == charge_in,
                    pm.hold_level == hold,
                decreases end - i,
            {
                let tariff: i128 = self.tariffs.buy[i] as i128;
                let used: i128 = self.cons[i] as i128;
                proof {
                    lemma_mul_bounds(tariff as int, used as int, 0x8000_0000, 0x8000_0000);
                }
                pm.cost = pm.cost + tariff * used;
                i += 1;
            }
        } else {
            let mut i: usize = start;
            while i < end
                invariant
                    self.wf(),
                    start <= i <= end <= self.tariffs.length,
                    pm.cost == self@.period_cost(hold, charge_in as int, start as int, i as int),
                    pm.charge_out == self@.period_charge(
                        hold,
                        charge_in as int,
                        start as int,
                        i as int,
                    ),
                    -(i - start) * SLOT_COST_MAX <= pm.cost <= (i - start) * SLOT_COST_MAX,
                    -CHARGE_MAX <= pm.charge_out <= CHARGE_MAX,
                    -CHARGE_MAX <= hold <= CHARGE_MAX,
                    hold == hold_level_of(block_type, charge_in as int),
                    0 <= charge_in <= self.model.bat_kwh ==> 0 <= pm.charge_out
                        <= self.model.bat_kwh,
                    pm.block_type == block_type,
                    pm.start == start,
                    pm.size == end - start,
                    pm.charge_in == charge_in,
                    pm.hold_level == hold,
                decreases end - i,
            {
                let np_item = self.net_prod[i];
                self.add_net_prod(i, np_item, &mut pm);
                i += 1;
            }
        }
        pm
    }
}

} // verus!
