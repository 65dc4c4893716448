//! What holds of every schedule that a planning run returns.

use vstd::prelude::*;
use crate::accountant::{flow, grid_energy, slot_charge, slot_cost};
use crate::assemble::{lemma_result_blocks, result_block, result_blocks};
use crate::battery::{lemma_soc_of_charge, BatteryModel, CHARGE_MAX};
use crate::block::{
    chained, charges_within, lemma_tiles_sizes, sum_costs, sum_sizes, tiles, BlockModel,
    BlockType,
};
use crate::charge::charge_need;
use crate::schedule::{Horizon, HorizonModel};
use crate::seek::{optional_block, spec_combine};
use crate::units::{
    lemma_mul_bounds, lemma_mul_nonneg, lemma_round_quotient_bounds, lemma_round_quotient_close,
    lemma_round_to_cent_close, lemma_round_trip, round_quotient, round_to_cent, CENT, EFF_SCALE,
    MAX_TARGET, SOC_STEP,
};

verus! {

impl HorizonModel {
    /// The charge with which the horizon is entered is within range, and
    /// within the capacity where that holds the highest target.
    pub proof fn lemma_charge_in(&self, soc_in: int)
        requires
            self.wf(),
        ensures
            0 <= self.model.spec_charge_of_soc(soc_in) <= MAX_TARGET * self.model.soc_kwh,
            self.model.spec_charge_of_soc(soc_in) <= CHARGE_MAX,
            self.model.reserve_fits() ==> self.in_capacity(self.model.spec_charge_of_soc(soc_in)),
    {
        let held = if soc_in < 10 {
            10
        } else if soc_in > 100 {
            100
        } else {
            soc_in
        };
        lemma_mul_nonneg(held - 10, self.model.soc_kwh as int, 90, self.model.soc_kwh as int);
        lemma_mul_bounds(held - 10, self.model.soc_kwh as int, 90, 0x8000_0000);
    }

    /// The schedule that is returned covers the horizon, as the best of
    /// the search and the baseline both do.
    pub proof fn lemma_schedule_ok(&self, soc_in: int)
        requires
            self.wf(),
        ensures
            self.complete_ok(self.spec_schedule(soc_in), self.model.spec_charge_of_soc(soc_in)),
    {
        let charge_in = self.model.spec_charge_of_soc(soc_in);
        self.lemma_charge_in(soc_in);
        self.lemma_seek_best_ok(charge_in);
        self.lemma_baseline_ok(charge_in);
    }

    /// The blocks of the returned schedule tile the horizon without gap or
    /// overlap, and their sizes add up to its length.
    pub proof fn schedule_tiles_horizon(&self, soc_in: int)
        requires
            self.wf(),
        ensures
            tiles(self.spec_schedule(soc_in).blocks, 0, self.quarters()),
            sum_sizes(self.spec_schedule(soc_in).blocks) == self.quarters(),
    {
        self.lemma_schedule_ok(soc_in);
        lemma_tiles_sizes(self.spec_schedule(soc_in).blocks, 0, self.quarters());
    }

    /// The returned schedule never costs more than the baseline: it beats
    /// the baseline by more than the least saving, or it is the baseline.
    pub proof fn schedule_beats_baseline_or_is_it(&self, soc_in: int)
        requires
            self.wf(),
        ensures
            ({
                let charge_in = self.model.spec_charge_of_soc(soc_in);
                let chosen = self.spec_schedule(soc_in);
                let baseline = self.spec_baseline(charge_in);
                &&& chosen.total_cost <= baseline.total_cost
                &&& chosen.total_cost < baseline.total_cost - self.model.min_saving || chosen
                    == baseline
            }),
    {
        let charge_in = self.model.spec_charge_of_soc(soc_in);
        self.lemma_charge_in(soc_in);
        self.lemma_seek_best_ok(charge_in);
    }

    /// In the returned schedule each block starts with the charge that the
    /// block before it ended with, the first one with the charge that the
    /// horizon is entered with. Where the capacity ceiling holds the
    /// highest charge target, every block ends with a charge between
    /// nothing and the ceiling.
    pub proof fn schedule_hands_charge_on(&self, soc_in: int)
        requires
            self.wf(),
        ensures
            chained(
                self.spec_schedule(soc_in).blocks,
                self.model.spec_charge_of_soc(soc_in),
                self.spec_schedule(soc_in).next_charge_in,
            ),
            self.model.reserve_fits() ==> charges_within(
                self.spec_schedule(soc_in).blocks,
                0,
                self.model.bat_kwh as int,
            ),
    {
        self.lemma_schedule_ok(soc_in);
        self.lemma_charge_in(soc_in);
    }

    /// The cost of the returned schedule is the sum of the costs of its
    /// blocks rounded to hundredths, so the two differ by at most half a hundredth.
    pub proof fn schedule_cost_is_rounded_sum(&self, soc_in: int)
        requires
            self.wf(),
        ensures
            self.spec_schedule(soc_in).total_cost == round_to_cent(
                sum_costs(self.spec_schedule(soc_in).blocks),
            ),
            -(CENT / 2) <= self.spec_schedule(soc_in).total_cost - sum_costs(
                self.spec_schedule(soc_in).blocks,
            ) <= CENT / 2,
    {
        self.lemma_schedule_ok(soc_in);
        lemma_round_to_cent_close(sum_costs(self.spec_schedule(soc_in).blocks));
    }

    /// Every block of the schedule stands for the block of the returned
    /// collection at the same place, and its states of charge are those of
    /// its charges: between 10 and 100 percent.
    pub proof fn schedule_soc_follows_charge(&self, soc_in: int, date_time: int, i: int)
        requires
            self.wf(),
            0 <= i < self.spec_schedule(soc_in).blocks.len(),
        ensures
            ({
                let chosen = self.spec_schedule(soc_in).blocks;
                let out = result_blocks(self.model, date_time, chosen);
                &&& out.len() == chosen.len()
                &&& out[i] == result_block(self.model, date_time, chosen[i])
                &&& out[i].soc_in == self.model.spec_soc_of_charge(chosen[i].charge_in)
                &&& out[i].soc_out == self.model.spec_soc_of_charge(chosen[i].charge_out)
                &&& 10 <= out[i].soc_in <= 100
                &&& 10 <= out[i].soc_out <= 100
            }),
    {
        self.lemma_schedule_ok(soc_in);
        let chosen = self.spec_schedule(soc_in).blocks;
        lemma_result_blocks(self.model, date_time, chosen);
        lemma_soc_of_charge(self.model, chosen[i].charge_in, chosen[i].charge_in);
        lemma_soc_of_charge(self.model, chosen[i].charge_out, chosen[i].charge_out);
    }
}

impl HorizonModel {
    /// Nothing is generated: the net production is the consumption, negated.
    pub open spec fn without_generation(&self) -> bool {
        forall|i: int|
            0 <= i < self.quarters() ==> (#[trigger] self.cons[i]) >= 0 && self.net_prod[i]
                == -self.cons[i]
    }

    /// The panels never yield more than the household consumes.
    pub open spec fn without_surplus(&self) -> bool {
        forall|i: int| 0 <= i < self.quarters() ==> (#[trigger] self.net_prod[i]) <= 0
    }

    /// With an empty battery and nothing generated, a Use buys all that
    /// the household consumes.
    pub proof fn lemma_use_without_charge(&self, end: int)
        requires
            self.wf(),
            self.without_generation(),
            0 <= end <= self.quarters(),
            self.model.discharge_eff <= EFF_SCALE,
            self.model.bat_kwh >= 0,
        ensures
            self.period_charge(0, 0, 0, end) == 0,
            self.period_cost(0, 0, 0, end) == self.consumption_cost(0, end),
        decreases end,
    {
        if end > 0 {
            self.lemma_use_without_charge(end - 1);
            let used = self.cons[end - 1] as int;
            assert(self.net_prod[end - 1] == -used);
            let drained = round_quotient(used * EFF_SCALE, self.model.discharge_eff as int);
            lemma_round_trip(used, self.model.discharge_eff as int);
            lemma_round_quotient_bounds(used * EFF_SCALE, self.model.discharge_eff as int);
            lemma_round_quotient_bounds(0, EFF_SCALE as int);
            vstd::arithmetic::mul::lemma_mul_basics(self.model.discharge_eff as int);
            vstd::arithmetic::mul::lemma_mul_basics(self.model.charge_eff as int);
            vstd::arithmetic::mul::lemma_mul_basics(self.tariff(end - 1));
            if used > 0 {
                assert((-used) * EFF_SCALE == -(used * EFF_SCALE));
                assert(flow(self.model, -used) == -drained);
                assert(drained > 0);
                assert(grid_energy(self.model, -used, drained) == used);
                assert(slot_cost(self.model, 0, 0, -used, self.tariff(end - 1)) == self.tariff(
                    end - 1,
                ) * used);
                assert(slot_charge(self.model, 0, 0, -used) == 0);
            } else {
                assert(flow(self.model, 0) == 0);
                assert(slot_cost(self.model, 0, 0, 0, self.tariff(end - 1)) == 0);
                assert(slot_charge(self.model, 0, 0, 0) == 0);
            }
        }
    }

    /// With the battery at its reserve and nothing generated, the baseline
    /// costs what the household's consumption costs at the prices of the
    /// grid, rounded to hundredths.
    pub proof fn baseline_without_generation(&self, soc_in: int)
        requires
            self.wf(),
            self.without_generation(),
            soc_in <= 10,
            self.model.discharge_eff <= EFF_SCALE,
            self.model.bat_kwh >= 0,
        ensures
            self.spec_baseline(self.model.spec_charge_of_soc(soc_in)).total_cost == round_to_cent(
                self.consumption_cost(0, self.quarters()),
            ),
    {
        vstd::arithmetic::mul::lemma_mul_basics(self.model.soc_kwh as int);
        assert(self.model.spec_charge_of_soc(soc_in) == 0);
        self.lemma_use_without_charge(self.quarters());
    }

    /// At a price of `price` and a consumption of `used` in every quarter,
    /// the consumption of `end` quarters costs `end * price * used`.
    pub proof fn flat_consumption_cost(&self, end: int, used: int, price: int)
        requires
            self.wf(),
            0 <= end <= self.quarters(),
            forall|i: int|
                0 <= i < end ==> (#[trigger] self.cons[i]) == used && self.tariffs[i] == price,
        ensures
            self.consumption_cost(0, end) == end * (price * used),
        decreases end,
    {
        if end > 0 {
            self.flat_consumption_cost(end - 1, used, price);
            assert(self.cons[end - 1] == used);
            assert(end * (price * used) == (end - 1) * (price * used) + price * used)
                by (nonlinear_arith);
        }
    }

    /// With the battery at its reserve, nothing generated, and the same
    /// price `price` and consumption `used` in every quarter, the baseline
    /// costs the number of quarters times `price * used`, rounded to
    /// hundredths.
    pub proof fn flat_baseline_cost(&self, soc_in: int, used: int, price: int)
        requires
            self.wf(),
            soc_in <= 10,
            used >= 0,
            self.model.discharge_eff <= EFF_SCALE,
            self.model.bat_kwh >= 0,
            forall|i: int|
                0 <= i < self.quarters() ==> (#[trigger] self.cons[i]) == used && self.net_prod[i]
                    == -used && self.tariffs[i] == price,
        ensures
            self.spec_baseline(self.model.spec_charge_of_soc(soc_in)).total_cost == round_to_cent(
                self.quarters() * (price * used),
            ),
    {
        assert(self.without_generation()) by {
            assert forall|i: int| 0 <= i < self.quarters() implies (#[trigger] self.cons[i]) >= 0
                && self.net_prod[i] == -self.cons[i] by {}
        }
        self.baseline_without_generation(soc_in);
        self.flat_consumption_cost(self.quarters(), used, price);
    }

    /// Where the panels yield no surplus, a Hold ends with the charge it
    /// began with, if that is within the capacity.
    pub proof fn lemma_hold_keeps_charge(&self, charge_in: int, start: int, end: int)
        requires
            self.wf(),
            self.without_surplus(),
            0 <= start <= end <= self.quarters(),
            0 <= charge_in <= self.model.bat_kwh,
            charge_in <= CHARGE_MAX,
        ensures
            self.period_charge(charge_in, charge_in, start, end) == charge_in,
        decreases end - start,
    {
        if start < end {
            self.lemma_hold_keeps_charge(charge_in, start, end - 1);
            let net_prod = self.net_prod[end - 1] as int;
            assert(net_prod <= 0);
            lemma_round_quotient_bounds(net_prod * EFF_SCALE, self.model.discharge_eff as int);
            lemma_round_quotient_bounds(0, EFF_SCALE as int);
            vstd::arithmetic::mul::lemma_mul_basics(self.model.charge_eff as int);
        }
    }

    /// With a full battery and no surplus from the panels, nothing is
    /// charged before the first use: the first part of every candidate is
    /// a Hold alone.
    pub proof fn full_battery_takes_no_first_charge(&self, soc_in: int, start: int, level: int)
        requires
            self.wf(),
            self.without_surplus(),
            self.model.reserve_fits(),
            soc_in >= 100,
            0 <= start <= self.quarters(),
            0 <= level <= MAX_TARGET,
        ensures
            ({
                let charge_in = self.model.spec_charge_of_soc(soc_in);
                let part = self.spec_seek_charge(0, start, level, charge_in);
                &&& part.blocks == optional_block(self.hold_block(0, start, charge_in))
                &&& part.next_start == start
                &&& part.next_charge_in == charge_in
                &&& forall|i: int|
                    0 <= i < part.blocks.len() ==> (#[trigger] part.blocks[i]).block_type
                        != BlockType::Charge
            }),
    {
        let charge_in = self.model.spec_charge_of_soc(soc_in);
        self.lemma_charge_in(soc_in);
        self.lemma_hold_keeps_charge(charge_in, 0, start);
        let k = self.model.soc_kwh as int;
        assert(charge_in == 90 * k);
        assert(level * k <= 90 * k) by (nonlinear_arith)
            requires
                level <= 90,
                k > 0,
        ;
        assert((level * k - charge_in) * EFF_SCALE <= 0);
        lemma_round_quotient_bounds((level * k - charge_in) * EFF_SCALE, self.model.charge_eff as int);
        assert(charge_need(self.model, level, charge_in) <= 0);
        let hold = self.hold_block(0, start, charge_in);
        let charge = self.charge_block(start, level, hold.charge_out);
        assert(charge.size == 0);
        assert(optional_block(charge) =~= Seq::<BlockModel>::empty());
        let part = self.spec_seek_charge(0, start, level, charge_in);
        assert(part.blocks =~= optional_block(hold));
    }
}

impl HorizonModel {
    /// In a horizon of one quarter no target of a first charge leads to a
    /// schedule that is better than the baseline.
    proof fn lemma_single_quarter_levels(&self, level: int, charge_in: int)
        requires
            self.wf(),
            self.quarters() == 1,
            0 <= level,
            -CHARGE_MAX <= charge_in <= CHARGE_MAX,
        ensures
            self.spec_first_levels(0, level, charge_in, self.spec_baseline(charge_in))
                == self.spec_baseline(charge_in),
        decreases MAX_TARGET + SOC_STEP - level,
    {
        if level <= MAX_TARGET {
            let base = self.spec_baseline(charge_in);
            let spent = self.use_block(0, 1, charge_in);
            let charge = self.spec_seek_charge(0, 0, level, charge_in);
            self.lemma_seek_charge_ok(0, 0, level, charge_in);
            assert(base.blocks =~= seq![spent]);
            let idle = self.hold_block(0, 0, charge_in);
            assert(optional_block(idle) =~= Seq::<BlockModel>::empty());
            if charge.next_start == 0 {
                let drawn = self.charge_block(0, level, charge_in);
                assert(drawn.size == 0);
                assert(optional_block(drawn) =~= Seq::<BlockModel>::empty());
                assert(charge.blocks =~= Seq::<BlockModel>::empty());
                assert(charge.total_cost == 0);
                assert(charge.next_charge_in == charge_in);
                assert(self.spec_seek_use(0, 0, 0, charge_in) is None);
                let used = self.spec_seek_use(0, 0, 1, charge_in)->Some_0;
                assert(used.blocks =~= seq![spent]);
                let first = spec_combine(charge, used);
                assert(first.blocks =~= seq![spent]);
                assert(first.next_start == 1);
                let tail = self.hold_block(1, 1, first.next_charge_in);
                assert(optional_block(tail) =~= Seq::<BlockModel>::empty());
                let whole = self.spec_complete(first);
                assert(whole.blocks =~= seq![spent]);
                assert(whole.total_cost == base.total_cost);
                assert(self.spec_record_best(first, base) == base);
                assert(self.spec_second_charges(first, 1, base) == base);
                assert(self.spec_first_use_ends(charge, 0, 2, base) == base);
                assert(self.spec_first_use_ends(charge, 0, 1, base) == base);
                assert(self.spec_first_use_ends(charge, 0, 0, base) == base);
                assert(self.spec_first_uses(charge, 1, base) == base);
                assert(self.spec_first_uses(charge, 0, base) == base);
            } else {
                assert(self.spec_first_uses(charge, charge.next_start, base) == base);
            }
            self.lemma_single_quarter_levels(level + SOC_STEP, charge_in);
        }
    }

    /// A horizon of one quarter gets the baseline: a single Use block.
    pub proof fn single_quarter_gives_one_use(&self, soc_in: int)
        requires
            self.wf(),
            self.quarters() == 1,
        ensures
            ({
                let charge_in = self.model.spec_charge_of_soc(soc_in);
                let chosen = self.spec_schedule(soc_in);
                &&& chosen == self.spec_baseline(charge_in)
                &&& chosen.blocks == seq![self.use_block(0, 1, charge_in)]
                &&& chosen.blocks[0].block_type == BlockType::Use
                &&& chosen.blocks[0].size == 1
            }),
    {
        let charge_in = self.model.spec_charge_of_soc(soc_in);
        let base = self.spec_baseline(charge_in);
        self.lemma_charge_in(soc_in);
        self.lemma_single_quarter_levels(0, charge_in);
        assert(base.blocks =~= seq![self.use_block(0, 1, charge_in)]);
        assert(self.spec_seek_from(0, charge_in) == base);
        assert(self.spec_seek_all(1, charge_in, base) == base);
        assert(self.spec_seek_all(0, charge_in, base) == base);
    }
}

/// A quarter of a Use costs something only where it leaves the battery
/// empty: the grid is bought from only once the battery is drained.
pub proof fn use_buys_only_once_drained(model: BatteryModel, charge: int, net_prod: int, tariff: int)
    ensures
        slot_cost(model, 0, charge, net_prod, tariff) != 0 ==> slot_charge(
            model,
            0,
            charge,
            net_prod,
        ) == 0,
{
}

/// A state of charge below 100 percent stands for a charge within half a
/// percent of it; one of 100 percent for a charge of at least 89.5 percent
/// above the reserve.
pub proof fn soc_is_consistent_with_charge(model: BatteryModel, charge: int)
    requires
        model.wf(),
        charge >= 0,
    ensures
        ({
            let soc = model.spec_soc_of_charge(charge);
            &&& 10 <= soc <= 100
            &&& soc < 100 ==> -model.soc_kwh <= 2 * ((soc - 10) * model.soc_kwh - charge)
                <= model.soc_kwh
            &&& soc == 100 ==> 2 * charge >= 179 * model.soc_kwh
        }),
{
    let k = model.soc_kwh as int;
    let q = round_quotient(charge, k);
    lemma_round_quotient_bounds(charge, k);
    lemma_round_quotient_close(charge, k);
    if q >= 90 {
        assert(q * k >= 90 * k) by (nonlinear_arith)
            requires
                q >= 90,
                k > 0,
        ;
    }
}

/// Two horizons with the same series and the same battery get the same
/// schedule for the same state of charge and start time.
pub proof fn same_inputs_same_schedule(first: Horizon, second: Horizon, soc_in: int, date_time: int)
    requires
        first@ == second@,
    ensures
        first@.spec_schedule(soc_in) == second@.spec_schedule(soc_in),
        result_blocks(first.model, date_time, first@.spec_schedule(soc_in).blocks) == result_blocks(
            second.model,
            date_time,
            second@.spec_schedule(soc_in).blocks,
        ),
{
}

} // verus!
