//! The parts of a candidate schedule: a charge or a use, each with the hold
//! that leads up to it, and how parts are joined, completed and compared.

use vstd::prelude::*;
use crate::accountant::SLOT_COST_MAX;
use crate::battery::CHARGE_MAX;
use crate::block::{
    chained, charges_within, lemma_chained_join, lemma_charges_within_join, lemma_sum_costs_join,
    lemma_tiles_join, sum_costs, tiles, BlockCollection, BlockInternal, BlockModel,
    BlockType, CollectionModel, PeriodMetrics,
};
use crate::charge::{charge_need, charge_slots, lemma_increment};
use crate::schedule::{Horizon, HorizonModel};
use crate::units::{lemma_mul_bounds, lemma_mul_nonneg, round_cost, round_to_cent, MAX_TARGET};

verus! {

/// A block as a sequence: itself, or nothing if it covers no quarter.
pub open spec fn optional_block(block: BlockModel) -> Seq<BlockModel> {
    if block.size > 0 {
        seq![block]
    } else {
        Seq::empty()
    }
}

/// The collection that covers nothing yet and waits at `from` with `charge_in`.
pub open spec fn start_at(from: int, charge_in: int) -> CollectionModel {
    CollectionModel {
        blocks: Seq::empty(),
        next_start: from,
        next_charge_in: charge_in,
        total_cost: 0,
    }
}

/// `part` continued by `block`, which is left out of the blocks if it is empty.
pub open spec fn step_over(part: CollectionModel, block: BlockModel) -> CollectionModel {
    CollectionModel {
        blocks: part.blocks + optional_block(block),
        next_start: block.start + block.size,
        next_charge_in: block.charge_out,
        total_cost: part.total_cost + block.cost,
    }
}

/// `first` continued by `second`.
pub open spec fn spec_combine(first: CollectionModel, second: CollectionModel) -> CollectionModel {
    CollectionModel {
        blocks: first.blocks + second.blocks,
        next_start: second.next_start,
        next_charge_in: second.next_charge_in,
        total_cost: first.total_cost + second.total_cost,
    }
}

/// `candidate` is cheaper than `best`, or costs the same with fewer blocks.
pub open spec fn better(candidate: CollectionModel, best: CollectionModel) -> bool {
    candidate.total_cost < best.total_cost || (candidate.total_cost == best.total_cost
        && candidate.blocks.len() < best.blocks.len())
}

/// The better of the two, `best` where neither is.
pub open spec fn pick(candidate: CollectionModel, best: CollectionModel) -> CollectionModel {
    if better(candidate, best) {
        candidate
    } else {
        best
    }
}

/// A block that may stand in a collection: its cost and charge are in
/// range, and an empty one costs nothing and keeps the charge.
pub open spec fn block_ok(block: BlockModel) -> bool {
    &&& block.size >= 0
    &&& block.start >= 0
    &&& -block.size * SLOT_COST_MAX <= block.cost <= block.size * SLOT_COST_MAX
    &&& -CHARGE_MAX <= block.charge_out <= CHARGE_MAX
    &&& block.size == 0 ==> block.cost == 0 && block.charge_out == block.charge_in
}

impl HorizonModel {
    /// The Hold over `[from, to)` entered with `charge_in`.
    pub open spec fn hold_block(&self, from: int, to: int, charge_in: int) -> BlockModel {
        BlockModel {
            block_type: BlockType::Hold,
            start: from,
            size: to - from,
            cost: self.period_cost(charge_in, charge_in, from, to),
            charge_in,
            charge_out: self.period_charge(charge_in, charge_in, from, to),
        }
    }

    /// The Use over `[from, to)` entered with `charge_in`.
    pub open spec fn use_block(&self, from: int, to: int, charge_in: int) -> BlockModel {
        BlockModel {
            block_type: BlockType::Use,
            start: from,
            size: to - from,
            cost: self.period_cost(0, charge_in, from, to),
            charge_in,
            charge_out: self.period_charge(0, charge_in, from, to),
        }
    }

    /// Quarter at which the Charge that starts at `start` towards
    /// `soc_level` ends; `start` itself where nothing is to be drawn.
    pub open spec fn charge_block_end(&self, start: int, soc_level: int, charge_in: int) -> int {
        let need = charge_need(self.model, soc_level, charge_in);
        if need > 0 {
            self.charge_end(start, need)
        } else {
            start
        }
    }

    /// The Charge that starts at `start` with `charge_in` and aims at
    /// `soc_level` percent above the reserve. It costs the energy drawn and
    /// the household's consumption meanwhile, and ends with the target.
    pub open spec fn charge_block(&self, start: int, soc_level: int, charge_in: int) -> BlockModel {
        let need = charge_need(self.model, soc_level, charge_in);
        let end = self.charge_block_end(start, soc_level, charge_in);
        BlockModel {
            block_type: BlockType::Charge,
            start,
            size: end - start,
            cost: self.charge_cost(start, need, end) + self.consumption_cost(start, end),
            charge_in,
            charge_out: if end > start {
                soc_level * self.model.soc_kwh
            } else {
                charge_in
            },
        }
    }

    /// A Hold over `[initial_start, start)`, then a Charge from `start` towards `soc_level`.
    pub open spec fn spec_seek_charge(
        &self,
        initial_start: int,
        start: int,
        soc_level: int,
        charge_in: int,
    ) -> CollectionModel {
        let hold = self.hold_block(initial_start, start, charge_in);
        step_over(
            step_over(start_at(initial_start, charge_in), hold),
            self.charge_block(start, soc_level, hold.charge_out),
        )
    }

    /// A Hold over `[initial_start, seek_start)`, then a Use over
    /// `[seek_start, seek_end)`; nothing where the Use would be empty.
    pub open spec fn spec_seek_use(
        &self,
        initial_start: int,
        seek_start: int,
        seek_end: int,
        charge_in: int,
    ) -> Option<CollectionModel> {
        if seek_start == seek_end {
            None
        } else {
            let hold = self.hold_block(initial_start, seek_start, charge_in);
            Some(
                step_over(
                    step_over(start_at(initial_start, charge_in), hold),
                    self.use_block(seek_start, seek_end, hold.charge_out),
                ),
            )
        }
    }

    /// `joined` completed by a Hold to the end of the horizon, with the
    /// total cost rounded to hundredths.
    pub open spec fn spec_complete(&self, joined: CollectionModel) -> CollectionModel {
        let whole = step_over(
            joined,
            self.hold_block(joined.next_start, self.quarters(), joined.next_charge_in),
        );
        CollectionModel {
            blocks: whole.blocks,
            next_start: whole.next_start,
            next_charge_in: whole.next_charge_in,
            total_cost: round_to_cent(whole.total_cost),
        }
    }

    /// The baseline: one Use over the whole horizon.
    pub open spec fn spec_baseline(&self, charge_in: int) -> CollectionModel {
        let whole = step_over(start_at(0, charge_in), self.use_block(0, self.quarters(), charge_in));
        CollectionModel {
            blocks: whole.blocks,
            next_start: whole.next_start,
            next_charge_in: whole.next_charge_in,
            total_cost: round_to_cent(whole.total_cost),
        }
    }

    /// The better of the completed `joined` and `best`.
    pub open spec fn spec_record_best(&self, joined: CollectionModel, best: CollectionModel) -> CollectionModel {
        pick(self.spec_complete(joined), best)
    }

    /// The range in which charges stay once the capacity ceiling holds the
    /// highest target and `charge_in` is in it.
    pub open spec fn in_capacity(&self, charge: int) -> bool {
        self.model.reserve_fits() && 0 <= charge <= self.model.bat_kwh
    }

    /// `part` covers `[from, next_start)` within the horizon without gap or
    /// overlap, the charge runs through its blocks from `charge_in`, and its
    /// cost is the sum of theirs.
    pub open spec fn part_ok(&self, part: CollectionModel, from: int, charge_in: int) -> bool {
        &&& 0 <= from <= part.next_start <= self.quarters()
        &&& tiles(part.blocks, from, part.next_start)
        &&& chained(part.blocks, charge_in, part.next_charge_in)
        &&& sum_costs(part.blocks) == part.total_cost
        &&& -(part.next_start - from) * SLOT_COST_MAX <= part.total_cost <= (part.next_start
            - from) * SLOT_COST_MAX
        &&& -CHARGE_MAX <= part.next_charge_in <= CHARGE_MAX
        &&& charges_within(part.blocks, -(CHARGE_MAX as int), CHARGE_MAX as int)
        &&& self.in_capacity(charge_in) ==> self.in_capacity(part.next_charge_in)
            && charges_within(part.blocks, 0, self.model.bat_kwh as int)
    }

    /// `whole` covers the horizon without gap or overlap, the charge runs
    /// through its blocks from `charge_in`, and its cost is the sum of
    /// theirs rounded to hundredths.
    pub open spec fn complete_ok(&self, whole: CollectionModel, charge_in: int) -> bool {
        &&& whole.next_start == self.quarters()
        &&& tiles(whole.blocks, 0, self.quarters())
        &&& chained(whole.blocks, charge_in, whole.next_charge_in)
        &&& whole.total_cost == round_to_cent(sum_costs(whole.blocks))
        &&& -(self.quarters() + 1) * SLOT_COST_MAX <= whole.total_cost <= (self.quarters() + 1)
            * SLOT_COST_MAX
        &&& -CHARGE_MAX <= whole.next_charge_in <= CHARGE_MAX
        &&& charges_within(whole.blocks, -(CHARGE_MAX as int), CHARGE_MAX as int)
        &&& self.in_capacity(charge_in) ==> self.in_capacity(whole.next_charge_in)
            && charges_within(whole.blocks, 0, self.model.bat_kwh as int)
    }
}

/// One block tiles its own quarters, hands its charge through and costs what it costs.
pub proof fn lemma_optional_block(block: BlockModel)
    requires
        block.size >= 0,
    ensures
        tiles(optional_block(block), block.start, block.start + block.size),
        block.size == 0 ==> block.charge_out == block.charge_in ==> chained(
            optional_block(block),
            block.charge_in,
            block.charge_out,
        ),
        block.size > 0 ==> chained(optional_block(block), block.charge_in, block.charge_out),
        block.size > 0 ==> sum_costs(optional_block(block)) == block.cost,
        block.size == 0 ==> sum_costs(optional_block(block)) == 0,
        forall|lo: int, hi: int|
            lo <= block.charge_out <= hi ==> #[trigger] charges_within(
                optional_block(block),
                lo,
                hi,
            ),
{
    let s = optional_block(block);
    if block.size > 0 {
        assert(s.drop_last() =~= Seq::<BlockModel>::empty());
        assert(sum_costs(s.drop_last()) == 0);
        assert(s.last() == block);
    }
}

impl HorizonModel {
    /// A part continued by a block that starts where the part ends, with the
    /// charge the part ends with, is a part again.
    pub proof fn lemma_step_over(&self, part: CollectionModel, block: BlockModel, from: int, charge_in: int)
        requires
            self.part_ok(part, from, charge_in),
            block_ok(block),
            block.start == part.next_start,
            block.charge_in == part.next_charge_in,
            block.start + block.size <= self.quarters(),
            self.in_capacity(charge_in) ==> self.in_capacity(block.charge_out),
        ensures
            self.part_ok(step_over(part, block), from, charge_in),
    {
        let next = step_over(part, block);
        lemma_optional_block(block);
        lemma_tiles_join(
            part.blocks,
            optional_block(block),
            from,
            part.next_start,
            block.start + block.size,
        );
        lemma_chained_join(
            part.blocks,
            optional_block(block),
            charge_in,
            part.next_charge_in,
            block.charge_out,
        );
        lemma_sum_costs_join(part.blocks, optional_block(block));
        assert(charges_within(optional_block(block), -(CHARGE_MAX as int), CHARGE_MAX as int));
        lemma_charges_within_join(
            part.blocks,
            optional_block(block),
            -(CHARGE_MAX as int),
            CHARGE_MAX as int,
        );
        if self.in_capacity(charge_in) {
            assert(charges_within(optional_block(block), 0, self.model.bat_kwh as int));
            lemma_charges_within_join(
                part.blocks,
                optional_block(block),
                0,
                self.model.bat_kwh as int,
            );
        }
        assert(-(next.next_start - from) * SLOT_COST_MAX <= next.total_cost <= (next.next_start
            - from) * SLOT_COST_MAX) by (nonlinear_arith)
            requires
                next.total_cost == part.total_cost + block.cost,
                next.next_start == part.next_start + block.size,
                -(part.next_start - from) * SLOT_COST_MAX <= part.total_cost <= (part.next_start
                    - from) * SLOT_COST_MAX,
                -block.size * SLOT_COST_MAX <= block.cost <= block.size * SLOT_COST_MAX,
        ;
    }

    /// Two parts, the second of which starts where and with what the first
    /// ends, combine to one part.
    pub proof fn lemma_combine(
        &self,
        first: CollectionModel,
        second: CollectionModel,
        from: int,
        charge_in: int,
    )
        requires
            self.part_ok(first, from, charge_in),
            self.part_ok(second, first.next_start, first.next_charge_in),
        ensures
            self.part_ok(spec_combine(first, second), from, charge_in),
    {
        let both = spec_combine(first, second);
        lemma_tiles_join(first.blocks, second.blocks, from, first.next_start, second.next_start);
        lemma_chained_join(
            first.blocks,
            second.blocks,
            charge_in,
            first.next_charge_in,
            second.next_charge_in,
        );
        lemma_sum_costs_join(first.blocks, second.blocks);
        lemma_charges_within_join(
            first.blocks,
            second.blocks,
            -(CHARGE_MAX as int),
            CHARGE_MAX as int,
        );
        if self.in_capacity(charge_in) {
            lemma_charges_within_join(first.blocks, second.blocks, 0, self.model.bat_kwh as int);
        }
        assert(-(both.next_start - from) * SLOT_COST_MAX <= both.total_cost <= (both.next_start
            - from) * SLOT_COST_MAX) by (nonlinear_arith)
            requires
                both.total_cost == first.total_cost + second.total_cost,
                both.next_start == second.next_start,
                -(first.next_start - from) * SLOT_COST_MAX <= first.total_cost <= (
                first.next_start - from) * SLOT_COST_MAX,
                -(second.next_start - first.next_start) * SLOT_COST_MAX <= second.total_cost <= (
                second.next_start - first.next_start) * SLOT_COST_MAX,
        ;
    }
}

impl HorizonModel {
    /// A Hold within the horizon may stand in a collection, and keeps the
    /// charge within the capacity.
    pub proof fn lemma_hold_block_ok(&self, from: int, to: int, charge_in: int)
        requires
            self.wf(),
            0 <= from <= to <= self.quarters(),
            -CHARGE_MAX <= charge_in <= CHARGE_MAX,
        ensures
            block_ok(self.hold_block(from, to, charge_in)),
            self.in_capacity(charge_in) ==> self.in_capacity(
                self.hold_block(from, to, charge_in).charge_out,
            ),
    {
        self.lemma_period(charge_in, charge_in, from, to);
    }

    /// A Use within the horizon may stand in a collection, and keeps the
    /// charge within the capacity.
    pub proof fn lemma_use_block_ok(&self, from: int, to: int, charge_in: int)
        requires
            self.wf(),
            0 <= from <= to <= self.quarters(),
            -CHARGE_MAX <= charge_in <= CHARGE_MAX,
        ensures
            block_ok(self.use_block(from, to, charge_in)),
            self.in_capacity(charge_in) ==> self.in_capacity(
                self.use_block(from, to, charge_in).charge_out,
            ),
    {
        self.lemma_period(0, charge_in, from, to);
    }

    /// A Charge ends within the horizon, takes no more quarters than the
    /// steps that its target asks for, may stand in a collection, and ends
    /// with a charge within the capacity where that holds the highest target.
    pub proof fn lemma_charge_block_ok(&self, start: int, soc_level: int, charge_in: int)
        requires
            self.wf(),
            0 <= start <= self.quarters(),
            0 <= soc_level <= MAX_TARGET,
            -CHARGE_MAX <= charge_in <= CHARGE_MAX,
        ensures
            block_ok(self.charge_block(start, soc_level, charge_in)),
            start <= self.charge_block_end(start, soc_level, charge_in) <= self.quarters(),
            self.charge_block(start, soc_level, charge_in).size <= charge_slots(
                self.model,
                charge_need(self.model, soc_level, charge_in),
            ),
            self.in_capacity(charge_in) ==> self.in_capacity(
                self.charge_block(start, soc_level, charge_in).charge_out,
            ),
    {
        let need = charge_need(self.model, soc_level, charge_in);
        let end = self.charge_block_end(start, soc_level, charge_in);
        self.lemma_charge_end(start, need);
        lemma_increment(self.model, need, 0);
        self.lemma_charge_cost(start, need, end);
        self.lemma_consumption_cost(start, end);
        lemma_mul_nonneg(soc_level, self.model.soc_kwh as int, 90, self.model.soc_kwh as int);
        lemma_mul_bounds(soc_level, self.model.soc_kwh as int, 90, 0x8000_0000);
    }

    /// What `spec_seek_charge` yields is a part that starts at `initial_start`.
    pub proof fn lemma_seek_charge_ok(
        &self,
        initial_start: int,
        start: int,
        soc_level: int,
        charge_in: int,
    )
        requires
            self.wf(),
            0 <= initial_start <= start <= self.quarters(),
            0 <= soc_level <= MAX_TARGET,
            -CHARGE_MAX <= charge_in <= CHARGE_MAX,
        ensures
            self.part_ok(
                self.spec_seek_charge(initial_start, start, soc_level, charge_in),
                initial_start,
                charge_in,
            ),
    {
        let hold = self.hold_block(initial_start, start, charge_in);
        let first = start_at(initial_start, charge_in);
        self.lemma_hold_block_ok(initial_start, start, charge_in);
        self.lemma_start_at_ok(initial_start, charge_in);
        self.lemma_step_over(first, hold, initial_start, charge_in);
        self.lemma_charge_block_ok(start, soc_level, hold.charge_out);
        self.lemma_step_over(
            step_over(first, hold),
            self.charge_block(start, soc_level, hold.charge_out),
            initial_start,
            charge_in,
        );
    }

    /// What `spec_seek_use` yields is a part that starts at `initial_start`.
    pub proof fn lemma_seek_use_ok(
        &self,
        initial_start: int,
        seek_start: int,
        seek_end: int,
        charge_in: int,
    )
        requires
            self.wf(),
            0 <= initial_start <= seek_start < seek_end <= self.quarters(),
            -CHARGE_MAX <= charge_in <= CHARGE_MAX,
        ensures
            self.spec_seek_use(initial_start, seek_start, seek_end, charge_in) is Some,
            self.part_ok(
                self.spec_seek_use(initial_start, seek_start, seek_end, charge_in)->Some_0,
                initial_start,
                charge_in,
            ),
            self.spec_seek_use(initial_start, seek_start, seek_end, charge_in)->Some_0.next_start
                == seek_end,
    {
        let hold = self.hold_block(initial_start, seek_start, charge_in);
        let first = start_at(initial_start, charge_in);
        self.lemma_hold_block_ok(initial_start, seek_start, charge_in);
        self.lemma_start_at_ok(initial_start, charge_in);
        self.lemma_step_over(first, hold, initial_start, charge_in);
        self.lemma_use_block_ok(seek_start, seek_end, hold.charge_out);
        self.lemma_step_over(
            step_over(first, hold),
            self.use_block(seek_start, seek_end, hold.charge_out),
            initial_start,
            charge_in,
        );
    }

    /// The empty collection is a part.
    pub proof fn lemma_start_at_ok(&self, from: int, charge_in: int)
        requires
            0 <= from <= self.quarters(),
            -CHARGE_MAX <= charge_in <= CHARGE_MAX,
        ensures
            self.part_ok(start_at(from, charge_in), from, charge_in),
    {
    }

    /// A part that starts at the start of the horizon, once completed,
    /// covers the horizon.
    pub proof fn lemma_complete_ok(&self, joined: CollectionModel, charge_in: int)
        requires
            self.wf(),
            self.part_ok(joined, 0, charge_in),
        ensures
            self.complete_ok(self.spec_complete(joined), charge_in),
    {
        let tail = self.hold_block(joined.next_start, self.quarters(), joined.next_charge_in);
        self.lemma_hold_block_ok(joined.next_start, self.quarters(), joined.next_charge_in);
        self.lemma_step_over(joined, tail, 0, charge_in);
        crate::units::lemma_round_to_cent_close(step_over(joined, tail).total_cost);
    }

    /// The baseline covers the horizon.
    pub proof fn lemma_baseline_ok(&self, charge_in: int)
        requires
            self.wf(),
            -CHARGE_MAX <= charge_in <= CHARGE_MAX,
        ensures
            self.complete_ok(self.spec_baseline(charge_in), charge_in),
    {
        let first = start_at(0, charge_in);
        let whole = self.use_block(0, self.quarters(), charge_in);
        self.lemma_start_at_ok(0, charge_in);
        self.lemma_use_block_ok(0, self.quarters(), charge_in);
        self.lemma_step_over(first, whole, 0, charge_in);
        crate::units::lemma_round_to_cent_close(step_over(first, whole).total_cost);
    }

    /// The figures of `part` are in the range that the arithmetic takes.
    pub open spec fn fits(&self, part: CollectionModel) -> bool {
        &&& 0 <= part.next_start <= self.quarters()
        &&& part.blocks.len() <= self.quarters()
        &&& -(self.quarters() + 1) * SLOT_COST_MAX <= part.total_cost <= (self.quarters() + 1)
            * SLOT_COST_MAX
        &&& -CHARGE_MAX <= part.next_charge_in <= CHARGE_MAX
    }

    /// The figures of a part, and of a collection that covers the horizon, are in range.
    pub proof fn lemma_fits(&self, part: CollectionModel, from: int, charge_in: int)
        requires
            self.part_ok(part, from, charge_in) || self.complete_ok(part, charge_in),
        ensures
            self.fits(part),
    {
        if self.part_ok(part, from, charge_in) {
            crate::block::lemma_tiles_len(part.blocks, from, part.next_start);
            assert(-(self.quarters() + 1) * SLOT_COST_MAX <= part.total_cost <= (self.quarters()
                + 1) * SLOT_COST_MAX) by (nonlinear_arith)
                requires
                    0 <= from <= part.next_start <= self.quarters(),
                    -(part.next_start - from) * SLOT_COST_MAX <= part.total_cost <= (
                    part.next_start - from) * SLOT_COST_MAX,
            ;
        } else {
            crate::block::lemma_tiles_len(part.blocks, 0, self.quarters());
        }
    }
}

impl Horizon {
    /// Creates a hold or use block from the accounting of its period.
    pub fn get_none_charge_block(&self, pm: &PeriodMetrics) -> (block: BlockInternal)
        ensures
            block == (BlockInternal {
                block_type: pm.block_type,
                start_quarter: pm.start,
                size_quarters: pm.size,
                cost: pm.cost,
                charge_in_kwh: pm.charge_in,
                charge_out_kwh: pm.charge_out,
            }),
    {
        BlockInternal {
            block_type: pm.block_type,
            start_quarter: pm.start,
            size_quarters: pm.size,
            cost: pm.cost,
            charge_in_kwh: pm.charge_in,
            charge_out_kwh: pm.charge_out,
        }
    }

    /// Creates a charge block.
    pub fn get_charge_block(
        &self,
        start: usize,
        size: usize,
        charge_in: i64,
        charge_out: i64,
        cost: i128,
    ) -> (block: BlockInternal)
        ensures
            block == (BlockInternal {
                block_type: BlockType::Charge,
                start_quarter: start,
                size_quarters: size,
                cost,
                charge_in_kwh: charge_in,
                charge_out_kwh: charge_out,
            }),
    {
        BlockInternal {
            block_type: BlockType::Charge,
            start_quarter: start,
            size_quarters: size,
            cost,
            charge_in_kwh: charge_in,
            charge_out_kwh: charge_out,
        }
    }

    /// Creates the baseline, the schedule that is returned where the search
    /// finds nothing better: one Use over the whole horizon.
    pub fn create_base_block_collection(&self, charge_in: i64) -> (r: BlockCollection)
        requires
            self.wf(),
            -CHARGE_MAX <= charge_in <= CHARGE_MAX,
        ensures
            r@ == self@.spec_baseline(charge_in as int),
            self@.complete_ok(r@, charge_in as int),
    {
        let pm = self.update_for_pv(BlockType::Use, 0, self.tariffs.length, charge_in);
        let block = self.get_none_charge_block(&pm);
        let mut base = BlockCollection::starting_at(0, charge_in);
        base.push_block(block);
        base.total_cost = round_cost(base.total_cost);
        proof {
            self@.lemma_baseline_ok(charge_in as int);
        }
        base
    }

    /// Gets a charge block and the hold block that leads up to it: a Hold
    /// over `[initial_start, start)`, then a Charge from `start` towards
    /// `soc_level` percent above the reserve.
    pub fn seek_charge(&self, initial_start: usize, start: usize, soc_level: usize, charge_in: i64) -> (r:
        BlockCollection)
        requires
            self.wf(),
            initial_start <= start <= self.tariffs.length,
            soc_level <= MAX_TARGET,
            -CHARGE_MAX <= charge_in <= CHARGE_MAX,
        ensures
            r@ == self@.spec_seek_charge(
                initial_start as int,
                start as int,
                soc_level as int,
                charge_in as int,
            ),
            self@.part_ok(r@, initial_start as int, charge_in as int),
    {
        proof {
            self@.lemma_seek_charge_ok(
                initial_start as int,
                start as int,
                soc_level as int,
                charge_in as int,
            );
            self@.lemma_charge_block_ok(
                start as int,
                soc_level as int,
                self@.hold_block(initial_start as int, start as int, charge_in as int).charge_out,
            );
            self@.lemma_hold_block_ok(initial_start as int, start as int, charge_in as int);
        }
        let pm_hold = self.update_for_pv(BlockType::Hold, initial_start, start, charge_in);
        let mut part = BlockCollection::starting_at(initial_start, charge_in);
        part.push_block(self.get_none_charge_block(&pm_hold));
        let need = self.charge_needed(soc_level, pm_hold.charge_out);
        if need > 0 {
            let (c_cost, end) = self.charge_cost_charge_end(start, need);
            let pm_charge = self.update_for_pv(BlockType::Charge, start, end, 0);
            if pm_charge.size > 0 {
                proof {
                    lemma_mul_nonneg(
                        soc_level as int,
                        self.model.soc_kwh as int,
                        90,
                        self.model.soc_kwh as int,
                    );
                }
                let target: i64 = soc_level as i64 * self.model.soc_kwh as i64;
                part.push_block(
                    self.get_charge_block(
                        start,
                        pm_charge.size,
                        pm_hold.charge_out,
                        target,
                        c_cost + pm_charge.cost,
                    ),
                );
            }
        }
        part
    }

    /// Seeks a use block and the hold block that leads up to it: a Hold over
    /// `[initial_start, seek_start)`, then a Use over `[seek_start,
    /// seek_end)`. There is none where the Use would be empty.
    pub fn seek_use(&self, initial_start: usize, seek_start: usize, seek_end: usize, charge_in: i64) -> (r:
        Option<BlockCollection>)
        requires
            self.wf(),
            initial_start <= seek_start <= seek_end <= self.tariffs.length,
            -CHARGE_MAX <= charge_in <= CHARGE_MAX,
        ensures
            r is Some <==> seek_start != seek_end,
            r is Some ==> Some(r->Some_0@) == self@.spec_seek_use(
                initial_start as int,
                seek_start as int,
                seek_end as int,
                charge_in as int,
            ),
            r is None ==> self@.spec_seek_use(
                initial_start as int,
                seek_start as int,
                seek_end as int,
                charge_in as int,
            ) is None,
            r is Some ==> self@.part_ok(r->Some_0@, initial_start as int, charge_in as int),
    {
        if seek_start == seek_end {
            return None;
        }
        proof {
            self@.lemma_seek_use_ok(
                initial_start as int,
                seek_start as int,
                seek_end as int,
                charge_in as int,
            );
            self@.lemma_hold_block_ok(initial_start as int, seek_start as int, charge_in as int);
            self@.lemma_use_block_ok(
                seek_start as int,
                seek_end as int,
                self@.hold_block(
                    initial_start as int,
                    seek_start as int,
                    charge_in as int,
                ).charge_out,
            );
        }
        let pm_hold = self.update_for_pv(BlockType::Hold, initial_start, seek_start, charge_in);
        let pm_use = self.update_for_pv(BlockType::Use, seek_start, seek_end, pm_hold.charge_out);
        let mut part = BlockCollection::starting_at(initial_start, charge_in);
        part.push_block(self.get_none_charge_block(&pm_hold));
        part.push_block(self.get_none_charge_block(&pm_use));
        Some(part)
    }

    /// Collects the blocks of `joined`, and the closing hold block if there
    /// is one, into a collection with the given figures.
    pub fn collect_blocks(
        &self,
        joined: &BlockCollection,
        next_start: usize,
        next_charge_in: i64,
        total_cost: i128,
        pm: Option<PeriodMetrics>,
    ) -> (r: BlockCollection)
        ensures
            r.next_start == next_start,
            r.next_charge_in == next_charge_in,
            r.total_cost == total_cost,
            pm is None ==> r.blocks@ == joined.blocks@,
            pm is Some ==> r.blocks@ == joined.blocks@.push(
                BlockInternal {
                    block_type: pm->Some_0.block_type,
                    start_quarter: pm->Some_0.start,
                    size_quarters: pm->Some_0.size,
                    cost: pm->Some_0.cost,
                    charge_in_kwh: pm->Some_0.charge_in,
                    charge_out_kwh: pm->Some_0.charge_out,
                },
            ),
    {
        let mut new_best_blocks = joined.duplicate();
        new_best_blocks.next_start = next_start;
        new_best_blocks.next_charge_in = next_charge_in;
        new_best_blocks.total_cost = total_cost;
        if let Some(pm) = pm {
            new_best_blocks.blocks.push(self.get_none_charge_block(&pm));
        }
        new_best_blocks
    }

    /// Returns the better of the stored best and `joined` completed by a
    /// Hold to the end of the horizon, with its cost rounded to hundredths.
    /// The cheaper one is better; at the same cost, the one with fewer
    /// blocks; where neither is, the stored best stays.
    pub fn record_best_collection(&self, joined: &BlockCollection, best_blocks: BlockCollection) -> (r:
        BlockCollection)
        requires
            self.wf(),
            self@.fits(joined@),
        ensures
            r@ == self@.spec_record_best(joined@, best_blocks@),
    {
        let length = self.tariffs.length;
        let mut total_cost = joined.total_cost;
        let mut next_charge_in = joined.next_charge_in;
        let mut pm: Option<PeriodMetrics> = None;
        let mut num_blocks: usize = 0;
        let ghost tail = self@.hold_block(
            joined.next_start as int,
            self@.quarters(),
            joined.next_charge_in as int,
        );
        proof {
            self@.lemma_period(
                joined.next_charge_in as int,
                joined.next_charge_in as int,
                joined.next_start as int,
                self@.quarters(),
            );
        }
        if joined.next_start < length {
            let pm_hold = self.update_for_pv(
                BlockType::Hold,
                joined.next_start,
                length,
                joined.next_charge_in,
            );
            total_cost = total_cost + pm_hold.cost;
            next_charge_in = pm_hold.charge_out;
            pm = Some(pm_hold);
            num_blocks = 1;
        }
        total_cost = round_cost(total_cost);
        let ghost candidate = self@.spec_complete(joined@);
        assert(candidate.total_cost == total_cost);
        assert(candidate.blocks.len() == num_blocks + joined.blocks.len());
        if total_cost < best_blocks.total_cost {
            let r = self.collect_blocks(joined, length, next_charge_in, total_cost, pm);
            assert(r@.blocks =~= candidate.blocks);
            r
        } else if total_cost == best_blocks.total_cost {
            num_blocks = num_blocks + joined.blocks.len();
            if num_blocks < best_blocks.blocks.len() {
                let r = self.collect_blocks(joined, length, next_charge_in, total_cost, pm);
                assert(r@.blocks =~= candidate.blocks);
                r
            } else {
                best_blocks
            }
        } else {
            best_blocks
        }
    }
}

impl BlockCollection {
    /// The collection that covers nothing yet and waits at `from` with `charge_in`.
    pub fn starting_at(from: usize, charge_in: i64) -> (r: BlockCollection)
        ensures
            r@ == start_at(from as int, charge_in as int),
    {
        let r = BlockCollection {
            blocks: Vec::with_capacity(2),
            next_start: from,
            next_charge_in: charge_in,
            total_cost: 0,
        };
        assert(r@.blocks =~= Seq::<BlockModel>::empty());
        r
    }

    /// Continues the collection by `block`, which is left out of the blocks if it is empty.
    pub fn push_block(&mut self, block: BlockInternal)
        requires
            block.start_quarter + block.size_quarters <= usize::MAX,
            i128::MIN <= old(self).total_cost + block.cost <= i128::MAX,
        ensures
            final(self)@ == step_over(old(self)@, block@),
    {
        if block.size_quarters > 0 {
            self.blocks.push(block);
        }
        self.next_start = block.start_quarter + block.size_quarters;
        self.next_charge_in = block.charge_out_kwh;
        self.total_cost = self.total_cost + block.cost;
        assert(self@.blocks =~= old(self)@.blocks + optional_block(block@));
    }
}

/// Combines two collections into one: the blocks of the first, then those of
/// the second, which also says where and with what charge the whole ends.
pub fn combine_blocks(blocks_one: &BlockCollection, blocks_two: &BlockCollection) -> (r:
    BlockCollection)
    requires
        i128::MIN <= blocks_one.total_cost + blocks_two.total_cost <= i128::MAX,
    ensures
        r@ == spec_combine(blocks_one@, blocks_two@),
{
    let mut combined = blocks_one.duplicate();
    let mut i: usize = 0;
    while i < blocks_two.blocks.len()
        invariant
            i <= blocks_two.blocks.len(),
            combined.blocks@ == blocks_one.blocks@ + blocks_two.blocks@.take(i as int),
        decreases blocks_two.blocks.len() - i,
    {
        combined.blocks.push(blocks_two.blocks[i]);
        assert(blocks_two.blocks@.take(i as int).push(blocks_two.blocks@[i as int])
            =~= blocks_two.blocks@.take(i as int + 1));
        assert(combined.blocks@ =~= blocks_one.blocks@ + blocks_two.blocks@.take(i as int + 1));
        i += 1;
    }
    assert(blocks_two.blocks@.take(blocks_two.blocks.len() as int) =~= blocks_two.blocks@);
    combined.next_start = blocks_two.next_start;
    combined.next_charge_in = blocks_two.next_charge_in;
    combined.total_cost = blocks_one.total_cost + blocks_two.total_cost;
    assert(combined@.blocks =~= blocks_one@.blocks + blocks_two@.blocks);
    combined
}

} // verus!
