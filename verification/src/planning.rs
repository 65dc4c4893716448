//! The planning run: from three aligned series and a state of charge to the
//! schedule that costs least.

use vstd::prelude::*;
use crate::assemble::{
    create_result_blocks, lemma_result_blocks, lemma_start_on_quarter, promote, quarter_time,
    offset_quarters,
    result_block, result_blocks, spec_promote, MAX_START_TIME, MIN_START_TIME,
};
use crate::battery::{BatteryModel, CHARGE_MAX};
use crate::block::{
    adjoins, chained, charges_within, sum_costs, tiles, BlockCollection, BlockModel,
    CollectionModel,
};
use crate::errors::SchedulerError;
use crate::schedule::{Block, Horizon, HorizonModel, Schedule, SchedulerResult, Tariffs};
use crate::units::{round_to_cent, MAX_QUARTERS, QUARTER_SECS};

verus! {

/// The blocks follow each other in time from `from` to `to` without gap or
/// overlap: each starts a quarter after the last quarter of the one before.
pub open spec fn time_tiles(blocks: Seq<Block>, from: int, to: int) -> bool {
    &&& blocks.len() == 0 ==> from == to
    &&& blocks.len() > 0 ==> blocks[0].start_time == from && blocks.last().end_time + QUARTER_SECS
        == to
    &&& forall|i: int|
        0 <= i < blocks.len() ==> (#[trigger] blocks[i]).size > 0 && blocks[i].end_time
            == blocks[i].start_time + (blocks[i].size - 1) * QUARTER_SECS
    &&& forall|i: int| 0 <= i < blocks.len() - 1 ==> #[trigger] follows_in_time(blocks, i)
}

/// Block `i + 1` starts a quarter after the last quarter of block `i`.
pub open spec fn follows_in_time(blocks: Seq<Block>, i: int) -> bool {
    blocks[i + 1].start_time == blocks[i].end_time + QUARTER_SECS
}

/// Block `i + 1` starts with the charge that block `i` ends with.
pub open spec fn takes_over(blocks: Seq<Block>, i: int) -> bool {
    blocks[i + 1].charge_in == blocks[i].charge_out
}

/// The charge runs through the blocks from `charge_in`, and every block
/// ends with a charge in `[lo, hi]`.
pub open spec fn charge_runs(blocks: Seq<Block>, charge_in: int, lo: int, hi: int) -> bool {
    &&& blocks.len() > 0 ==> blocks[0].charge_in == charge_in
    &&& forall|i: int| 0 <= i < blocks.len() - 1 ==> #[trigger] takes_over(blocks, i)
    &&& forall|i: int| 0 <= i < blocks.len() ==> lo <= (#[trigger] blocks[i]).charge_out <= hi
}

/// A copy of a series.
pub fn copy_series(values: &Vec<i32>) -> (r: Vec<i32>)
    ensures
        r@ == values@,
{
    let mut r: Vec<i32> = Vec::with_capacity(values.len());
    let mut i: usize = 0;
    while i < values.len()
        invariant
            i <= values.len(),
            r@ == values@.take(i as int),
        decreases values.len() - i,
    {
        r.push(values[i]);
        assert(values@.take(i as int).push(values@[i as int]) =~= values@.take(i as int + 1));
        i += 1;
    }
    assert(values@.take(values.len() as int) =~= values@);
    r
}

/// A copy of some blocks.
pub fn copy_blocks(blocks: &Vec<Block>) -> (r: Vec<Block>)
    ensures
        r@ == blocks@,
{
    let mut r: Vec<Block> = Vec::with_capacity(blocks.len());
    let mut i: usize = 0;
    while i < blocks.len()
        invariant
            i <= blocks.len(),
            r@ == blocks@.take(i as int),
        decreases blocks.len() - i,
    {
        r.push(blocks[i]);
        assert(blocks@.take(i as int).push(blocks@[i as int]) =~= blocks@.take(i as int + 1));
        i += 1;
    }
    assert(blocks@.take(blocks.len() as int) =~= blocks@);
    r
}

/// The blocks of a schedule that covers `[0, horizon)` tile the time from
/// the quarter of `t` on, and are as many as the blocks they stand for.
pub proof fn lemma_result_time_tiles(model: BatteryModel, t: int, blocks: Seq<BlockModel>, horizon: int)
    requires
        tiles(blocks, 0, horizon),
        horizon <= MAX_QUARTERS,
        MIN_START_TIME <= t <= MAX_START_TIME,
    ensures
        result_blocks(model, t, blocks).len() == blocks.len(),
        time_tiles(
            result_blocks(model, t, blocks),
            quarter_time(t, offset_quarters(t)),
            quarter_time(t, offset_quarters(t) + horizon),
        ),
{
    lemma_result_blocks(model, t, blocks);
    let out = result_blocks(model, t, blocks);
    let offset = offset_quarters(t);
    assert(0 <= offset < 96);
    assert forall|i: int| 0 <= i < blocks.len() implies 0 <= (#[trigger] blocks[i]).start
        && blocks[i].start + blocks[i].size <= horizon by {
        crate::block::lemma_tiles_start(blocks, 0, horizon, i);
        lemma_tiles_end(blocks, 0, horizon, i);
    }
    assert forall|i: int| 0 <= i < out.len() implies (#[trigger] out[i]).size > 0
        && out[i].end_time == out[i].start_time + (out[i].size - 1) * QUARTER_SECS by {
        assert(out[i] == result_block(model, t, blocks[i]));
        assert(blocks[i].size > 0);
    }
    assert forall|i: int| 0 <= i < out.len() - 1 implies #[trigger] follows_in_time(out, i) by {
        assert(out[i] == result_block(model, t, blocks[i]));
        assert(out[i + 1] == result_block(model, t, blocks[i + 1]));
        assert(adjoins(blocks, i));
        assert(blocks[i].size > 0);
        assert(blocks[i + 1].size > 0);
    }
    if out.len() > 0 {
        assert(out[0] == result_block(model, t, blocks[0]));
        assert(out.last() == result_block(model, t, blocks.last()));
        assert(blocks[0].size > 0);
        assert(blocks.last().size > 0);
    }
}

/// The blocks of a schedule hand the charge on as the blocks they stand
/// for do, and end with the same charges.
pub proof fn lemma_result_charge_runs(
    model: BatteryModel,
    t: int,
    blocks: Seq<BlockModel>,
    charge_in: int,
    charge_out: int,
    lo: int,
    hi: int,
)
    requires
        forall|i: int| 0 <= i < blocks.len() ==> (#[trigger] blocks[i]).size > 0,
        chained(blocks, charge_in, charge_out),
        charges_within(blocks, lo, hi),
        -CHARGE_MAX <= charge_in <= CHARGE_MAX,
        -CHARGE_MAX <= lo,
        hi <= CHARGE_MAX,
    ensures
        charge_runs(result_blocks(model, t, blocks), charge_in, lo, hi),
{
    lemma_result_blocks(model, t, blocks);
    let out = result_blocks(model, t, blocks);
    assert forall|i: int| 0 <= i < out.len() implies lo <= (#[trigger] out[i]).charge_out <= hi by {
        assert(out[i] == result_block(model, t, blocks[i]));
    }
    assert forall|i: int| 0 <= i < out.len() - 1 implies #[trigger] takes_over(out, i) by {
        assert(out[i] == result_block(model, t, blocks[i]));
        assert(out[i + 1] == result_block(model, t, blocks[i + 1]));
        assert(crate::block::hands_over(blocks, i));
        assert(lo <= blocks[i].charge_out <= hi);
    }
    if out.len() > 0 {
        assert(out[0] == result_block(model, t, blocks[0]));
    }
}

/// In a tiling every block ends at or before the end.
pub proof fn lemma_tiles_end(blocks: Seq<BlockModel>, from: int, to: int, i: int)
    requires
        tiles(blocks, from, to),
        0 <= i < blocks.len(),
    ensures
        blocks[i].start + blocks[i].size <= to,
    decreases blocks.len() - i,
{
    if i < blocks.len() - 1 {
        lemma_tiles_end(blocks, from, to, i + 1);
        assert(adjoins(blocks, i));
        assert(blocks[i + 1].size > 0);
    }
}

impl HorizonModel {
    /// The collection that the planning run for a state of charge of
    /// `soc_in` percent returns: the best of the search where it beats the
    /// baseline by more than the least saving, else the baseline.
    pub open spec fn spec_schedule(&self, soc_in: int) -> CollectionModel {
        let charge_in = self.model.spec_charge_of_soc(soc_in);
        spec_promote(
            self.spec_seek_best(charge_in),
            self.spec_baseline(charge_in),
            self.model.min_saving as int,
        )
    }
}

impl Schedule {
    /// Creates a schedule without scheduling, for the given battery and
    /// with any blocks that exist already.
    pub fn new(model: BatteryModel, schedule_blocks: Option<Vec<Block>>) -> (r: Schedule)
        ensures
            r.horizon.model == model,
            r.date_time == 0,
            r.total_cost == 0,
            r.horizon.tariffs.length == 0,
            r.horizon.tariffs.buy@.len() == 0,
            r.horizon.cons@.len() == 0,
            r.horizon.net_prod@.len() == 0,
            r.blocks@ == match schedule_blocks {
                Some(blocks) => blocks@,
                None => Seq::<Block>::empty(),
            },
            model.wf() ==> r.horizon.wf(),
    {
        let blocks = match schedule_blocks {
            Some(blocks) => blocks,
            None => Vec::new(),
        };
        Schedule {
            date_time: 0,
            blocks,
            total_cost: 0,
            horizon: Horizon {
                tariffs: Tariffs { buy: Vec::new(), length: 0 },
                cons: Vec::new(),
                net_prod: Vec::new(),
                model,
            },
        }
    }

    /// Takes the prices, the consumption and the net production of a
    /// horizon. Series of different lengths are refused, and nothing changes.
    pub fn set_series(&mut self, tariffs: &Vec<i32>, cons: &Vec<i32>, net_prod: &Vec<i32>) -> (r: Result<
        (),
        SchedulerError,
    >)
        requires
            old(self).horizon.model.wf(),
            tariffs.len() <= MAX_QUARTERS,
        ensures
            r is Err <==> !(tariffs.len() == cons.len() && tariffs.len() == net_prod.len()),
            r is Err ==> r->Err_0 == SchedulerError::InconsistentInputLength && *final(self)
                == *old(self),
            r is Ok ==> {
                &&& final(self).horizon.wf()
                &&& final(self).horizon@ == (HorizonModel {
                    tariffs: tariffs@,
                    cons: cons@,
                    net_prod: net_prod@,
                    model: old(self).horizon.model,
                })
                &&& final(self).date_time == old(self).date_time
                &&& final(self).blocks == old(self).blocks
                &&& final(self).total_cost == old(self).total_cost
            },
    {
        if tariffs.len() != cons.len() || tariffs.len() != net_prod.len() {
            return Err(SchedulerError::InconsistentInputLength);
        }
        self.horizon.tariffs = Horizon::transform_tariffs(tariffs);
        self.horizon.cons = copy_series(cons);
        self.horizon.net_prod = copy_series(net_prod);
        Ok(())
    }

    /// Records the outcome of a search for the horizon that starts at
    /// `date_time`: `best` where it beats `baseline` by more than the least
    /// saving, else `baseline`, as blocks with their places in time.
    pub fn record_schedule(&mut self, best: BlockCollection, baseline: BlockCollection, date_time: i64) -> (result:
        SchedulerResult)
        requires
            old(self).horizon.wf(),
            tiles(best@.blocks, 0, old(self).horizon@.quarters()),
            tiles(baseline@.blocks, 0, old(self).horizon@.quarters()),
            old(self).horizon@.fits(baseline@),
            MIN_START_TIME <= date_time <= MAX_START_TIME,
        ensures
            final(self).horizon == old(self).horizon,
            final(self).date_time == date_time,
            final(self).blocks@ == result.blocks@,
            final(self).total_cost == result.total_cost,
            ({
                let planned = old(self).horizon@;
                let chosen = spec_promote(best@, baseline@, planned.model.min_saving as int);
                &&& result.blocks@ == result_blocks(planned.model, date_time as int, chosen.blocks)
                &&& result.blocks@.len() == chosen.blocks.len()
                &&& result.total_cost == chosen.total_cost
                &&& result.base_cost == baseline@.total_cost
                &&& result.start_time == date_time
                &&& result.end_time == if planned.quarters() == 0 {
                    date_time as int
                } else {
                    result.blocks@.last().end_time + QUARTER_SECS
                }
                &&& time_tiles(
                    result.blocks@,
                    quarter_time(date_time as int, offset_quarters(date_time as int)),
                    quarter_time(
                        date_time as int,
                        offset_quarters(date_time as int) + planned.quarters(),
                    ),
                )
                &&& date_time % QUARTER_SECS == 0 ==> time_tiles(
                    result.blocks@,
                    result.start_time as int,
                    result.end_time as int,
                )
                &&& forall|i: int|
                    0 <= i < result.blocks@.len() ==> 10 <= (#[trigger] result.blocks@[i]).soc_in
                        <= 100 && 10 <= result.blocks@[i].soc_out <= 100
            }),
    {
        let base_cost = baseline.total_cost;
        let chosen = promote(best, baseline, self.horizon.model.min_saving);
        proof {
            let horizon = self.horizon@.quarters();
            crate::block::lemma_tiles_len(chosen@.blocks, 0, horizon);
            assert forall|i: int| 0 <= i < chosen.blocks.len() implies (
            #[trigger] chosen.blocks[i]).start_quarter + chosen.blocks[i].size_quarters
                <= MAX_QUARTERS by {
                assert(chosen@.blocks[i] == chosen.blocks[i]@);
                lemma_tiles_end(chosen@.blocks, 0, horizon, i);
            }
            lemma_result_time_tiles(self.horizon.model, date_time as int, chosen@.blocks, horizon);
            if date_time % QUARTER_SECS == 0 {
                lemma_start_on_quarter(date_time as int);
            }
        }
        let blocks = create_result_blocks(&chosen.blocks, &self.horizon.model, date_time);
        let end_time = if blocks.len() == 0 {
            date_time
        } else {
            blocks[blocks.len() - 1].end_time + QUARTER_SECS
        };
        self.date_time = date_time;
        self.blocks = copy_blocks(&blocks);
        self.total_cost = chosen.total_cost;
        SchedulerResult {
            base_cost,
            total_cost: chosen.total_cost,
            start_time: date_time,
            end_time,
            blocks,
        }
    }

    /// Plans the horizon that starts at `date_time` for the given prices,
    /// consumption and net production and a battery at `soc_in` percent.
    ///
    /// Series of different lengths are refused. Otherwise the schedule is
    /// the best of the search where that beats the baseline by more than
    /// the least saving, else the baseline; an empty horizon gives an empty
    /// schedule at no cost. A state of charge outside 10..=100 counts as
    /// the nearest end.
    ///
    /// The blocks of the schedule tile the horizon in time without gap or
    /// overlap and hand the charge on from one to the next; the schedule
    /// costs the rounded sum of their costs, and never more than the baseline.
    pub fn update_scheduling(
        &mut self,
        tariffs: &Vec<i32>,
        cons: &Vec<i32>,
        net_prod: &Vec<i32>,
        soc_in: u8,
        date_time: i64,
    ) -> (r: Result<SchedulerResult, SchedulerError>)
        requires
            old(self).horizon.model.wf(),
            tariffs.len() <= MAX_QUARTERS,
            MIN_START_TIME <= date_time <= MAX_START_TIME,
        ensures
            r is Err <==> !(tariffs.len() == cons.len() && tariffs.len() == net_prod.len()),
            r is Err ==> r->Err_0 == SchedulerError::InconsistentInputLength && *final(self)
                == *old(self),
            r is Ok ==> {
                let planned = final(self).horizon@;
                let result = r->Ok_0;
                let charge_in = planned.model.spec_charge_of_soc(soc_in as int);
                let chosen = planned.spec_schedule(soc_in as int);
                let baseline = planned.spec_baseline(charge_in);
                &&& final(self).horizon.wf()
                &&& planned == (HorizonModel {
                    tariffs: tariffs@,
                    cons: cons@,
                    net_prod: net_prod@,
                    model: old(self).horizon.model,
                })
                &&& final(self).date_time == date_time
                &&& final(self).blocks@ == result.blocks@
                &&& final(self).total_cost == result.total_cost
                &&& result.blocks@ == result_blocks(planned.model, date_time as int, chosen.blocks)
                &&& result.blocks@.len() == chosen.blocks.len()
                &&& result.total_cost == chosen.total_cost
                &&& result.base_cost == baseline.total_cost
                &&& result.start_time == date_time
                &&& result.end_time == if tariffs.len() == 0 {
                    date_time as int
                } else {
                    result.blocks@.last().end_time + QUARTER_SECS
                }
                &&& planned.complete_ok(chosen, charge_in)
                &&& time_tiles(
                    result.blocks@,
                    quarter_time(date_time as int, offset_quarters(date_time as int)),
                    quarter_time(
                        date_time as int,
                        offset_quarters(date_time as int) + tariffs.len(),
                    ),
                )
                &&& date_time % QUARTER_SECS == 0 ==> time_tiles(
                    result.blocks@,
                    result.start_time as int,
                    result.end_time as int,
                )
                &&& charge_runs(
                    result.blocks@,
                    charge_in,
                    -(CHARGE_MAX as int),
                    CHARGE_MAX as int,
                )
                &&& planned.model.reserve_fits() ==> charge_runs(
                    result.blocks@,
                    charge_in,
                    0,
                    planned.model.bat_kwh as int,
                )
                &&& result.total_cost == round_to_cent(sum_costs(chosen.blocks))
                &&& result.total_cost <= result.base_cost
                &&& result.total_cost < result.base_cost - planned.model.min_saving || chosen
                    == baseline
                &&& forall|i: int|
                    0 <= i < result.blocks@.len() ==> 10 <= (#[trigger] result.blocks@[i]).soc_in
                        <= 100 && 10 <= result.blocks@[i].soc_out <= 100
            },
    {
        match self.set_series(tariffs, cons, net_prod) {
            Err(e) => {
                return Err(e);
            },
            Ok(()) => {},
        }
        let charge_in = self.horizon.model.charge_of_soc(soc_in);
        let baseline = self.horizon.create_base_block_collection(charge_in);
        let best = self.horizon.seek_best(charge_in);
        proof {
            let planned = self.horizon@;
            let chosen = planned.spec_schedule(soc_in as int);
            planned.lemma_fits(baseline@, 0, charge_in as int);
            planned.lemma_charge_in(soc_in as int);
            lemma_result_charge_runs(
                planned.model,
                date_time as int,
                chosen.blocks,
                charge_in as int,
                chosen.next_charge_in,
                -(CHARGE_MAX as int),
                CHARGE_MAX as int,
            );
            if planned.model.reserve_fits() {
                lemma_result_charge_runs(
                    planned.model,
                    date_time as int,
                    chosen.blocks,
                    charge_in as int,
                    chosen.next_charge_in,
                    0,
                    planned.model.bat_kwh as int,
                );
            }
        }
        Ok(self.record_schedule(best, baseline, date_time))
    }
}

} // verus!
