//! From the winning collection to the blocks of the schedule, each with its
//! place in time and its states of charge.

use vstd::prelude::*;
use crate::battery::BatteryModel;
use crate::block::{models, BlockCollection, BlockInternal, BlockModel, CollectionModel, Status};
use crate::schedule::Block;
use crate::units::{DAY_SECS, MAX_QUARTERS, QUARTER_SECS};

verus! {

/// The latest start time that a schedule can be given.
pub const MAX_START_TIME: i64 = i64::MAX - 200_000;

/// The earliest start time that a schedule can be given.
pub const MIN_START_TIME: i64 = i64::MIN + 100_000;

/// Midnight of the day that `t` falls on.
pub open spec fn day_start(t: int) -> int {
    t - t % (DAY_SECS as int)
}

/// Number of whole quarters between midnight and `t`.
pub open spec fn offset_quarters(t: int) -> int {
    (t % (DAY_SECS as int)) / (QUARTER_SECS as int)
}

/// Start of the quarter that lies `quarter` quarters after the midnight before `t`.
pub open spec fn quarter_time(t: int, quarter: int) -> int {
    day_start(t) + quarter * QUARTER_SECS
}

/// Hour of the day at which a quarter counted from midnight starts.
pub open spec fn hour_of(quarter: int) -> int {
    (quarter / 4) % 24
}

/// Minute of the hour at which a quarter counted from midnight starts.
pub open spec fn minute_of(quarter: int) -> int {
    (quarter % 4) * 15
}

/// A time on a quarter of an hour is the start of its own quarter.
pub proof fn lemma_start_on_quarter(t: int)
    requires
        t % (QUARTER_SECS as int) == 0,
    ensures
        quarter_time(t, offset_quarters(t)) == t,
{
    let rest = t % (DAY_SECS as int);
    assert(rest % 900 == 0);
}

/// The block of the schedule that stands for `block` when the horizon starts at `t`.
pub open spec fn result_block(model: BatteryModel, t: int, block: BlockModel) -> Block {
    let first = block.start + offset_quarters(t);
    let last = first + block.size - 1;
    Block {
        block_id: quarter_time(t, first) as i64,
        block_type: block.block_type,
        start_time: quarter_time(t, first) as i64,
        end_time: quarter_time(t, last) as i64,
        start_hour: hour_of(first) as usize,
        start_minute: minute_of(first) as usize,
        end_hour: hour_of(last) as usize,
        end_minute: minute_of(last) as usize,
        size: block.size as usize,
        cost: block.cost as i128,
        charge_in: block.charge_in as i64,
        charge_out: block.charge_out as i64,
        true_soc_in: None,
        soc_in: model.spec_soc_of_charge(block.charge_in) as usize,
        soc_out: model.spec_soc_of_charge(block.charge_out) as usize,
        soc_kwh: model.soc_kwh,
        status: Status::Waiting,
    }
}

/// The blocks of the schedule that stand for `blocks`: empty ones are dropped.
pub open spec fn result_blocks(model: BatteryModel, t: int, blocks: Seq<BlockModel>) -> Seq<Block>
    decreases blocks.len(),
{
    if blocks.len() == 0 {
        Seq::empty()
    } else {
        let head = result_blocks(model, t, blocks.drop_last());
        if blocks.last().size > 0 {
            head.push(result_block(model, t, blocks.last()))
        } else {
            head
        }
    }
}

/// Where no block is empty, each block of the schedule stands for the
/// block at the same place.
pub proof fn lemma_result_blocks(model: BatteryModel, t: int, blocks: Seq<BlockModel>)
    requires
        forall|i: int| 0 <= i < blocks.len() ==> (#[trigger] blocks[i]).size > 0,
    ensures
        result_blocks(model, t, blocks).len() == blocks.len(),
        forall|i: int|
            0 <= i < blocks.len() ==> (#[trigger] result_blocks(model, t, blocks)[i])
                == result_block(model, t, blocks[i]),
    decreases blocks.len(),
{
    if blocks.len() > 0 {
        let head = blocks.drop_last();
        assert forall|i: int| 0 <= i < head.len() implies (#[trigger] head[i]).size > 0 by {
            assert(head[i] == blocks[i]);
        }
        lemma_result_blocks(model, t, head);
        assert(blocks.last().size > 0);
        assert forall|i: int| 0 <= i < blocks.len() implies (#[trigger] result_blocks(
            model,
            t,
            blocks,
        )[i]) == result_block(model, t, blocks[i]) by {
            if i < head.len() {
                assert(result_blocks(model, t, head)[i] == result_block(model, t, head[i]));
                assert(head[i] == blocks[i]);
            }
        }
    }
}

/// The collection that is returned: `best` where it beats the baseline by
/// more than `min_saving`, else the baseline.
pub open spec fn spec_promote(best: CollectionModel, baseline: CollectionModel, min_saving: int) -> CollectionModel {
    if best.total_cost < baseline.total_cost - min_saving {
        best
    } else {
        baseline
    }
}

/// Returns `best` where it beats the baseline by more than `min_saving`, else the baseline.
pub fn promote(best: BlockCollection, baseline: BlockCollection, min_saving: i64) -> (r:
    BlockCollection)
    requires
        i128::MIN + i64::MAX < baseline.total_cost < i128::MAX - i64::MAX,
    ensures
        r@ == spec_promote(best@, baseline@, min_saving as int),
{
    if best.total_cost < baseline.total_cost - min_saving as i128 {
        best
    } else {
        baseline
    }
}

/// Midnight of the day that `t` falls on.
pub fn day_start_of(t: i64) -> (r: i64)
    requires
        MIN_START_TIME <= t,
    ensures
        r == day_start(t as int),
        0 <= t - r < DAY_SECS,
{
    let rest = t % DAY_SECS;
    if rest < 0 {
        t - (rest + DAY_SECS)
    } else {
        t - rest
    }
}

/// Creates the blocks of the schedule from the blocks of the search. A
/// block that lies `s` quarters into the horizon starts `s` quarters after
/// `date_time`, counted in whole quarters from midnight; its end is the
/// start of its last quarter; its identifier is its start time; its states
/// of charge follow from its charges; its status is `Waiting`. Empty
/// blocks are dropped.
pub fn create_result_blocks(blocks: &Vec<BlockInternal>, model: &BatteryModel, date_time: i64) -> (r:
    Vec<Block>)
    requires
        model.wf(),
        MIN_START_TIME <= date_time <= MAX_START_TIME,
        forall|i: int|
            0 <= i < blocks.len() ==> (#[trigger] blocks[i]).start_quarter
                + blocks[i].size_quarters <= MAX_QUARTERS,
    ensures
        r@ == result_blocks(*model, date_time as int, models(blocks@)),
        forall|i: int|
            0 <= i < r.len() ==> 10 <= (#[trigger] r[i]).soc_in <= 100 && 10 <= r[i].soc_out <= 100,
{
    let mut result: Vec<Block> = Vec::new();
    let time = day_start_of(date_time);
    let offset: usize = ((date_time - time) / QUARTER_SECS) as usize;
    let mut i: usize = 0;
    while i < blocks.len()
        invariant
            model.wf(),
            i <= blocks.len(),
            MIN_START_TIME <= date_time <= MAX_START_TIME,
            time == day_start(date_time as int),
            offset == offset_quarters(date_time as int),
            0 <= offset < 96,
            forall|j: int|
                0 <= j < blocks.len() ==> (#[trigger] blocks[j]).start_quarter
                    + blocks[j].size_quarters <= MAX_QUARTERS,
            result@ == result_blocks(*model, date_time as int, models(blocks@.take(i as int))),
            forall|j: int|
                0 <= j < result.len() ==> 10 <= (#[trigger] result[j]).soc_in <= 100 && 10
                    <= result[j].soc_out <= 100,
        decreases blocks.len() - i,
    {
        let b = blocks[i];
        proof {
            assert(models(blocks@.take(i as int + 1)).drop_last() =~= models(
                blocks@.take(i as int),
            ));
            assert(models(blocks@.take(i as int + 1)).last() == b@);
            assert(blocks[i as int].start_quarter + blocks[i as int].size_quarters
                <= MAX_QUARTERS);
        }
        if b.size_quarters > 0 {
            let first: usize = b.start_quarter + offset;
            let last: usize = first + b.size_quarters - 1;
            let start_time: i64 = time + first as i64 * QUARTER_SECS;
            let end_time: i64 = time + last as i64 * QUARTER_SECS;
            let block = Block {
                block_id: start_time,
                block_type: b.block_type,
                start_time,
                end_time,
                start_hour: (first / 4) % 24,
                start_minute: (first % 4) * 15,
                end_hour: (last / 4) % 24,
                end_minute: (last % 4) * 15,
                size: b.size_quarters,
                cost: b.cost,
                charge_in: b.charge_in_kwh,
                charge_out: b.charge_out_kwh,
                true_soc_in: None,
                soc_in: model.soc_of_charge(b.charge_in_kwh),
                soc_out: model.soc_of_charge(b.charge_out_kwh),
                soc_kwh: model.soc_kwh,
                status: Status::Waiting,
            };
            assert(block == result_block(*model, date_time as int, b@));
            result.push(block);
        }
        i += 1;
    }
    assert(blocks@.take(blocks.len() as int) =~= blocks@);
    result
}

} // verus!
