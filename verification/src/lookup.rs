//! Finding and updating the blocks of a schedule while it is carried out.

use vstd::prelude::*;
use crate::block::{BlockType, Status};
use crate::schedule::{Block, Schedule};
use crate::units::lemma_mul_bounds;

verus! {

/// Seconds in an hour.
pub const HOUR_SECS: i64 = 3_600;

/// The start of the hour that `t` falls in.
pub open spec fn hour_start(t: int) -> int {
    t - t % (HOUR_SECS as int)
}

/// The block runs at `hour`: it has started and its last quarter has not passed.
pub open spec fn covers(block: Block, hour: int) -> bool {
    block.start_time <= hour <= block.end_time
}

/// Index of the first of the blocks that runs at `hour`.
pub open spec fn first_covering(blocks: Seq<Block>, hour: int) -> Option<int>
    decreases blocks.len(),
{
    if blocks.len() == 0 {
        None
    } else {
        match first_covering(blocks.drop_last(), hour) {
            Some(i) => Some(i),
            None => if covers(blocks.last(), hour) {
                Some(blocks.len() - 1)
            } else {
                None
            },
        }
    }
}

/// Index of the first of the blocks with the identifier `block_id`.
pub open spec fn first_with_id(blocks: Seq<Block>, block_id: int) -> Option<int>
    decreases blocks.len(),
{
    if blocks.len() == 0 {
        None
    } else {
        match first_with_id(blocks.drop_last(), block_id) {
            Some(i) => Some(i),
            None => if blocks.last().block_id == block_id {
                Some(blocks.len() - 1)
            } else {
                None
            },
        }
    }
}

/// `first_covering` finds a block that runs at `hour`, none before it
/// does, and it finds none only where no block does.
pub proof fn lemma_first_covering(blocks: Seq<Block>, hour: int)
    ensures
        match first_covering(blocks, hour) {
            Some(i) => 0 <= i < blocks.len() && covers(blocks[i], hour) && forall|j: int|
                0 <= j < i ==> !covers(#[trigger] blocks[j], hour),
            None => forall|j: int| 0 <= j < blocks.len() ==> !covers(#[trigger] blocks[j], hour),
        },
    decreases blocks.len(),
{
    if blocks.len() > 0 {
        let head = blocks.drop_last();
        lemma_first_covering(head, hour);
        assert forall|j: int| 0 <= j < head.len() implies head[j] == blocks[j] by {}
    }
}

/// `first_with_id` finds a block with the identifier, none before it has
/// it, and it finds none only where no block has it.
pub proof fn lemma_first_with_id(blocks: Seq<Block>, block_id: int)
    ensures
        match first_with_id(blocks, block_id) {
            Some(i) => 0 <= i < blocks.len() && blocks[i].block_id == block_id && forall|j: int|
                0 <= j < i ==> (#[trigger] blocks[j]).block_id != block_id,
            None => forall|j: int|
                0 <= j < blocks.len() ==> (#[trigger] blocks[j]).block_id != block_id,
        },
    decreases blocks.len(),
{
    if blocks.len() > 0 {
        let head = blocks.drop_last();
        lemma_first_with_id(head, block_id);
        assert forall|j: int| 0 <= j < head.len() implies head[j] == blocks[j] by {}
    }
}

/// The start of the hour that `t` falls in.
pub fn hour_start_of(t: i64) -> (r: i64)
    requires
        i64::MIN + HOUR_SECS <= t,
    ensures
        r == hour_start(t as int),
{
    let rest = t % HOUR_SECS;
    if rest < 0 {
        t - (rest + HOUR_SECS)
    } else {
        t - rest
    }
}

impl Block {
    /// The block as it is after its status has changed to `status`.
    pub open spec fn with_status(self, status: Status) -> Block {
        match status {
            Status::Full(soc) if self.block_type == BlockType::Charge => Block {
                soc_out: soc,
                charge_out: ((soc - 10) * self.soc_kwh) as i64,
                status,
                ..self
            },
            _ => Block { status, ..self },
        }
    }

    /// Updates the status of the block. A charge block that is reported
    /// full takes the reported state of charge, and the charge that goes
    /// with it, as what it ends with.
    pub fn update_block_status(&mut self, status: Status)
        requires
            old(self).block_type == BlockType::Charge ==> match status {
                Status::Full(soc) => 10 <= soc <= 100,
                _ => true,
            },
        ensures
            *final(self) == old(self).with_status(status),
    {
        if self.block_type == BlockType::Charge {
            if let Status::Full(soc) = status {
                self.soc_out = soc;
                proof {
                    lemma_mul_bounds(soc - 10, self.soc_kwh as int, 90, 0x8000_0000);
                }
                self.charge_out = (soc as i64 - 10) * self.soc_kwh as i64;
            }
        }
        self.status = status;
    }
}

impl Schedule {
    /// Position of the first block with the identifier `block_id`.
    pub fn find_block(&self, block_id: i64) -> (r: Option<usize>)
        ensures
            match r {
                Some(i) => first_with_id(self.blocks@, block_id as int) == Some(i as int) && i
                    < self.blocks.len(),
                None => first_with_id(self.blocks@, block_id as int) is None,
            },
    {
        proof {
            lemma_first_with_id(self.blocks@, block_id as int);
        }
        let mut i: usize = 0;
        while i < self.blocks.len()
            invariant
                i <= self.blocks.len(),
                first_with_id(self.blocks@.take(i as int), block_id as int) is None,
            decreases self.blocks.len() - i,
        {
            proof {
                assert(self.blocks@.take(i as int + 1).drop_last() =~= self.blocks@.take(i as int));
            }
            if self.blocks[i].block_id == block_id {
                proof {
                    assert(self.blocks@.take(i as int + 1).last() == self.blocks@[i as int]);
                    assert(first_with_id(self.blocks@.take(i as int + 1), block_id as int)
                        == Some(i as int));
                    lemma_found_stays(self.blocks@, block_id as int, i as int + 1);
                }
                return Some(i);
            }
            i += 1;
        }
        assert(self.blocks@.take(self.blocks.len() as int) =~= self.blocks@);
        None
    }

    /// Returns the first block with the identifier `block_id`, to be changed in place.
    pub fn get_block_by_id(&mut self, block_id: i64) -> (r: Option<&mut Block>)
        ensures
            match r {
                Some(block) => {
                    let i = first_with_id(old(self).blocks@, block_id as int)->Some_0;
                    &&& first_with_id(old(self).blocks@, block_id as int) is Some
                    &&& *block == old(self).blocks@[i]
                    &&& final(self).blocks@ == old(self).blocks@.update(i, *final(block))
                },
                None => first_with_id(old(self).blocks@, block_id as int) is None
                    && final(self).blocks@ == old(self).blocks@,
            },
            final(self).date_time == old(self).date_time,
            final(self).total_cost == old(self).total_cost,
            final(self).horizon == old(self).horizon,
    {
        match self.find_block(block_id) {
            Some(i) => Some(&mut self.blocks[i]),
            None => None,
        }
    }

    /// Returns the identifier of the first block that runs in the hour of `date_time`.
    pub fn get_block_by_time(&self, date_time: i64) -> (r: Option<i64>)
        requires
            i64::MIN + HOUR_SECS <= date_time,
        ensures
            match first_covering(self.blocks@, hour_start(date_time as int)) {
                Some(i) => r == Some(self.blocks@[i].block_id),
                None => r is None,
            },
    {
        let date_hour = hour_start_of(date_time);
        proof {
            lemma_first_covering(self.blocks@, date_hour as int);
        }
        let mut i: usize = 0;
        while i < self.blocks.len()
            invariant
                i <= self.blocks.len(),
                date_hour == hour_start(date_time as int),
                first_covering(self.blocks@.take(i as int), date_hour as int) is None,
            decreases self.blocks.len() - i,
        {
            proof {
                assert(self.blocks@.take(i as int + 1).drop_last() =~= self.blocks@.take(i as int));
            }
            let b = &self.blocks[i];
            if b.start_time <= date_hour && b.end_time >= date_hour {
                proof {
                    assert(self.blocks@.take(i as int + 1).last() == self.blocks@[i as int]);
                    assert(first_covering(self.blocks@.take(i as int + 1), date_hour as int)
                        == Some(i as int));
                    lemma_covering_stays(self.blocks@, date_hour as int, i as int + 1);
                }
                return Some(b.block_id);
            }
            i += 1;
        }
        assert(self.blocks@.take(self.blocks.len() as int) =~= self.blocks@);
        None
    }

    /// Whether it is time to move on in the schedule: the block with the
    /// identifier `block_id` is unknown, does not run in the hour of
    /// `date_time`, or runs in it and is still waiting.
    pub fn is_update_time(&self, block_id: i64, date_time: i64) -> (r: bool)
        requires
            i64::MIN + HOUR_SECS <= date_time,
        ensures
            r == match first_with_id(self.blocks@, block_id as int) {
                Some(i) => !covers(self.blocks@[i], hour_start(date_time as int))
                    || self.blocks@[i].status == Status::Waiting,
                None => true,
            },
    {
        let date_hour = hour_start_of(date_time);
        match self.find_block(block_id) {
            None => true,
            Some(i) => {
                let b = &self.blocks[i];
                (b.start_time > date_hour || b.end_time < date_hour) || (b.start_time <= date_hour
                    && b.end_time >= date_hour && b.status == Status::Waiting)
            },
        }
    }

    /// Whether the block with the identifier `block_id` is a charge block
    /// that runs in the hour of `date_time` and has started.
    pub fn is_active_charging(&self, block_id: i64, date_time: i64) -> (r: bool)
        requires
            i64::MIN + HOUR_SECS <= date_time,
        ensures
            r == match first_with_id(self.blocks@, block_id as int) {
                Some(i) => covers(self.blocks@[i], hour_start(date_time as int))
                    && self.blocks@[i].block_type == BlockType::Charge && self.blocks@[i].status
                    == Status::Started,
                None => false,
            },
    {
        let date_hour = hour_start_of(date_time);
        match self.find_block(block_id) {
            None => false,
            Some(i) => {
                let b = &self.blocks[i];
                b.start_time <= date_hour && b.end_time >= date_hour && b.block_type
                    == BlockType::Charge && b.status == Status::Started
            },
        }
    }
}

/// What is found among the first `n` blocks is found among all of them.
proof fn lemma_found_stays(blocks: Seq<Block>, block_id: int, n: int)
    requires
        0 <= n <= blocks.len(),
        first_with_id(blocks.take(n), block_id) is Some,
    ensures
        first_with_id(blocks, block_id) == first_with_id(blocks.take(n), block_id),
    decreases blocks.len() - n,
{
    if n < blocks.len() {
        assert(blocks.take(n + 1).drop_last() =~= blocks.take(n));
        lemma_found_stays(blocks, block_id, n + 1);
    } else {
        assert(blocks.take(n) =~= blocks);
    }
}

/// What runs among the first `n` blocks runs among all of them.
proof fn lemma_covering_stays(blocks: Seq<Block>, hour: int, n: int)
    requires
        0 <= n <= blocks.len(),
        first_covering(blocks.take(n), hour) is Some,
    ensures
        first_covering(blocks, hour) == first_covering(blocks.take(n), hour),
    decreases blocks.len() - n,
{
    if n < blocks.len() {
        assert(blocks.take(n + 1).drop_last() =~= blocks.take(n));
        lemma_covering_stays(blocks, hour, n + 1);
    } else {
        assert(blocks.take(n) =~= blocks);
    }
}

} // verus!
