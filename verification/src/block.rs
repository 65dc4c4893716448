//! Blocks: contiguous runs of quarters under one policy.

use vstd::prelude::*;
use crate::text::{decimal_digits, padding, push_padded};

verus! {

/// The policy a block applies to the battery.
#[derive(Clone, Copy, Debug, PartialEq, Eq, Structural)]
pub enum BlockType {
    /// Charge the battery from the grid.
    Charge,
    /// Keep the battery at the level it has.
    Hold,
    /// Let the battery cover the household.
    Use,
}

/// How far the consumer of a schedule has come with a block.
#[derive(Clone, Copy, Debug, PartialEq, Eq, Structural)]
pub enum Status {
    Waiting,
    Started,
    /// The battery was full at the given state of charge.
    Full(usize),
    Error,
}

impl BlockType {
    /// The name of the type, filled with blanks to six characters.
    pub open spec fn spec_label(self) -> Seq<char> {
        match self {
            BlockType::Charge => "Charge"@,
            BlockType::Hold => "Hold  "@,
            BlockType::Use => "Use   "@,
        }
    }

    /// The name of the type, filled with blanks to six characters.
    pub fn label(&self) -> (text: String)
        ensures
            text@ == self.spec_label(),
    {
        match self {
            BlockType::Charge => "Charge".to_owned(),
            BlockType::Hold => "Hold  ".to_owned(),
            BlockType::Use => "Use   ".to_owned(),
        }
    }
}

impl Status {
    /// The name of the status, nine characters wide; a full battery
    /// shows its state of charge, three characters wide.
    pub open spec fn spec_label(self) -> Seq<char> {
        match self {
            Status::Waiting => "Waiting  "@,
            Status::Started => "Started  "@,
            Status::Full(soc) => "Full: "@ + padding(decimal_digits(soc as nat).len() as int, 3)
                + decimal_digits(soc as nat),
            Status::Error => "Error    "@,
        }
    }

    /// The name of the status, nine characters wide; a full battery
    /// shows its state of charge, three characters wide.
    pub fn label(&self) -> (text: String)
        ensures
            text@ == self.spec_label(),
    {
        match self {
            Status::Waiting => "Waiting  ".to_owned(),
            Status::Started => "Started  ".to_owned(),
            Status::Full(soc) => {
                let mut text = "Full: ".to_owned();
                push_padded(&mut text, *soc as u64, 3);
                text
            },
            Status::Error => "Error    ".to_owned(),
        }
    }
}

/// A block as the search sees it: quarters counted from the start of the horizon.
#[derive(Clone, Copy, Debug, PartialEq, Eq, Structural)]
pub struct BlockInternal {
    pub block_type: BlockType,
    pub start_quarter: usize,
    pub size_quarters: usize,
    /// Cost of the block, in cost units.
    pub cost: i128,
    pub charge_in_kwh: i64,
    pub charge_out_kwh: i64,
}

/// The mathematical value of a `BlockInternal`.
pub struct BlockModel {
    pub block_type: BlockType,
    pub start: int,
    pub size: int,
    pub cost: int,
    pub charge_in: int,
    pub charge_out: int,
}

impl View for BlockInternal {
    type V = BlockModel;

    open spec fn view(&self) -> BlockModel {
        BlockModel {
            block_type: self.block_type,
            start: self.start_quarter as int,
            size: self.size_quarters as int,
            cost: self.cost as int,
            charge_in: self.charge_in_kwh as int,
            charge_out: self.charge_out_kwh as int,
        }
    }
}

/// The values of a sequence of blocks.
pub open spec fn models(blocks: Seq<BlockInternal>) -> Seq<BlockModel> {
    blocks.map_values(|b: BlockInternal| b@)
}

/// A partial or complete candidate schedule.
#[derive(Debug)]
pub struct BlockCollection {
    pub blocks: Vec<BlockInternal>,
    /// First quarter that is not yet covered.
    pub next_start: usize,
    /// Charge at `next_start`.
    pub next_charge_in: i64,
    /// Cost of the blocks, in cost units.
    pub total_cost: i128,
}

/// The mathematical value of a `BlockCollection`.
pub struct CollectionModel {
    pub blocks: Seq<BlockModel>,
    pub next_start: int,
    pub next_charge_in: int,
    pub total_cost: int,
}

impl View for BlockCollection {
    type V = CollectionModel;

    open spec fn view(&self) -> CollectionModel {
        CollectionModel {
            blocks: models(self.blocks@),
            next_start: self.next_start as int,
            next_charge_in: self.next_charge_in as int,
            total_cost: self.total_cost as int,
        }
    }
}

impl BlockCollection {
    /// A copy with the same value.
    pub fn duplicate(&self) -> (r: BlockCollection)
        ensures
            r@ == self@,
            r.blocks@ == self.blocks@,
    {
        let mut blocks: Vec<BlockInternal> = Vec::new();
        let mut i: usize = 0;
        while i < self.blocks.len()
            invariant
                i <= self.blocks.len(),
                blocks@ == self.blocks@.take(i as int),
            decreases self.blocks.len() - i,
        {
            blocks.push(self.blocks[i]);
            assert(self.blocks@.take(i as int).push(self.blocks@[i as int]) =~= self.blocks@.take(
                i as int + 1,
            ));
            i += 1;
        }
        assert(self.blocks@.take(self.blocks.len() as int) =~= self.blocks@);
        BlockCollection {
            blocks,
            next_start: self.next_start,
            next_charge_in: self.next_charge_in,
            total_cost: self.total_cost,
        }
    }
}

/// What the accounting of one period yields.
#[derive(Clone, Copy, Debug, PartialEq, Eq, Structural)]
pub struct PeriodMetrics {
    pub block_type: BlockType,
    pub start: usize,
    pub size: usize,
    pub charge_in: i64,
    pub charge_out: i64,
    /// Level below which the battery is not drained during the period.
    pub hold_level: i64,
    pub cost: i128,
}

/// The sum of the costs of some blocks.
pub open spec fn sum_costs(blocks: Seq<BlockModel>) -> int
    decreases blocks.len(),
{
    if blocks.len() == 0 {
        0
    } else {
        sum_costs(blocks.drop_last()) + blocks.last().cost
    }
}

/// The sum of the sizes of some blocks.
pub open spec fn sum_sizes(blocks: Seq<BlockModel>) -> int
    decreases blocks.len(),
{
    if blocks.len() == 0 {
        0
    } else {
        sum_sizes(blocks.drop_last()) + blocks.last().size
    }
}

/// Block `i + 1` starts where block `i` ends.
pub open spec fn adjoins(blocks: Seq<BlockModel>, i: int) -> bool {
    blocks[i].start + blocks[i].size == blocks[i + 1].start
}

/// Block `i + 1` starts with the charge that block `i` ends with.
pub open spec fn hands_over(blocks: Seq<BlockModel>, i: int) -> bool {
    blocks[i].charge_out == blocks[i + 1].charge_in
}

/// The blocks cover `[from, to)` in order, without gap or overlap, and none is empty.
pub open spec fn tiles(blocks: Seq<BlockModel>, from: int, to: int) -> bool {
    &&& from <= to
    &&& blocks.len() == 0 ==> from == to
    &&& blocks.len() > 0 ==> blocks[0].start == from && blocks.last().start + blocks.last().size
        == to
    &&& forall|i: int| 0 <= i < blocks.len() ==> (#[trigger] blocks[i]).size > 0
    &&& forall|i: int| 0 <= i < blocks.len() - 1 ==> #[trigger] adjoins(blocks, i)
}

/// The charge runs through the blocks from `charge_in` to `charge_out`:
/// each block starts with the charge that the block before it ended with.
pub open spec fn chained(blocks: Seq<BlockModel>, charge_in: int, charge_out: int) -> bool {
    &&& blocks.len() == 0 ==> charge_in == charge_out
    &&& blocks.len() > 0 ==> blocks[0].charge_in == charge_in && blocks.last().charge_out
        == charge_out
    &&& forall|i: int| 0 <= i < blocks.len() - 1 ==> #[trigger] hands_over(blocks, i)
}

/// Every block ends with a charge in `[lo, hi]`.
pub open spec fn charges_within(blocks: Seq<BlockModel>, lo: int, hi: int) -> bool {
    forall|i: int| 0 <= i < blocks.len() ==> lo <= (#[trigger] blocks[i]).charge_out <= hi
}

/// Tilings that meet at `mid` join to one tiling.
pub proof fn lemma_tiles_join(a: Seq<BlockModel>, b: Seq<BlockModel>, from: int, mid: int, to: int)
    requires
        tiles(a, from, mid),
        tiles(b, mid, to),
    ensures
        tiles(a + b, from, to),
{
    let c = a + b;
    assert forall|i: int| 0 <= i < c.len() implies (#[trigger] c[i]).size > 0 by {
        if i < a.len() {
            assert(c[i] == a[i]);
        } else {
            assert(c[i] == b[i - a.len()]);
        }
    }
    assert forall|i: int| 0 <= i < c.len() - 1 implies #[trigger] adjoins(c, i) by {
        if i < a.len() - 1 {
            assert(adjoins(a, i));
        } else if i == a.len() - 1 {
            assert(c[i] == a.last());
            assert(c[i + 1] == b[0]);
        } else {
            assert(adjoins(b, i - a.len()));
            assert(c[i] == b[i - a.len()]);
            assert(c[i + 1] == b[i - a.len() + 1]);
        }
    }
    if c.len() > 0 {
        if a.len() > 0 {
            assert(c[0] == a[0]);
        } else {
            assert(c[0] == b[0]);
        }
        if b.len() > 0 {
            assert(c.last() == b.last());
        } else {
            assert(c.last() == a.last());
        }
    }
}

/// Chains that meet at `mid` join to one chain.
pub proof fn lemma_chained_join(
    a: Seq<BlockModel>,
    b: Seq<BlockModel>,
    charge_in: int,
    mid: int,
    charge_out: int,
)
    requires
        chained(a, charge_in, mid),
        chained(b, mid, charge_out),
    ensures
        chained(a + b, charge_in, charge_out),
{
    let c = a + b;
    assert forall|i: int| 0 <= i < c.len() - 1 implies #[trigger] hands_over(c, i) by {
        if i < a.len() - 1 {
            assert(hands_over(a, i));
        } else if i == a.len() - 1 {
            assert(c[i] == a.last());
            assert(c[i + 1] == b[0]);
        } else {
            assert(hands_over(b, i - a.len()));
            assert(c[i] == b[i - a.len()]);
            assert(c[i + 1] == b[i - a.len() + 1]);
        }
    }
    if c.len() > 0 {
        if a.len() > 0 {
            assert(c[0] == a[0]);
        } else {
            assert(c[0] == b[0]);
        }
        if b.len() > 0 {
            assert(c.last() == b.last());
        } else {
            assert(c.last() == a.last());
        }
    }
}

/// Ranges of charge that hold of both parts hold of the concatenation.
pub proof fn lemma_charges_within_join(a: Seq<BlockModel>, b: Seq<BlockModel>, lo: int, hi: int)
    requires
        charges_within(a, lo, hi),
        charges_within(b, lo, hi),
    ensures
        charges_within(a + b, lo, hi),
{
    let c = a + b;
    assert forall|i: int| 0 <= i < c.len() implies lo <= (#[trigger] c[i]).charge_out <= hi by {
        if i < a.len() {
            assert(c[i] == a[i]);
        } else {
            assert(c[i] == b[i - a.len()]);
        }
    }
}

/// The cost of a concatenation is the sum of the costs of its parts.
pub proof fn lemma_sum_costs_join(a: Seq<BlockModel>, b: Seq<BlockModel>)
    ensures
        sum_costs(a + b) == sum_costs(a) + sum_costs(b),
    decreases b.len(),
{
    if b.len() == 0 {
        assert(a + b =~= a);
    } else {
        lemma_sum_costs_join(a, b.drop_last());
        assert((a + b).drop_last() =~= a + b.drop_last());
        assert((a + b).last() == b.last());
    }
}

/// The size of a concatenation is the sum of the sizes of its parts.
pub proof fn lemma_sum_sizes_join(a: Seq<BlockModel>, b: Seq<BlockModel>)
    ensures
        sum_sizes(a + b) == sum_sizes(a) + sum_sizes(b),
    decreases b.len(),
{
    if b.len() == 0 {
        assert(a + b =~= a);
    } else {
        lemma_sum_sizes_join(a, b.drop_last());
        assert((a + b).drop_last() =~= a + b.drop_last());
        assert((a + b).last() == b.last());
    }
}

/// A tiling without its last block tiles the interval up to that block.
pub proof fn lemma_tiles_drop_last(blocks: Seq<BlockModel>, from: int, to: int)
    requires
        tiles(blocks, from, to),
        blocks.len() > 0,
    ensures
        tiles(blocks.drop_last(), from, blocks.last().start),
{
    let head = blocks.drop_last();
    assert forall|i: int| 0 <= i < head.len() implies (#[trigger] head[i]).size > 0 by {
        assert(head[i] == blocks[i]);
    }
    assert forall|i: int| 0 <= i < head.len() - 1 implies #[trigger] adjoins(head, i) by {
        assert(adjoins(blocks, i));
        assert(head[i] == blocks[i]);
        assert(head[i + 1] == blocks[i + 1]);
    }
    if head.len() > 0 {
        assert(head[0] == blocks[0]);
        assert(adjoins(blocks, blocks.len() - 2));
        assert(head.last() == blocks[blocks.len() - 2]);
        lemma_tiles_start(blocks, from, to, blocks.len() - 1);
    }
}

/// Blocks that tile an interval have sizes that add up to its length.
pub proof fn lemma_tiles_sizes(blocks: Seq<BlockModel>, from: int, to: int)
    requires
        tiles(blocks, from, to),
    ensures
        sum_sizes(blocks) == to - from,
    decreases blocks.len(),
{
    if blocks.len() > 0 {
        lemma_tiles_drop_last(blocks, from, to);
        lemma_tiles_sizes(blocks.drop_last(), from, blocks.last().start);
    }
}

/// In a tiling block `i` starts at least `i` quarters after the start.
pub proof fn lemma_tiles_start(blocks: Seq<BlockModel>, from: int, to: int, i: int)
    requires
        tiles(blocks, from, to),
        0 <= i < blocks.len(),
    ensures
        from + i <= blocks[i].start,
    decreases i,
{
    if i > 0 {
        lemma_tiles_start(blocks, from, to, i - 1);
        assert(adjoins(blocks, i - 1));
        assert(blocks[i - 1].size > 0);
    }
}

/// A tiling of `[from, to)` has at most `to - from` blocks.
pub proof fn lemma_tiles_len(blocks: Seq<BlockModel>, from: int, to: int)
    requires
        tiles(blocks, from, to),
    ensures
        blocks.len() <= to - from,
{
    if blocks.len() > 0 {
        lemma_tiles_start(blocks, from, to, blocks.len() - 1);
        assert(blocks.last().size > 0);
    }
}

} // verus!
