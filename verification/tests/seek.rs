use mygrid_scheduler::battery::BatteryModel;
use mygrid_scheduler::block::{BlockCollection, BlockInternal, BlockType, PeriodMetrics};
use mygrid_scheduler::schedule::{Horizon, Tariffs};
use mygrid_scheduler::search::pick_best;
use mygrid_scheduler::seek::combine_blocks;

const M: i32 = 1_000_000;

fn horizon() -> Horizon {
    let buy = vec![M, 2 * M, 3 * M, 4 * M];
    Horizon {
        tariffs: Tariffs { length: buy.len(), buy },
        cons: vec![500_000; 4],
        net_prod: vec![-500_000, 300_000, -2 * M, 100 * M],
        model: BatteryModel::new(15 * M, 170_000, 1_500_000, 900, 900, 10_000_000_000).unwrap(),
    }
}

fn block(
    block_type: BlockType,
    start_quarter: usize,
    size_quarters: usize,
    cost: i128,
    charge_in_kwh: i64,
    charge_out_kwh: i64,
) -> BlockInternal {
    BlockInternal { block_type, start_quarter, size_quarters, cost, charge_in_kwh, charge_out_kwh }
}

fn collection(blocks: Vec<BlockInternal>, next_start: usize, next_charge_in: i64, total_cost: i128) -> BlockCollection {
    BlockCollection { blocks, next_start, next_charge_in, total_cost }
}

#[test]
fn seek_charge_gives_a_hold_and_a_charge() {
    let part = horizon().seek_charge(0, 1, 20, 1_000_000);
    assert_eq!(
        part.blocks,
        vec![
            block(BlockType::Hold, 0, 1, 500_000_000_000, 1_000_000, 1_000_000),
            block(BlockType::Charge, 1, 2, 9_000_001_000_000, 1_000_000, 3_400_000),
        ]
    );
    assert_eq!(part.next_start, 3);
    assert_eq!(part.next_charge_in, 3_400_000);
    assert_eq!(part.total_cost, 9_500_001_000_000);
}

#[test]
fn seek_charge_without_need_gives_the_hold_alone() {
    let part = horizon().seek_charge(0, 1, 5, 1_000_000);
    assert_eq!(part.blocks, vec![block(BlockType::Hold, 0, 1, 500_000_000_000, 1_000_000, 1_000_000)]);
    assert_eq!(part.next_start, 1);
    assert_eq!(part.next_charge_in, 1_000_000);
    assert_eq!(part.total_cost, 500_000_000_000);
}

#[test]
fn seek_charge_at_its_start_without_need_is_empty() {
    let part = horizon().seek_charge(1, 1, 0, 0);
    assert_eq!(part.blocks, vec![]);
    assert_eq!(part.next_start, 1);
    assert_eq!(part.next_charge_in, 0);
    assert_eq!(part.total_cost, 0);
}

#[test]
fn seek_charge_at_the_end_of_the_horizon_takes_no_quarter() {
    let part = horizon().seek_charge(4, 4, 90, 0);
    assert_eq!(part.blocks, vec![]);
    assert_eq!(part.next_start, 4);
    assert_eq!(part.next_charge_in, 0);
}

#[test]
fn seek_use_gives_a_hold_and_a_use() {
    let part = horizon().seek_use(0, 1, 3, 1_000_000).unwrap();
    assert_eq!(
        part.blocks,
        vec![
            block(BlockType::Hold, 0, 1, 500_000_000_000, 1_000_000, 1_000_000),
            block(BlockType::Use, 1, 2, 2_571_000_000_000, 1_000_000, 0),
        ]
    );
    assert_eq!(part.next_start, 3);
    assert_eq!(part.next_charge_in, 0);
    assert_eq!(part.total_cost, 3_071_000_000_000);
}

#[test]
fn seek_use_of_no_quarter_gives_nothing() {
    assert!(horizon().seek_use(0, 2, 2, 1_000_000).is_none());
    assert!(horizon().seek_use(0, 0, 0, 0).is_none());
    assert!(horizon().seek_use(4, 4, 4, 0).is_none());
}

#[test]
fn seek_use_without_a_hold_gives_the_use_alone() {
    let part = horizon().seek_use(3, 3, 4, 3_400_000).unwrap();
    assert_eq!(part.blocks, vec![block(BlockType::Use, 3, 1, 0, 3_400_000, 15_000_000)]);
    assert_eq!(part.next_start, 4);
}

#[test]
fn the_baseline_is_one_use_with_a_rounded_cost() {
    let base = horizon().create_base_block_collection(1_000_000);
    assert_eq!(base.blocks, vec![block(BlockType::Use, 0, 4, 4_071_000_000_000, 1_000_000, 15_000_000)]);
    assert_eq!(base.next_start, 4);
    assert_eq!(base.next_charge_in, 15_000_000);
    assert_eq!(base.total_cost, 4_070_000_000_000);
}

#[test]
fn the_baseline_of_an_empty_horizon_is_empty() {
    let h = Horizon {
        tariffs: Tariffs { buy: vec![], length: 0 },
        cons: vec![],
        net_prod: vec![],
        model: horizon().model,
    };
    let base = h.create_base_block_collection(1_000_000);
    assert_eq!(base.blocks, vec![]);
    assert_eq!(base.total_cost, 0);
    assert_eq!(base.next_charge_in, 1_000_000);
}

#[test]
fn combine_blocks_appends_and_adds() {
    let one = collection(vec![block(BlockType::Hold, 0, 1, 5, 1, 2)], 1, 2, 5);
    let two = collection(vec![block(BlockType::Use, 1, 2, 7, 2, 3)], 3, 3, 7);
    let both = combine_blocks(&one, &two);
    assert_eq!(
        both.blocks,
        vec![block(BlockType::Hold, 0, 1, 5, 1, 2), block(BlockType::Use, 1, 2, 7, 2, 3)]
    );
    assert_eq!(both.next_start, 3);
    assert_eq!(both.next_charge_in, 3);
    assert_eq!(both.total_cost, 12);
}

#[test]
fn duplicate_copies_every_field() {
    let one = collection(vec![block(BlockType::Hold, 0, 1, 5, 1, 2)], 1, 2, 5);
    let copy = one.duplicate();
    assert_eq!(copy.blocks, one.blocks);
    assert_eq!(copy.next_start, 1);
    assert_eq!(copy.next_charge_in, 2);
    assert_eq!(copy.total_cost, 5);
}

#[test]
fn push_block_leaves_an_empty_block_out() {
    let mut part = BlockCollection::starting_at(2, 9);
    assert_eq!(part.blocks, vec![]);
    assert_eq!((part.next_start, part.next_charge_in, part.total_cost), (2, 9, 0));
    part.push_block(block(BlockType::Hold, 2, 0, 0, 9, 9));
    assert_eq!(part.blocks, vec![]);
    part.push_block(block(BlockType::Use, 2, 2, 40, 9, 1));
    assert_eq!(part.blocks, vec![block(BlockType::Use, 2, 2, 40, 9, 1)]);
    assert_eq!((part.next_start, part.next_charge_in, part.total_cost), (4, 1, 40));
}

#[test]
fn record_best_keeps_the_best_against_a_dearer_candidate() {
    let h = horizon();
    let base = h.create_base_block_collection(1_000_000);
    let charge = h.seek_charge(0, 1, 20, 1_000_000);
    let used = h.seek_use(charge.next_start, 3, 4, charge.next_charge_in).unwrap();
    let joined = combine_blocks(&charge, &used);
    let best = h.record_best_collection(&joined, base);
    assert_eq!(best.total_cost, 4_070_000_000_000);
    assert_eq!(best.blocks.len(), 1);
}

#[test]
fn record_best_takes_a_cheaper_candidate_and_completes_it() {
    let h = horizon();
    let dear = collection(vec![block(BlockType::Use, 0, 4, 0, 0, 0)], 4, 0, 99_000_000_000_000);
    let used = h.seek_use(0, 0, 2, 1_000_000).unwrap();
    let best = h.record_best_collection(&used, dear);
    assert_eq!(
        best.blocks,
        vec![
            block(BlockType::Use, 0, 2, 0, 1_000_000, 714_444),
            block(BlockType::Hold, 2, 2, 6_000_000_000_000, 714_444, 15_000_000),
        ]
    );
    assert_eq!(best.next_start, 4);
    assert_eq!(best.next_charge_in, 15_000_000);
    assert_eq!(best.total_cost, 6_000_000_000_000);
}

#[test]
fn record_best_rounds_before_it_compares() {
    let h = horizon();
    // the baseline's blocks cost 4.071, which rounds to 4.07
    let stored = collection(vec![], 4, 0, 4_070_000_000_000);
    let base_parts = h.seek_use(0, 0, 4, 1_000_000).unwrap();
    assert_eq!(base_parts.total_cost, 4_071_000_000_000);
    let best = h.record_best_collection(&base_parts, stored);
    // same cost once rounded, and not fewer blocks: the stored one stays
    assert_eq!(best.blocks, vec![]);
}

#[test]
fn at_the_same_cost_fewer_blocks_win() {
    let h = horizon();
    let two_blocks = collection(
        vec![block(BlockType::Hold, 0, 1, 0, 0, 0), block(BlockType::Use, 1, 3, 0, 0, 0)],
        4,
        0,
        4_070_000_000_000,
    );
    let one_block = h.seek_use(0, 0, 4, 1_000_000).unwrap();
    let best = h.record_best_collection(&one_block, two_blocks);
    assert_eq!(best.blocks, vec![block(BlockType::Use, 0, 4, 4_071_000_000_000, 1_000_000, 15_000_000)]);
    assert_eq!(best.total_cost, 4_070_000_000_000);
}

#[test]
fn at_the_same_cost_and_count_the_first_stays() {
    let first = collection(vec![block(BlockType::Use, 0, 4, 1, 0, 0)], 4, 0, 10);
    let second = collection(vec![block(BlockType::Hold, 0, 4, 2, 0, 0)], 4, 0, 10);
    let best = pick_best(second, first);
    assert_eq!(best.blocks[0].block_type, BlockType::Use);
}

#[test]
fn pick_best_orders_by_cost_then_by_blocks() {
    let cheap = collection(vec![block(BlockType::Use, 0, 2, 1, 0, 0), block(BlockType::Hold, 2, 2, 1, 0, 0)], 4, 0, 9);
    let dear = collection(vec![block(BlockType::Use, 0, 4, 1, 0, 0)], 4, 0, 10);
    assert_eq!(pick_best(cheap.duplicate(), dear.duplicate()).total_cost, 9);
    assert_eq!(pick_best(dear.duplicate(), cheap.duplicate()).total_cost, 9);
    let short = collection(vec![block(BlockType::Use, 0, 4, 1, 0, 0)], 4, 0, 9);
    assert_eq!(pick_best(short.duplicate(), cheap.duplicate()).blocks.len(), 1);
    assert_eq!(pick_best(cheap.duplicate(), short.duplicate()).blocks.len(), 1);
}

#[test]
fn collect_blocks_appends_the_closing_hold() {
    let h = horizon();
    let joined = collection(vec![block(BlockType::Use, 0, 2, 3, 5, 1)], 2, 1, 3);
    let pm = PeriodMetrics {
        block_type: BlockType::Hold,
        start: 2,
        size: 2,
        charge_in: 1,
        charge_out: 1,
        hold_level: 1,
        cost: 8,
    };
    let whole = h.collect_blocks(&joined, 4, 1, 11, Some(pm));
    assert_eq!(whole.blocks, vec![block(BlockType::Use, 0, 2, 3, 5, 1), block(BlockType::Hold, 2, 2, 8, 1, 1)]);
    assert_eq!((whole.next_start, whole.next_charge_in, whole.total_cost), (4, 1, 11));
    let same = h.collect_blocks(&joined, 2, 1, 3, None);
    assert_eq!(same.blocks, joined.blocks);
}

#[test]
fn block_makers_fill_every_field() {
    let h = horizon();
    assert_eq!(h.get_charge_block(1, 2, 3, 4, 5), block(BlockType::Charge, 1, 2, 5, 3, 4));
    let pm = PeriodMetrics {
        block_type: BlockType::Use,
        start: 2,
        size: 1,
        charge_in: 7,
        charge_out: 6,
        hold_level: 0,
        cost: 8,
    };
    assert_eq!(h.get_none_charge_block(&pm), block(BlockType::Use, 2, 1, 8, 7, 6));
}
