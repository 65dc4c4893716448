use mygrid_scheduler::assemble::{create_result_blocks, day_start_of, promote};
use mygrid_scheduler::battery::BatteryModel;
use mygrid_scheduler::block::{BlockCollection, BlockInternal, BlockType, Status};
use mygrid_scheduler::schedule::Block;

fn model() -> BatteryModel {
    BatteryModel::new(15_300_000, 170_000, 1_500_000, 900, 900, 0).unwrap()
}

fn block(block_type: BlockType, start_quarter: usize, size_quarters: usize) -> BlockInternal {
    BlockInternal { block_type, start_quarter, size_quarters, cost: 77, charge_in_kwh: 170_000, charge_out_kwh: 3_400_000 }
}

#[test]
fn a_block_gets_its_place_in_time() {
    // 22:15:00 on 14 November 2023
    let out = create_result_blocks(&vec![block(BlockType::Charge, 0, 4)], &model(), 1_700_000_100);
    assert_eq!(
        out,
        vec![Block {
            block_id: 1_700_000_100,
            block_type: BlockType::Charge,
            start_time: 1_700_000_100,
            end_time: 1_700_002_800,
            start_hour: 22,
            start_minute: 15,
            end_hour: 23,
            end_minute: 0,
            size: 4,
            cost: 77,
            charge_in: 170_000,
            charge_out: 3_400_000,
            true_soc_in: None,
            soc_in: 11,
            soc_out: 30,
            soc_kwh: 170_000,
            status: Status::Waiting,
        }]
    );
}

#[test]
fn a_block_past_midnight_falls_on_the_next_day() {
    let blocks = vec![block(BlockType::Use, 4, 5), block(BlockType::Hold, 9, 1)];
    let out = create_result_blocks(&blocks, &model(), 1_700_000_100);
    // quarters 93..=97 after midnight: 23:15 to 00:15
    assert_eq!(out[0].start_time, 1_700_003_700);
    assert_eq!((out[0].start_hour, out[0].start_minute), (23, 15));
    assert_eq!(out[0].end_time, 1_700_007_300);
    assert_eq!((out[0].end_hour, out[0].end_minute), (0, 15));
    assert_eq!(out[1].start_time, 1_700_008_200);
    assert_eq!((out[1].start_hour, out[1].start_minute), (0, 30));
    assert_eq!(out[1].end_time, 1_700_008_200);
    assert_eq!((out[1].end_hour, out[1].end_minute), (0, 30));
    assert_eq!(out[1].block_id, 1_700_008_200);
}

#[test]
fn a_start_between_quarters_counts_from_the_quarter_before() {
    // 22:13:20
    let out = create_result_blocks(&vec![block(BlockType::Use, 0, 1)], &model(), 1_700_000_000);
    assert_eq!(out[0].start_time, 1_699_999_200);
    assert_eq!((out[0].start_hour, out[0].start_minute), (22, 0));
}

#[test]
fn a_start_before_the_epoch_counts_from_its_own_midnight() {
    // 23:45:00 on 31 December 1969
    let out = create_result_blocks(&vec![block(BlockType::Use, 0, 2)], &model(), -900);
    assert_eq!(out[0].start_time, -900);
    assert_eq!((out[0].start_hour, out[0].start_minute), (23, 45));
    assert_eq!(out[0].end_time, 0);
    assert_eq!((out[0].end_hour, out[0].end_minute), (0, 0));
}

#[test]
fn empty_blocks_are_dropped() {
    let blocks = vec![block(BlockType::Hold, 0, 0), block(BlockType::Use, 0, 2), block(BlockType::Hold, 2, 0)];
    let out = create_result_blocks(&blocks, &model(), 0);
    assert_eq!(out.len(), 1);
    assert_eq!(out[0].block_type, BlockType::Use);
    assert_eq!(create_result_blocks(&vec![], &model(), 0), vec![]);
}

#[test]
fn day_start_of_is_midnight() {
    assert_eq!(day_start_of(1_700_000_100), 1_699_920_000);
    assert_eq!(day_start_of(1_699_920_000), 1_699_920_000);
    assert_eq!(day_start_of(0), 0);
    assert_eq!(day_start_of(86_399), 0);
    assert_eq!(day_start_of(-1), -86_400);
    assert_eq!(day_start_of(-86_400), -86_400);
    assert_eq!(day_start_of(-86_401), -172_800);
}

fn collection(blocks: usize, total_cost: i128) -> BlockCollection {
    BlockCollection { blocks: vec![block(BlockType::Use, 0, 1); blocks], next_start: 4, next_charge_in: 0, total_cost }
}

#[test]
fn promote_asks_for_more_than_the_least_saving() {
    assert_eq!(promote(collection(2, 89), collection(1, 100), 10).blocks.len(), 2);
    assert_eq!(promote(collection(2, 90), collection(1, 100), 10).blocks.len(), 1);
    assert_eq!(promote(collection(2, 91), collection(1, 100), 10).blocks.len(), 1);
    assert_eq!(promote(collection(2, 99), collection(1, 100), 0).blocks.len(), 2);
    assert_eq!(promote(collection(2, 100), collection(1, 100), 0).blocks.len(), 1);
    assert_eq!(promote(collection(2, 100), collection(1, 100), -1).blocks.len(), 2);
}
