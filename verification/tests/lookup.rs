use mygrid_scheduler::battery::BatteryModel;
use mygrid_scheduler::block::{BlockType, Status};
use mygrid_scheduler::lookup::hour_start_of;
use mygrid_scheduler::schedule::{Block, Schedule};

fn block(block_type: BlockType, start_time: i64, end_time: i64, status: Status) -> Block {
    Block {
        block_id: start_time,
        block_type,
        start_time,
        end_time,
        start_hour: 0,
        start_minute: 0,
        end_hour: 0,
        end_minute: 0,
        size: ((end_time - start_time) / 900 + 1) as usize,
        cost: 0,
        charge_in: 0,
        charge_out: 1_700_000,
        true_soc_in: None,
        soc_in: 10,
        soc_out: 20,
        soc_kwh: 170_000,
        status,
    }
}

fn schedule() -> Schedule {
    let model = BatteryModel::new(15_300_000, 170_000, 1_500_000, 900, 900, 0).unwrap();
    let blocks = vec![
        block(BlockType::Charge, 0, 6_300, Status::Started),
        block(BlockType::Hold, 7_200, 9_900, Status::Waiting),
        block(BlockType::Use, 10_800, 20_700, Status::Waiting),
    ];
    Schedule::new(model, Some(blocks))
}

#[test]
fn hour_start_of_truncates_to_the_hour() {
    assert_eq!(hour_start_of(0), 0);
    assert_eq!(hour_start_of(3_599), 0);
    assert_eq!(hour_start_of(3_600), 3_600);
    assert_eq!(hour_start_of(1_700_000_100), 1_699_999_200);
    assert_eq!(hour_start_of(-1), -3_600);
}

#[test]
fn get_block_by_time_finds_the_block_of_the_hour() {
    let s = schedule();
    assert_eq!(s.get_block_by_time(0), Some(0));
    assert_eq!(s.get_block_by_time(3_601), Some(0));
    assert_eq!(s.get_block_by_time(7_200), Some(7_200));
    assert_eq!(s.get_block_by_time(8_000), Some(7_200));
    assert_eq!(s.get_block_by_time(10_799), Some(7_200));
    assert_eq!(s.get_block_by_time(10_800), Some(10_800));
    assert_eq!(s.get_block_by_time(21_599), Some(10_800));
}

#[test]
fn get_block_by_time_finds_nothing_outside_the_schedule() {
    let s = schedule();
    assert_eq!(s.get_block_by_time(-1), None);
    assert_eq!(s.get_block_by_time(21_600), None);
}

#[test]
fn get_block_by_time_takes_the_first_of_two() {
    let model = BatteryModel::new(15_300_000, 170_000, 1_500_000, 900, 900, 0).unwrap();
    let mut second = block(BlockType::Use, 0, 6_300, Status::Waiting);
    second.block_id = 42;
    let first = block(BlockType::Hold, 0, 6_300, Status::Waiting);
    let s = Schedule::new(model, Some(vec![first, second]));
    assert_eq!(s.get_block_by_time(100), Some(0));
}

#[test]
fn find_block_gives_the_first_position() {
    let s = schedule();
    assert_eq!(s.find_block(0), Some(0));
    assert_eq!(s.find_block(7_200), Some(1));
    assert_eq!(s.find_block(10_800), Some(2));
    assert_eq!(s.find_block(900), None);
}

#[test]
fn get_block_by_id_hands_out_the_block_to_change() {
    let mut s = schedule();
    assert!(s.get_block_by_id(5).is_none());
    let b = s.get_block_by_id(7_200).unwrap();
    assert_eq!(b.block_type, BlockType::Hold);
    b.update_block_status(Status::Started);
    assert_eq!(s.blocks[1].status, Status::Started);
    assert_eq!(s.blocks[0].status, Status::Started);
    assert_eq!(s.blocks[2].status, Status::Waiting);
}

#[test]
fn is_update_time_for_an_unknown_block() {
    assert!(schedule().is_update_time(5, 100));
}

#[test]
fn is_update_time_for_a_block_that_does_not_run() {
    let s = schedule();
    assert!(s.is_update_time(0, 7_200));
    assert!(s.is_update_time(10_800, 3_600));
}

#[test]
fn is_update_time_for_a_block_that_runs() {
    let s = schedule();
    assert!(!s.is_update_time(0, 100));
    assert!(s.is_update_time(7_200, 8_000));
}

#[test]
fn is_active_charging_asks_for_a_started_charge_that_runs() {
    let s = schedule();
    assert!(s.is_active_charging(0, 100));
    assert!(s.is_active_charging(0, 3_700));
    assert!(!s.is_active_charging(0, 7_200));
    assert!(!s.is_active_charging(7_200, 8_000));
    assert!(!s.is_active_charging(5, 100));
    let mut s = schedule();
    s.blocks[0].status = Status::Full(80);
    assert!(!s.is_active_charging(0, 100));
}

#[test]
fn a_full_charge_block_takes_the_reported_state() {
    let mut b = block(BlockType::Charge, 0, 6_300, Status::Started);
    b.update_block_status(Status::Full(85));
    assert_eq!(b.status, Status::Full(85));
    assert_eq!(b.soc_out, 85);
    assert_eq!(b.charge_out, 75 * 170_000);
    b.update_block_status(Status::Full(10));
    assert_eq!(b.soc_out, 10);
    assert_eq!(b.charge_out, 0);
}

#[test]
fn other_updates_change_the_status_alone() {
    let mut b = block(BlockType::Charge, 0, 6_300, Status::Waiting);
    b.update_block_status(Status::Started);
    assert_eq!(b.status, Status::Started);
    assert_eq!((b.soc_out, b.charge_out), (20, 1_700_000));
    b.update_block_status(Status::Error);
    assert_eq!(b.status, Status::Error);
    let mut u = block(BlockType::Use, 0, 6_300, Status::Started);
    u.update_block_status(Status::Full(85));
    assert_eq!(u.status, Status::Full(85));
    assert_eq!((u.soc_out, u.charge_out), (20, 1_700_000));
}
