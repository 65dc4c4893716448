use mygrid_scheduler::battery::BatteryModel;
use mygrid_scheduler::block::{BlockType, PeriodMetrics};
use mygrid_scheduler::schedule::{Horizon, Tariffs};

const M: i32 = 1_000_000;

fn horizon() -> Horizon {
    let buy = vec![M, 2 * M, 3 * M, 4 * M];
    Horizon {
        tariffs: Tariffs { length: buy.len(), buy },
        cons: vec![500_000; 4],
        net_prod: vec![-500_000, 300_000, -2 * M, 100 * M],
        model: BatteryModel::new(15 * M, 170_000, 1_500_000, 900, 900, 10_000_000_000).unwrap(),
    }
}

fn metrics(block_type: BlockType, charge_out: i64, hold_level: i64) -> PeriodMetrics {
    PeriodMetrics { block_type, start: 0, size: 4, charge_in: charge_out, charge_out, hold_level, cost: 0 }
}

#[test]
fn a_deficit_drains_more_than_it_delivers() {
    let h = horizon();
    let mut pm = metrics(BlockType::Use, 1_000_000, 0);
    h.add_net_prod(0, -500_000, &mut pm);
    assert_eq!(pm.charge_out, 1_000_000 - 555_556);
    assert_eq!(pm.cost, 0);
}

#[test]
fn a_surplus_stores_less_than_it_offers() {
    let h = horizon();
    let mut pm = metrics(BlockType::Use, 1_000_000, 0);
    h.add_net_prod(1, 300_000, &mut pm);
    assert_eq!(pm.charge_out, 1_270_000);
    assert_eq!(pm.cost, 0);
}

#[test]
fn what_the_battery_cannot_deliver_is_bought() {
    let h = horizon();
    let mut pm = metrics(BlockType::Use, 714_444, 0);
    h.add_net_prod(2, -2_000_000, &mut pm);
    // 2 kWh ask for 2.222222 kWh of charge; 1.507778 kWh are missing, which are 1.357 kWh from the grid
    assert_eq!(pm.charge_out, 0);
    assert_eq!(pm.cost, 3_000_000 * 1_357_000);
}

#[test]
fn a_hold_buys_down_to_the_level_it_came_with() {
    let h = horizon();
    let mut pm = metrics(BlockType::Hold, 1_000_000, 1_000_000);
    h.add_net_prod(0, -500_000, &mut pm);
    assert_eq!(pm.charge_out, 1_000_000);
    assert_eq!(pm.cost, 1_000_000 * 500_000);
    assert_eq!(pm.hold_level, 1_000_000);
    assert_eq!(pm.charge_in, 1_000_000);
    assert_eq!(pm.start, 0);
    assert_eq!(pm.size, 4);
    assert_eq!(pm.block_type, BlockType::Hold);
}

#[test]
fn a_surplus_beyond_the_capacity_is_lost() {
    let h = horizon();
    let mut pm = metrics(BlockType::Use, 0, 0);
    h.add_net_prod(3, 100 * M, &mut pm);
    assert_eq!(pm.charge_out, 15_000_000);
    assert_eq!(pm.cost, 0);
}

#[test]
fn update_for_pv_walks_a_use_quarter_by_quarter() {
    let h = horizon();
    let pm = h.update_for_pv(BlockType::Use, 0, 4, 1_000_000);
    assert_eq!(pm.block_type, BlockType::Use);
    assert_eq!(pm.start, 0);
    assert_eq!(pm.size, 4);
    assert_eq!(pm.charge_in, 1_000_000);
    assert_eq!(pm.hold_level, 0);
    assert_eq!(pm.cost, 4_071_000_000_000);
    assert_eq!(pm.charge_out, 15_000_000);
}

#[test]
fn update_for_pv_holds_the_charge_it_came_with() {
    let h = horizon();
    let pm = h.update_for_pv(BlockType::Hold, 0, 3, 1_000_000);
    assert_eq!(pm.hold_level, 1_000_000);
    assert_eq!(pm.cost, 5_771_000_000_000);
    assert_eq!(pm.charge_out, 1_000_000);
    assert_eq!(pm.size, 3);
}

#[test]
fn update_for_pv_charges_the_consumption_to_a_charge() {
    let h = horizon();
    let pm = h.update_for_pv(BlockType::Charge, 1, 4, 0);
    assert_eq!(pm.block_type, BlockType::Charge);
    assert_eq!(pm.start, 1);
    assert_eq!(pm.size, 3);
    assert_eq!(pm.cost, 4_500_000_000_000);
    assert_eq!(pm.charge_out, 0);
    assert_eq!(pm.hold_level, 0);
}

#[test]
fn update_for_pv_of_an_empty_period_costs_nothing() {
    let h = horizon();
    for block_type in [BlockType::Use, BlockType::Hold, BlockType::Charge] {
        let pm = h.update_for_pv(block_type, 2, 2, 123_456);
        assert_eq!(pm.size, 0);
        assert_eq!(pm.cost, 0);
        assert_eq!(pm.charge_out, 123_456);
    }
}

#[test]
fn an_empty_battery_buys_all_that_is_consumed() {
    let h = horizon();
    let pm = h.update_for_pv(BlockType::Use, 0, 1, 0);
    assert_eq!(pm.cost, 500_000_000_000);
    assert_eq!(pm.charge_out, 0);
}

#[test]
fn over_capacity_surplus_ends_at_the_ceiling() {
    let h = horizon();
    let pm = h.update_for_pv(BlockType::Use, 3, 4, 0);
    assert_eq!(pm.charge_out, 15_000_000);
    assert_eq!(pm.cost, 0);
}
