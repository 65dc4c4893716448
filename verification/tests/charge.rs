use mygrid_scheduler::battery::BatteryModel;
use mygrid_scheduler::schedule::{Horizon, Tariffs};

const M: i32 = 1_000_000;

fn horizon() -> Horizon {
    let buy = vec![M, 2 * M, 3 * M, 4 * M];
    Horizon {
        tariffs: Tariffs { length: buy.len(), buy },
        cons: vec![500_000; 4],
        net_prod: vec![-500_000; 4],
        model: BatteryModel::new(15 * M, 170_000, 1_500_000, 900, 900, 10_000_000_000).unwrap(),
    }
}

#[test]
fn a_charge_is_drawn_in_full_steps_and_a_residue() {
    // 3.2 kWh: 1.5 + 1.5 + 0.2 at prices 1, 2, 3
    assert_eq!(horizon().charge_cost_charge_end(0, 3_200_000), (5_100_000_000_000, 3));
}

#[test]
fn a_residue_under_the_least_gets_no_quarter() {
    assert_eq!(horizon().charge_cost_charge_end(0, 3_040_000), (4_500_000_000_000, 2));
    assert_eq!(horizon().charge_cost_charge_end(0, 3_049_999), (4_500_000_000_000, 2));
}

#[test]
fn a_residue_of_the_least_gets_a_quarter() {
    assert_eq!(horizon().charge_cost_charge_end(0, 3_050_000), (4_650_000_000_000, 3));
}

#[test]
fn a_charge_stops_at_the_end_of_the_horizon() {
    assert_eq!(horizon().charge_cost_charge_end(3, 10_000_000), (6_000_000_000_000, 4));
    assert_eq!(horizon().charge_cost_charge_end(4, 10_000_000), (0, 4));
}

#[test]
fn no_need_takes_no_quarter() {
    assert_eq!(horizon().charge_cost_charge_end(1, 0), (0, 1));
    assert_eq!(horizon().charge_cost_charge_end(1, -5), (0, 1));
    assert_eq!(horizon().charge_cost_charge_end(1, 49_999), (0, 1));
}

#[test]
fn the_need_is_the_gap_to_the_target_over_the_efficiency() {
    let h = horizon();
    assert_eq!(h.charge_needed(20, 1_000_000), 2_666_667);
    assert_eq!(h.charge_needed(0, 0), 0);
    assert_eq!(h.charge_needed(10, 1_700_000), 0);
    assert_eq!(h.charge_needed(10, 2_600_000), -1_000_000);
    assert_eq!(h.charge_needed(90, 0), 17_000_000);
}
