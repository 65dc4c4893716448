use mygrid_scheduler::battery::BatteryModel;
use mygrid_scheduler::errors::SchedulerError;

fn model() -> BatteryModel {
    BatteryModel::new(15_300_000, 170_000, 1_500_000, 900, 900, 10_000_000_000).unwrap()
}

#[test]
fn new_keeps_the_parameters() {
    let m = model();
    assert_eq!(m.bat_kwh, 15_300_000);
    assert_eq!(m.soc_kwh, 170_000);
    assert_eq!(m.charge_step_kwh, 1_500_000);
    assert_eq!(m.charge_eff, 900);
    assert_eq!(m.discharge_eff, 900);
    assert_eq!(m.min_soc_pct, 10);
    assert_eq!(m.min_saving, 10_000_000_000);
    assert!(m.is_valid());
}

#[test]
fn new_refuses_a_parameter_that_is_not_positive() {
    let refused = Err(SchedulerError::InvalidBatteryModel);
    assert_eq!(BatteryModel::new(15_300_000, 0, 1_500_000, 900, 900, 0), refused);
    assert_eq!(BatteryModel::new(15_300_000, -1, 1_500_000, 900, 900, 0), refused);
    assert_eq!(BatteryModel::new(15_300_000, 170_000, 0, 900, 900, 0), refused);
    assert_eq!(BatteryModel::new(15_300_000, 170_000, 1_500_000, 0, 900, 0), refused);
    assert_eq!(BatteryModel::new(15_300_000, 170_000, 1_500_000, 900, 0, 0), refused);
    assert_eq!(BatteryModel::new(15_300_000, 170_000, 1_500_000, 900, -900, 0), refused);
}

#[test]
fn new_accepts_any_capacity_and_saving() {
    assert!(BatteryModel::new(0, 1, 1, 1, 1, 0).is_ok());
    assert!(BatteryModel::new(-5, 1, 1, 1, 1, -7).is_ok());
    assert!(BatteryModel::new(i32::MAX, i32::MAX, i32::MAX, i32::MAX, i32::MAX, i64::MAX).is_ok());
}

#[test]
fn is_valid_tells_a_model_built_by_hand() {
    let mut m = model();
    m.charge_eff = 0;
    assert!(!m.is_valid());
    let mut m = model();
    m.min_soc_pct = 11;
    assert!(!m.is_valid());
}

#[test]
fn charge_of_soc_counts_from_the_reserve() {
    let m = model();
    assert_eq!(m.charge_of_soc(10), 0);
    assert_eq!(m.charge_of_soc(11), 170_000);
    assert_eq!(m.charge_of_soc(16), 1_020_000);
    assert_eq!(m.charge_of_soc(100), 15_300_000);
}

#[test]
fn charge_of_soc_holds_the_state_to_its_range() {
    let m = model();
    assert_eq!(m.charge_of_soc(0), 0);
    assert_eq!(m.charge_of_soc(9), 0);
    assert_eq!(m.charge_of_soc(101), 15_300_000);
    assert_eq!(m.charge_of_soc(255), 15_300_000);
}

#[test]
fn soc_of_charge_rounds_to_the_nearest_percent() {
    let m = model();
    assert_eq!(m.soc_of_charge(0), 10);
    assert_eq!(m.soc_of_charge(84_999), 10);
    assert_eq!(m.soc_of_charge(85_000), 11);
    assert_eq!(m.soc_of_charge(170_000), 11);
    assert_eq!(m.soc_of_charge(15_214_999), 99);
    assert_eq!(m.soc_of_charge(15_215_000), 100);
    assert_eq!(m.soc_of_charge(15_300_000), 100);
}

#[test]
fn soc_of_charge_stays_between_10_and_100() {
    let m = model();
    assert_eq!(m.soc_of_charge(-1), 10);
    assert_eq!(m.soc_of_charge(-20_000_000), 10);
    assert_eq!(m.soc_of_charge(20_000_000), 100);
    assert_eq!(m.soc_of_charge(i64::MAX / 4), 100);
}

#[test]
fn soc_and_charge_are_inverse_on_whole_percents() {
    let m = model();
    for soc in 10u8..=100 {
        assert_eq!(m.soc_of_charge(m.charge_of_soc(soc)), soc as usize);
    }
}
