use mygrid_scheduler::errors::SchedulerError;
use mygrid_scheduler::schedule::{Horizon, Schedule};
use mygrid_scheduler::series::{tariffs_in_scope, values_in_scope, PreformattedData, TariffValue, TimeValue};

fn tariff(valid_time: i64, buy: i32) -> TariffValue {
    TariffValue { valid_time, price: buy / 2, buy, sell: buy / 4 }
}

fn value(valid_time: i64, data: i32) -> TimeValue {
    TimeValue { valid_time, data }
}

#[test]
fn tariffs_in_scope_keeps_the_buy_prices_of_the_window() {
    let tariffs = vec![tariff(0, 10), tariff(900, 20), tariff(1_800, 30), tariff(2_700, 40)];
    assert_eq!(tariffs_in_scope(&tariffs, 900, 2_700), vec![20, 30]);
    assert_eq!(tariffs_in_scope(&tariffs, 0, 2_701), vec![10, 20, 30, 40]);
    assert_eq!(tariffs_in_scope(&tariffs, 901, 1_800), vec![]);
    assert_eq!(tariffs_in_scope(&tariffs, 2_700, 900), vec![]);
}

#[test]
fn values_in_scope_keeps_the_order_given() {
    let values = vec![value(1_800, 3), value(0, 1), value(900, 2), value(900, 5)];
    assert_eq!(values_in_scope(&values, 0, 1_800), vec![1, 2, 5]);
    assert_eq!(values_in_scope(&values, 900, 1_801), vec![3, 2, 5]);
}

#[test]
fn preformat_data_aligns_the_three_series() {
    let tariffs = vec![tariff(0, 10), tariff(900, 20), tariff(1_800, 30), tariff(2_700, 40)];
    let production = vec![value(900, 700), value(1_800, 0), value(2_700, 5)];
    let consumption = vec![value(0, 9), value(900, 200), value(1_800, 300), value(3_600, 1)];
    let data = Schedule::preformat_data(&tariffs, &production, &consumption, 900, 2_700).unwrap();
    assert_eq!(
        data,
        PreformattedData { tariffs: vec![20, 30], cons: vec![200, 300], net_prod: vec![500, -300] }
    );
}

#[test]
fn preformat_data_refuses_lengths_that_differ() {
    let tariffs = vec![tariff(0, 10), tariff(900, 20)];
    let two = vec![value(0, 1), value(900, 2)];
    let one = vec![value(0, 1)];
    let refused = Err(SchedulerError::InconsistentInputLength);
    assert_eq!(Schedule::preformat_data(&tariffs, &one, &two, 0, 1_800), refused);
    assert_eq!(Schedule::preformat_data(&tariffs, &two, &one, 0, 1_800), refused);
    assert_eq!(Schedule::preformat_data(&vec![tariff(0, 10)], &two, &two, 0, 1_800), refused);
    assert!(Schedule::preformat_data(&tariffs, &two, &two, 0, 1_800).is_ok());
}

#[test]
fn preformat_data_refuses_an_empty_window() {
    let tariffs = vec![tariff(0, 10)];
    let values = vec![value(0, 1)];
    let refused = Err(SchedulerError::InconsistentInputLength);
    assert_eq!(Schedule::preformat_data(&tariffs, &values, &values, 900, 1_800), refused);
    assert_eq!(Schedule::preformat_data(&vec![], &vec![], &vec![], 0, 1_800), refused);
}

#[test]
fn transform_tariffs_keeps_the_prices_and_their_number() {
    let tariffs = Horizon::transform_tariffs(&vec![5, 6, 7]);
    assert_eq!(tariffs.buy, vec![5, 6, 7]);
    assert_eq!(tariffs.length, 3);
}
