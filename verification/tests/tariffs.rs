use mygrid_scheduler::series::TariffValue;
use mygrid_scheduler::tariffs::{content_status, in_price_range, NordPoolError, PriceEntry, TariffFees};

fn fees() -> TariffFees {
    TariffFees {
        variable_fee: 86_000,
        spot_fee_share: 50_000,
        energy_tax: 439_000,
        swedish_power_grid: 20_000,
        balance_responsibility: 15_000,
        electric_certificate: 3_000,
        guarantees_of_origin: 1_000,
        fixed: 40_000,
        production_price: 50_000,
    }
}

#[test]
fn a_price_is_marked_up_with_fees_and_vat() {
    // 523.45 per MWh at an average of 523.45: fees of 0.525 + 0.026 + 0.079 and the price, times 1.25
    assert_eq!(
        fees().add_vat_markup(523_450, 523_450, 1_700_000_100),
        TariffValue { valid_time: 1_700_000_100, price: 520_000, buy: 1_440_000, sell: 570_000 }
    );
}

#[test]
fn a_negative_price_is_marked_up_too() {
    assert_eq!(
        fees().add_vat_markup(523_450, -12_340, 0),
        TariffValue { valid_time: 0, price: -10_000, buy: 770_000, sell: 40_000 }
    );
}

#[test]
fn without_a_price_the_fees_remain() {
    assert_eq!(
        fees().add_vat_markup(0, 0, -900),
        TariffValue { valid_time: -900, price: 0, buy: 760_000, sell: 50_000 }
    );
}

#[test]
fn the_prices_of_a_day_are_marked_up_with_the_average_of_all() {
    let entries: Vec<PriceEntry> =
        (0..96).map(|i| PriceEntry { delivery_start: 900 * i as i64, price: 100_000 + 1_000 * i }).collect();
    let tariffs = fees().tariffs_to_vec(&entries, 3_600, 5_400).unwrap();
    assert_eq!(
        tariffs,
        vec![
            TariffValue { valid_time: 3_600, price: 100_000, buy: 890_000, sell: 150_000 },
            TariffValue { valid_time: 4_500, price: 110_000, buy: 900_000, sell: 160_000 },
        ]
    );
    assert_eq!(fees().tariffs_to_vec(&entries, 0, 86_400).unwrap().len(), 96);
    assert_eq!(fees().tariffs_to_vec(&entries, 86_400, 172_800).unwrap().len(), 0);
}

#[test]
fn fewer_than_92_prices_are_refused() {
    let entries: Vec<PriceEntry> = (0..91).map(|i| PriceEntry { delivery_start: 900 * i as i64, price: 7 }).collect();
    assert_eq!(fees().tariffs_to_vec(&entries, 0, 86_400), Err(NordPoolError::ContentLengthError));
    assert_eq!(fees().tariffs_to_vec(&vec![], 0, 86_400), Err(NordPoolError::ContentLengthError));
    let entries: Vec<PriceEntry> = (0..92).map(|i| PriceEntry { delivery_start: 900 * i as i64, price: 7 }).collect();
    assert_eq!(fees().tariffs_to_vec(&entries, 0, 86_400).unwrap().len(), 92);
}

#[test]
fn a_status_of_204_says_that_there_are_no_prices() {
    assert_eq!(content_status(204), Err(NordPoolError::NoContentError));
    assert_eq!(content_status(200), Ok(()));
    assert_eq!(content_status(500), Ok(()));
}

#[test]
fn fees_are_held_to_the_range_of_prices() {
    assert!(fees().is_valid());
    let mut f = fees();
    f.spot_fee_share = 1_000_001;
    assert!(!f.is_valid());
    let mut f = fees();
    f.fixed = 100_000_001;
    assert!(!f.is_valid());
    let mut f = fees();
    f.spot_fee_share = -1;
    assert!(!f.is_valid());
    assert!(in_price_range(100_000_000));
    assert!(in_price_range(-100_000_000));
    assert!(!in_price_range(-100_000_001));
}
