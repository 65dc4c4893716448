use mygrid_scheduler::units::{div_round, round_cost, CENT, EFF_SCALE, MAX_QUARTERS, RESIDUE_MIN};

#[test]
fn div_round_rounds_halves_away_from_zero() {
    assert_eq!(div_round(7, 2), 4);
    assert_eq!(div_round(-7, 2), -4);
    assert_eq!(div_round(5, 10), 1);
    assert_eq!(div_round(4, 10), 0);
    assert_eq!(div_round(-5, 10), -1);
    assert_eq!(div_round(-4, 10), 0);
    assert_eq!(div_round(0, 3), 0);
    assert_eq!(div_round(14, 4), 4);
    assert_eq!(div_round(15, 4), 4);
}

#[test]
fn div_round_is_odd_in_the_dividend() {
    for a in -50i128..50 {
        for b in 1i128..9 {
            assert_eq!(div_round(-a, b), -div_round(a, b));
        }
    }
}

#[test]
fn div_round_is_within_half_a_divisor() {
    for a in -200i128..200 {
        for b in 1i128..12 {
            let q = div_round(a, b);
            assert!(2 * (q * b - a).abs() <= b);
        }
    }
}

#[test]
fn round_cost_rounds_to_hundredths() {
    assert_eq!(round_cost(12_345_678_901), 10_000_000_000);
    assert_eq!(round_cost(-15_000_000_000), -20_000_000_000);
    assert_eq!(round_cost(4_999_999_999), 0);
    assert_eq!(round_cost(5_000_000_000), 10_000_000_000);
    assert_eq!(round_cost(0), 0);
}

#[test]
fn drawing_and_pricing_through_one_efficiency_gives_the_energy_back() {
    for eff in [1i128, 3, 500, 900, 999, 1000] {
        for e in [0i128, 1, 2, 7, 499, 500_000, 1_234_567] {
            let drained = div_round(e * EFF_SCALE, eff);
            assert_eq!(div_round(drained * eff, EFF_SCALE), e);
        }
    }
}

#[test]
fn constants_have_their_documented_values() {
    assert_eq!(CENT, 10_000_000_000);
    assert_eq!(EFF_SCALE, 1000);
    assert_eq!(RESIDUE_MIN, 50_000);
    assert_eq!(MAX_QUARTERS, 96);
}
