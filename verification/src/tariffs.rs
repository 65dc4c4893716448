//! From the prices of the day-ahead market to what a kWh costs the household.

use vstd::prelude::*;
use crate::series::TariffValue;
use crate::units::{div_round, lemma_mul_bounds, lemma_round_quotient_bounds, round_quotient};

verus! {

/// The least number of quarters that the prices of a day hold.
pub const MIN_ENTRIES: usize = 92;

/// The largest magnitude of a price or a fee: a hundred currency units per kWh.
pub const PRICE_MAX: i32 = 100_000_000;

/// Millionths in one: the scale of the share of the spot price that is charged as a fee.
pub const SHARE_SCALE: i32 = 1_000_000;

/// Millionths of a currency unit in a hundredth.
pub const HUNDREDTH: i32 = 10_000;

/// What is wrong with the prices of a day.
#[derive(Clone, Copy, Debug, PartialEq, Eq, Structural)]
pub enum NordPoolError {
    /// There are no prices for the day.
    NoContentError,
    /// The prices do not cover the day.
    ContentLengthError,
}

/// The fees that come on top of the market price, in millionths of a
/// currency unit per kWh; `spot_fee_share` is a share of the day's
/// average price, in millionths.
#[derive(Clone, Copy, Debug, PartialEq, Eq, Structural)]
pub struct TariffFees {
    pub variable_fee: i32,
    pub spot_fee_share: i32,
    pub energy_tax: i32,
    pub swedish_power_grid: i32,
    pub balance_responsibility: i32,
    pub electric_certificate: i32,
    pub guarantees_of_origin: i32,
    pub fixed: i32,
    pub production_price: i32,
}

/// The market price of one quarter, in thousandths of a currency unit per
/// MWh, which are millionths per kWh.
#[derive(Clone, Copy, Debug, PartialEq, Eq, Structural)]
pub struct PriceEntry {
    /// Start of the quarter, in seconds since the epoch.
    pub delivery_start: i64,
    pub price: i32,
}

/// `x` is no larger in magnitude than a price can be.
pub open spec fn is_price(x: int) -> bool {
    -PRICE_MAX <= x <= PRICE_MAX
}

/// A price rounded to hundredths of a currency unit.
pub open spec fn round_to_hundredths(price: int) -> int {
    round_quotient(price, HUNDREDTH as int) * HUNDREDTH
}

/// The sum of the prices of some entries.
pub open spec fn sum_prices(entries: Seq<PriceEntry>) -> int
    decreases entries.len(),
{
    if entries.len() == 0 {
        0
    } else {
        sum_prices(entries.drop_last()) + entries.last().price
    }
}

/// The average price of the entries.
pub open spec fn average_price(entries: Seq<PriceEntry>) -> int {
    round_quotient(sum_prices(entries), entries.len() as int)
}

impl TariffFees {
    /// Every fee is a price, and the share is between nothing and all.
    pub open spec fn wf(&self) -> bool {
        &&& is_price(self.variable_fee as int)
        &&& 0 <= self.spot_fee_share <= SHARE_SCALE
        &&& is_price(self.energy_tax as int)
        &&& is_price(self.swedish_power_grid as int)
        &&& is_price(self.balance_responsibility as int)
        &&& is_price(self.electric_certificate as int)
        &&& is_price(self.guarantees_of_origin as int)
        &&& is_price(self.fixed as int)
        &&& is_price(self.production_price as int)
    }

    /// The fees of the grid: the variable fee, the energy tax, and the
    /// share of the day's average price.
    pub open spec fn grid_fees(&self, day_avg: int) -> int {
        self.variable_fee + self.energy_tax + round_quotient(
            self.spot_fee_share * day_avg,
            SHARE_SCALE as int,
        )
    }

    /// The fees of the trade, with the market price.
    pub open spec fn trade_fees(&self, price: int) -> int {
        self.swedish_power_grid + self.balance_responsibility + self.electric_certificate
            + self.guarantees_of_origin + self.fixed + price
    }

    /// What a kWh from the grid costs: fees and price with a VAT that is
    /// a fifth of the whole, rounded to hundredths.
    pub open spec fn spec_buy(&self, day_avg: int, price: int) -> int {
        round_quotient((self.grid_fees(day_avg) + self.trade_fees(price)) * 5, 4 * HUNDREDTH)
            * HUNDREDTH
    }

    /// What a kWh to the grid yields, rounded to hundredths.
    pub open spec fn spec_sell(&self, price: int) -> int {
        round_to_hundredths(self.production_price + price)
    }

    /// The prices of the quarter that starts at `delivery_start`.
    pub open spec fn spec_markup(&self, day_avg: int, price: int, delivery_start: int) -> TariffValue {
        TariffValue {
            valid_time: delivery_start as i64,
            price: round_to_hundredths(price) as i32,
            buy: self.spec_buy(day_avg, price) as i32,
            sell: self.spec_sell(price) as i32,
        }
    }

    /// The prices of the entries that start in `[day_start, day_end)`, in
    /// the order given, each marked up with the average `day_avg`.
    pub open spec fn spec_tariffs(&self, entries: Seq<PriceEntry>, day_avg: int, day_start: int, day_end: int) -> Seq<
        TariffValue,
    >
        decreases entries.len(),
    {
        if entries.len() == 0 {
            Seq::empty()
        } else {
            let head = self.spec_tariffs(entries.drop_last(), day_avg, day_start, day_end);
            let last = entries.last();
            if day_start <= last.delivery_start < day_end {
                head.push(self.spec_markup(day_avg, last.price as int, last.delivery_start as int))
            } else {
                head
            }
        }
    }

    /// Whether the fees are well formed.
    pub fn is_valid(&self) -> (r: bool)
        ensures
            r == self.wf(),
    {
        in_price_range(self.variable_fee) && 0 <= self.spot_fee_share && self.spot_fee_share
            <= SHARE_SCALE && in_price_range(self.energy_tax) && in_price_range(
            self.swedish_power_grid,
        ) && in_price_range(self.balance_responsibility) && in_price_range(
            self.electric_certificate,
        ) && in_price_range(self.guarantees_of_origin) && in_price_range(self.fixed)
            && in_price_range(self.production_price)
    }

    /// Adds VAT and the other markups to the market price of a quarter:
    /// what a kWh costs to buy, what it yields when sold, and the price
    /// itself, each rounded to hundredths of a currency unit.
    pub fn add_vat_markup(&self, day_avg: i32, tariff: i32, delivery_start: i64) -> (r: TariffValue)
        requires
            self.wf(),
            is_price(day_avg as int),
            is_price(tariff as int),
        ensures
            r == self.spec_markup(day_avg as int, tariff as int, delivery_start as int),
            r.valid_time == delivery_start,
            r.price == round_to_hundredths(tariff as int),
            r.buy == self.spec_buy(day_avg as int, tariff as int),
            r.sell == self.spec_sell(tariff as int),
    {
        let price: i128 = tariff as i128;
        proof {
            lemma_mul_bounds(
                self.spot_fee_share as int,
                day_avg as int,
                SHARE_SCALE as int,
                PRICE_MAX as int,
            );
            lemma_round_quotient_bounds(self.spot_fee_share * day_avg, SHARE_SCALE as int);
        }
        let share: i128 = div_round(self.spot_fee_share as i128 * day_avg as i128, SHARE_SCALE as i128);
        let grid_fees: i128 = self.variable_fee as i128 + self.energy_tax as i128 + share;
        let trade_fees: i128 = self.swedish_power_grid as i128 + self.balance_responsibility as i128
            + self.electric_certificate as i128 + self.guarantees_of_origin as i128
            + self.fixed as i128 + price;
        proof {
            lemma_round_quotient_bounds((grid_fees + trade_fees) * 5, 4 * HUNDREDTH);
            lemma_hundredths(price as int);
            lemma_hundredths(self.production_price + price);
            lemma_five_fourths((grid_fees + trade_fees) as int);
        }
        let buy: i128 = div_round((grid_fees + trade_fees) * 5, 4 * HUNDREDTH as i128)
            * HUNDREDTH as i128;
        let sell: i128 = div_round(self.production_price as i128 + price, HUNDREDTH as i128)
            * HUNDREDTH as i128;
        TariffValue {
            valid_time: delivery_start,
            price: (div_round(price, HUNDREDTH as i128) * HUNDREDTH as i128) as i32,
            buy: buy as i32,
            sell: sell as i32,
        }
    }

    /// Turns the market prices of a day into the prices of the quarters
    /// that start in `[day_start, day_end)`, marked up with the average of
    /// all the entries. Fewer than `MIN_ENTRIES` entries are refused.
    pub fn tariffs_to_vec(&self, entries: &Vec<PriceEntry>, day_start: i64, day_end: i64) -> (r: Result<
        Vec<TariffValue>,
        NordPoolError,
    >)
        requires
            self.wf(),
            entries.len() <= 0x1_0000,
            forall|i: int| 0 <= i < entries.len() ==> is_price((#[trigger] entries[i]).price as int),
        ensures
            r is Ok <==> entries.len() >= MIN_ENTRIES,
            r is Err ==> r->Err_0 == NordPoolError::ContentLengthError,
            r is Ok ==> r->Ok_0@ == self.spec_tariffs(
                entries@,
                average_price(entries@),
                day_start as int,
                day_end as int,
            ),
    {
        if entries.len() < MIN_ENTRIES {
            return Err(NordPoolError::ContentLengthError);
        }
        let mut sum: i128 = 0;
        let mut i: usize = 0;
        while i < entries.len()
            invariant
                i <= entries.len() <= 0x1_0000,
                sum == sum_prices(entries@.take(i as int)),
                -i * PRICE_MAX <= sum <= i * PRICE_MAX,
                forall|j: int|
                    0 <= j < entries.len() ==> is_price((#[trigger] entries[j]).price as int),
            decreases entries.len() - i,
        {
            proof {
                assert(entries@.take(i as int + 1).drop_last() =~= entries@.take(i as int));
                assert(entries@.take(i as int + 1).last() == entries@[i as int]);
                assert(is_price(entries[i as int].price as int));
            }
            sum = sum + entries[i].price as i128;
            i += 1;
        }
        proof {
            assert(entries@.take(entries.len() as int) =~= entries@);
            lemma_average(sum as int, entries.len() as int);
        }
        let day_avg: i32 = div_round(sum, entries.len() as i128) as i32;
        let mut result: Vec<TariffValue> = Vec::new();
        let mut i: usize = 0;
        while i < entries.len()
            invariant
                i <= entries.len(),
                self.wf(),
                is_price(day_avg as int),
                result@ == self.spec_tariffs(
                    entries@.take(i as int),
                    day_avg as int,
                    day_start as int,
                    day_end as int,
                ),
                forall|j: int|
                    0 <= j < entries.len() ==> is_price((#[trigger] entries[j]).price as int),
            decreases entries.len() - i,
        {
            proof {
                assert(entries@.take(i as int + 1).drop_last() =~= entries@.take(i as int));
                assert(entries@.take(i as int + 1).last() == entries@[i as int]);
                assert(is_price(entries[i as int].price as int));
            }
            let t = &entries[i];
            if t.delivery_start >= day_start && t.delivery_start < day_end {
                result.push(self.add_vat_markup(day_avg, t.price, t.delivery_start));
            }
            i += 1;
        }
        assert(entries@.take(entries.len() as int) =~= entries@);
        Ok(result)
    }
}

/// Reads the status of the answer of the market: 204 says that there are
/// no prices for the day.
pub fn content_status(status: u16) -> (r: Result<(), NordPoolError>)
    ensures
        r is Ok <==> status != 204,
        r is Err ==> r->Err_0 == NordPoolError::NoContentError,
{
    if status == 204 {
        Err(NordPoolError::NoContentError)
    } else {
        Ok(())
    }
}

/// Whether `x` is no larger in magnitude than a price can be.
pub fn in_price_range(x: i32) -> (r: bool)
    ensures
        r == is_price(x as int),
{
    -PRICE_MAX <= x && x <= PRICE_MAX
}

/// The average of prices is a price.
pub proof fn lemma_average(sum: int, n: int)
    requires
        n > 0,
        -n * PRICE_MAX <= sum <= n * PRICE_MAX,
    ensures
        is_price(round_quotient(sum, n)),
{
    crate::units::lemma_round_quotient_monotone(sum, n * PRICE_MAX, n);
    crate::units::lemma_round_quotient_monotone(-n * PRICE_MAX, sum, n);
    lemma_exact_quotient(PRICE_MAX as int, n);
    lemma_exact_quotient(-PRICE_MAX, n);
    assert(n * (-PRICE_MAX) == -n * PRICE_MAX) by (nonlinear_arith);
}

/// A multiple of the divisor is divided without rest.
pub proof fn lemma_exact_quotient(q: int, n: int)
    requires
        n > 0,
    ensures
        round_quotient(n * q, n) == q,
{
    if q >= 0 {
        assert(n * q >= 0) by (nonlinear_arith)
            requires
                n > 0,
                q >= 0,
        ;
        assert(2 * n * q <= 2 * (n * q) + n < 2 * n * (q + 1)) by (nonlinear_arith)
            requires
                n > 0,
        ;
        crate::units::lemma_round_quotient_unique(n * q, n, q);
    } else {
        assert(-(n * q) == n * (-q) && n * (-q) >= 0) by (nonlinear_arith)
            requires
                n > 0,
                q < 0,
        ;
        assert(2 * n * (-q) <= 2 * (n * (-q)) + n < 2 * n * ((-q) + 1)) by (nonlinear_arith)
            requires
                n > 0,
        ;
        crate::units::lemma_round_quotient_unique(n * (-q), n, -q);
        lemma_round_quotient_bounds(n * (-q), n);
    }
}

/// Rounding to hundredths moves a price by at most half a hundredth.
pub proof fn lemma_hundredths(price: int)
    ensures
        -(HUNDREDTH / 2) <= round_to_hundredths(price) - price <= HUNDREDTH / 2,
{
    crate::units::lemma_round_quotient_close(price, HUNDREDTH as int);
}

/// Five fourths of a sum, rounded to hundredths, is within half a
/// hundredth of five fourths of the sum.
pub proof fn lemma_five_fourths(sum: int)
    ensures
        -(2 * HUNDREDTH) <= 4 * (round_quotient(sum * 5, 4 * HUNDREDTH) * HUNDREDTH) - 5 * sum <= 2
            * HUNDREDTH,
{
    crate::units::lemma_round_quotient_close(sum * 5, 4 * HUNDREDTH);
    let q = round_quotient(sum * 5, 4 * HUNDREDTH);
    assert(q * (4 * HUNDREDTH) == 4 * (q * HUNDREDTH)) by (nonlinear_arith);
}

} // verus!
