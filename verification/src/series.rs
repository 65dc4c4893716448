//! The quarter-hourly series as they come from outside, and their
//! alignment to the horizon.

use vstd::prelude::*;
use crate::errors::SchedulerError;
use crate::schedule::{Horizon, Schedule, Tariffs};

verus! {

/// The largest magnitude of a value of a series of which differences are taken.
pub const SERIES_MAX: i32 = 0x3fff_ffff;

/// The prices of one quarter.
#[derive(Clone, Copy, Debug, PartialEq, Eq, Structural)]
pub struct TariffValue {
    /// Start of the quarter, in seconds since the epoch.
    pub valid_time: i64,
    /// The market price.
    pub price: i32,
    /// What a kWh from the grid costs.
    pub buy: i32,
    /// What a kWh to the grid yields.
    pub sell: i32,
}

/// The value of a series in one quarter.
#[derive(Clone, Copy, Debug, PartialEq, Eq, Structural)]
pub struct TimeValue {
    /// Start of the quarter, in seconds since the epoch.
    pub valid_time: i64,
    pub data: i32,
}

/// The three series of a horizon, aligned quarter by quarter.
#[derive(Clone, Debug, PartialEq, Eq)]
pub struct PreformattedData {
    pub tariffs: Vec<i32>,
    pub cons: Vec<i32>,
    pub net_prod: Vec<i32>,
}

/// The buy prices of the quarters that start in `[start, end)`, in the order given.
pub open spec fn window_buys(tariffs: Seq<TariffValue>, start: int, end: int) -> Seq<i32>
    decreases tariffs.len(),
{
    if tariffs.len() == 0 {
        Seq::empty()
    } else {
        let head = window_buys(tariffs.drop_last(), start, end);
        if start <= tariffs.last().valid_time < end {
            head.push(tariffs.last().buy)
        } else {
            head
        }
    }
}

/// The values of the quarters that start in `[start, end)`, in the order given.
pub open spec fn window_values(values: Seq<TimeValue>, start: int, end: int) -> Seq<i32>
    decreases values.len(),
{
    if values.len() == 0 {
        Seq::empty()
    } else {
        let head = window_values(values.drop_last(), start, end);
        if start <= values.last().valid_time < end {
            head.push(values.last().data)
        } else {
            head
        }
    }
}

/// The buy prices of the quarters that start in `[start, end)`.
pub fn tariffs_in_scope(tariffs: &Vec<TariffValue>, start: i64, end: i64) -> (r: Vec<i32>)
    ensures
        r@ == window_buys(tariffs@, start as int, end as int),
{
    let mut r: Vec<i32> = Vec::new();
    let mut i: usize = 0;
    while i < tariffs.len()
        invariant
            i <= tariffs.len(),
            r@ == window_buys(tariffs@.take(i as int), start as int, end as int),
        decreases tariffs.len() - i,
    {
        proof {
            assert(tariffs@.take(i as int + 1).drop_last() =~= tariffs@.take(i as int));
            assert(tariffs@.take(i as int + 1).last() == tariffs@[i as int]);
        }
        let t = &tariffs[i];
        if t.valid_time >= start && t.valid_time < end {
            r.push(t.buy);
        }
        i += 1;
    }
    assert(tariffs@.take(tariffs.len() as int) =~= tariffs@);
    r
}

/// The values of the quarters that start in `[start, end)`.
pub fn values_in_scope(values: &Vec<TimeValue>, start: i64, end: i64) -> (r: Vec<i32>)
    ensures
        r@ == window_values(values@, start as int, end as int),
        (forall|i: int| 0 <= i < values.len() ==> -SERIES_MAX <= (#[trigger] values[i]).data <= SERIES_MAX)
            ==> forall|i: int| 0 <= i < r.len() ==> -SERIES_MAX <= #[trigger] r[i] <= SERIES_MAX,
{
    let mut r: Vec<i32> = Vec::new();
    let mut i: usize = 0;
    while i < values.len()
        invariant
            i <= values.len(),
            r@ == window_values(values@.take(i as int), start as int, end as int),
            (forall|i: int|
                0 <= i < values.len() ==> -SERIES_MAX <= (#[trigger] values[i]).data <= SERIES_MAX)
                ==> forall|i: int| 0 <= i < r.len() ==> -SERIES_MAX <= #[trigger] r[i] <= SERIES_MAX,
        decreases values.len() - i,
    {
        proof {
            assert(values@.take(i as int + 1).drop_last() =~= values@.take(i as int));
            assert(values@.take(i as int + 1).last() == values@[i as int]);
        }
        let v = &values[i];
        if v.valid_time >= start && v.valid_time < end {
            r.push(v.data);
        }
        i += 1;
    }
    assert(values@.take(values.len() as int) =~= values@);
    r
}

impl Horizon {
    /// Prepares the prices of a horizon.
    pub fn transform_tariffs(tariffs: &Vec<i32>) -> (r: Tariffs)
        ensures
            r.buy@ == tariffs@,
            r.length == tariffs.len(),
    {
        Tariffs { buy: crate::planning::copy_series(tariffs), length: tariffs.len() }
    }
}

impl Schedule {
    /// Aligns the series to the quarters that start in `[start, end)`:
    /// their buy prices, the consumption, and the production less the
    /// consumption. Series that do not have one common length there, or
    /// have nothing there, are refused.
    pub fn preformat_data(
        tariffs: &Vec<TariffValue>,
        production: &Vec<TimeValue>,
        consumption: &Vec<TimeValue>,
        start: i64,
        end: i64,
    ) -> (r: Result<PreformattedData, SchedulerError>)
        requires
            forall|i: int|
                0 <= i < production.len() ==> -SERIES_MAX <= (#[trigger] production[i]).data
                    <= SERIES_MAX,
            forall|i: int|
                0 <= i < consumption.len() ==> -SERIES_MAX <= (#[trigger] consumption[i]).data
                    <= SERIES_MAX,
        ensures
            ({
                let buys = window_buys(tariffs@, start as int, end as int);
                let prod = window_values(production@, start as int, end as int);
                let cons = window_values(consumption@, start as int, end as int);
                &&& r is Ok <==> buys.len() > 0 && buys.len() == prod.len() && buys.len()
                    == cons.len()
                &&& r is Err ==> r->Err_0 == SchedulerError::InconsistentInputLength
                &&& r is Ok ==> {
                    &&& r->Ok_0.tariffs@ == buys
                    &&& r->Ok_0.cons@ == cons
                    &&& r->Ok_0.net_prod@.len() == buys.len()
                    &&& forall|i: int|
                        0 <= i < buys.len() ==> #[trigger] r->Ok_0.net_prod@[i] == prod[i] - cons[i]
                }
            }),
    {
        let buys = tariffs_in_scope(tariffs, start, end);
        let prod = values_in_scope(production, start, end);
        let cons = values_in_scope(consumption, start, end);
        if buys.len() == 0 || buys.len() != prod.len() || buys.len() != cons.len() {
            return Err(SchedulerError::InconsistentInputLength);
        }
        let mut net_prod: Vec<i32> = Vec::with_capacity(prod.len());
        let mut i: usize = 0;
        while i < prod.len()
            invariant
                i <= prod.len(),
                prod.len() == cons.len(),
                net_prod.len() == i,
                forall|j: int| 0 <= j < prod.len() ==> -SERIES_MAX <= #[trigger] prod[j] <= SERIES_MAX,
                forall|j: int| 0 <= j < cons.len() ==> -SERIES_MAX <= #[trigger] cons[j] <= SERIES_MAX,
                forall|j: int| 0 <= j < i ==> #[trigger] net_prod@[j] == prod[j] - cons[j],
            decreases prod.len() - i,
        {
            net_prod.push(prod[i] - cons[i]);
            i += 1;
        }
        Ok(PreformattedData { tariffs: buys, cons, net_prod })
    }
}

} // verus!
