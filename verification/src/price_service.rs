//! Rebasing a raw price series onto a common initial investment amount.

use vstd::prelude::*;
use crate::models::{NormalizedPricePoint, PricePoint};
use crate::rational::{frac_eq, frac_is_int, Rat};

verus! {

/// The exact rebased value at index `i`: `prices[i].price / prices[0].price
/// * amount`, as a numerator/denominator pair over the first price.
pub open spec fn norm_value_frac(prices: Seq<PricePoint>, amount: int, i: int) -> (int, int) {
    (prices[i].price * amount, prices[0].price as int)
}

/// The exact cumulative return at index `i`, in percent:
/// `(prices[i].price / prices[0].price - 1) * 100`.
pub open spec fn return_pct_frac(prices: Seq<PricePoint>, i: int) -> (int, int) {
    ((prices[i].price - prices[0].price) * 100, prices[0].price as int)
}

/// Rebase `prices` so that its first point maps to `initial_amount`.
///
/// Output preserves input order and length exactly, copies each timestamp
/// unchanged, and yields at each index the exact rationals
/// `price / baseline * initial_amount` and `(price / baseline - 1) * 100`,
/// where `baseline` is the first observed price. An empty series maps to an
/// empty series; a non-empty one opens at exactly `initial_amount` and a
/// cumulative return of exactly zero.
pub fn normalize_prices(prices: &Vec<PricePoint>, initial_amount: u64) -> (result: Vec<
    NormalizedPricePoint,
>)
    requires
        prices@.len() > 0 ==> prices@[0].price >= 1,
        forall|i: int|
            0 <= i < prices@.len() ==> #[trigger] prices@[i].price * initial_amount <= i128::MAX,
    ensures
        result@.len() == prices@.len(),
        forall|i: int|
            0 <= i < prices@.len() ==> (#[trigger] result@[i]).timestamp == prices@[i].timestamp,
        forall|i: int|
            0 <= i < prices@.len() ==> (#[trigger] result@[i]).normalized_value@ == norm_value_frac(
                prices@,
                initial_amount as int,
                i,
            ),
        forall|i: int|
            0 <= i < prices@.len() ==> (#[trigger] result@[i]).return_pct@ == return_pct_frac(
                prices@,
                i,
            ),
        forall|i: int|
            0 <= i < prices@.len() ==> (#[trigger] result@[i]).normalized_value.wf()
                && result@[i].return_pct.wf(),
        prices@.len() > 0 ==> frac_is_int(result@[0].normalized_value@, initial_amount as int)
            && result@[0].return_pct@.0 == 0,
{
    let mut result: Vec<NormalizedPricePoint> = Vec::new();
    if prices.len() == 0 {
        return result;
    }
    let baseline: u64 = prices[0].price;
    let mut idx: usize = 0;
    #[verifier::loop_isolation(false)]
    while idx < prices.len()
        invariant
            result@.len() == idx,
            idx <= prices@.len(),
            forall|i: int|
                0 <= i < idx ==> (#[trigger] result@[i]).timestamp == prices@[i].timestamp,
            forall|i: int|
                0 <= i < idx ==> (#[trigger] result@[i]).normalized_value@ == norm_value_frac(
                    prices@,
                    initial_amount as int,
                    i,
                ),
            forall|i: int|
                0 <= i < idx ==> (#[trigger] result@[i]).return_pct@ == return_pct_frac(prices@, i),
        decreases prices@.len() - idx,
    {
        let p: u64 = prices[idx].price;
        let value_num_wide: u128 = (p as u128) * (initial_amount as u128);
        assert(value_num_wide <= i128::MAX);
        let point = NormalizedPricePoint {
            timestamp: prices[idx].timestamp,
            normalized_value: Rat { num: value_num_wide as i128, den: baseline as i128 },
            return_pct: Rat { num: (p as i128 - baseline as i128) * 100, den: baseline as i128 },
        };
        result.push(point);
        idx = idx + 1;
    }
    proof {
        let a = initial_amount as int;
        let b = prices@[0].price as int;
        assert(b * a == a * b) by (nonlinear_arith);
    }
    result
}

/// Rebasing is linear in the initial amount: for any positive factor `k`,
/// rebasing to `k * amount` yields at every index exactly `k` times the
/// value obtained by rebasing to `amount`. (The cumulative returns do not
/// depend on the amount at all, as their defining pair shows.)
pub proof fn lemma_normalize_scale_linearity(prices: Seq<PricePoint>, amount: int, k: int, i: int)
    requires
        0 <= i < prices.len(),
        k > 0,
    ensures
        frac_eq(
            norm_value_frac(prices, k * amount, i),
            (k * norm_value_frac(prices, amount, i).0, norm_value_frac(prices, amount, i).1),
        ),
{
    let p = prices[i].price as int;
    let b = prices[0].price as int;
    assert((p * (k * amount)) * b == (k * (p * amount)) * b) by (nonlinear_arith);
}

} // verus!
