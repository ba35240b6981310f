//! Summary performance metrics derived from a raw price series.

use vstd::prelude::*;
use crate::models::{AnnualizedReturn, PerformanceMetrics, PricePoint};
use crate::rational::Rat;

verus! {

/// Per-step returns are held in millionths: a step return of `RETURN_SCALE`
/// is a gain of 100%.
pub const RETURN_SCALE: u64 = 1_000_000;

/// Largest admitted growth from one observation to the next; it keeps every
/// scaled step return within `RETURN_BOUND`.
pub const MAX_STEP_FACTOR: u64 = 1_000_000;

/// Bound on a scaled step return: `MAX_STEP_FACTOR * RETURN_SCALE`.
pub const RETURN_BOUND: i128 = 1_000_000_000_000;

/// Longest admitted series; it keeps the volatility sums within `i128`.
pub const MAX_SERIES_LEN: usize = 1001;

/// Bound on one squared scaled deviation, `(2 * 1000 * RETURN_BOUND)^2`.
pub const SQ_TERM_BOUND: i128 = 4_000_000_000_000_000_000_000_000_000_000;

/// Whole days from `start` to `end` (both in seconds), rounded toward zero,
/// so negative exactly when the series runs backwards by a day or more.
pub open spec fn days_between(start: int, end: int) -> int {
    if end >= start {
        (end - start) / 86400
    } else {
        -((start - end) / 86400)
    }
}

/// The simple period-over-period return `curr / prev - 1`, scaled by
/// `RETURN_SCALE` and rounded toward zero.
pub open spec fn step_return(prev: int, curr: int) -> int {
    if curr >= prev {
        (curr - prev) * RETURN_SCALE / prev
    } else {
        -((prev - curr) * RETURN_SCALE / prev)
    }
}

/// The scaled step returns of all consecutive pairs of the series.
pub open spec fn step_returns(prices: Seq<PricePoint>) -> Seq<int> {
    Seq::new(
        if prices.len() <= 1 {
            0
        } else {
            (prices.len() - 1) as nat
        },
        |i: int| step_return(prices[i].price as int, prices[i + 1].price as int),
    )
}

/// A sequence of machine integers, as mathematical integers.
pub open spec fn ints_of(s: Seq<i128>) -> Seq<int> {
    s.map_values(|v: i128| v as int)
}

/// The sum of a sequence of integers.
pub open spec fn seq_sum(s: Seq<int>) -> int
    decreases s.len(),
{
    if s.len() == 0 {
        0
    } else {
        seq_sum(s.drop_last()) + s.last()
    }
}

/// The squared deviations of `s` from its mean, each scaled by `n` twice so
/// that everything stays an integer: term `i` is `(n * s[i] - total)^2`.
pub open spec fn sq_dev_terms(s: Seq<int>, n: int, total: int) -> Seq<int> {
    Seq::new(s.len(), |i: int| (n * s[i] - total) * (n * s[i] - total))
}

/// `n^3` times the population variance of `s`, where `n == s.len()`:
/// the sum of `(n * s[i] - sum(s))^2` over all `i`.
pub open spec fn sum_sq_dev(s: Seq<int>) -> int {
    seq_sum(sq_dev_terms(s, s.len() as int, seq_sum(s)))
}

/// The integer square root of `x`, rounded down.
pub open spec fn sqrt_floor(x: int) -> int
    decreases x,
{
    if x <= 0 {
        0
    } else {
        let r = sqrt_floor(x - 1);
        if (r + 1) * (r + 1) <= x {
            r + 1
        } else {
            r
        }
    }
}

/// `sqrt_floor(x)` is the unique nonnegative root bracket of `x`.
pub proof fn lemma_sqrt_floor_bounds(x: int)
    requires
        x >= 0,
    ensures
        0 <= sqrt_floor(x),
        sqrt_floor(x) * sqrt_floor(x) <= x,
        x < (sqrt_floor(x) + 1) * (sqrt_floor(x) + 1),
    decreases x,
{
    if x > 0 {
        lemma_sqrt_floor_bounds(x - 1);
        let r = sqrt_floor(x - 1);
        if (r + 1) * (r + 1) <= x {
            assert(x - 1 < (r + 1) * (r + 1));
            assert(x < (r + 2) * (r + 2)) by (nonlinear_arith)
                requires
                    r >= 0,
                    x <= (r + 1) * (r + 1),
            ;
        }
    }
}

/// Any two nonnegative values bracketing `x` between their own square and
/// the next square coincide.
pub proof fn lemma_sqrt_bracket_unique(x: int, a: int, b: int)
    by (nonlinear_arith)
    requires
        0 <= a,
        0 <= b,
        a * a <= x,
        x < (a + 1) * (a + 1),
        b * b <= x,
        x < (b + 1) * (b + 1),
    ensures
        a == b,
{
}

/// Extending a prefix sum by one element.
proof fn lemma_seq_sum_take_step(s: Seq<int>, i: int)
    requires
        0 <= i < s.len(),
    ensures
        seq_sum(s.take(i + 1)) == seq_sum(s.take(i)) + s[i],
{
    assert(s.take(i + 1).drop_last() =~= s.take(i));
    assert(s.take(i + 1).last() == s[i]);
}

/// The integer square root of `x`, rounded down, by bisection.
fn isqrt(x: u128) -> (r: u64)
    ensures
        r * r <= x < (r + 1) * (r + 1),
        r == sqrt_floor(x as int),
{
    let mut lo: u128 = 0;
    let mut hi: u128 = 0x1_0000_0000_0000_0000;
    while hi - lo > 1
        invariant
            lo < hi,
            hi <= 0x1_0000_0000_0000_0000,
            lo * lo <= x,
            x < hi * hi,
        decreases hi - lo,
    {
        let mid: u128 = lo + (hi - lo) / 2;
        assert(lo < mid < hi);
        assert(mid * mid <= 0xffff_ffff_ffff_ffffu128 * 0xffff_ffff_ffff_ffffu128)
            by (nonlinear_arith)
            requires
                0 <= mid <= 0xffff_ffff_ffff_ffffu128,
        ;
        if mid * mid <= x {
            lo = mid;
        } else {
            hi = mid;
        }
    }
    proof {
        lemma_sqrt_floor_bounds(x as int);
        lemma_sqrt_bracket_unique(x as int, lo as int, sqrt_floor(x as int));
    }
    lo as u64
}

/// The population standard deviation of `values`, as the exact floor of the
/// true standard deviation on the grid of multiples of `1 / n^2`.
///
/// With `n == values.len()` and `T == sum_sq_dev(values)` (which is `n^3`
/// times the population variance, using a divisor of `n`, not `n - 1`), the
/// true standard deviation is `sqrt(T * n) / n^2`; the result returned here
/// is exactly `sqrt_floor(T * n) / n^2`. An empty input yields exactly zero,
/// and a single observation yields exactly zero as well, since its only
/// deviation from the mean is zero.
pub fn calculate_std_dev(values: &Vec<i128>) -> (r: Rat)
    requires
        values@.len() <= 1000,
        forall|i: int|
            0 <= i < values@.len() ==> -RETURN_BOUND <= #[trigger] values@[i] <= RETURN_BOUND,
    ensures
        r.wf(),
        0 <= r.num <= 2_000_000_000_000_000_000,
        values@.len() == 0 ==> r@ == (0int, 1int),
        values@.len() > 0 ==> r@.1 == values@.len() * values@.len() && r@.0 == sqrt_floor(
            sum_sq_dev(ints_of(values@)) * values@.len(),
        ),
{
    let n: usize = values.len();
    if n == 0 {
        return Rat::zero();
    }
    let nw: i128 = n as i128;
    let ghost vals = ints_of(values@);

    let mut total: i128 = 0;
    let mut idx: usize = 0;
    #[verifier::loop_isolation(false)]
    while idx < n
        invariant
            idx <= n,
            total == seq_sum(vals.take(idx as int)),
            -(idx * RETURN_BOUND) <= total <= idx * RETURN_BOUND,
        decreases n - idx,
    {
        proof {
            lemma_seq_sum_take_step(vals, idx as int);
        }
        total = total + values[idx];
        idx = idx + 1;
    }
    proof {
        assert(vals.take(n as int) =~= vals);
    }

    let ghost terms = sq_dev_terms(vals, n as int, total as int);
    let mut t: i128 = 0;
    idx = 0;
    #[verifier::loop_isolation(false)]
    while idx < n
        invariant
            idx <= n,
            t == seq_sum(terms.take(idx as int)),
            0 <= t <= idx * SQ_TERM_BOUND,
        decreases n - idx,
    {
        proof {
            lemma_seq_sum_take_step(terms, idx as int);
        }
        let v: i128 = values[idx];
        assert(-1000 * RETURN_BOUND <= nw * v <= 1000 * RETURN_BOUND) by (nonlinear_arith)
            requires
                1 <= nw <= 1000,
                -RETURN_BOUND <= v <= RETURN_BOUND,
        ;
        let d: i128 = nw * v - total;
        assert(0 <= d * d <= SQ_TERM_BOUND) by (nonlinear_arith)
            requires
                -2_000_000_000_000_000i128 <= d <= 2_000_000_000_000_000i128,
        ;
        t = t + d * d;
        idx = idx + 1;
    }
    proof {
        assert(terms.take(n as int) =~= terms);
    }

    assert(0 <= t * nw <= 1000 * 1000 * SQ_TERM_BOUND) by (nonlinear_arith)
        requires
            0 <= t <= 1000 * SQ_TERM_BOUND,
            1 <= nw <= 1000,
    ;
    let x: i128 = t * nw;
    let s: u64 = isqrt(x as u128);
    assert(s <= 2_000_000_000_000_000_000u64) by (nonlinear_arith)
        requires
            0 <= s,
            s * s <= 1000 * 1000 * SQ_TERM_BOUND,
    ;
    assert(1 <= nw * nw <= 1_000_000) by (nonlinear_arith)
        requires
            1 <= nw <= 1000,
    ;
    let den: i128 = nw * nw;
    Rat { num: s as i128, den }
}

/// The scaled simple return from `prev` to `curr`, exactly as `step_return`
/// defines it.
fn step_return_exec(prev: u64, curr: u64) -> (r: i128)
    requires
        prev >= 1,
        curr <= MAX_STEP_FACTOR * prev,
    ensures
        r == step_return(prev as int, curr as int),
        -(RETURN_SCALE as i128) <= r <= RETURN_BOUND,
{
    if curr >= prev {
        let scaled: u128 = ((curr - prev) as u128) * (RETURN_SCALE as u128);
        assert(scaled <= prev * RETURN_BOUND) by (nonlinear_arith)
            requires
                scaled == (curr - prev) * RETURN_SCALE,
                curr <= MAX_STEP_FACTOR * prev,
                prev >= 1,
        ;
        let q: u128 = scaled / (prev as u128);
        assert(q <= RETURN_BOUND) by (nonlinear_arith)
            requires
                q == scaled / (prev as u128),
                scaled <= prev * RETURN_BOUND,
                prev >= 1,
        ;
        q as i128
    } else {
        let scaled: u128 = ((prev - curr) as u128) * (RETURN_SCALE as u128);
        assert(scaled <= prev * (RETURN_SCALE as i128)) by (nonlinear_arith)
            requires
                scaled == (prev - curr) * RETURN_SCALE,
                curr < prev,
        ;
        let q: u128 = scaled / (prev as u128);
        assert(q <= RETURN_SCALE) by (nonlinear_arith)
            requires
                q == scaled / (prev as u128),
                scaled <= prev * (RETURN_SCALE as i128),
                prev >= 1,
        ;
        -(q as i128)
    }
}

/// Reduce `prices` to a summary performance record for `asset_id`.
///
/// Fewer than two points is the expected "insufficient data" outcome,
/// signaled as `None`; with two or more points the result pins every field:
/// the total return is the exact rational `(last / first - 1) * 100`; the
/// annualized return is clamped flat when the series spans less than one
/// whole day (or runs backwards) and otherwise carries the exact growth
/// ratio and whole-day span of the observed window; the volatility is the
/// population standard deviation of the scaled step returns, in percent,
/// floored on the grid its denominator names; and the dates are copied from
/// the first and last observations. The total return is positive, negative
/// or zero exactly as the last price is above, below or equal to the first.
pub fn calculate_metrics(asset_id: String, prices: &Vec<PricePoint>) -> (result: Option<
    PerformanceMetrics,
>)
    requires
        forall|i: int| 0 <= i < prices@.len() ==> (#[trigger] prices@[i]).price >= 1,
        forall|i: int|
            1 <= i < prices@.len() ==> (#[trigger] prices@[i]).price <= MAX_STEP_FACTOR * prices@[
                i - 1
            ].price,
        prices@.len() <= MAX_SERIES_LEN,
    ensures
        result is Some <==> prices@.len() >= 2,
        result matches Some(m) ==> {
            let first = prices@[0].price as int;
            let last = prices@[prices@.len() - 1].price as int;
            let days = days_between(
                prices@[0].timestamp as int,
                prices@[prices@.len() - 1].timestamp as int,
            );
            &&& m.asset_id@ == asset_id@
            &&& m.start_date == prices@[0].timestamp
            &&& m.end_date == prices@[prices@.len() - 1].timestamp
            &&& m.total_return_pct@ == ((last - first) * 100, first)
            &&& m.total_return_pct.wf()
            &&& (last > first ==> m.total_return_pct.num > 0)
            &&& (last < first ==> m.total_return_pct.num < 0)
            &&& (last == first ==> m.total_return_pct.num == 0)
            &&& (days <= 0 ==> m.annualized_return_pct is Flat)
            &&& (days > 0 ==> (m.annualized_return_pct matches AnnualizedReturn::Compound {
                growth_ratio,
                days: d,
            } && growth_ratio@ == (last, first) && d == days))
            &&& m.volatility@.1 == (prices@.len() - 1) * (prices@.len() - 1) * RETURN_SCALE
            &&& m.volatility@.0 == 100 * sqrt_floor(
                sum_sq_dev(step_returns(prices@)) * (prices@.len() - 1),
            )
            &&& m.volatility.wf()
            &&& m.volatility.num >= 0
        },
{
    let n: usize = prices.len();
    if n < 2 {
        return None;
    }
    let first_price: u64 = prices[0].price;
    let last_price: u64 = prices[n - 1].price;
    let start_date: i64 = prices[0].timestamp;
    let end_date: i64 = prices[n - 1].timestamp;

    let total_return_pct = Rat {
        num: (last_price as i128 - first_price as i128) * 100,
        den: first_price as i128,
    };

    let annualized_return_pct = if end_date >= start_date {
        let span: u128 = (end_date as i128 - start_date as i128) as u128;
        let days: u128 = span / 86400;
        if days >= 1 {
            AnnualizedReturn::Compound {
                growth_ratio: Rat { num: last_price as i128, den: first_price as i128 },
                days: days as i64,
            }
        } else {
            AnnualizedReturn::Flat
        }
    } else {
        AnnualizedReturn::Flat
    };

    let mut rets: Vec<i128> = Vec::new();
    let mut idx: usize = 0;
    #[verifier::loop_isolation(false)]
    while idx < n - 1
        invariant
            idx <= n - 1,
            rets@.len() == idx,
            forall|j: int| 0 <= j < idx ==> rets@[j] == step_returns(prices@)[j],
            forall|j: int|
                0 <= j < idx ==> -RETURN_BOUND <= #[trigger] rets@[j] <= RETURN_BOUND,
        decreases n - 1 - idx,
    {
        let r: i128 = step_return_exec(prices[idx].price, prices[idx + 1].price);
        rets.push(r);
        idx = idx + 1;
    }
    proof {
        assert(ints_of(rets@) =~= step_returns(prices@));
    }

    let vol_base: Rat = calculate_std_dev(&rets);
    assert(1 <= vol_base.den <= 1_000_000) by (nonlinear_arith)
        requires
            vol_base.den == (n - 1) * (n - 1),
            1 <= n - 1 <= 1000,
    ;
    let volatility = Rat {
        num: 100 * vol_base.num,
        den: vol_base.den * (RETURN_SCALE as i128),
    };

    Some(
        PerformanceMetrics {
            asset_id,
            total_return_pct,
            annualized_return_pct,
            volatility,
            start_date,
            end_date,
        },
    )
}

} // verus!
