use portfolio_tracker::metrics_service::{calculate_metrics, calculate_std_dev};
use portfolio_tracker::models::{AnnualizedReturn, PricePoint};

const DAY: i64 = 86_400;

fn pp(timestamp: i64, price: u64) -> PricePoint {
    PricePoint { asset_id: "TEST".to_string(), timestamp, price }
}

#[test]
fn test_calculate_std_dev() {
    let values: Vec<i128> = vec![2, 4, 4, 4, 5, 5, 7, 9];
    let std_dev = calculate_std_dev(&values);
    assert!((std_dev.num as f64 / std_dev.den as f64 - 2.0).abs() < 0.1);
}

#[test]
fn std_dev_of_empty_input_is_zero() {
    let values: Vec<i128> = vec![];
    let std_dev = calculate_std_dev(&values);
    assert_eq!(std_dev.num, 0);
}

#[test]
fn insufficient_data_yields_none() {
    let empty: Vec<PricePoint> = vec![];
    assert!(calculate_metrics("BTC".to_string(), &empty).is_none());

    let single = vec![pp(0, 500)];
    assert!(calculate_metrics("BTC".to_string(), &single).is_none());
}

#[test]
fn two_rising_points_give_exact_metrics() {
    let prices = vec![pp(0, 100), pp(2 * DAY, 110)];
    let m = calculate_metrics("QQQ".to_string(), &prices).unwrap();

    assert_eq!(m.asset_id, "QQQ");
    assert_eq!(m.start_date, 0);
    assert_eq!(m.end_date, 2 * DAY);
    // total return is exactly +10%
    assert_eq!(m.total_return_pct.num, 10 * m.total_return_pct.den);
    // a single step return deviates from its own mean by nothing
    assert_eq!(m.volatility.num, 0);
    match m.annualized_return_pct {
        AnnualizedReturn::Compound { growth_ratio, days } => {
            assert_eq!(days, 2);
            assert_eq!(growth_ratio.num, 110);
            assert_eq!(growth_ratio.den, 100);
        }
        AnnualizedReturn::Flat => panic!("a two-day span must not be clamped"),
    }
}

#[test]
fn zero_day_span_clamps_annualized_return() {
    // a large price move within one day still yields a flat annualized return
    let prices = vec![pp(1_000, 100), pp(50_000, 900)];
    let m = calculate_metrics("GOLD".to_string(), &prices).unwrap();
    assert!(matches!(m.annualized_return_pct, AnnualizedReturn::Flat));
}

#[test]
fn backwards_timestamps_clamp_annualized_return() {
    let prices = vec![pp(10 * DAY, 100), pp(0, 200)];
    let m = calculate_metrics("GOLD".to_string(), &prices).unwrap();
    assert!(matches!(m.annualized_return_pct, AnnualizedReturn::Flat));
}

#[test]
fn total_return_sign_follows_price_change() {
    let up = calculate_metrics("A".to_string(), &vec![pp(0, 100), pp(DAY, 150)]).unwrap();
    assert!(up.total_return_pct.num > 0);

    let down = calculate_metrics("B".to_string(), &vec![pp(0, 100), pp(DAY, 60)]).unwrap();
    assert!(down.total_return_pct.num < 0);

    let flat = calculate_metrics("C".to_string(), &vec![pp(0, 100), pp(DAY, 100)]).unwrap();
    assert_eq!(flat.total_return_pct.num, 0);
}

#[test]
fn volatility_of_three_point_series_is_exact() {
    // step returns: +100% and -50%; the population standard deviation of
    // {1.0, -0.5} is 0.75, reported as exactly 75 percent
    let prices = vec![pp(0, 100), pp(DAY, 200), pp(2 * DAY, 100)];
    let m = calculate_metrics("BTC".to_string(), &prices).unwrap();
    assert_eq!(m.volatility.num, 75 * m.volatility.den);
    // and the whole window is a wash: total return exactly zero
    assert_eq!(m.total_return_pct.num, 0);
}

#[test]
fn annualized_days_use_whole_days_rounded_toward_zero() {
    // 47 hours is one whole day
    let prices = vec![pp(0, 100), pp(47 * 3_600, 120)];
    let m = calculate_metrics("SPY".to_string(), &prices).unwrap();
    match m.annualized_return_pct {
        AnnualizedReturn::Compound { days, .. } => assert_eq!(days, 1),
        AnnualizedReturn::Flat => panic!("a whole day passed"),
    }
}
