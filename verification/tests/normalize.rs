use portfolio_tracker::models::PricePoint;
use portfolio_tracker::price_service::normalize_prices;

fn pp(timestamp: i64, price: u64) -> PricePoint {
    PricePoint { asset_id: "TEST".to_string(), timestamp, price }
}

#[test]
fn test_normalize_prices() {
    let prices = vec![pp(0, 100), pp(60, 110), pp(120, 95)];

    let normalized = normalize_prices(&prices, 10000);

    assert_eq!(normalized.len(), 3);
    assert_eq!(
        normalized[0].normalized_value.num,
        10000 * normalized[0].normalized_value.den
    );
    assert_eq!(
        normalized[1].normalized_value.num,
        11000 * normalized[1].normalized_value.den
    );
    assert_eq!(
        normalized[2].normalized_value.num,
        9500 * normalized[2].normalized_value.den
    );
}

#[test]
fn first_point_rebases_to_initial_amount() {
    let prices = vec![pp(10, 250), pp(20, 300), pp(30, 125)];
    let normalized = normalize_prices(&prices, 777);
    assert_eq!(normalized[0].normalized_value.num, 777 * normalized[0].normalized_value.den);
    assert_eq!(normalized[0].return_pct.num, 0);
}

#[test]
fn length_and_timestamps_are_preserved() {
    let prices = vec![pp(5, 40), pp(6, 41), pp(9, 39), pp(12, 44)];
    let normalized = normalize_prices(&prices, 1000);
    assert_eq!(normalized.len(), 4);
    for (n, p) in normalized.iter().zip(prices.iter()) {
        assert_eq!(n.timestamp, p.timestamp);
    }
}

#[test]
fn empty_series_normalizes_to_empty() {
    let prices: Vec<PricePoint> = vec![];
    let normalized = normalize_prices(&prices, 10000);
    assert!(normalized.is_empty());
}

#[test]
fn normalization_is_linear_in_the_initial_amount() {
    let prices = vec![pp(0, 73), pp(1, 91), pp(2, 64), pp(3, 80)];
    let base = normalize_prices(&prices, 500);
    let tripled = normalize_prices(&prices, 1500);
    for (b, t) in base.iter().zip(tripled.iter()) {
        // t.normalized_value == 3 * b.normalized_value, as rationals
        assert_eq!(
            t.normalized_value.num * b.normalized_value.den,
            3 * b.normalized_value.num * t.normalized_value.den
        );
        // the cumulative return does not depend on the amount at all
        assert_eq!(t.return_pct.num, b.return_pct.num);
        assert_eq!(t.return_pct.den, b.return_pct.den);
    }
}

#[test]
fn cumulative_returns_are_exact_percentages() {
    let prices = vec![pp(0, 100), pp(60, 110), pp(120, 95)];
    let normalized = normalize_prices(&prices, 10000);
    assert_eq!(normalized[0].return_pct.num, 0);
    assert_eq!(normalized[1].return_pct.num, 10 * normalized[1].return_pct.den);
    assert_eq!(normalized[2].return_pct.num, -5 * normalized[2].return_pct.den);
}
