//! Shared value objects: assets, observed prices, and derived records.

use vstd::prelude::*;
use crate::rational::Rat;

verus! {

/// Kinds of assets tracked for comparison.
#[derive(Clone, Copy, Debug, PartialEq, Eq, Structural)]
pub enum AssetType {
    Stock,
    Crypto,
    Commodity,
}

/// An individual asset, such as an equity ticker or a cryptocurrency.
#[derive(Clone, Debug)]
pub struct Asset {
    pub id: String,
    pub symbol: String,
    pub name: String,
    pub asset_type: AssetType,
}

/// One observed price of one asset at one instant.
///
/// `timestamp` is seconds since the Unix epoch; `price` is a whole number of
/// ticks in whatever unit the caller fixes for the series (for example
/// cents). A price of zero denotes no observation and is excluded by the
/// analytics' preconditions, matching the assumption that observed prices
/// are strictly positive.
#[derive(Clone, Debug)]
pub struct PricePoint {
    pub asset_id: String,
    pub timestamp: i64,
    pub price: u64,
}

/// A portfolio: a named collection of assets.
#[derive(Clone, Debug)]
pub struct Portfolio {
    pub id: String,
    pub name: String,
    pub assets: Vec<Asset>,
}

/// A request to compare assets over an optional date window.
#[derive(Clone, Debug)]
pub struct CompareAssetsRequest {
    pub asset_ids: Vec<String>,
    pub start_date: Option<String>,
    pub end_date: Option<String>,
}

/// The raw material of a comparison: the assets and their price series.
#[derive(Clone, Debug)]
pub struct CompareAssetsResponse {
    pub assets: Vec<Asset>,
    pub price_data: Vec<PricePoint>,
}

/// One point of a price series rebased to a common initial amount.
///
/// Both derived fields are exact rationals over the series' first price.
#[derive(Clone, Copy, Debug)]
pub struct NormalizedPricePoint {
    pub timestamp: i64,
    pub normalized_value: Rat,
    pub return_pct: Rat,
}

/// The annualized-return component of a metrics record.
///
/// The yearly growth rate is the observed growth ratio raised to a
/// fractional power, which is irrational in general and so cannot be an
/// exact rational. This record therefore pins the clamp decision and the
/// exact inputs of that power; evaluating the power itself is left to an
/// unverified presentation layer.
#[derive(Clone, Copy, Debug)]
pub enum AnnualizedReturn {
    /// The series spans less than one whole day (or runs backwards in
    /// time): the annualized return is clamped to exactly zero percent
    /// rather than raised to a meaningless fractional-day exponent.
    Flat,
    /// The series spans `days >= 1` whole days and grew by the exact factor
    /// `growth_ratio` (last price over first price). The annualized return
    /// in percent is `(growth_ratio ^ (365.25 / days) - 1) * 100`.
    Compound { growth_ratio: Rat, days: i64 },
}

/// Summary performance record derived from one asset's price series.
///
/// `total_return_pct` and `volatility` are percentages held as exact
/// rationals; `start_date` and `end_date` are copied from the first and last
/// observations, in seconds since the Unix epoch.
#[derive(Clone, Debug)]
pub struct PerformanceMetrics {
    pub asset_id: String,
    pub total_return_pct: Rat,
    pub annualized_return_pct: AnnualizedReturn,
    pub volatility: Rat,
    pub start_date: i64,
    pub end_date: i64,
}

} // verus!
