//! Comparative performance analytics for heterogeneous asset price series.
//!
//! The crate rebases raw price series onto a common initial investment amount
//! (`price_service`) and reduces a raw price series into a summary record of
//! return and risk (`metrics_service`). Prices are integer ticks in whatever
//! unit the caller chooses, timestamps are seconds since the Unix epoch, and
//! every derived figure is an exact rational (`rational::Rat`), so each
//! result is pinned precisely by its contract.

pub mod metrics_service;
pub mod models;
pub mod price_service;
pub mod rational;
