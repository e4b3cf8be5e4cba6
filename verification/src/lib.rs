//! A ledger of stock trades and the figures derived from it: the weighted
//! average price paid for a position, the quantity still held, and the profit
//! a sale would bring. All amounts are exact base-10 decimals.
//!
//! - [`decimal`]: the decimal numbers and what their arithmetic returns.
//! - [`stock`]: stocks and trades.
//! - [`asset`]: the figures of a holding, stated over the sequence of its trades.
//! - [`ledger`]: the ledger that computes them.
//! - [`exact`]: totals that need no rounding.
//! - [`laws`]: what holds of every ledger.

pub mod asset;
pub mod decimal;
pub mod exact;
pub mod laws;
pub mod ledger;
pub mod stock;
