//! Fuel-price ingestion: extraction of station prices from a published price
//! list, a fixed-point price codec, an idempotent observation store with its
//! read projections, and the decisions of the polling scheduler.

pub mod price;
pub mod pattern;
pub mod error;
pub mod markup;
pub mod timestamp;
pub mod parse;
pub mod order;
pub mod store;
pub mod schedule;
pub mod cycle;
