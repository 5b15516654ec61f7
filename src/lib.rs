//! Price-oracle feeder: aggregation of exchange quotes into one price per
//! asset, assembly of the price vector for the chain, and the submitter's
//! decisions, all verified.
pub mod alarm;
pub mod algorithm;
pub mod exchange;
pub mod keys;
pub mod logger;
pub mod misc;
pub mod prom;
pub mod quotes;
pub mod storage;
pub mod submit;
mod text;
pub mod tick;
