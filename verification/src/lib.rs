//! Ingestion library for a retweet aggregator: domain records, the storage
//! port with its contracts, an in-memory store, the decimal identifier codec
//! used by document-database adapters, and the per-page ingestion step.

pub mod model;
pub mod codec;
pub mod storage;
pub mod memory;
pub mod workflow;
