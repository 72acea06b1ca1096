//! Performance regression detection: versioned baselines, metric identities
//! and the comparison of fresh samples against a modeled tolerance band.

pub mod calculate;
pub mod collect;
pub mod decimal;
pub mod exceptions;
pub mod pipeline;
pub mod reading;
pub mod store;
pub mod text;
pub mod types;
pub mod version;
