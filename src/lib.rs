//! Credential lifecycle and metric synchronisation core of a Fitbit exporter.
pub mod json;
pub mod decimal;
pub mod day;
pub mod error;
pub mod client;
pub mod metrics;
pub mod sync;
