//! Types shared by every operation.

pub mod error;
pub mod metrics;
pub mod types;
