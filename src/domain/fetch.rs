//! Fetch operation: configuration and errors.

pub mod config;
pub mod error;
