//! Extract operation: rules for turning a tree into records.

pub mod config;
pub mod error;
pub mod rules;
pub mod service;
