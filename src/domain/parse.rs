//! Parse operation: markup to arena tree, with a bounded cache.

pub mod cache;
pub mod config;
pub mod error;
pub mod models;
pub mod service;
