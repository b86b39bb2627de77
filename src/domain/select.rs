//! Select operation: CSS selection over a document, by one of two engines.

pub mod config;
pub mod error;
pub mod selector;
pub mod service;
pub mod xpath;
