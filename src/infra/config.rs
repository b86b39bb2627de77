//! Application configuration values.

pub mod loader;
