//! Integrations with the outside world: configuration, HTTP and HTML engines.

pub mod config;
pub mod http;
pub mod parser;
