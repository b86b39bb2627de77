//! API models.

pub mod error;
