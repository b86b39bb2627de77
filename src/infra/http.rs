//! The decisions of the streaming HTTP fetcher.

pub mod streaming;
