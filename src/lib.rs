//! Atomic web-scraping primitives: a size-bounded streaming fetcher, an
//! arena-based DOM builder, a bounded cache of parsed trees and a
//! dual-strategy element-selection router.

pub mod api;
pub mod common;
pub mod domain;
pub mod infra;

use crate::common::error::CommonError;
use crate::domain::extract::service::DefaultExtractService;
use crate::domain::fetch::config::FetchConfig;
use crate::domain::parse::service::DefaultParseService;
use crate::domain::select::service::DefaultSelectService;
use vstd::prelude::*;

verus! {

/// The state that the services share.
pub struct AppState {
    /// Fetch settings
    pub fetch_config: FetchConfig,
    /// Parse service, with its tree cache
    pub parse_service: DefaultParseService,
    /// Selection router
    pub select_service: DefaultSelectService,
    /// Extract service
    pub extract_service: DefaultExtractService,
}

impl AppState {
    /// Creates the state with default settings: a 100-entry tree cache and
    /// a 1 MiB streaming threshold.
    pub fn new() -> (r: Result<AppState, CommonError>)
        ensures
            r matches Ok(s) && s.parse_service.cache.inv() && s.parse_service.cache.capacity() == 100
                && s.select_service.streaming_threshold_bytes == 1048576,
    {
        Ok(AppState {
            fetch_config: FetchConfig::default(),
            parse_service: DefaultParseService::new(),
            select_service: DefaultSelectService::new(1048576),
            extract_service: DefaultExtractService::new(DefaultParseService::with_capacity(0)),
        })
    }
}

} // verus!
