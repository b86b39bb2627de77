//! Configuration for fetch operations.

use vstd::prelude::*;

verus! {

/// 100 MiB.
pub const DEFAULT_MAX_CONTENT_SIZE: usize = 104857600;

/// 5 MiB.
pub const DEFAULT_STREAMING_THRESHOLD: usize = 5242880;

/// 64 KiB.
pub const DEFAULT_STREAM_BUFFER_SIZE: usize = 65536;

/// Configuration for fetch operations; durations are in milliseconds.
#[derive(Debug, Clone)]
pub struct FetchConfig {
    /// Overall request timeout
    pub timeout_ms: u64,
    /// User agent string
    pub user_agent: String,
    /// Whether to follow redirects
    pub follow_redirects: bool,
    /// Maximum number of redirects to follow
    pub max_redirects: usize,
    /// Whether to verify TLS certificates
    pub verify_tls: bool,
    /// Connection timeout
    pub connect_timeout_ms: u64,
    /// Inactivity timeout between chunks
    pub read_timeout_ms: u64,
    /// Maximum content size in bytes
    pub max_content_size: usize,
    /// Use streaming for bodies larger than this
    pub streaming_threshold: usize,
    /// Buffer size for streaming operations
    pub stream_buffer_size: usize,
}

/// The default body cap.
pub fn default_max_content_size() -> (r: usize)
    ensures
        r == DEFAULT_MAX_CONTENT_SIZE,
{
    DEFAULT_MAX_CONTENT_SIZE
}

/// The default size above which bodies are streamed.
pub fn default_streaming_threshold() -> (r: usize)
    ensures
        r == DEFAULT_STREAMING_THRESHOLD,
{
    DEFAULT_STREAMING_THRESHOLD
}

/// The default chunk buffer size.
pub fn default_stream_buffer_size() -> (r: usize)
    ensures
        r == DEFAULT_STREAM_BUFFER_SIZE,
{
    DEFAULT_STREAM_BUFFER_SIZE
}

impl Default for FetchConfig {
    fn default() -> (r: FetchConfig)
        ensures
            r.timeout_ms == 30000,
            r.user_agent@ == "SCAPI/1.0"@,
            r.follow_redirects,
            r.max_redirects == 5,
            r.verify_tls,
            r.connect_timeout_ms == 10000,
            r.read_timeout_ms == 30000,
            r.max_content_size == DEFAULT_MAX_CONTENT_SIZE,
            r.streaming_threshold == DEFAULT_STREAMING_THRESHOLD,
            r.stream_buffer_size == DEFAULT_STREAM_BUFFER_SIZE,
    {
        FetchConfig {
            timeout_ms: 30000,
            user_agent: "SCAPI/1.0".to_string(),
            follow_redirects: true,
            max_redirects: 5,
            verify_tls: true,
            connect_timeout_ms: 10000,
            read_timeout_ms: 30000,
            max_content_size: default_max_content_size(),
            streaming_threshold: default_streaming_threshold(),
            stream_buffer_size: default_stream_buffer_size(),
        }
    }
}

} // verus!
