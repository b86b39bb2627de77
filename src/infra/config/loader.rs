//! The configuration that the application is started with, read from
//! named settings (the process environment, in the application).

use crate::common::error::CommonError;
use crate::domain::extract::config::ExtractConfig;
use crate::domain::fetch::config::{
    FetchConfig, DEFAULT_MAX_CONTENT_SIZE, DEFAULT_STREAM_BUFFER_SIZE, DEFAULT_STREAMING_THRESHOLD,
};
use crate::domain::parse::config::ParseConfig;
use crate::domain::select::config::{SelectConfig, SelectorType};
use crate::infra::parser::html::{key_position, lemma_key_position_stable};
use crate::infra::parser::tokens::pairs_view;
use vstd::prelude::*;
use vstd::string::StrSliceExecFns;

verus! {

/// Server configuration.
#[derive(Debug, Clone)]
pub struct ServerConfig {
    /// Port to listen on
    pub port: u16,
    /// Bind address
    pub bind_addr: String,
    /// Maximum concurrent connections
    pub max_connections: usize,
    /// Request timeout in seconds
    pub request_timeout_secs: u64,
}

/// Application configuration.
#[derive(Debug, Clone)]
pub struct AppConfig {
    pub server: ServerConfig,
    pub fetch: FetchConfig,
    pub parse: ParseConfig,
    pub select: SelectConfig,
    pub extract: ExtractConfig,
}

/// The value of decimal digits.
pub open spec fn digits_value(s: Seq<char>) -> int
    decreases s.len(),
{
    if s.len() == 0 {
        0
    } else {
        digits_value(s.drop_last()) * 10 + (s.last() as int - '0' as int)
    }
}

/// Whether every character is an ASCII digit.
pub open spec fn all_digits(s: Seq<char>) -> bool {
    forall|i: int| 0 <= i < s.len() ==> '0' <= #[trigger] s[i] <= '9'
}

/// The digits of an unsigned integer's text: without its leading `+`.
pub open spec fn unsigned_digits(s: Seq<char>) -> Seq<char> {
    if s.len() > 0 && s[0] == '+' {
        s.drop_first()
    } else {
        s
    }
}

/// An unsigned integer in the standard library's text form: an optional
/// `+`, then one or more ASCII digits, at most `max`.
pub open spec fn unsigned_of(s: Seq<char>, max: nat) -> Option<nat> {
    let d = unsigned_digits(s);
    if d.len() > 0 && all_digits(d) && digits_value(d) <= max {
        Some(digits_value(d) as nat)
    } else {
        None
    }
}

/// A boolean in the standard library's text form: `true` or `false`.
pub open spec fn flag_of(s: Seq<char>) -> Option<bool> {
    if s == "true"@ {
        Some(true)
    } else if s == "false"@ {
        Some(false)
    } else {
        None
    }
}

/// The value of a named setting, if it is set.
pub open spec fn setting(pairs: Seq<(Seq<char>, Seq<char>)>, key: Seq<char>) -> Option<Seq<char>> {
    let p = key_position(pairs, key, pairs.len() as int);
    if p >= 0 {
        Some(pairs[p].1)
    } else {
        None
    }
}

/// A required number: the default when unset, `None` when set but invalid.
pub open spec fn number_setting(pairs: Seq<(Seq<char>, Seq<char>)>, key: Seq<char>, default: nat, max: nat) -> Option<nat> {
    match setting(pairs, key) {
        Some(v) => unsigned_of(v, max),
        None => Some(default),
    }
}

/// A lenient number: the default when unset or invalid.
pub open spec fn lenient_number(pairs: Seq<(Seq<char>, Seq<char>)>, key: Seq<char>, default: nat, max: nat) -> nat {
    match number_setting(pairs, key, default, max) {
        Some(n) => n,
        None => default,
    }
}

/// A lenient flag: the default when unset or invalid.
pub open spec fn flag_setting(pairs: Seq<(Seq<char>, Seq<char>)>, key: Seq<char>, default: bool) -> bool {
    match setting(pairs, key) {
        Some(v) => match flag_of(v) {
            Some(b) => b,
            None => default,
        },
        None => default,
    }
}

/// A text setting with a default.
pub open spec fn text_setting(pairs: Seq<(Seq<char>, Seq<char>)>, key: Seq<char>, default: Seq<char>) -> Seq<char> {
    match setting(pairs, key) {
        Some(v) => v,
        None => default,
    }
}

/// Whether text `a` equals the lower-case text `lower` but for ASCII case.
pub open spec fn ascii_ci_eq(a: Seq<char>, lower: Seq<char>) -> bool {
    a.len() == lower.len() && forall|i: int| 0 <= i < a.len() ==> #[trigger] char_ci_eq(a[i], lower[i])
}

/// Whether `c` is the lower-case character `lower` in either ASCII case.
pub open spec fn char_ci_eq(c: char, lower: char) -> bool {
    c == lower || ('A' <= c <= 'Z' && c as u32 + 32 == lower as u32)
}

proof fn lemma_digits_push(s: Seq<char>, c: char)
    ensures
        digits_value(s.push(c)) == digits_value(s) * 10 + (c as int - '0' as int),
{
    assert(s.push(c).drop_last() =~= s);
}

proof fn lemma_digits_nonneg(s: Seq<char>)
    requires
        all_digits(s),
    ensures
        digits_value(s) >= 0,
    decreases s.len(),
{
    if s.len() > 0 {
        let t = s.drop_last();
        assert(all_digits(t)) by {
            assert forall|i: int| 0 <= i < t.len() implies '0' <= #[trigger] t[i] <= '9' by {
                assert(t[i] == s[i]);
            }
        }
        lemma_digits_nonneg(t);
        assert('0' <= s.last() <= '9');
    }
}

proof fn lemma_digits_monotone(s: Seq<char>, k: int)
    requires
        all_digits(s),
        0 <= k <= s.len(),
    ensures
        digits_value(s) >= digits_value(s.subrange(0, k)),
    decreases s.len(),
{
    if k == s.len() {
        assert(s.subrange(0, k) =~= s);
    } else {
        let t = s.drop_last();
        assert(all_digits(t)) by {
            assert forall|i: int| 0 <= i < t.len() implies '0' <= #[trigger] t[i] <= '9' by {
                assert(t[i] == s[i]);
            }
        }
        lemma_digits_monotone(t, k);
        lemma_digits_nonneg(t);
        assert(t.subrange(0, k) =~= s.subrange(0, k));
        assert('0' <= s.last() <= '9');
    }
}

/// Reads an unsigned integer in the standard library's text form.
pub fn parse_unsigned(s: &str, max: u64) -> (r: Option<u64>)
    ensures
        r matches Some(n) ==> unsigned_of(s@, max as nat) == Some(n as nat) && n <= max,
        r is None ==> unsigned_of(s@, max as nat) is None,
{
    let len = s.unicode_len();
    let mut i: usize = 0;
    if len > 0 && s.get_char(0) == '+' {
        i = 1;
    }
    let start = i;
    let ghost d = unsigned_digits(s@);
    proof {
        assert(d =~= s@.subrange(start as int, s@.len() as int));
    }
    if i == len {
        return None;
    }
    let mut value: u64 = 0;
    proof {
        assert(s@.subrange(start as int, start as int) =~= Seq::<char>::empty());
    }
    while i < len
        invariant
            len == s@.len(),
            start <= i <= len,
            d =~= s@.subrange(start as int, len as int),
            d == unsigned_digits(s@),
            all_digits(s@.subrange(start as int, i as int)),
            value as int == digits_value(s@.subrange(start as int, i as int)),
            value <= max,
        decreases len - i,
    {
        let c = s.get_char(i);
        if c < '0' || c > '9' {
            proof {
                assert(d[i - start] == c);
                assert(!all_digits(d));
            }
            return None;
        }
        let digit = (c as u32 - '0' as u32) as u64;
        proof {
            assert(s@.subrange(start as int, i + 1) =~= s@.subrange(start as int, i as int).push(c));
            lemma_digits_push(s@.subrange(start as int, i as int), c);
        }
        proof {
            if value <= max / 10 {
                assert(value * 10 <= max) by (nonlinear_arith)
                    requires value <= max / 10;
            }
        }
        if value > max / 10 || digit > max - value * 10 {
            proof {
                assert(value * 10 + digit > max) by (nonlinear_arith)
                    requires value > max / 10 || (value * 10 <= max && digit > max - value * 10);
                let p = s@.subrange(start as int, i + 1);
                assert(p =~= d.subrange(0, (i - start) + 1));
                assert(digits_value(p) > max);
                if all_digits(d) {
                    lemma_digits_monotone(d, (i - start) + 1);
                    assert(digits_value(d) > max);
                }
            }
            return None;
        }
        value = value * 10 + digit;
        i += 1;
    }
    proof {
        assert(s@.subrange(start as int, len as int) =~= d);
    }
    Some(value)
}

/// Reads `true` or `false`.
pub fn parse_flag(s: &str) -> (r: Option<bool>)
    ensures
        r == flag_of(s@),
{
    let t = s.to_string();
    if t == "true".to_string() {
        Some(true)
    } else if t == "false".to_string() {
        Some(false)
    } else {
        None
    }
}

/// The first value set under `key`.
fn lookup_setting(pairs: &Vec<(String, String)>, key: &str) -> (r: Option<String>)
    ensures
        match r {
            Some(v) => setting(pairs_view(pairs@), key@) == Some(v@),
            None => setting(pairs_view(pairs@), key@) is None,
        },
{
    let ghost m = pairs_view(pairs@);
    let k = key.to_string();
    let mut i: usize = 0;
    while i < pairs.len()
        invariant
            i <= pairs@.len(),
            m == pairs_view(pairs@),
            k@ == key@,
            key_position(m, key@, i as int) == -1,
        decreases pairs@.len() - i,
    {
        proof {
            assert(m[i as int] == (pairs@[i as int].0@, pairs@[i as int].1@));
        }
        if pairs[i].0 == k {
            proof {
                assert(key_position(m, key@, i + 1) == i as int);
                lemma_key_position_stable(m, key@, i + 1, m.len() as int);
            }
            return Some(pairs[i].1.clone());
        }
        i += 1;
    }
    None
}

/// A required number setting.
fn number_or(pairs: &Vec<(String, String)>, key: &str, default: u64, max: u64) -> (r: Option<u64>)
    requires
        default <= max,
    ensures
        match r {
            Some(n) => number_setting(pairs_view(pairs@), key@, default as nat, max as nat) == Some(n as nat),
            None => number_setting(pairs_view(pairs@), key@, default as nat, max as nat) is None,
        },
        r matches Some(n) ==> n <= max,
{
    match lookup_setting(pairs, key) {
        Some(v) => parse_unsigned(v.as_str(), max),
        None => Some(default),
    }
}

/// A lenient number setting.
fn lenient_or(pairs: &Vec<(String, String)>, key: &str, default: u64, max: u64) -> (r: u64)
    requires
        default <= max,
    ensures
        r as nat == lenient_number(pairs_view(pairs@), key@, default as nat, max as nat),
        r <= max,
{
    match number_or(pairs, key, default, max) {
        Some(n) => n,
        None => default,
    }
}

/// A lenient flag setting.
fn flag_or(pairs: &Vec<(String, String)>, key: &str, default: bool) -> (r: bool)
    ensures
        r == flag_setting(pairs_view(pairs@), key@, default),
{
    match lookup_setting(pairs, key) {
        Some(v) => match parse_flag(v.as_str()) {
            Some(b) => b,
            None => default,
        },
        None => default,
    }
}

/// A text setting with a default.
fn text_or(pairs: &Vec<(String, String)>, key: &str, default: &str) -> (r: String)
    ensures
        r@ == text_setting(pairs_view(pairs@), key@, default@),
{
    match lookup_setting(pairs, key) {
        Some(v) => v,
        None => default.to_string(),
    }
}

/// Whether a text is `xpath` in any ASCII case.
fn is_xpath(s: &str) -> (r: bool)
    ensures
        r == ascii_ci_eq(s@, "xpath"@),
{
    let target = "xpath";
    proof {
        reveal_strlit("xpath");
    }
    let n = s.unicode_len();
    if n != 5 {
        return false;
    }
    let mut i: usize = 0;
    while i < 5
        invariant
            n == s@.len() == 5,
            target@ == "xpath"@,
            target@.len() == 5,
            i <= 5,
            forall|j: int| 0 <= j < i ==> #[trigger] char_ci_eq(s@[j], target@[j]),
        decreases 5 - i,
    {
        let c = s.get_char(i);
        let t = target.get_char(i);
        let same = c == t || ('A' <= c && c <= 'Z' && (c as u32) + 32 == t as u32);
        if !same {
            proof {
                assert(!char_ci_eq(s@[i as int], target@[i as int]));
            }
            return false;
        }
        i += 1;
    }
    true
}

/// Seconds as milliseconds, saturating.
pub open spec fn secs_to_ms(n: nat) -> u64 {
    if n * 1000 > u64::MAX {
        u64::MAX
    } else {
        (n * 1000) as u64
    }
}

fn to_ms(secs: u64) -> (r: u64)
    ensures
        r == secs_to_ms(secs as nat),
{
    if secs > u64::MAX / 1000 {
        u64::MAX
    } else {
        secs * 1000
    }
}

impl AppConfig {
    /// Builds the configuration from named settings, with a default for
    /// every unset one. The port, connection limit and the two request
    /// timeouts must be valid numbers when set (`ConfigError` otherwise);
    /// other invalid values fall back to their defaults.
    pub fn from_settings(pairs: &Vec<(String, String)>) -> (r: Result<AppConfig, CommonError>)
        ensures
            ({
                let p = pairs_view(pairs@);
                &&& r is Ok <==> {
                    &&& number_setting(p, "SCAPI_PORT"@, 3000, 65535) is Some
                    &&& number_setting(p, "SCAPI_MAX_CONCURRENT_REQUESTS"@, 1000, usize::MAX as nat) is Some
                    &&& number_setting(p, "SCAPI_REQUEST_TIMEOUT_SECS"@, 30, u64::MAX as nat) is Some
                    &&& number_setting(p, "SCAPI_FETCH_TIMEOUT_SECS"@, 30, u64::MAX as nat) is Some
                }
                &&& r matches Err(e) ==> e is ConfigError
                &&& r matches Ok(c) ==> {
                    &&& Some(c.server.port as nat) == number_setting(p, "SCAPI_PORT"@, 3000, 65535)
                    &&& c.server.bind_addr@ == text_setting(p, "SCAPI_BIND_ADDR"@, "0.0.0.0"@)
                    &&& Some(c.server.max_connections as nat) == number_setting(p, "SCAPI_MAX_CONCURRENT_REQUESTS"@, 1000, usize::MAX as nat)
                    &&& Some(c.server.request_timeout_secs as nat) == number_setting(p, "SCAPI_REQUEST_TIMEOUT_SECS"@, 30, u64::MAX as nat)
                    &&& c.fetch.timeout_ms == secs_to_ms(number_setting(p, "SCAPI_FETCH_TIMEOUT_SECS"@, 30, u64::MAX as nat)->Some_0)
                    &&& c.fetch.user_agent@ == text_setting(p, "SCAPI_FETCH_USER_AGENT"@, "SCAPI/1.0"@)
                    &&& c.fetch.follow_redirects == flag_setting(p, "SCAPI_FETCH_FOLLOW_REDIRECTS"@, true)
                    &&& c.fetch.max_redirects as nat == lenient_number(p, "SCAPI_FETCH_MAX_REDIRECTS"@, 5, usize::MAX as nat)
                    &&& c.fetch.verify_tls == flag_setting(p, "SCAPI_FETCH_VERIFY_TLS"@, true)
                    &&& c.fetch.connect_timeout_ms == secs_to_ms(lenient_number(p, "SCAPI_FETCH_CONNECT_TIMEOUT_SECS"@, 10, u64::MAX as nat))
                    &&& c.fetch.read_timeout_ms == secs_to_ms(lenient_number(p, "SCAPI_FETCH_READ_TIMEOUT_SECS"@, 30, u64::MAX as nat))
                    &&& c.fetch.max_content_size == DEFAULT_MAX_CONTENT_SIZE
                    &&& c.fetch.streaming_threshold == DEFAULT_STREAMING_THRESHOLD
                    &&& c.fetch.stream_buffer_size == DEFAULT_STREAM_BUFFER_SIZE
                    &&& c.parse.detect_encoding == flag_setting(p, "SCAPI_PARSE_DETECT_ENCODING"@, true)
                    &&& c.parse.handle_malformed == flag_setting(p, "SCAPI_PARSE_HANDLE_MALFORMED"@, true)
                    &&& c.parse.max_size_bytes as nat == lenient_number(p, "SCAPI_PARSE_MAX_SIZE_BYTES"@, 104857600, usize::MAX as nat)
                    &&& c.parse.extract_attributes == flag_setting(p, "SCAPI_PARSE_EXTRACT_ATTRIBUTES"@, true)
                    &&& c.parse.include_hierarchy == flag_setting(p, "SCAPI_PARSE_INCLUDE_HIERARCHY"@, false)
                    &&& c.select.text_only == flag_setting(p, "SCAPI_SELECT_TEXT_ONLY"@, false)
                    &&& c.select.first_only == flag_setting(p, "SCAPI_SELECT_FIRST_ONLY"@, false)
                    &&& c.select.max_results as nat == lenient_number(p, "SCAPI_SELECT_MAX_RESULTS"@, 10000, usize::MAX as nat)
                    &&& c.select.selector_type == if ascii_ci_eq(text_setting(p, "SCAPI_SELECTOR_TYPE"@, "css"@), "xpath"@) {
                        SelectorType::XPath
                    } else {
                        SelectorType::Css
                    }
                    &&& c.select.include_attributes == flag_setting(p, "SCAPI_SELECT_INCLUDE_ATTRIBUTES"@, true)
                    &&& c.select.include_html == flag_setting(p, "SCAPI_SELECT_INCLUDE_HTML"@, false)
                    &&& c.extract.trim_whitespace == flag_setting(p, "SCAPI_EXTRACT_TRIM_WHITESPACE"@, true)
                    &&& c.extract.decode_html_entities == flag_setting(p, "SCAPI_EXTRACT_DECODE_HTML_ENTITIES"@, true)
                    &&& c.extract.max_fields as nat == lenient_number(p, "SCAPI_EXTRACT_MAX_FIELDS"@, 100, usize::MAX as nat)
                    &&& c.extract.validate_types == flag_setting(p, "SCAPI_EXTRACT_VALIDATE_TYPES"@, true)
                    &&& match c.extract.default_value {
                        Some(v) => setting(p, "SCAPI_EXTRACT_DEFAULT_VALUE"@) == Some(v@),
                        None => setting(p, "SCAPI_EXTRACT_DEFAULT_VALUE"@) is None,
                    }
                    &&& c.extract.strict_mode == flag_setting(p, "SCAPI_EXTRACT_STRICT_MODE"@, false)
                }
            }),
    {
        let port = match number_or(pairs, "SCAPI_PORT", 3000, 65535) {
            Some(n) => n as u16,
            None => return Err(CommonError::config("Invalid SCAPI_PORT".to_string())),
        };
        let max_connections = match number_or(pairs, "SCAPI_MAX_CONCURRENT_REQUESTS", 1000, usize::MAX as u64) {
            Some(n) => n as usize,
            None => return Err(CommonError::config("Invalid SCAPI_MAX_CONCURRENT_REQUESTS".to_string())),
        };
        let request_timeout_secs = match number_or(pairs, "SCAPI_REQUEST_TIMEOUT_SECS", 30, u64::MAX) {
            Some(n) => n,
            None => return Err(CommonError::config("Invalid SCAPI_REQUEST_TIMEOUT_SECS".to_string())),
        };
        let fetch_timeout_secs = match number_or(pairs, "SCAPI_FETCH_TIMEOUT_SECS", 30, u64::MAX) {
            Some(n) => n,
            None => return Err(CommonError::config("Invalid SCAPI_FETCH_TIMEOUT_SECS".to_string())),
        };
        let server = ServerConfig {
            port,
            bind_addr: text_or(pairs, "SCAPI_BIND_ADDR", "0.0.0.0"),
            max_connections,
            request_timeout_secs,
        };
        let fetch = FetchConfig {
            timeout_ms: to_ms(fetch_timeout_secs),
            user_agent: text_or(pairs, "SCAPI_FETCH_USER_AGENT", "SCAPI/1.0"),
            follow_redirects: flag_or(pairs, "SCAPI_FETCH_FOLLOW_REDIRECTS", true),
            max_redirects: lenient_or(pairs, "SCAPI_FETCH_MAX_REDIRECTS", 5, usize::MAX as u64) as usize,
            verify_tls: flag_or(pairs, "SCAPI_FETCH_VERIFY_TLS", true),
            connect_timeout_ms: to_ms(lenient_or(pairs, "SCAPI_FETCH_CONNECT_TIMEOUT_SECS", 10, u64::MAX)),
            read_timeout_ms: to_ms(lenient_or(pairs, "SCAPI_FETCH_READ_TIMEOUT_SECS", 30, u64::MAX)),
            max_content_size: DEFAULT_MAX_CONTENT_SIZE,
            streaming_threshold: DEFAULT_STREAMING_THRESHOLD,
            stream_buffer_size: DEFAULT_STREAM_BUFFER_SIZE,
        };
        let parse = ParseConfig {
            detect_encoding: flag_or(pairs, "SCAPI_PARSE_DETECT_ENCODING", true),
            handle_malformed: flag_or(pairs, "SCAPI_PARSE_HANDLE_MALFORMED", true),
            max_size_bytes: lenient_or(pairs, "SCAPI_PARSE_MAX_SIZE_BYTES", 104857600, usize::MAX as u64) as usize,
            extract_attributes: flag_or(pairs, "SCAPI_PARSE_EXTRACT_ATTRIBUTES", true),
            include_hierarchy: flag_or(pairs, "SCAPI_PARSE_INCLUDE_HIERARCHY", false),
        };
        let selector_text = text_or(pairs, "SCAPI_SELECTOR_TYPE", "css");
        let select = SelectConfig {
            text_only: flag_or(pairs, "SCAPI_SELECT_TEXT_ONLY", false),
            first_only: flag_or(pairs, "SCAPI_SELECT_FIRST_ONLY", false),
            max_results: lenient_or(pairs, "SCAPI_SELECT_MAX_RESULTS", 10000, usize::MAX as u64) as usize,
            selector_type: if is_xpath(selector_text.as_str()) {
                SelectorType::XPath
            } else {
                SelectorType::Css
            },
            include_attributes: flag_or(pairs, "SCAPI_SELECT_INCLUDE_ATTRIBUTES", true),
            include_html: flag_or(pairs, "SCAPI_SELECT_INCLUDE_HTML", false),
        };
        let extract = ExtractConfig {
            trim_whitespace: flag_or(pairs, "SCAPI_EXTRACT_TRIM_WHITESPACE", true),
            decode_html_entities: flag_or(pairs, "SCAPI_EXTRACT_DECODE_HTML_ENTITIES", true),
            max_fields: lenient_or(pairs, "SCAPI_EXTRACT_MAX_FIELDS", 100, usize::MAX as u64) as usize,
            validate_types: flag_or(pairs, "SCAPI_EXTRACT_VALIDATE_TYPES", true),
            default_value: lookup_setting(pairs, "SCAPI_EXTRACT_DEFAULT_VALUE"),
            strict_mode: flag_or(pairs, "SCAPI_EXTRACT_STRICT_MODE", false),
        };
        Ok(AppConfig { server, fetch, parse, select, extract })
    }
}

} // verus!
