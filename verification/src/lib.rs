//! Startup configuration resolution for a paste-hosting service.
//!
//! Each setting is resolved by a pure function from an optional external
//! string input to a typed value or a typed error: scalar settings with
//! documented defaults, a closed theme enumeration, a storage location, a
//! cookie-signing key, a base URL with a host-identity fallback, and a
//! ranked list of expiration durations under a small grammar. Resolution
//! happens once, before the service accepts connections; any failure is
//! surfaced as a diagnosable error and nothing runs on a partial
//! configuration.

pub mod addr;
pub mod chars;
pub mod config;
pub mod expiration;
pub mod key;
pub mod numbers;
pub mod split;
pub mod theme;
pub mod urls;

use crate::addr::{socket_addr_of, parse_socket_addr, HostAddress, SocketAddress};
use crate::expiration::{
    parse_expiration_set, parse_outcome, ExpirationError, ExpirationOutcome, ExpirationSet,
};
use crate::key::{key_bytes, key_from_material, key_generate};
use crate::numbers::{dec_number_val, is_dec_number, parse_u64_str, parse_usize_str};
use crate::theme::{theme_from_name, theme_of, Theme};
use crate::urls::{hostname_lookup, url_parse, url_parse_of, url_serialization};
use vstd::prelude::*;
use vstd::string::StringExecFns;
use vstd::string::StringSliceAdditionalSpecFns;

verus! {

/// Cache capacity used when no explicit element count is configured.
pub const DEFAULT_CACHE_SIZE: usize = 128;

/// Request body ceiling, in bytes, used when none is configured.
pub const DEFAULT_MAX_BODY_SIZE: usize = 1024 * 1024;

/// Outbound HTTP client timeout, in seconds, used when none is configured.
pub const DEFAULT_HTTP_TIMEOUT_SECS: u64 = 5;

/// Service name shown when no page title is configured.
pub open spec fn default_title() -> Seq<char> {
    "wastebin"@
}

/// Password-hashing salt used when none is configured.
pub open spec fn default_salt() -> Seq<char> {
    "somesalt"@
}

/// Listening endpoint used when none is configured.
pub open spec fn default_addr() -> SocketAddress {
    SocketAddress {
        host: HostAddress::V4 { octet0: 0, octet1: 0, octet2: 0, octet3: 0 },
        port: 8088,
    }
}

/// The built-in expiration list offered when none is configured; it is
/// grammar-valid by construction.
pub open spec fn default_expiration_input() -> Seq<char> {
    "0,600,3600=d,86400,604800,2419200,29030400"@
}

/// An external input as the environment hands it over: missing, present but
/// not valid text, or present as text.
#[derive(Debug, PartialEq, Eq, Clone)]
pub enum RawInput {
    Absent,
    NotText,
    Text(String),
}

/// Where pastes are stored: in memory, or in a file at the given path.
#[derive(Debug, PartialEq, Eq, Clone)]
pub enum DatabaseLocation {
    Memory,
    Path(String),
}

/// One failure kind per resolver-specific failure mode; each carries what an
/// operator needs to fix the environment.
#[derive(Debug, PartialEq, Eq, Clone)]
pub enum Error {
    /// The cache capacity input is not a positive integer; carries it.
    CacheSize(String),
    /// The database path input is present but not valid text.
    DatabasePath,
    /// The body ceiling input is not a non-negative integer; carries it.
    MaxBodySize(String),
    /// The bind address input is not `host:port` with an IPv4 or a
    /// bracketed IPv6 host.
    AddressPort,
    /// The base URL input is present but not valid text.
    BaseUrlNotUnicode,
    /// The base URL input does not parse as a URL; carries the diagnostic.
    BaseUrl(String),
    /// The host-identity lookup failed; carries the diagnostic.
    Hostname(String),
    /// The signing key material is too short; carries the length supplied.
    SigningKey(usize),
    /// The HTTP timeout input is not a non-negative integer; carries it.
    HttpTimeout(String),
    /// The expiration list input breaks the expiration grammar.
    PasteExpiration(ExpirationError),
    /// The theme input names no known theme; carries it verbatim.
    UnknownTheme(String),
}

/// Resolves the page title: the input verbatim, or the default name.
pub fn title(input: Option<&str>) -> (r: String)
    ensures
        input matches Some(s) ==> r@ == s@,
        input is None ==> r@ == default_title(),
{
    match input {
        Some(s) => s.to_owned(),
        None => "wastebin".to_owned(),
    }
}

/// Resolves the password-hashing salt: the input verbatim, or the default.
pub fn password_hash_salt(input: Option<&str>) -> (r: String)
    ensures
        input matches Some(s) ==> r@ == s@,
        input is None ==> r@ == default_salt(),
{
    match input {
        Some(s) => s.to_owned(),
        None => "somesalt".to_owned(),
    }
}

/// Resolves the visual theme by exact, case-sensitive name lookup; an
/// unknown name is echoed back in the error.
pub fn theme(input: Option<&str>) -> (r: Result<Theme, Error>)
    ensures
        input is None ==> (r matches Ok(t) && t == Theme::Ayu),
        input matches Some(s) ==> match theme_of(s@) {
            Some(t) => (r matches Ok(t2) && t2 == t),
            None => (r matches Err(Error::UnknownTheme(u)) && u@ == s@),
        },
{
    match input {
        None => Ok(Theme::Ayu),
        Some(s) => match theme_from_name(s) {
            Some(t) => Ok(t),
            None => Err(Error::UnknownTheme(s.to_owned())),
        },
    }
}

/// Resolves the cache capacity: a positive element count.
pub fn cache_size(input: Option<&str>) -> (r: Result<usize, Error>)
    ensures
        input is None ==> (r matches Ok(v) && v == DEFAULT_CACHE_SIZE),
        input matches Some(s) ==> {
            &&& ((is_dec_number(s@) && 1 <= dec_number_val(s@) <= usize::MAX) ==> (r matches Ok(v)
                && v == dec_number_val(s@)))
            &&& (!(is_dec_number(s@) && 1 <= dec_number_val(s@) <= usize::MAX) ==> (r matches Err(
                Error::CacheSize(t),
            ) && t@ == s@))
        },
        r matches Ok(v) ==> v >= 1,
{
    match input {
        None => Ok(DEFAULT_CACHE_SIZE),
        Some(s) => match parse_usize_str(s) {
            Some(v) if v >= 1 => Ok(v),
            _ => Err(Error::CacheSize(s.to_owned())),
        },
    }
}

/// Resolves the request body ceiling in bytes.
pub fn max_body_size(input: Option<&str>) -> (r: Result<usize, Error>)
    ensures
        input is None ==> (r matches Ok(v) && v == DEFAULT_MAX_BODY_SIZE),
        input matches Some(s) ==> {
            &&& ((is_dec_number(s@) && dec_number_val(s@) <= usize::MAX) ==> (r matches Ok(v) && v
                == dec_number_val(s@)))
            &&& (!(is_dec_number(s@) && dec_number_val(s@) <= usize::MAX) ==> (r matches Err(
                Error::MaxBodySize(t),
            ) && t@ == s@))
        },
{
    match input {
        None => Ok(DEFAULT_MAX_BODY_SIZE),
        Some(s) => match parse_usize_str(s) {
            Some(v) => Ok(v),
            None => Err(Error::MaxBodySize(s.to_owned())),
        },
    }
}

/// Resolves the outbound HTTP client timeout, in whole seconds.
pub fn http_timeout(input: Option<&str>) -> (r: Result<u64, Error>)
    ensures
        input is None ==> (r matches Ok(v) && v == DEFAULT_HTTP_TIMEOUT_SECS),
        input matches Some(s) ==> {
            &&& ((is_dec_number(s@) && dec_number_val(s@) <= u64::MAX) ==> (r matches Ok(v) && v
                == dec_number_val(s@)))
            &&& (!(is_dec_number(s@) && dec_number_val(s@) <= u64::MAX) ==> (r matches Err(
                Error::HttpTimeout(t),
            ) && t@ == s@))
        },
{
    match input {
        None => Ok(DEFAULT_HTTP_TIMEOUT_SECS),
        Some(s) => match parse_u64_str(s) {
            Some(v) => Ok(v),
            None => Err(Error::HttpTimeout(s.to_owned())),
        },
    }
}

/// Resolves the bind address: absent selects the default endpoint, a present
/// value must be `host:port` with an IPv4 dotted-quad host or a bracketed
/// IPv6 host.
pub fn addr(input: Option<&str>) -> (r: Result<SocketAddress, Error>)
    ensures
        input is None ==> (r matches Ok(a) && a == default_addr()),
        input matches Some(s) ==> match socket_addr_of(s@) {
            Some(a) => (r matches Ok(a2) && a2 == a),
            None => r matches Err(Error::AddressPort),
        },
{
    match input {
        None => Ok(
            SocketAddress {
                host: HostAddress::V4 { octet0: 0, octet1: 0, octet2: 0, octet3: 0 },
                port: 8088,
            },
        ),
        Some(s) => match parse_socket_addr(s) {
            Some(a) => Ok(a),
            None => Err(Error::AddressPort),
        },
    }
}

/// Resolves the storage location: absent selects in-memory storage; a
/// non-text path is rejected, distinctly from absence.
pub fn database_method(input: &RawInput) -> (r: Result<DatabaseLocation, Error>)
    ensures
        input is Absent ==> (r matches Ok(d) && d is Memory),
        input is NotText ==> r matches Err(Error::DatabasePath),
        input matches RawInput::Text(s) ==> (r matches Ok(DatabaseLocation::Path(p)) && p@ == s@),
{
    match input {
        RawInput::Absent => Ok(DatabaseLocation::Memory),
        RawInput::NotText => Err(Error::DatabasePath),
        RawInput::Text(s) => Ok(DatabaseLocation::Path(s.clone())),
    }
}

/// Resolves the signing key: absent input draws a fresh full-entropy key;
/// present material must hold at least the 64 bytes the signing primitive
/// requires, and is never padded or stretched.
pub fn signing_key(input: Option<&str>) -> (r: Result<axum_extra::extract::cookie::Key, Error>)
    ensures
        input is None ==> (r matches Ok(k) && key_bytes(k).len() == 64),
        input matches Some(s) ==> {
            &&& r is Ok <==> s.spec_bytes().len() >= 64
            &&& (r matches Ok(k) ==> key_bytes(k) == s.spec_bytes().take(64))
            &&& (r matches Err(e) ==> e matches Error::SigningKey(n) && n == s.spec_bytes().len())
        },
{
    match input {
        None => Ok(key_generate()),
        Some(s) => {
            let b = s.as_bytes();
            match key_from_material(b) {
                Ok(k) => Ok(k),
                Err(_) => Err(Error::SigningKey(b.len())),
            }
        },
    }
}

/// Synthesizes the base URL from a host name under the fixed secure scheme.
pub fn base_url_from_host(host: &str) -> (r: Result<url::Url, Error>)
    ensures
        r is Ok <==> url_parse_of("https://"@ + host@) is Some,
        r matches Ok(u) ==> Some(url_serialization(u)) == url_parse_of("https://"@ + host@),
        r matches Err(e) ==> e matches Error::BaseUrl(_),
{
    let full = String::from_str("https://").concat(host);
    match url_parse(full.as_str()) {
        Ok(u) => Ok(u),
        Err(d) => Err(Error::BaseUrl(d)),
    }
}

/// Resolves the base URL: a present value must parse as an absolute URL; a
/// non-text value is rejected distinctly; an absent value falls back to the
/// local host identity under the fixed secure scheme, and a failed lookup is
/// itself fatal.
pub fn base_url(input: &RawInput) -> (r: Result<url::Url, Error>)
    ensures
        input matches RawInput::Text(s) ==> {
            &&& r is Ok <==> url_parse_of(s@) is Some
            &&& (r matches Ok(u) ==> Some(url_serialization(u)) == url_parse_of(s@))
            &&& (r matches Err(e) ==> e matches Error::BaseUrl(_))
        },
        input is NotText ==> r matches Err(Error::BaseUrlNotUnicode),
        input is Absent ==> (r matches Ok(u) ==> exists|h: Seq<char>|
            Some(url_serialization(u)) == url_parse_of("https://"@ + h)),
        input is Absent ==> (r matches Err(e) ==> (e matches Error::Hostname(_) || e matches Error::BaseUrl(_))),
{
    match input {
        RawInput::NotText => Err(Error::BaseUrlNotUnicode),
        RawInput::Text(s) => match url_parse(s.as_str()) {
            Ok(u) => Ok(u),
            Err(d) => Err(Error::BaseUrl(d)),
        },
        RawInput::Absent => match hostname_lookup() {
            Err(d) => Err(Error::Hostname(d)),
            Ok(h) => {
                let r = base_url_from_host(h.as_str());
                proof {
                    assert(r matches Ok(u) ==> Some(url_serialization(u)) == url_parse_of(
                        "https://"@ + h@,
                    ));
                }
                r
            },
        },
    }
}

/// Resolves the expiration set: the input, or the built-in list when absent,
/// read under the expiration grammar.
pub fn expiration_set(input: Option<&str>) -> (r: Result<ExpirationSet, Error>)
    ensures
        r is Ok <==> parse_outcome(expiration_source(input)) is Parsed,
        parse_outcome(expiration_source(input)) matches ExpirationOutcome::Parsed {
            values,
            default_index,
        } ==> (r matches Ok(set) && set.values@ == values && set.default_index == default_index
            && set.wf()),
        r matches Err(e) ==> (e matches Error::PasteExpiration(x) && expiration_error_matches(
            x,
            parse_outcome(expiration_source(input)),
        )),
{
    let res = match input {
        Some(s) => parse_expiration_set(s),
        None => parse_expiration_set("0,600,3600=d,86400,604800,2419200,29030400"),
    };
    match res {
        Ok(set) => Ok(set),
        Err(e) => Err(Error::PasteExpiration(e)),
    }
}

/// The text the expiration resolver reads: the input, or the built-in list.
pub open spec fn expiration_source(input: Option<&str>) -> Seq<char> {
    match input {
        Some(s) => s@,
        None => default_expiration_input(),
    }
}

/// Whether an expiration error reports the given grammar outcome.
pub open spec fn expiration_error_matches(x: ExpirationError, out: ExpirationOutcome) -> bool {
    match out {
        ExpirationOutcome::Parsed { .. } => false,
        ExpirationOutcome::BadToken { token } => x matches ExpirationError::BadToken(t) && t@
            == token,
        ExpirationOutcome::MultipleDefaults => x is MultipleDefaults,
        ExpirationOutcome::DuplicateValue { value } => x matches ExpirationError::DuplicateValue(v)
            && v == value,
    }
}

} // verus!

