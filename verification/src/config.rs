use crate::addr::{socket_addr_of, SocketAddress};
use crate::expiration::{parse_outcome, ExpirationOutcome, ExpirationSet};
use crate::numbers::{dec_number_val, is_dec_number};
use crate::theme::{theme_of, Theme};
use crate::urls::{hostname_lookup, url_parse_of, url_serialization};
use crate::{
    default_addr, default_expiration_input, default_salt, default_title, expiration_error_matches,
    DatabaseLocation, Error, RawInput, DEFAULT_CACHE_SIZE, DEFAULT_HTTP_TIMEOUT_SECS,
    DEFAULT_MAX_BODY_SIZE,
};
use vstd::prelude::*;

verus! {

/// The external inputs the resolver set reads, one per setting, as the
/// environment hands them over. The signing key input is not here: its
/// absent path draws fresh randomness and is resolved apart.
pub struct Inputs {
    pub title: Option<String>,
    pub theme: Option<String>,
    pub cache_size: Option<String>,
    pub database_path: RawInput,
    pub addr: Option<String>,
    pub max_body_size: Option<String>,
    pub base_url: RawInput,
    pub password_hash_salt: Option<String>,
    pub http_timeout: Option<String>,
    pub expirations: Option<String>,
}

/// The local machine's identity as the host-identity lookup reported it; a
/// failure carries the lookup's diagnostic.
pub enum HostIdentity {
    Known(String),
    Unknown(String),
}

/// A fully resolved configuration snapshot, constructed once at startup and
/// immutable afterwards.
pub struct Config {
    pub title: String,
    pub theme: Theme,
    pub cache_size: usize,
    pub database: DatabaseLocation,
    pub addr: SocketAddress,
    pub max_body_size: usize,
    pub base_url: url::Url,
    pub password_hash_salt: String,
    pub http_timeout_secs: u64,
    pub expirations: ExpirationSet,
}

/// The text the expiration resolver reads for these inputs.
pub open spec fn expiration_text(o: Option<String>) -> Seq<char> {
    match o {
        Some(s) => s@,
        None => default_expiration_input(),
    }
}

/// Whether every setting of `c` is the one the inputs and the host identity
/// determine.
pub open spec fn config_matches(c: Config, i: Inputs, host: HostIdentity) -> bool {
    &&& (match i.title {
        Some(s) => c.title@ == s@,
        None => c.title@ == default_title(),
    })
    &&& (match i.theme {
        Some(s) => theme_of(s@) == Some(c.theme),
        None => c.theme == Theme::Ayu,
    })
    &&& (match i.cache_size {
        Some(s) => is_dec_number(s@) && dec_number_val(s@) == c.cache_size,
        None => c.cache_size == DEFAULT_CACHE_SIZE,
    })
    &&& c.cache_size >= 1
    &&& (match i.database_path {
        RawInput::Text(s) => (c.database matches DatabaseLocation::Path(p) && p@ == s@),
        RawInput::Absent => c.database is Memory,
        RawInput::NotText => false,
    })
    &&& (match i.addr {
        Some(s) => socket_addr_of(s@) == Some(c.addr),
        None => c.addr == default_addr(),
    })
    &&& (match i.max_body_size {
        Some(s) => is_dec_number(s@) && dec_number_val(s@) == c.max_body_size,
        None => c.max_body_size == DEFAULT_MAX_BODY_SIZE,
    })
    &&& (match i.base_url {
        RawInput::Text(s) => url_parse_of(s@) == Some(url_serialization(c.base_url)),
        RawInput::Absent => (host matches HostIdentity::Known(h) && url_parse_of(
            "https://"@ + h@,
        ) == Some(url_serialization(c.base_url))),
        RawInput::NotText => false,
    })
    &&& (match i.password_hash_salt {
        Some(s) => c.password_hash_salt@ == s@,
        None => c.password_hash_salt@ == default_salt(),
    })
    &&& (match i.http_timeout {
        Some(s) => is_dec_number(s@) && dec_number_val(s@) == c.http_timeout_secs,
        None => c.http_timeout_secs == DEFAULT_HTTP_TIMEOUT_SECS,
    })
    &&& (parse_outcome(expiration_text(i.expirations)) matches ExpirationOutcome::Parsed {
        values,
        default_index,
    } && c.expirations.values@ == values && c.expirations.default_index == default_index)
}

/// Whether the theme input is acceptable.
pub open spec fn theme_input_ok(i: Inputs) -> bool {
    i.theme matches Some(s) ==> theme_of(s@) is Some
}

/// Whether the cache capacity input is acceptable.
pub open spec fn cache_input_ok(i: Inputs) -> bool {
    i.cache_size matches Some(s) ==> (is_dec_number(s@) && 1 <= dec_number_val(s@) <= usize::MAX)
}

/// Whether the database path input is acceptable.
pub open spec fn database_input_ok(i: Inputs) -> bool {
    i.database_path !is NotText
}

/// Whether the bind address input is acceptable.
pub open spec fn addr_input_ok(i: Inputs) -> bool {
    i.addr matches Some(s) ==> socket_addr_of(s@) is Some
}

/// Whether the body ceiling input is acceptable.
pub open spec fn body_input_ok(i: Inputs) -> bool {
    i.max_body_size matches Some(s) ==> (is_dec_number(s@) && dec_number_val(s@) <= usize::MAX)
}

/// Whether the base URL resolves from these inputs and this host identity.
pub open spec fn base_url_input_ok(i: Inputs, host: HostIdentity) -> bool {
    match i.base_url {
        RawInput::Text(s) => url_parse_of(s@) is Some,
        RawInput::Absent => (host matches HostIdentity::Known(h) && url_parse_of(
            "https://"@ + h@,
        ) is Some),
        RawInput::NotText => false,
    }
}

/// Whether the HTTP timeout input is acceptable.
pub open spec fn timeout_input_ok(i: Inputs) -> bool {
    i.http_timeout matches Some(s) ==> (is_dec_number(s@) && dec_number_val(s@) <= u64::MAX)
}

/// Whether the expiration list input is acceptable.
pub open spec fn expirations_input_ok(i: Inputs) -> bool {
    parse_outcome(expiration_text(i.expirations)) is Parsed
}

/// Whether resolution succeeds on these inputs and this host identity.
pub open spec fn inputs_ok(i: Inputs, host: HostIdentity) -> bool {
    &&& theme_input_ok(i)
    &&& cache_input_ok(i)
    &&& database_input_ok(i)
    &&& addr_input_ok(i)
    &&& body_input_ok(i)
    &&& base_url_input_ok(i, host)
    &&& timeout_input_ok(i)
    &&& expirations_input_ok(i)
}

/// Whether every input read before the base URL is acceptable; the first
/// failing resolver, in resolution order, decides which error surfaces.
pub open spec fn pre_base_url_ok(i: Inputs) -> bool {
    theme_input_ok(i) && cache_input_ok(i) && database_input_ok(i) && addr_input_ok(i)
        && body_input_ok(i)
}

fn opt_str(o: &Option<String>) -> (r: Option<&str>)
    ensures
        o matches Some(s) ==> (r matches Some(t) && t@ == s@),
        o is None ==> r is None,
{
    match o {
        Some(s) => Some(s.as_str()),
        None => None,
    }
}

/// Resolves the whole configuration snapshot. It succeeds exactly when every
/// input is acceptable, and then every setting is the one the inputs
/// determine; a failure surfaces the first resolver's error and nothing runs
/// on a partial configuration.
pub fn resolve_config(inputs: &Inputs, host: &HostIdentity) -> (r: Result<Config, Error>)
    ensures
        r is Ok <==> inputs_ok(*inputs, *host),
        r matches Ok(c) ==> config_matches(c, *inputs, *host),
        !theme_input_ok(*inputs) ==> (inputs.theme matches Some(s) && r matches Err(
            Error::UnknownTheme(u),
        ) && u@ == s@),
        theme_input_ok(*inputs) && !cache_input_ok(*inputs) ==> (inputs.cache_size matches Some(s)
            && r matches Err(Error::CacheSize(c)) && c@ == s@),
        theme_input_ok(*inputs) && cache_input_ok(*inputs) && !database_input_ok(*inputs)
            ==> r matches Err(Error::DatabasePath),
        theme_input_ok(*inputs) && cache_input_ok(*inputs) && database_input_ok(*inputs)
            && !addr_input_ok(*inputs) ==> r matches Err(Error::AddressPort),
        theme_input_ok(*inputs) && cache_input_ok(*inputs) && database_input_ok(*inputs)
            && addr_input_ok(*inputs) && !body_input_ok(*inputs) ==> (
        inputs.max_body_size matches Some(s) && r matches Err(Error::MaxBodySize(m)) && m@ == s@),
        pre_base_url_ok(*inputs) && inputs.base_url is NotText ==> r matches Err(
            Error::BaseUrlNotUnicode,
        ),
        pre_base_url_ok(*inputs) && inputs.base_url is Absent ==> (host
            matches HostIdentity::Unknown(d) ==> (r matches Err(Error::Hostname(m)) && m@ == d@)),
        pre_base_url_ok(*inputs) && !base_url_input_ok(*inputs, *host) && inputs.base_url !is NotText
            && !(inputs.base_url is Absent && *host is Unknown) ==> r matches Err(
            Error::BaseUrl(_),
        ),
        pre_base_url_ok(*inputs) && base_url_input_ok(*inputs, *host) && !timeout_input_ok(*inputs)
            ==> (inputs.http_timeout matches Some(s) && r matches Err(Error::HttpTimeout(t)) && t@
            == s@),
        pre_base_url_ok(*inputs) && base_url_input_ok(*inputs, *host) && timeout_input_ok(*inputs)
            && !expirations_input_ok(*inputs) ==> (r matches Err(Error::PasteExpiration(x))
            && expiration_error_matches(x, parse_outcome(expiration_text(inputs.expirations)))),
{
    let title_v = crate::title(opt_str(&inputs.title));
    let theme_v = match crate::theme(opt_str(&inputs.theme)) {
        Ok(v) => v,
        Err(e) => {
            return Err(e);
        },
    };
    let cache_v = match crate::cache_size(opt_str(&inputs.cache_size)) {
        Ok(v) => v,
        Err(e) => {
            return Err(e);
        },
    };
    let db_v = match crate::database_method(&inputs.database_path) {
        Ok(v) => v,
        Err(e) => {
            return Err(e);
        },
    };
    let addr_v = match crate::addr(opt_str(&inputs.addr)) {
        Ok(v) => v,
        Err(e) => {
            return Err(e);
        },
    };
    let body_v = match crate::max_body_size(opt_str(&inputs.max_body_size)) {
        Ok(v) => v,
        Err(e) => {
            return Err(e);
        },
    };
    let url_v = match &inputs.base_url {
        RawInput::NotText => {
            return Err(Error::BaseUrlNotUnicode);
        },
        RawInput::Text(_) => match crate::base_url(&inputs.base_url) {
            Ok(u) => u,
            Err(e) => {
                return Err(e);
            },
        },
        RawInput::Absent => match host {
            HostIdentity::Known(h) => match crate::base_url_from_host(h.as_str()) {
                Ok(u) => u,
                Err(e) => {
                    return Err(e);
                },
            },
            HostIdentity::Unknown(d) => {
                return Err(Error::Hostname(d.clone()));
            },
        },
    };
    let salt_v = crate::password_hash_salt(opt_str(&inputs.password_hash_salt));
    let timeout_v = match crate::http_timeout(opt_str(&inputs.http_timeout)) {
        Ok(v) => v,
        Err(e) => {
            return Err(e);
        },
    };
    let exp_v = match crate::expiration_set(opt_str(&inputs.expirations)) {
        Ok(v) => v,
        Err(e) => {
            return Err(e);
        },
    };
    Ok(
        Config {
            title: title_v,
            theme: theme_v,
            cache_size: cache_v,
            database: db_v,
            addr: addr_v,
            max_body_size: body_v,
            base_url: url_v,
            password_hash_salt: salt_v,
            http_timeout_secs: timeout_v,
            expirations: exp_v,
        },
    )
}

/// Performs the host-identity lookup, for the base URL's absent-input path.
pub fn lookup_host_identity() -> (r: HostIdentity) {
    match hostname_lookup() {
        Ok(h) => HostIdentity::Known(h),
        Err(d) => HostIdentity::Unknown(d),
    }
}

/// Resolution is deterministic: two configuration snapshots resolved from
/// the same external inputs and the same host identity agree on every
/// setting. Only the signing key, whose absent path intentionally draws
/// fresh randomness, stands outside this statement.
pub proof fn lemma_resolution_deterministic(c1: Config, c2: Config, i: Inputs, host: HostIdentity)
    requires
        config_matches(c1, i, host),
        config_matches(c2, i, host),
    ensures
        c1.title@ == c2.title@,
        c1.theme == c2.theme,
        c1.cache_size == c2.cache_size,
        c1.database is Memory <==> c2.database is Memory,
        (c1.database is Path && c2.database is Path) ==> c1.database->Path_0@
            == c2.database->Path_0@,
        c1.addr == c2.addr,
        c1.max_body_size == c2.max_body_size,
        url_serialization(c1.base_url) == url_serialization(c2.base_url),
        c1.password_hash_salt@ == c2.password_hash_salt@,
        c1.http_timeout_secs == c2.http_timeout_secs,
        c1.expirations.values@ == c2.expirations.values@,
        c1.expirations.default_index == c2.expirations.default_index,
{
}

} // verus!
