use wastebin_config::config::{resolve_config, Config, HostIdentity, Inputs};
use wastebin_config::theme::Theme;
use wastebin_config::{DatabaseLocation, Error, RawInput};

fn empty_inputs() -> Inputs {
    Inputs {
        title: None,
        theme: None,
        cache_size: None,
        database_path: RawInput::Absent,
        addr: None,
        max_body_size: None,
        base_url: RawInput::Absent,
        password_hash_salt: None,
        http_timeout: None,
        expirations: None,
    }
}

fn sample_inputs() -> Inputs {
    Inputs {
        title: Some("pastes".to_string()),
        theme: Some("monokai".to_string()),
        cache_size: Some("64".to_string()),
        database_path: RawInput::Text("/tmp/state.db".to_string()),
        addr: Some("10.0.0.2:9000".to_string()),
        max_body_size: Some("4096".to_string()),
        base_url: RawInput::Text("https://paste.example.org".to_string()),
        password_hash_salt: Some("grain".to_string()),
        http_timeout: Some("9".to_string()),
        expirations: Some("0,60=d,600".to_string()),
    }
}

fn assert_same(a: &Config, b: &Config) {
    assert_eq!(a.title, b.title);
    assert_eq!(a.theme, b.theme);
    assert_eq!(a.cache_size, b.cache_size);
    assert_eq!(a.database, b.database);
    assert_eq!(a.addr, b.addr);
    assert_eq!(a.max_body_size, b.max_body_size);
    assert_eq!(a.base_url, b.base_url);
    assert_eq!(a.password_hash_salt, b.password_hash_salt);
    assert_eq!(a.http_timeout_secs, b.http_timeout_secs);
    assert_eq!(a.expirations, b.expirations);
}

#[test]
fn full_set_resolves_and_is_deterministic() {
    let host = HostIdentity::Known("host1".to_string());
    let c1 = resolve_config(&sample_inputs(), &host).unwrap();
    let c2 = resolve_config(&sample_inputs(), &host).unwrap();
    assert_same(&c1, &c2);
    assert_eq!(c1.title, "pastes");
    assert_eq!(c1.theme, Theme::Monokai);
    assert_eq!(c1.cache_size, 64);
    assert_eq!(
        c1.database,
        DatabaseLocation::Path("/tmp/state.db".to_string())
    );
    assert_eq!(c1.addr.port, 9000);
    assert_eq!(c1.max_body_size, 4096);
    assert_eq!(c1.base_url.as_str(), "https://paste.example.org/");
    assert_eq!(c1.password_hash_salt, "grain");
    assert_eq!(c1.http_timeout_secs, 9);
    assert_eq!(c1.expirations.values, vec![0, 60, 600]);
    assert_eq!(c1.expirations.default_index, 1);
}

#[test]
fn empty_set_resolves_from_defaults_and_host() {
    let host = HostIdentity::Known("host1".to_string());
    let c1 = resolve_config(&empty_inputs(), &host).unwrap();
    let c2 = resolve_config(&empty_inputs(), &host).unwrap();
    assert_same(&c1, &c2);
    assert_eq!(c1.title, "wastebin");
    assert_eq!(c1.theme, Theme::Ayu);
    assert_eq!(c1.cache_size, 128);
    assert_eq!(c1.database, DatabaseLocation::Memory);
    assert_eq!(c1.addr.port, 8088);
    assert_eq!(c1.base_url, url::Url::parse("https://host1").unwrap());
    assert_eq!(c1.http_timeout_secs, 5);
    assert_eq!(c1.expirations.default_index, 2);
}

#[test]
fn failed_host_lookup_is_fatal_when_base_url_absent() {
    let host = HostIdentity::Unknown("no name".to_string());
    match resolve_config(&empty_inputs(), &host) {
        Err(e) => assert_eq!(e, Error::Hostname("no name".to_string())),
        Ok(_) => panic!("resolution succeeded without a host identity"),
    }
}

#[test]
fn present_base_url_ignores_host_identity() {
    let host = HostIdentity::Unknown("no name".to_string());
    let mut inputs = empty_inputs();
    inputs.base_url = RawInput::Text("https://example.com".to_string());
    let c = resolve_config(&inputs, &host).unwrap();
    assert_eq!(c.base_url.as_str(), "https://example.com/");
}

#[test]
fn one_bad_input_fails_the_whole_resolution() {
    let host = HostIdentity::Known("host1".to_string());
    let mut inputs = sample_inputs();
    inputs.theme = Some("sepia".to_string());
    match resolve_config(&inputs, &host) {
        Err(e) => assert_eq!(e, Error::UnknownTheme("sepia".to_string())),
        Ok(_) => panic!("resolution succeeded on an unknown theme"),
    }
}

#[test]
fn first_failing_resolver_decides_the_error() {
    let host = HostIdentity::Known("host1".to_string());
    let mut inputs = sample_inputs();
    inputs.cache_size = Some("zero".to_string());
    inputs.http_timeout = Some("soon".to_string());
    match resolve_config(&inputs, &host) {
        Err(e) => assert_eq!(e, Error::CacheSize("zero".to_string())),
        Ok(_) => panic!("resolution succeeded on bad inputs"),
    }
}

#[test]
fn v6_bind_address_resolves_in_the_full_set() {
    let host = HostIdentity::Known("host1".to_string());
    let mut inputs = empty_inputs();
    inputs.addr = Some("[::1]:9000".to_string());
    let c = resolve_config(&inputs, &host).unwrap();
    assert_eq!(c.addr.port, 9000);
}
