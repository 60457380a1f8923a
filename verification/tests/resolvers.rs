use wastebin_config::addr::{HostAddress, SocketAddress};
use wastebin_config::theme::Theme;
use wastebin_config::{
    addr, base_url, base_url_from_host, cache_size, database_method, http_timeout, max_body_size,
    password_hash_salt, signing_key, theme, title, DatabaseLocation, Error, RawInput,
};

#[test]
fn title_absent_gives_default() {
    assert_eq!(title(None), "wastebin");
}

#[test]
fn title_present_is_verbatim() {
    assert_eq!(title(Some("my pastes")), "my pastes");
}

#[test]
fn salt_absent_gives_default() {
    assert_eq!(password_hash_salt(None), "somesalt");
}

#[test]
fn salt_present_is_verbatim() {
    assert_eq!(password_hash_salt(Some("pepper")), "pepper");
}

#[test]
fn theme_absent_gives_default() {
    assert_eq!(theme(None), Ok(Theme::Ayu));
}

#[test]
fn theme_names_round_trip() {
    assert_eq!(theme(Some("ayu")), Ok(Theme::Ayu));
    assert_eq!(theme(Some("base16ocean")), Ok(Theme::Base16Ocean));
    assert_eq!(theme(Some("coldark")), Ok(Theme::Coldark));
    assert_eq!(theme(Some("gruvbox")), Ok(Theme::Gruvbox));
    assert_eq!(theme(Some("monokai")), Ok(Theme::Monokai));
    assert_eq!(theme(Some("onehalf")), Ok(Theme::Onehalf));
    assert_eq!(theme(Some("solarized")), Ok(Theme::Solarized));
}

#[test]
fn theme_unknown_name_is_echoed() {
    assert_eq!(
        theme(Some("Ayu")),
        Err(Error::UnknownTheme("Ayu".to_string()))
    );
}

#[test]
fn cache_size_absent_gives_default() {
    assert_eq!(cache_size(None), Ok(128));
}

#[test]
fn cache_size_parses_positive_count() {
    assert_eq!(cache_size(Some("256")), Ok(256));
    assert_eq!(cache_size(Some("+42")), Ok(42));
}

#[test]
fn cache_size_rejects_zero() {
    assert_eq!(cache_size(Some("0")), Err(Error::CacheSize("0".to_string())));
}

#[test]
fn cache_size_rejects_non_numeric() {
    assert_eq!(
        cache_size(Some("many")),
        Err(Error::CacheSize("many".to_string()))
    );
    assert_eq!(
        cache_size(Some("-1")),
        Err(Error::CacheSize("-1".to_string()))
    );
}

#[test]
fn cache_size_rejects_overflow() {
    let big = "99999999999999999999999999";
    assert_eq!(cache_size(Some(big)), Err(Error::CacheSize(big.to_string())));
}

#[test]
fn max_body_size_absent_gives_default() {
    assert_eq!(max_body_size(None), Ok(1024 * 1024));
}

#[test]
fn max_body_size_parses_byte_count() {
    assert_eq!(max_body_size(Some("0")), Ok(0));
    assert_eq!(max_body_size(Some("2097152")), Ok(2097152));
}

#[test]
fn max_body_size_rejects_negative() {
    assert_eq!(
        max_body_size(Some("-1")),
        Err(Error::MaxBodySize("-1".to_string()))
    );
}

#[test]
fn http_timeout_absent_gives_default() {
    assert_eq!(http_timeout(None), Ok(5));
}

#[test]
fn http_timeout_parses_seconds() {
    assert_eq!(http_timeout(Some("30")), Ok(30));
}

#[test]
fn http_timeout_rejects_non_numeric() {
    assert_eq!(
        http_timeout(Some("1.5")),
        Err(Error::HttpTimeout("1.5".to_string()))
    );
}

fn v4(octet0: u8, octet1: u8, octet2: u8, octet3: u8, port: u16) -> SocketAddress {
    SocketAddress {
        host: HostAddress::V4 {
            octet0,
            octet1,
            octet2,
            octet3,
        },
        port,
    }
}

#[allow(clippy::too_many_arguments)]
fn v6(groups: [u16; 8], scope: u32, port: u16) -> SocketAddress {
    SocketAddress {
        host: HostAddress::V6 {
            group0: groups[0],
            group1: groups[1],
            group2: groups[2],
            group3: groups[3],
            group4: groups[4],
            group5: groups[5],
            group6: groups[6],
            group7: groups[7],
            scope,
        },
        port,
    }
}

#[test]
fn addr_absent_gives_default() {
    assert_eq!(addr(None), Ok(v4(0, 0, 0, 0, 8088)));
}

#[test]
fn addr_parses_host_and_port() {
    assert_eq!(addr(Some("127.0.0.1:8080")), Ok(v4(127, 0, 0, 1, 8080)));
}

#[test]
fn addr_allows_leading_zeros_in_port() {
    assert_eq!(addr(Some("1.2.3.4:080")), Ok(v4(1, 2, 3, 4, 80)));
}

#[test]
fn addr_parses_bracketed_loopback() {
    assert_eq!(
        addr(Some("[::1]:8080")),
        Ok(v6([0, 0, 0, 0, 0, 0, 0, 1], 0, 8080))
    );
}

#[test]
fn addr_parses_unspecified_v6() {
    assert_eq!(addr(Some("[::]:8088")), Ok(v6([0; 8], 0, 8088)));
}

#[test]
fn addr_parses_full_v6_groups() {
    assert_eq!(
        addr(Some("[2001:db8:0:0:0:0:0:1]:443")),
        Ok(v6([0x2001, 0xdb8, 0, 0, 0, 0, 0, 1], 0, 443))
    );
}

#[test]
fn addr_compresses_middle_groups() {
    assert_eq!(
        addr(Some("[2001:db8::ff00:42:8329]:80")),
        Ok(v6([0x2001, 0xdb8, 0, 0, 0, 0xff00, 0x42, 0x8329], 0, 80))
    );
}

#[test]
fn addr_parses_trailing_compression() {
    assert_eq!(
        addr(Some("[fe80::]:80")),
        Ok(v6([0xfe80, 0, 0, 0, 0, 0, 0, 0], 0, 80))
    );
}

#[test]
fn addr_parses_embedded_ipv4_tail() {
    assert_eq!(
        addr(Some("[::ffff:192.168.0.1]:80")),
        Ok(v6([0, 0, 0, 0, 0, 0xffff, 0xc0a8, 0x0001], 0, 80))
    );
}

#[test]
fn addr_parses_numeric_scope() {
    assert_eq!(
        addr(Some("[fe80::1%3]:80")),
        Ok(v6([0xfe80, 0, 0, 0, 0, 0, 0, 1], 3, 80))
    );
}

#[test]
fn addr_rejects_malformed_v6() {
    assert_eq!(addr(Some("[::1]")), Err(Error::AddressPort));
    assert_eq!(addr(Some("[:::1]:80")), Err(Error::AddressPort));
    assert_eq!(addr(Some("[1:2:3:4:5:6:7:8:9]:80")), Err(Error::AddressPort));
    assert_eq!(addr(Some("[1:2:3:4:5:6:7]:80")), Err(Error::AddressPort));
    assert_eq!(addr(Some("[1:2:3:4:5:6:7:8::]:80")), Err(Error::AddressPort));
    assert_eq!(addr(Some("[12345::1]:80")), Err(Error::AddressPort));
    assert_eq!(addr(Some("[::1%]:80")), Err(Error::AddressPort));
    assert_eq!(addr(Some("[1.2.3.4]:80")), Err(Error::AddressPort));
    assert_eq!(addr(Some("::1:80")), Err(Error::AddressPort));
}

#[test]
fn addr_rejects_missing_port() {
    assert_eq!(addr(Some("127.0.0.1")), Err(Error::AddressPort));
}

#[test]
fn addr_rejects_malformed_host() {
    assert_eq!(addr(Some("1.2.3:80")), Err(Error::AddressPort));
    assert_eq!(addr(Some("01.2.3.4:80")), Err(Error::AddressPort));
    assert_eq!(addr(Some("256.0.0.1:80")), Err(Error::AddressPort));
}

#[test]
fn addr_rejects_port_overflow() {
    assert_eq!(addr(Some("1.2.3.4:99999")), Err(Error::AddressPort));
}

#[test]
fn database_absent_selects_memory() {
    assert_eq!(database_method(&RawInput::Absent), Ok(DatabaseLocation::Memory));
}

#[test]
fn database_path_is_kept() {
    assert_eq!(
        database_method(&RawInput::Text("/tmp/db.sqlite".to_string())),
        Ok(DatabaseLocation::Path("/tmp/db.sqlite".to_string()))
    );
}

#[test]
fn database_non_text_is_distinct_error() {
    assert_eq!(database_method(&RawInput::NotText), Err(Error::DatabasePath));
}

#[test]
fn base_url_present_is_kept() {
    let got = base_url(&RawInput::Text("https://example.com".to_string())).unwrap();
    assert_eq!(got, url::Url::parse("https://example.com").unwrap());
    assert_eq!(got.as_str(), "https://example.com/");
}

#[test]
fn base_url_non_text_is_distinct_error() {
    assert_eq!(base_url(&RawInput::NotText), Err(Error::BaseUrlNotUnicode));
}

#[test]
fn base_url_malformed_is_invalid_url_error() {
    match base_url(&RawInput::Text("not a url".to_string())) {
        Err(Error::BaseUrl(_)) => {}
        other => panic!("expected an invalid URL error, got {other:?}"),
    }
}

#[test]
fn base_url_from_host_synthesizes_https() {
    let got = base_url_from_host("host1").unwrap();
    assert_eq!(got, url::Url::parse("https://host1").unwrap());
}

#[test]
fn signing_key_absent_generates_full_length_key() {
    let k = signing_key(None).unwrap();
    assert_eq!(k.master().len(), 64);
}

#[test]
fn signing_key_absent_draws_fresh_entropy() {
    let k1 = signing_key(None).unwrap();
    let k2 = signing_key(None).unwrap();
    assert_ne!(k1.master(), k2.master());
}

#[test]
fn signing_key_short_material_is_rejected() {
    assert_eq!(signing_key(Some("tooshort")), Err(Error::SigningKey(8)));
}

#[test]
fn signing_key_keeps_first_64_bytes() {
    let material = "0123456789abcdef0123456789abcdef0123456789abcdef0123456789abcdefEXTRA";
    let k = signing_key(Some(material)).unwrap();
    assert_eq!(k.master(), &material.as_bytes()[..64]);
}

#[test]
fn addr_default_equals_parsing_the_default_text() {
    assert_eq!(addr(None), addr(Some("0.0.0.0:8088")));
}

#[test]
fn addr_rejects_empty_port_and_spaces() {
    assert_eq!(addr(Some("1.2.3.4:")), Err(Error::AddressPort));
    assert_eq!(addr(Some("1.2.3.4: 80")), Err(Error::AddressPort));
    assert_eq!(addr(Some("")), Err(Error::AddressPort));
}

#[test]
fn theme_empty_string_is_unknown() {
    assert_eq!(theme(Some("")), Err(Error::UnknownTheme(String::new())));
}

#[test]
fn title_keeps_unicode_verbatim() {
    assert_eq!(title(Some("méta—bin")), "méta—bin");
}

#[test]
fn http_timeout_accepts_zero() {
    assert_eq!(http_timeout(Some("0")), Ok(0));
}
