use stun_uri::host::parse_ipv4;
use stun_uri::normalize::{normalize, str_eq, str_starts_with};
use stun_uri::urlparse::{is_stun, is_stuns, url_parse, ParseError, ResolvedAddress};

fn ok(octets: (u8, u8, u8, u8), port: u16) -> Result<ResolvedAddress, ParseError> {
    Ok(ResolvedAddress { octets, port })
}

#[test]
fn scheme_with_default_port() {
    assert_eq!(url_parse("stun:192.168.0.1"), ok((192, 168, 0, 1), 3478));
}

#[test]
fn secure_scheme_with_default_port() {
    assert_eq!(url_parse("stuns:192.168.0.1"), ok((192, 168, 0, 1), 5349));
}

#[test]
fn explicit_port() {
    assert_eq!(url_parse("stun:192.168.0.1:8000"), ok((192, 168, 0, 1), 8000));
}

#[test]
fn secure_scheme_explicit_port() {
    assert_eq!(url_parse("stuns:10.0.0.2:1"), ok((10, 0, 0, 2), 1));
}

#[test]
fn bare_host_gets_default_scheme() {
    assert_eq!(url_parse("192.168.0.1"), ok((192, 168, 0, 1), 3478));
}

#[test]
fn bare_host_with_port() {
    assert_eq!(url_parse("192.168.0.1:8000"), ok((192, 168, 0, 1), 8000));
}

#[test]
fn bare_host_agrees_with_shorthand() {
    assert_eq!(url_parse("192.168.0.1"), url_parse("stun:192.168.0.1"));
    assert_eq!(url_parse("10.1.2.3:99"), url_parse("stun:10.1.2.3:99"));
}

#[test]
fn double_slash_form_accepted() {
    assert_eq!(url_parse("stun://192.168.0.1:8000"), ok((192, 168, 0, 1), 8000));
    assert_eq!(url_parse("stuns://192.168.0.1"), ok((192, 168, 0, 1), 5349));
}

#[test]
fn port_boundaries() {
    assert_eq!(url_parse("stun:0.0.0.0:0"), ok((0, 0, 0, 0), 0));
    assert_eq!(url_parse("stun:255.255.255.255:65535"), ok((255, 255, 255, 255), 65535));
}

#[test]
fn leading_zeros_in_octets_and_port() {
    assert_eq!(url_parse("stun:001.002.003.004"), ok((1, 2, 3, 4), 3478));
    assert_eq!(url_parse("stun:1.2.3.4:0008"), ok((1, 2, 3, 4), 8));
}

#[test]
fn unknown_scheme_is_rejected() {
    assert_eq!(url_parse("stunsx://1.2.3.4"), Err(ParseError::SchemeError));
    assert_eq!(url_parse("stunnel://1.2.3.4"), Err(ParseError::SchemeError));
}

#[test]
fn foreign_scheme_is_swallowed_by_normalization() {
    // `ftp://1.2.3.4` lacks the literal `stun` prefix, so normalization
    // treats the whole string as a host part: the URI parser then sees the
    // host `ftp`, which is no IPv4 literal.
    assert_eq!(url_parse("ftp://1.2.3.4"), Err(ParseError::HostFormatError));
}

#[test]
fn missing_host() {
    assert_eq!(url_parse("stun://"), Err(ParseError::HostError));
    assert_eq!(url_parse("stun:"), Err(ParseError::HostError));
    assert_eq!(url_parse(""), Err(ParseError::HostError));
}

#[test]
fn octet_out_of_range() {
    assert_eq!(url_parse("stun:1.2.3.256"), Err(ParseError::HostFormatError));
    assert_eq!(url_parse("stun:256.1.1.1"), Err(ParseError::HostFormatError));
}

#[test]
fn wrong_octet_count() {
    assert_eq!(url_parse("stun:1.2.3"), Err(ParseError::HostFormatError));
    assert_eq!(url_parse("stun:1.2.3.4.5"), Err(ParseError::HostFormatError));
    assert_eq!(url_parse("stun:1.2.3.4."), Err(ParseError::HostFormatError));
}

#[test]
fn hostname_is_rejected() {
    assert_eq!(url_parse("stun:not.an.ip.addr"), Err(ParseError::HostFormatError));
    assert_eq!(url_parse("stun:example.org"), Err(ParseError::HostFormatError));
}

#[test]
fn port_overflow_is_a_syntax_error() {
    assert_eq!(url_parse("stun:1.2.3.4:65536"), Err(ParseError::UrlParseError));
}

#[test]
fn garbage_is_a_syntax_error() {
    // Starts with the literal `stun`, so normalization leaves it alone and
    // the URI parser sees a relative reference without a base.
    assert_eq!(url_parse("stunx"), Err(ParseError::UrlParseError));
}

#[test]
fn normalization_rewrites_shorthand() {
    assert_eq!(normalize("stun:1.2.3.4:8000"), "stun://1.2.3.4:8000".to_owned());
    assert_eq!(normalize("stuns:1.2.3.4"), "stuns://1.2.3.4".to_owned());
    assert_eq!(normalize("1.2.3.4"), "stun://1.2.3.4".to_owned());
}

#[test]
fn normalization_is_idempotent() {
    // The already-normalized form and the shorthand form normalize to the
    // same string.
    let once = normalize("stun:host:port");
    let twice = normalize(&once);
    assert_eq!(once, "stun://host:port".to_owned());
    assert_eq!(twice, once);
    assert_eq!(normalize("stun://host:port"), once);
}

#[test]
fn ipv4_literal_parsing() {
    assert_eq!(parse_ipv4("10.0.0.1"), Some((10, 0, 0, 1)));
    assert_eq!(parse_ipv4("0.0.0.0"), Some((0, 0, 0, 0)));
    assert_eq!(parse_ipv4("255.255.255.255"), Some((255, 255, 255, 255)));
    assert_eq!(parse_ipv4("0255.1.2.3"), Some((255, 1, 2, 3)));
    assert_eq!(parse_ipv4(""), None);
    assert_eq!(parse_ipv4("1.2.3"), None);
    assert_eq!(parse_ipv4("1.2.3.4.5"), None);
    assert_eq!(parse_ipv4("1.2.3.256"), None);
    assert_eq!(parse_ipv4("1.2.3."), None);
    assert_eq!(parse_ipv4(".1.2.3"), None);
    assert_eq!(parse_ipv4("1.2.3.+4"), None);
    assert_eq!(parse_ipv4("a.b.c.d"), None);
}

#[test]
fn scheme_predicates() {
    assert!(is_stun("stun"));
    assert!(!is_stun("stuns"));
    assert!(!is_stun("STUN"));
    assert!(is_stuns("stuns"));
    assert!(!is_stuns("stun"));
    assert!(!is_stuns(""));
}

#[test]
fn string_helpers() {
    assert!(str_starts_with("stun://x", "stun:"));
    assert!(!str_starts_with("stu", "stun"));
    assert!(str_starts_with("anything", ""));
    assert!(str_eq("stun", "stun"));
    assert!(!str_eq("stun", "stuns"));
}

#[test]
fn error_messages() {
    assert_eq!(ParseError::UrlParseError.message(), "url parse error.");
    assert_eq!(ParseError::SchemeError.message(), "scheme error");
    assert_eq!(ParseError::HostError.message(), "host str error");
    assert_eq!(ParseError::HostFormatError.message(), "host format error");
    assert_eq!(ParseError::LookupError.message(), "lookup host failure.");
}
