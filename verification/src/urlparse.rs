//! [RFC 7064]: the `stun` and `stuns` URI schemes.
//!
//! URI scheme syntax (RFC 5234 ABNF):
//! ```text
//! stunURI = scheme ":" host [ ":" port ]
//! scheme  = "stun" / "stuns"
//! ```
//!
//! [`url_parse`] turns a loosely formatted input string into a resolved
//! IPv4 endpoint: it normalizes the scheme and the separator, decomposes
//! the result with the `url` crate, validates the scheme and the host,
//! defaults the port by scheme, and reads the host strictly as a dotted
//! IPv4 literal.

use vstd::prelude::*;

use crate::host::{all_digits, digits_val, is_digit, lemma_ipv4_chars, parse_ipv4, spec_ipv4};
use crate::normalize::{lemma_normalize_shorthand_agrees, normalize, spec_normalize, str_eq};

verus! {

/// The well-known port of the STUN scheme.
pub const STUN_PORT: u16 = 3478;

/// The well-known port of the STUN-over-TLS scheme.
pub const STUNS_PORT: u16 = 5349;

/// A parsed and resolved STUN endpoint: a concrete IPv4 address, as its
/// four octets in order, together with a port.
#[derive(Clone, Copy, Debug, PartialEq, Eq)]
pub struct ResolvedAddress {
    pub octets: (u8, u8, u8, u8),
    pub port: u16,
}

/// The ways an input string can be rejected.
#[derive(Clone, Copy, Debug, PartialEq, Eq, Structural)]
pub enum ParseError {
    /// The normalized input is not a syntactically valid URI.
    UrlParseError,
    /// The URI's scheme is neither `stun` nor `stuns`.
    SchemeError,
    /// The URI has no host component.
    HostError,
    /// The host is not a dotted IPv4 literal of four octets.
    HostFormatError,
    /// The resolution pass over the parsed address produced no candidate.
    LookupError,
}

/// The diagnostic text of each error kind.
pub open spec fn spec_message(e: ParseError) -> Seq<char> {
    match e {
        ParseError::UrlParseError => "url parse error."@,
        ParseError::SchemeError => "scheme error"@,
        ParseError::HostError => "host str error"@,
        ParseError::HostFormatError => "host format error"@,
        ParseError::LookupError => "lookup host failure."@,
    }
}

impl ParseError {
    /// The diagnostic text of this error kind.
    pub fn message(&self) -> (m: &'static str)
        ensures
            m@ == spec_message(*self),
    {
        match self {
            ParseError::UrlParseError => "url parse error.",
            ParseError::SchemeError => "scheme error",
            ParseError::HostError => "host str error",
            ParseError::HostFormatError => "host format error",
            ParseError::LookupError => "lookup host failure.",
        }
    }
}

/// An accepted scheme: `stun` or `stuns`.
pub open spec fn valid_scheme(scheme: Seq<char>) -> bool {
    scheme == "stun"@ || scheme == "stuns"@
}

/// A nonempty host made only of digits and dots — the characters a dotted
/// IPv4 literal can hold — and short enough that a URI around it stays far
/// below the URI parser's 32-bit offset limit.
pub open spec fn host_shape(h: Seq<char>) -> bool {
    &&& h.len() >= 1
    &&& h.len() <= 4000000000
    &&& forall|i: int| 0 <= i < h.len() ==> is_digit(#[trigger] h[i]) || h[i] == '.'
}

/// A decimal port literal: one to five digits reading as at most 65535.
pub open spec fn port_shape(p: Seq<char>) -> bool {
    1 <= p.len() <= 5 && all_digits(p) && digits_val(p) <= 65535
}

/// The RFC 7064 shorthand form `scheme:host[:port]`.
pub open spec fn shorthand_uri(scheme: Seq<char>, host: Seq<char>, port: Option<Seq<char>>) -> Seq<
    char,
> {
    match port {
        None => scheme + ":"@ + host,
        Some(p) => scheme + ":"@ + host + ":"@ + p,
    }
}

/// The double-slash form `scheme://host[:port]` that the generic URI
/// grammar expects.
pub open spec fn authority_uri(scheme: Seq<char>, host: Seq<char>, port: Option<Seq<char>>) -> Seq<
    char,
> {
    match port {
        None => scheme + "://"@ + host,
        Some(p) => scheme + "://"@ + host + ":"@ + p,
    }
}

/// The port carried by a decomposed URI whose port component is the
/// decimal literal `p`, where one is present.
pub open spec fn spec_port_of(p: Option<Seq<char>>) -> Option<u16> {
    match p {
        Some(pd) => Some(digits_val(pd) as u16),
        None => None,
    }
}

/// The default port of an accepted scheme.
pub open spec fn default_port(scheme: Seq<char>) -> u16 {
    if scheme == "stuns"@ {
        STUNS_PORT
    } else {
        STUN_PORT
    }
}

/// The port a parse of `scheme:host[:port]` resolves to: the explicit port
/// where one is written, the scheme's default otherwise.
pub open spec fn expected_port(scheme: Seq<char>, port: Option<Seq<char>>) -> u16 {
    match port {
        Some(pd) => digits_val(pd) as u16,
        None => default_port(scheme),
    }
}

/// What a standards-compliant URI parser returns for a string: `None` on a
/// syntax error, otherwise the scheme, the optional host and the optional
/// port. The decomposition is a function of the string alone.
pub uninterp spec fn url_decomposition(s: Seq<char>) -> Option<
    (Seq<char>, Option<Seq<char>>, Option<u16>),
>;

/// The scheme, host and port components of a decomposed URI.
pub struct UriParts {
    pub scheme: String,
    pub host: Option<String>,
    pub port: Option<u16>,
}

/// The view of an optional string.
pub open spec fn opt_str_view(o: Option<String>) -> Option<Seq<char>> {
    match o {
        Some(s) => Some(s@),
        None => None,
    }
}

/// On a well-formed `stun://H[:P]` or `stuns://H[:P]` input whose host is
/// made of digits and dots, the parser call keeps the scheme, the host and
/// the decimal port as written.
pub open spec fn decomposition_keeps_authority(s: Seq<char>, r: Option<UriParts>) -> bool {
    forall|scheme: Seq<char>, h: Seq<char>, p: Option<Seq<char>>|
        valid_scheme(scheme) && host_shape(h) && (p matches Some(pd) ==> port_shape(pd)) && s
            == #[trigger] authority_uri(scheme, h, p) ==> (r matches Some(parts) && parts.scheme@
            == scheme && opt_str_view(parts.host) == Some(h) && parts.port == spec_port_of(p))
}

/// Relies on `url::Url::parse` together with `Url::scheme`, `Url::host_str`
/// and `Url::port`: the decomposition of a URI string is a function of the
/// string alone. For an input of the form `stun://H[:P]` or `stuns://H[:P]`
/// with `H` nonempty and made of digits and dots, and `P` one to five digits
/// reading as at most 65535, and the whole input far below `u32::MAX` bytes
/// (the crate tracks offsets as `u32` and rejects longer inputs), the crate
/// accepts the string, keeps the scheme,
/// keeps `H` verbatim as the opaque host, and reads `P` as a decimal port
/// (the url crate's `parser.rs`: `parse_non_special`, `parse_host_and_port`
/// and `parse_port`; and `host.rs`: `parse_opaque_cow` — digits and dots are
/// not forbidden host code points and are left unencoded; schemes other than
/// the special ones have no default port, so an explicit port is kept).
#[verifier::external_body]
fn url_decompose(s: &str) -> (r: Option<UriParts>)
    ensures
        r is None <==> url_decomposition(s@) is None,
        r matches Some(p) ==> url_decomposition(s@) == Some(
            (p.scheme@, opt_str_view(p.host), p.port),
        ),
        decomposition_keeps_authority(s@, r),
{
    match url::Url::parse(s) {
        Ok(u) => Some(
            UriParts {
                scheme: u.scheme().to_string(),
                host: u.host_str().map(|x| x.to_string()),
                port: u.port(),
            },
        ),
        Err(_) => None,
    }
}

/// What parsing an input string returns: the result of normalizing it,
/// decomposing the normalized URI, checking the scheme and the host,
/// defaulting the port by scheme, and reading the host as a dotted IPv4
/// literal.
pub open spec fn spec_parse(s: Seq<char>) -> Result<ResolvedAddress, ParseError> {
    match url_decomposition(spec_normalize(s)) {
        None => Err(ParseError::UrlParseError),
        Some((scheme, host, port)) => {
            if !valid_scheme(scheme) {
                Err(ParseError::SchemeError)
            } else {
                match host {
                    None => Err(ParseError::HostError),
                    Some(h) => {
                        let pt = match port {
                            Some(p) => p,
                            None => default_port(scheme),
                        };
                        match spec_ipv4(h) {
                            None => Err(ParseError::HostFormatError),
                            Some(o) => Ok(ResolvedAddress { octets: o, port: pt }),
                        }
                    },
                }
            }
        },
    }
}

/// Parses a STUN/STUNS URI, or a bare `host[:port]` string, into a resolved
/// IPv4 endpoint.
///
/// The second postcondition is the RFC 7064 shorthand contract: for every
/// valid dotted IPv4 literal `h` and scheme in {`stun`, `stuns`}, an input
/// `scheme:h` succeeds with the scheme's default port, and `scheme:h:p`
/// succeeds with the explicit port `p`.
pub fn url_parse(s: &str) -> (r: Result<ResolvedAddress, ParseError>)
    ensures
        r == spec_parse(s@),
        forall|scheme: Seq<char>, h: Seq<char>, p: Option<Seq<char>>|
            valid_scheme(scheme) && spec_ipv4(h) is Some && h.len() <= 4000000000 && (
            p matches Some(pd) ==> port_shape(pd)) && s@ == #[trigger] shorthand_uri(scheme, h, p)
                ==> r == Ok::<
                ResolvedAddress,
                ParseError,
            >(ResolvedAddress { octets: spec_ipv4(h)->Some_0, port: expected_port(scheme, p) }),
{
    let n = normalize(s);
    let d = url_decompose(n.as_str());
    let ghost gd = d;
    let r: Result<ResolvedAddress, ParseError> = match d {
        None => Err(ParseError::UrlParseError),
        Some(parts) => {
            let stun_b = str_eq(parts.scheme.as_str(), "stun");
            let stuns_b = str_eq(parts.scheme.as_str(), "stuns");
            if !stun_b && !stuns_b {
                Err(ParseError::SchemeError)
            } else {
                match parts.host {
                    None => Err(ParseError::HostError),
                    Some(hs) => {
                        let pt: u16 = match parts.port {
                            Some(p) => p,
                            None => if stuns_b {
                                STUNS_PORT
                            } else {
                                STUN_PORT
                            },
                        };
                        match parse_ipv4(hs.as_str()) {
                            None => Err(ParseError::HostFormatError),
                            Some(o) => Ok(ResolvedAddress { octets: o, port: pt }),
                        }
                    },
                }
            }
        },
    };
    proof {
        lemma_shorthand_parse(s@, n@, gd, r);
    }
    r
}

/// The facts behind `url_parse`'s shorthand postcondition, stated over the
/// values of one call: the raw input, the normalized string, the
/// decomposition that came back, and the computed result.
#[verifier::rlimit(100)]
proof fn lemma_shorthand_parse(
    s: Seq<char>,
    n: Seq<char>,
    gd: Option<UriParts>,
    r: Result<ResolvedAddress, ParseError>,
)
    requires
        n == spec_normalize(s),
        r == spec_parse(s),
        gd is None <==> url_decomposition(n) is None,
        gd matches Some(p) ==> url_decomposition(n) == Some(
            (p.scheme@, opt_str_view(p.host), p.port),
        ),
        decomposition_keeps_authority(n, gd),
    ensures
        forall|scheme: Seq<char>, h: Seq<char>, p: Option<Seq<char>>|
            valid_scheme(scheme) && spec_ipv4(h) is Some && h.len() <= 4000000000 && (
            p matches Some(pd) ==> port_shape(pd)) && s == #[trigger] shorthand_uri(scheme, h, p)
                ==> r == Ok::<
                ResolvedAddress,
                ParseError,
            >(ResolvedAddress { octets: spec_ipv4(h)->Some_0, port: expected_port(scheme, p) }),
{
    reveal_strlit("stun");
    reveal_strlit("stuns");
    reveal_strlit("stun:");
    reveal_strlit("stuns:");
    reveal_strlit("stun://");
    reveal_strlit("stuns://");
    reveal_strlit(":");
    reveal_strlit("://");
    reveal_strlit("//");
    assert forall|scheme: Seq<char>, h: Seq<char>, p: Option<Seq<char>>|
        valid_scheme(scheme) && spec_ipv4(h) is Some && h.len() <= 4000000000 && (
        p matches Some(pd) ==> port_shape(pd)) && s == #[trigger] shorthand_uri(scheme, h, p)
        implies r == Ok::<
        ResolvedAddress,
        ParseError,
    >(ResolvedAddress { octets: spec_ipv4(h)->Some_0, port: expected_port(scheme, p) }) by {
        lemma_ipv4_chars(h);
        let rest = match p {
            None => h,
            Some(pd) => h + ":"@ + pd,
        };
        assert(rest[0] == h[0]);
        assert(!"//"@.is_prefix_of(rest)) by {
            assert(is_digit(h[0]) || h[0] == '.');
            if "//"@.is_prefix_of(rest) {
                assert(rest.subrange(0, 2)[0] == rest[0]);
            }
        }
        lemma_normalize_shorthand_agrees(rest);
        assert(s == scheme + ":"@ + rest) by {
            match p {
                None => {},
                Some(pd) => {
                    assert(scheme + ":"@ + (h + ":"@ + pd) =~= scheme + ":"@ + h + ":"@ + pd);
                },
            }
        }
        assert(n == authority_uri(scheme, h, p)) by {
            if scheme == "stun"@ {
                assert(scheme + ":"@ =~= "stun:"@);
                assert(s =~= "stun:"@ + rest);
                assert(n == spec_normalize("stun:"@ + rest));
                assert(n == "stun://"@ + rest);
                assert(scheme + "://"@ =~= "stun://"@);
                match p {
                    None => {
                        assert(authority_uri(scheme, h, p) =~= "stun://"@ + rest);
                    },
                    Some(pd) => {
                        assert(authority_uri(scheme, h, p) =~= "stun://"@ + (h + ":"@ + pd));
                    },
                }
            } else {
                assert(scheme + ":"@ =~= "stuns:"@);
                assert(s =~= "stuns:"@ + rest);
                assert(n == spec_normalize("stuns:"@ + rest));
                assert(n == "stuns://"@ + rest);
                assert(scheme + "://"@ =~= "stuns://"@);
                match p {
                    None => {
                        assert(authority_uri(scheme, h, p) =~= "stuns://"@ + rest);
                    },
                    Some(pd) => {
                        assert(authority_uri(scheme, h, p) =~= "stuns://"@ + (h + ":"@ + pd));
                    },
                }
            }
        }
        assert(gd matches Some(parts) && parts.scheme@ == scheme && opt_str_view(parts.host)
            == Some(h) && parts.port == spec_port_of(p));
        assert(url_decomposition(n) == Some((scheme, Some(h), spec_port_of(p))));
        assert(r == Ok::<ResolvedAddress, ParseError>(
            ResolvedAddress { octets: spec_ipv4(h)->Some_0, port: expected_port(scheme, p) },
        ));
    }
}

/// Whether `scheme` is the plain STUN scheme.
pub fn is_stun(scheme: &str) -> (r: bool)
    ensures
        r == (scheme@ == "stun"@),
{
    str_eq(scheme, "stun")
}

/// Whether `scheme` is the STUN-over-TLS scheme.
pub fn is_stuns(scheme: &str) -> (r: bool)
    ensures
        r == (scheme@ == "stuns"@),
{
    str_eq(scheme, "stuns")
}

/// A bare `host[:port]` input — one that begins neither with the literal
/// `stun` nor with `//` — parses exactly as the same input with the default
/// scheme written in front.
pub proof fn lemma_parse_default_scheme(h: Seq<char>)
    requires
        !"stun"@.is_prefix_of(h),
        !"//"@.is_prefix_of(h),
    ensures
        spec_parse(h) == spec_parse("stun:"@ + h),
{
    lemma_normalize_shorthand_agrees(h);
    reveal_strlit("stun");
    reveal_strlit("stun://");
    assert(spec_normalize(h) == "stun://"@ + h);
    assert(spec_normalize("stun:"@ + h) == spec_normalize("stun://"@ + h));
    assert(spec_normalize("stun://"@ + h) == "stun://"@ + h);
}

/// Round trip: an accepted input resolves to exactly the four octets of the
/// host component the URI decomposed to, and to the explicit port where one
/// was given, the scheme's default port otherwise — never any other value.
pub proof fn lemma_round_trip(s: Seq<char>)
    requires
        spec_parse(s) is Ok,
    ensures
        ({
            &&& url_decomposition(spec_normalize(s)) matches Some(parts)
            &&& parts.1 matches Some(h)
            &&& spec_ipv4(h) matches Some(o)
            &&& spec_parse(s) == Ok::<ResolvedAddress, ParseError>(
                ResolvedAddress {
                    octets: o,
                    port: match parts.2 {
                        Some(p) => p,
                        None => default_port(parts.0),
                    },
                },
            )
        }),
{
}

} // verus!
