//! Parsing of STUN and STUNS URIs (RFC 7064) into a concrete IPv4 endpoint.
//!
//! The entry point is [`urlparse::url_parse`]: it normalizes a loosely
//! formatted input string into a well-formed URI, decomposes it with the
//! `url` crate, validates the scheme and the host, applies the scheme's
//! default port, and reads the host strictly as a dotted IPv4 literal.

pub mod host;
pub mod normalize;
pub mod urlparse;
