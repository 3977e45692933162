//! Parsing of SIP messages (RFC 3261): a byte cursor, character classes,
//! parameters, hosts and IP addresses, URIs, header values, request lines
//! and authentication parameters.

pub mod chars;
pub mod error;
pub mod scanner;
pub mod text;
pub mod number;
pub mod params;
pub mod host;
pub mod ipv6;
pub mod parser;
pub mod uri;
pub mod headers;
pub mod request;
pub mod laws;
