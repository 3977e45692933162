//! The errors of the parsers.
use vstd::prelude::*;

verus! {

/// Why a parse failed.
#[derive(Debug, Clone, Copy, PartialEq, Eq, Structural)]
pub enum SipParserError {
    /// The input ended where more was needed.
    UnexpectedEof,
    /// Text that must be UTF-8 is not.
    InvalidUtf8,
    /// `SIP/2.0` was expected.
    InvalidSipVersion,
    /// A Via header is malformed.
    InvalidVia,
    /// The `rport` parameter of a Via header is not a valid port.
    InvalidRport,
    /// A host is malformed.
    InvalidHost,
    /// A port is malformed or out of range.
    InvalidPort,
    /// A URI is malformed.
    InvalidUri,
    /// A name-addr is malformed.
    InvalidNameAddr,
    /// A line does not end with a line break where it must.
    MissingNewline,
}

/// The result of a parse.
pub type Result<T> = core::result::Result<T, SipParserError>;

} // verus!
