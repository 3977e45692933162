//! Pieces of the SIP grammar shared by several parsers: the protocol
//! version, transports and line breaks.
use vstd::prelude::*;
use crate::chars::{eq_ignore_ascii_case, spec_eq_ignore_case};
use crate::error::SipParserError;
use crate::scanner::{Bytes, byte_at};

verus! {

/// The bytes of `SIP/2.0`.
pub open spec fn sip_v2_bytes() -> Seq<u8> {
    seq![0x53u8, 0x49u8, 0x50u8, 0x2fu8, 0x32u8, 0x2eu8, 0x30u8]
}

/// The protocol version at `i`: `SIP/2.0`, `SIP` in any case. On success
/// the position after it; on failure nothing is read.
pub open spec fn spec_sip_v2(s: Seq<u8>, i: int) -> (Result<(), SipParserError>, int) {
    if 0 <= i && i + 7 <= s.len() && spec_eq_ignore_case(s.subrange(i, i + 7), sip_v2_bytes()) {
        (Ok(()), i + 7)
    } else {
        (Err(SipParserError::InvalidSipVersion), i)
    }
}

/// Reads the protocol version `SIP/2.0`.
pub fn parse_sip_v2(bytes: &mut Bytes) -> (r: Result<(), SipParserError>)
    ensures
        final(bytes).data() == old(bytes).data(),
        old(bytes).pos() <= final(bytes).pos() <= final(bytes).data().len(),
        (r, final(bytes).pos()) == spec_sip_v2(old(bytes).data(), old(bytes).pos()),
{
    let lit: [u8; 7] = [0x53, 0x49, 0x50, 0x2f, 0x32, 0x2e, 0x30];
    let p = bytes.position();
    proof {
        assert(lit@ == sip_v2_bytes());
    }
    match bytes.peek_n(7) {
        Some(v) => {
            if eq_ignore_ascii_case(v, &lit) {
                bytes.advance(7);
                Ok(())
            } else {
                Err(SipParserError::InvalidSipVersion)
            }
        },
        None => Err(SipParserError::InvalidSipVersion),
    }
}

/// A transport protocol.
#[derive(Debug, Clone, Copy, PartialEq, Eq, Structural)]
pub enum Transport {
    UDP,
    TCP,
    TLS,
    SCTP,
    WS,
    WSS,
    Unknown,
}

/// The transport that a name stands for, in any case.
pub open spec fn spec_transport(b: Seq<u8>) -> Transport {
    if spec_eq_ignore_case(b, seq![0x55u8, 0x44u8, 0x50u8]) {
        Transport::UDP
    } else if spec_eq_ignore_case(b, seq![0x54u8, 0x43u8, 0x50u8]) {
        Transport::TCP
    } else if spec_eq_ignore_case(b, seq![0x54u8, 0x4cu8, 0x53u8]) {
        Transport::TLS
    } else if spec_eq_ignore_case(b, seq![0x53u8, 0x43u8, 0x54u8, 0x50u8]) {
        Transport::SCTP
    } else if spec_eq_ignore_case(b, seq![0x57u8, 0x53u8]) {
        Transport::WS
    } else if spec_eq_ignore_case(b, seq![0x57u8, 0x53u8, 0x53u8]) {
        Transport::WSS
    } else {
        Transport::Unknown
    }
}

impl Transport {
    /// The transport that a name stands for, in any case.
    pub fn from_bytes(b: &[u8]) -> (t: Transport)
        ensures
            t == spec_transport(b@),
    {
        let udp: [u8; 3] = [0x55, 0x44, 0x50];
        let tcp: [u8; 3] = [0x54, 0x43, 0x50];
        let tls: [u8; 3] = [0x54, 0x4c, 0x53];
        let sctp: [u8; 4] = [0x53, 0x43, 0x54, 0x50];
        let ws: [u8; 2] = [0x57, 0x53];
        let wss: [u8; 3] = [0x57, 0x53, 0x53];
        proof {
            assert(udp@ == seq![0x55u8, 0x44u8, 0x50u8]);
            assert(tcp@ == seq![0x54u8, 0x43u8, 0x50u8]);
            assert(tls@ == seq![0x54u8, 0x4cu8, 0x53u8]);
            assert(sctp@ == seq![0x53u8, 0x43u8, 0x54u8, 0x50u8]);
            assert(ws@ == seq![0x57u8, 0x53u8]);
            assert(wss@ == seq![0x57u8, 0x53u8, 0x53u8]);
        }
        if eq_ignore_ascii_case(b, &udp) {
            Transport::UDP
        } else if eq_ignore_ascii_case(b, &tcp) {
            Transport::TCP
        } else if eq_ignore_ascii_case(b, &tls) {
            Transport::TLS
        } else if eq_ignore_ascii_case(b, &sctp) {
            Transport::SCTP
        } else if eq_ignore_ascii_case(b, &ws) {
            Transport::WS
        } else if eq_ignore_ascii_case(b, &wss) {
            Transport::WSS
        } else {
            Transport::Unknown
        }
    }
}

/// A line break at `i`: `\r\n` or `\n`. On failure nothing is read.
pub open spec fn spec_newline(s: Seq<u8>, i: int) -> (Result<(), SipParserError>, int) {
    if byte_at(s, i) == Some(0x0du8) && byte_at(s, i + 1) == Some(0x0au8) {
        (Ok(()), i + 2)
    } else if byte_at(s, i) == Some(0x0au8) {
        (Ok(()), i + 1)
    } else {
        (Err(SipParserError::MissingNewline), i)
    }
}

/// Reads a line break: `\r\n` or `\n`.
pub fn parse_newline(bytes: &mut Bytes) -> (r: Result<(), SipParserError>)
    ensures
        final(bytes).data() == old(bytes).data(),
        old(bytes).pos() <= final(bytes).pos() <= final(bytes).data().len(),
        (r, final(bytes).pos()) == spec_newline(old(bytes).data(), old(bytes).pos()),
{
    let _ = bytes.position();
    match bytes.peek_n(2) {
        Some(v) => {
            if v[0] == 0x0d && v[1] == 0x0a {
                bytes.advance(2);
                return Ok(());
            }
        },
        None => {},
    }
    if bytes.peek() == Some(0x0au8) {
        let _ = bytes.next();
        Ok(())
    } else {
        Err(SipParserError::MissingNewline)
    }
}

} // verus!
