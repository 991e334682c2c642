//! The errors of the proxy.

use crate::quic::QuicErrorRepr;
use std::io::Error;
use vstd::prelude::*;

verus! {

#[verifier::external_type_specification]
#[verifier::external_body]
pub struct ExIoError(Error);

/// Why a proxy operation failed.
#[derive(Debug)]
pub enum SError {
    /// An I/O operation failed.
    Io(Error),
    /// The peer broke the protocol.
    ProtocolViolation,
    /// The peer asked for something the proxy does not do.
    ProtocolUnimpl,
    /// The SOCKS5 handshake failed; the text says why.
    SocksError(String),
    /// The sunny-QUIC authentication failed; the text says why.
    SunnyAuthError(String),
    /// No outbound connection could be had.
    OutboundUnavailable,
    /// No inbound connection could be had.
    InboundUnavailable,
    /// The QUIC transport failed.
    QuicError(QuicErrorRepr),
    /// The UDP session is closed; the text says why.
    UDPSessionClosed(String),
}

pub type SResult<T> = Result<T, SError>;

} // verus!
