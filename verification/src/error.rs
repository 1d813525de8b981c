//! The failures of a hub or a relay, in one type, and the one line of text
//! that each is reported with.

use crate::registry::CapacityExceeded;
use crate::relay_registry::RegisterError;
use crate::text::join2;
use crate::wire::ProtocolViolation;
use vstd::prelude::*;

verus! {

/// What can go wrong.
pub enum Error {
    /// The configured bind address does not parse; it is kept as given.
    /// Fatal at startup.
    AddressParsing(String),
    /// A relay did not answer a probe or a call; its address is kept. The
    /// relay is skipped.
    Unreachable(String),
    /// A registry is full.
    CapacityExceeded,
    /// A malformed handshake or frame. Ends the connection it came on, and
    /// nothing else.
    ProtocolViolation(ProtocolViolation),
    /// A message could not be encoded or decoded; the text says why. The
    /// frame is dropped and the connection goes on.
    Serialization(String),
    /// An I/O failure, with the text of the error.
    TokioIo(String),
    /// A failure of the socket layer, with the text of the error.
    WebSocket(String),
}

impl Error {
    /// The one line that reports the error.
    pub open spec fn text(self) -> Seq<char> {
        match self {
            Error::AddressParsing(addr) => "Failed to parse socket address: "@ + addr@,
            Error::Unreachable(addr) => "Relay unreachable: "@ + addr@,
            Error::CapacityExceeded => "Capacity exceeded"@,
            Error::ProtocolViolation(_) => "Protocol violation"@,
            Error::Serialization(why) => "Serialization error: "@ + why@,
            Error::TokioIo(why) => "Tokio IO error: "@ + why@,
            Error::WebSocket(why) => "Websocket error: "@ + why@,
        }
    }

    /// Whether the process can go on after the error. Only a bind address
    /// that does not parse, or an I/O failure, ends it.
    pub open spec fn is_recoverable(self) -> bool {
        !(self is AddressParsing || self is TokioIo)
    }

    /// The one line that reports the error.
    pub fn message(&self) -> (line: String)
        ensures
            line@ == self.text(),
    {
        match self {
            Error::AddressParsing(addr) => join2("Failed to parse socket address: ", addr.as_str()),
            Error::Unreachable(addr) => join2("Relay unreachable: ", addr.as_str()),
            Error::CapacityExceeded => String::from_str("Capacity exceeded"),
            Error::ProtocolViolation(_) => String::from_str("Protocol violation"),
            Error::Serialization(why) => join2("Serialization error: ", why.as_str()),
            Error::TokioIo(why) => join2("Tokio IO error: ", why.as_str()),
            Error::WebSocket(why) => join2("Websocket error: ", why.as_str()),
        }
    }

    /// Whether the process can go on after the error.
    pub fn recoverable(&self) -> (b: bool)
        ensures
            b == self.is_recoverable(),
    {
        match self {
            Error::AddressParsing(_) => false,
            Error::TokioIo(_) => false,
            _ => true,
        }
    }

    /// The error for a registry that is full.
    pub fn from_capacity(e: CapacityExceeded) -> (error: Error)
        ensures
            error is CapacityExceeded,
    {
        Error::CapacityExceeded
    }

    /// The error for a malformed frame.
    pub fn from_violation(v: ProtocolViolation) -> (error: Error)
        ensures
            error == Error::ProtocolViolation(v),
    {
        Error::ProtocolViolation(v)
    }

    /// The error for a relay at `address` that was not registered.
    pub fn from_register(e: RegisterError, address: String) -> (error: Error)
        ensures
            e == RegisterError::Unreachable ==> error == Error::Unreachable(address),
            e == RegisterError::CapacityExceeded ==> error is CapacityExceeded,
    {
        match e {
            RegisterError::Unreachable => Error::Unreachable(address),
            RegisterError::CapacityExceeded => Error::CapacityExceeded,
        }
    }
}

} // verus!
