//! The failures this library reports.

use vstd::prelude::*;

verus! {

/// Every failure is handed to the caller unchanged: nothing is retried and
/// nothing is recovered from locally.
#[derive(Clone, Copy, Debug, PartialEq, Eq, Structural)]
pub enum Error {
    /// The key store holds no key pair for the address.
    KeyNotFound,
    /// Bytes that are not the canonical encoding of a value, or a value
    /// that has no canonical encoding.
    MalformedData,
    /// A connection could not be established.
    ConnectionError,
    /// A request was made on a connection that is not connected.
    NotConnected,
    /// The transport failed while a request was in flight.
    TransportError,
}

impl Error {
    /// A short description for messages to the user.
    pub fn describe(&self) -> (text: &'static str)
        ensures
            text@ == Self::description(*self),
    {
        match self {
            Error::KeyNotFound => "no key pair is known for the address",
            Error::MalformedData => "the data does not follow the canonical encoding",
            Error::ConnectionError => "the connection to the node could not be established",
            Error::NotConnected => "the connection is not in the connected state",
            Error::TransportError => "the transport failed before a response arrived",
        }
    }

    /// The text that [`Error::describe`] returns for each failure.
    pub open spec fn description(e: Error) -> Seq<char> {
        match e {
            Error::KeyNotFound => "no key pair is known for the address"@,
            Error::MalformedData => "the data does not follow the canonical encoding"@,
            Error::ConnectionError => "the connection to the node could not be established"@,
            Error::NotConnected => "the connection is not in the connected state"@,
            Error::TransportError => "the transport failed before a response arrived"@,
        }
    }
}

} // verus!
