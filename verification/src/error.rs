//! Error taxonomy of the gateway core.

use vstd::prelude::*;
use vstd::string::StringSliceAdditionalSpecFns;

verus! {

/// Plain textual error carrier, the shape ad-hoc failures surface in.
pub struct StringError(pub String);

impl StringError {
    /// The message text.
    pub fn message(&self) -> (r: &String)
        ensures
            r@ == self.0@,
    {
        &self.0
    }
}

/// Everything a command exchange or a transport can fail with.
#[derive(Debug)]
pub enum ProtocolError {
    /// The modem answered with the error marker; carries the cleaned reply.
    Remote(Vec<u8>),
    /// No terminator arrived within the response window and nothing remained
    /// after cleaning.
    Timeout,
    /// The transport was never connected, or the connection is gone.
    Disconnected,
    /// An underlying read, write or bind failed; carries the diagnostic text.
    Io(Vec<u8>),
    /// The subprocess helper exited nonzero; carries its standard error.
    HelperFailed(Vec<u8>),
    /// A session failed the authentication exchange.
    AuthenticationFailed,
}

impl ProtocolError {
    /// The text a failed command is reported with at the gateway boundary.
    pub open spec fn message_spec(&self) -> Seq<u8> {
        match self {
            ProtocolError::Remote(m) => m@,
            ProtocolError::Timeout => "TIMEOUT".spec_bytes(),
            ProtocolError::Disconnected => "Disconnected".spec_bytes(),
            ProtocolError::Io(m) => m@,
            ProtocolError::HelperFailed(m) => m@,
            ProtocolError::AuthenticationFailed => "Authentication failed".spec_bytes(),
        }
    }

    /// The text a failed command is reported with at the gateway boundary.
    pub fn message_bytes(&self) -> (r: Vec<u8>)
        ensures
            r@ == self.message_spec(),
    {
        match self {
            ProtocolError::Remote(m) => vstd::slice::slice_to_vec(m.as_slice()),
            ProtocolError::Timeout => crate::scan::str_bytes("TIMEOUT"),
            ProtocolError::Disconnected => crate::scan::str_bytes("Disconnected"),
            ProtocolError::Io(m) => vstd::slice::slice_to_vec(m.as_slice()),
            ProtocolError::HelperFailed(m) => vstd::slice::slice_to_vec(m.as_slice()),
            ProtocolError::AuthenticationFailed => crate::scan::str_bytes("Authentication failed"),
        }
    }
}

} // verus!
