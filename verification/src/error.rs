//! Error values of the synchronization core.

use vstd::prelude::*;
use vstd::string::*;

verus! {

/// A resource never became ready within its retry budget; fatal to
/// the affected bridge instance only, never retried further.
#[derive(Clone, Debug, PartialEq, Eq)]
pub struct TimeoutError(pub String);

impl TimeoutError {
    /// The operator-facing description of the timeout.
    pub fn message(&self) -> (r: String)
        ensures
            r@ == "Timed out while "@ + self.0@,
    {
        let mut r = ("Timed out while ").to_owned();
        r.append(self.0.as_str());
        r
    }
}

/// A session's duplex connection failed on read or write; recovered
/// locally by dropping the session or reconnecting.
#[derive(Clone, Debug, PartialEq, Eq)]
pub struct ConnectionClosedError(pub String);

impl ConnectionClosedError {
    /// The operator-facing description of the lost connection.
    pub fn message(&self) -> (r: String)
        ensures
            r@ == "Connection to "@ + self.0@ + " was closed"@,
    {
        let mut r = ("Connection to ").to_owned();
        r.append(self.0.as_str());
        r.append(" was closed");
        r
    }
}

/// A malformed synchronization frame; terminates the receiving peer's
/// current connection attempt.
#[derive(Clone, Copy, Debug, PartialEq, Eq, Structural)]
pub enum ProtocolError {
    /// A property-update frame without the NUL separator.
    MissingSeparator,
    /// The bytes before the separator are not valid text.
    InvalidProperty,
    /// The bytes after the separator are not valid text.
    InvalidValue,
}

} // verus!
