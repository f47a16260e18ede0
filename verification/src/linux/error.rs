//! What can go wrong with a BlueZ connection.
use vstd::prelude::*;

use crate::text;

verus! {

/// Why a request was refused or failed.
#[derive(Debug, PartialEq, Eq)]
pub enum LinuxError {
    /// The address cannot be read; holds what is wrong with it.
    InvalidAddress(String),
    /// Every connection attempt failed; holds the last failure.
    ConnectFailed(Option<String>),
    /// There is no connection to the device.
    NotConnected,
    /// Nobody listens for data from the device.
    ListenerNotSet,
    /// The connection went away while its reader was started.
    ConnectionWasClosed,
}

impl LinuxError {
    /// The message that tells a user what went wrong.
    pub open spec fn message(self) -> Seq<char> {
        match self {
            LinuxError::InvalidAddress(reason) => "Invalid address format: "@ + reason@,
            LinuxError::ConnectFailed(last) =>
                "Failed to connect through SPP UUID or fallback channels: "@ + text::optional_text(
                text::text_of(last),
            ),
            LinuxError::NotConnected => "Not connected"@,
            LinuxError::ListenerNotSet => "Data listener not set"@,
            LinuxError::ConnectionWasClosed => "Connection was closed"@,
        }
    }

    /// The message that tells a user what went wrong.
    pub fn text(&self) -> (r: String)
        ensures
            r@ == self.message(),
    {
        match self {
            LinuxError::InvalidAddress(reason) => text::joined(
                "Invalid address format: ",
                reason.as_str(),
            ),
            LinuxError::ConnectFailed(last) => text::joined(
                "Failed to connect through SPP UUID or fallback channels: ",
                text::optional_failure_text(last).as_str(),
            ),
            LinuxError::NotConnected => "Not connected".to_owned(),
            LinuxError::ListenerNotSet => "Data listener not set".to_owned(),
            LinuxError::ConnectionWasClosed => "Connection was closed".to_owned(),
        }
    }
}

} // verus!
