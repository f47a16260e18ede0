//! What can go wrong with a WinSock connection.
use vstd::prelude::*;

use crate::text;

verus! {

/// How long one send may block, in milliseconds; a link that is half dead would block forever.
pub const SEND_TIMEOUT_MS: u32 = 20_000;

/// Why an attempt to connect failed.
#[derive(Debug, PartialEq, Eq)]
pub enum AttemptError {
    /// Neither a service nor a channel was asked for.
    NoTarget,
    /// The call for a socket failed; holds its message.
    SocketCall(String),
    /// No socket was made; holds the error code.
    NoSocket(i32),
    /// The device was not reached; holds what was asked for, and the error code.
    NotConnected { service: u128, port: u32, code: i32 },
}

impl AttemptError {
    /// The message that tells a developer what went wrong, with its cause.
    pub open spec fn message(self) -> Seq<char> {
        match self {
            AttemptError::NoTarget =>
                "Either service_guid or port_channel must be specified for connect attempt"@,
            AttemptError::SocketCall(reason) => reason@,
            AttemptError::NoSocket(code) => "Failed to create socket: "@ + text::signed_decimal(
                code as int,
            ),
            AttemptError::NotConnected { service, port, code } =>
                "Connection failed for service "@ + (text::hex_fixed(service as nat, 32) + (
                "/port "@ + (text::decimal(port as nat) + (
                "\n\nCaused by:\n    connect failed with Win32 error "@ + text::signed_decimal(
                    code as int,
                ))))),
        }
    }

    /// The message that tells a developer what went wrong, with its cause.
    pub fn text(&self) -> (r: String)
        ensures
            r@ == self.message(),
    {
        match self {
            AttemptError::NoTarget => {
                "Either service_guid or port_channel must be specified for connect attempt".to_owned()
            },
            AttemptError::SocketCall(reason) => reason.clone(),
            AttemptError::NoSocket(code) => text::joined(
                "Failed to create socket: ",
                text::signed_decimal_text(*code).as_str(),
            ),
            AttemptError::NotConnected { service, port, code } => text::joined(
                "Connection failed for service ",
                text::joined(
                    text::hex_text(*service, 32).as_str(),
                    text::joined(
                        "/port ",
                        text::joined(
                            text::decimal_text(*port as u64).as_str(),
                            text::joined(
                                "\n\nCaused by:\n    connect failed with Win32 error ",
                                text::signed_decimal_text(*code).as_str(),
                            ).as_str(),
                        ).as_str(),
                    ).as_str(),
                ).as_str(),
            ),
        }
    }
}

/// Why a request was refused or failed.
#[derive(Debug, PartialEq, Eq)]
pub enum WinError {
    /// An address does not have six fields.
    InvalidAddress(String),
    /// A field of an address is no byte.
    InvalidHexByte(String),
    /// A handle for an event could not be had.
    InvalidEvent,
    /// WinSock could not be started; holds the error code.
    WinsockNotStarted(i32),
    /// Every attempt to connect failed; holds the address and the last failure.
    ConnectFailed(String, Option<AttemptError>),
    /// Pairing failed; holds the address and the error code.
    PairingFailed(String, u32),
    /// There is no connection to read from.
    CannotSubscribe,
    /// There is no connection to write to.
    CannotSend,
    /// The connection is being closed.
    Closing,
    /// A send blocked for too long.
    SendTimedOut,
    /// A send failed; holds the error code.
    SendFailed(i32),
}

/// The messages of an optional failure.
pub open spec fn failure_message(failure: Option<AttemptError>) -> Option<Seq<char>> {
    match failure {
        Some(failure) => Some(failure.message()),
        None => None,
    }
}

/// The text of an optional failure.
fn failure_text(failure: &Option<AttemptError>) -> (r: String)
    ensures
        r@ == text::optional_text(failure_message(*failure)),
{
    match failure {
        Some(failure) => text::optional_failure_text(&Some(failure.text())),
        None => text::optional_failure_text(&None),
    }
}

impl WinError {
    /// The message that tells a user what went wrong.
    pub open spec fn message(self) -> Seq<char> {
        match self {
            WinError::InvalidAddress(addr) => "Invalid Bluetooth address format: "@ + addr@,
            WinError::InvalidHexByte(field) => "Invalid hex byte in address: "@ + field@,
            WinError::InvalidEvent => "CreateEventW returned an invalid handle"@,
            WinError::WinsockNotStarted(code) => "WSAStartup failed with error: "@
                + text::signed_decimal(code as int),
            WinError::ConnectFailed(addr, last) =>
                "SPP Service UUID and fallback RFCOMM channels failed for "@ + (addr@ + (": "@
                + text::optional_text(failure_message(last)))),
            WinError::PairingFailed(addr, code) => "BluetoothAuthenticateDeviceEx failed for "@ + (
            addr@ + (": "@ + text::decimal(code as nat))),
            WinError::CannotSubscribe => "Not connected. Cannot start subscription."@,
            WinError::CannotSend => "Not connected. Cannot send data."@,
            WinError::Closing => "Connection is closing. Cannot send data."@,
            WinError::SendTimedOut => "send timed out after "@ + (text::decimal(
                SEND_TIMEOUT_MS as nat,
            ) + "ms; connection torn down"@),
            WinError::SendFailed(code) => "send failed with error "@ + (text::signed_decimal(
                code as int,
            ) + "; connection torn down"@),
        }
    }

    /// The message that tells a user what went wrong.
    pub fn text(&self) -> (r: String)
        ensures
            r@ == self.message(),
    {
        match self {
            WinError::InvalidAddress(addr) => text::joined(
                "Invalid Bluetooth address format: ",
                addr.as_str(),
            ),
            WinError::InvalidHexByte(field) => text::joined(
                "Invalid hex byte in address: ",
                field.as_str(),
            ),
            WinError::InvalidEvent => "CreateEventW returned an invalid handle".to_owned(),
            WinError::WinsockNotStarted(code) => text::joined(
                "WSAStartup failed with error: ",
                text::signed_decimal_text(*code).as_str(),
            ),
            WinError::ConnectFailed(addr, last) => text::joined(
                "SPP Service UUID and fallback RFCOMM channels failed for ",
                text::joined(
                    addr.as_str(),
                    text::joined(": ", failure_text(last).as_str()).as_str(),
                ).as_str(),
            ),
            WinError::PairingFailed(addr, code) => text::joined(
                "BluetoothAuthenticateDeviceEx failed for ",
                text::joined(
                    addr.as_str(),
                    text::joined(": ", text::decimal_text(*code as u64).as_str()).as_str(),
                ).as_str(),
            ),
            WinError::CannotSubscribe => "Not connected. Cannot start subscription.".to_owned(),
            WinError::CannotSend => "Not connected. Cannot send data.".to_owned(),
            WinError::Closing => "Connection is closing. Cannot send data.".to_owned(),
            WinError::SendTimedOut => text::joined(
                "send timed out after ",
                text::joined(
                    text::decimal_text(SEND_TIMEOUT_MS as u64).as_str(),
                    "ms; connection torn down",
                ).as_str(),
            ),
            WinError::SendFailed(code) => text::joined(
                "send failed with error ",
                text::joined(
                    text::signed_decimal_text(*code).as_str(),
                    "; connection torn down",
                ).as_str(),
            ),
        }
    }
}

} // verus!
