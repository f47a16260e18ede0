//! What can go wrong with an IOBluetooth connection.
use vstd::prelude::*;

use crate::text;

verus! {

/// Why a request was refused or failed.
#[derive(Debug, PartialEq, Eq)]
pub enum MacError {
    /// No inquiry could be created.
    InquiryNotCreated,
    /// The inquiry did not start; holds its status.
    ScanNotStarted(i32),
    /// A scan would disturb the connections that are being made.
    ScanWhileConnecting,
    /// An earlier session with the device at this address is still closing.
    StillClosing(String),
    /// There is no device at this address.
    DeviceNotFound(String),
    /// The caller would wait for itself.
    SendOnMainLoop,
    /// There is no open session with the device.
    NotConnected,
    /// Another send to the device has not ended.
    SendInProgress,
}

impl MacError {
    /// The message that tells a user what went wrong.
    pub open spec fn message(self) -> Seq<char> {
        match self {
            MacError::InquiryNotCreated => "Failed to create Bluetooth inquiry"@,
            MacError::ScanNotStarted(status) => "Failed to start scan, error code: "@
                + text::signed_decimal(status as int),
            MacError::ScanWhileConnecting => "Cannot start Bluetooth inquiry while connecting"@,
            MacError::StillClosing(addr) => "Previous RFCOMM session is still closing for "@
                + addr@,
            MacError::DeviceNotFound(addr) => "Device not found for "@ + addr@,
            MacError::SendOnMainLoop =>
                "Synchronous RFCOMM send cannot wait on the main run loop"@,
            MacError::NotConnected => "Device not connected, cannot send data"@,
            MacError::SendInProgress => "RFCOMM send already in progress"@,
        }
    }

    /// The message that tells a user what went wrong.
    pub fn text(&self) -> (r: String)
        ensures
            r@ == self.message(),
    {
        match self {
            MacError::InquiryNotCreated => "Failed to create Bluetooth inquiry".to_owned(),
            MacError::ScanNotStarted(status) => text::joined(
                "Failed to start scan, error code: ",
                text::signed_decimal_text(*status).as_str(),
            ),
            MacError::ScanWhileConnecting => {
                "Cannot start Bluetooth inquiry while connecting".to_owned()
            },
            MacError::StillClosing(addr) => text::joined(
                "Previous RFCOMM session is still closing for ",
                addr.as_str(),
            ),
            MacError::DeviceNotFound(addr) => text::joined("Device not found for ", addr.as_str()),
            MacError::SendOnMainLoop => {
                "Synchronous RFCOMM send cannot wait on the main run loop".to_owned()
            },
            MacError::NotConnected => "Device not connected, cannot send data".to_owned(),
            MacError::SendInProgress => "RFCOMM send already in progress".to_owned(),
        }
    }
}

/// Every error is told in its own words, with the status or the address that it holds.
pub proof fn law_every_error_is_told(error: &MacError, r: String)
    requires
        call_ensures(MacError::text, (error,), r),
    ensures
        error is InquiryNotCreated ==> r@ == "Failed to create Bluetooth inquiry"@,
        error matches MacError::ScanNotStarted(status) ==> r@
            == "Failed to start scan, error code: "@ + text::signed_decimal(*status as int),
        error is ScanWhileConnecting ==> r@ == "Cannot start Bluetooth inquiry while connecting"@,
        error matches MacError::StillClosing(addr) ==> r@
            == "Previous RFCOMM session is still closing for "@ + addr@,
        error matches MacError::DeviceNotFound(addr) ==> r@ == "Device not found for "@ + addr@,
        error is SendOnMainLoop ==> r@
            == "Synchronous RFCOMM send cannot wait on the main run loop"@,
        error is NotConnected ==> r@ == "Device not connected, cannot send data"@,
        error is SendInProgress ==> r@ == "RFCOMM send already in progress"@,
{
}

} // verus!
