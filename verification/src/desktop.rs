//! What callers on a desktop get from whichever backend there is.
use vstd::prelude::*;

use crate::models::{ConnectResult, GetScannedDevicesResult, SPPDevice};
use crate::text;

verus! {

/// The answers to callers on a desktop.
pub struct BtclassicSpp;

impl BtclassicSpp {
    /// The devices that were found, as an answer.
    pub fn get_scanned_devices(&self, devices: Vec<SPPDevice>) -> (r: GetScannedDevicesResult)
        ensures
            r.ret == devices,
    {
        GetScannedDevicesResult { ret: devices }
    }

    /// Whether a connection was made or accepted, as an answer.
    pub fn connect(&self, success: bool) -> (r: ConnectResult)
        ensures
            r.ret == success,
    {
        ConnectResult { ret: success }
    }

    /// What is known of a connected device, or that no device is connected.
    pub fn get_connected_device_info(&self, addr: &str, device: Option<SPPDevice>) -> (r: Result<
        SPPDevice,
        String,
    >)
        ensures
            match device {
                Some(device) => r matches Ok(known) && known@ == device@,
                None => r matches Err(message) && message@ == "No device connected for "@ + addr@,
            },
    {
        match device {
            Some(device) => Ok(device),
            None => Err(text::joined("No device connected for ", addr)),
        }
    }
}

/// Answers hold what the backend said; a device that is not connected is named by the address that
/// was asked for.
pub proof fn law_answers(
    plugin: &BtclassicSpp,
    devices: Vec<SPPDevice>,
    listed: GetScannedDevicesResult,
    success: bool,
    connected: ConnectResult,
    addr: &str,
    device: Option<SPPDevice>,
    known: Result<SPPDevice, String>,
)
    requires
        call_ensures(BtclassicSpp::get_scanned_devices, (plugin, devices), listed),
        call_ensures(BtclassicSpp::connect, (plugin, success), connected),
        call_ensures(BtclassicSpp::get_connected_device_info, (plugin, addr, device), known),
    ensures
        listed.ret@ == devices@,
        connected.ret == success,
        device matches Some(there) ==> (known matches Ok(told) && told@ == there@),
        device is None ==> (known matches Err(message) && message@ == "No device connected for "@
            + addr@),
{
}

} // verus!
