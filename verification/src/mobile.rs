//! The mobile backend: what is asked of the native plugin, and what comes back from it.
use base64::Engine;
use vstd::prelude::*;

use crate::bytes;
use crate::models::{ConnectArg, GetMaxSendLenResult};
use crate::text;

verus! {

/// The text that `base64::engine::general_purpose::STANDARD.encode` makes of bytes.
pub uninterp spec fn base64_encoded(data: Seq<u8>) -> Seq<char>;

/// The bytes that `base64::engine::general_purpose::STANDARD.decode` makes of a text, or the
/// message of the error with which it refuses the text.
pub uninterp spec fn base64_decoded(encoded: Seq<char>) -> Result<Seq<u8>, Seq<char>>;

/// Whether the encoded form of so many bytes fits in memory.
pub open spec fn encodable(len: int) -> bool {
    (len / 3) * 4 + 4 <= isize::MAX
}

/// Encodes bytes with `base64::engine::general_purpose::STANDARD.encode`. The text is named
/// [`base64_encoded`]; what is stated of it is that it decodes to the bytes again. The call
/// panics where the text would not fit in memory.
#[verifier::external_body]
fn encode(data: &[u8]) -> (r: String)
    requires
        encodable(data@.len() as int),
    ensures
        r@ == base64_encoded(data@),
        base64_decoded(r@) is Ok,
        base64_decoded(r@)->Ok_0 == data@,
{
    base64::engine::general_purpose::STANDARD.encode(data)
}

/// What the bytes or the message of a decoded text are.
pub open spec fn decoded_view(decoded: Result<Vec<u8>, String>) -> Result<Seq<u8>, Seq<char>> {
    match decoded {
        Ok(data) => Ok(data@),
        Err(reason) => Err(reason@),
    }
}

/// Decodes a text with `base64::engine::general_purpose::STANDARD.decode`; an error is turned
/// into its message. The result is named [`base64_decoded`].
#[verifier::external_body]
fn decode(encoded: &str) -> (r: Result<Vec<u8>, String>)
    ensures
        decoded_view(r) == base64_decoded(encoded@),
{
    match base64::engine::general_purpose::STANDARD.decode(encoded) {
        Ok(data) => Ok(data),
        Err(error) => Err(error.to_string()),
    }
}

/// What goes with a command.
#[derive(Debug, PartialEq, Eq)]
pub enum Argument {
    Nothing,
    Address { addr: String },
    /// An address and a channel for events.
    AddressChannel { addr: String },
    Connect(ConnectArg),
    AddressSend { addr: String, b64data: String },
}

/// A command for the native plugin.
#[derive(Debug, PartialEq, Eq)]
pub struct Invocation {
    pub command: &'static str,
    pub argument: Argument,
}

/// Whether an invocation is a command that goes with nothing.
pub open spec fn plain(invocation: Invocation, command: Seq<char>) -> bool {
    invocation.command@ == command && invocation.argument is Nothing
}

/// Whether an invocation is a command that goes with an address.
pub open spec fn with_address(invocation: Invocation, command: Seq<char>, addr: Seq<char>) -> bool {
    &&& invocation.command@ == command
    &&& invocation.argument matches Argument::Address { addr: to }
    &&& to@ == addr
}

/// Whether an invocation is a command that goes with an address and a channel for events.
pub open spec fn with_channel(invocation: Invocation, command: Seq<char>, addr: Seq<char>) -> bool {
    &&& invocation.command@ == command
    &&& invocation.argument matches Argument::AddressChannel { addr: to }
    &&& to@ == addr
}

/// Whether an invocation is a request to connect.
pub open spec fn connects(
    invocation: Invocation,
    command: Seq<char>,
    addr: Seq<char>,
    remove_bond: bool,
    fallback_channels: Seq<u8>,
) -> bool {
    &&& invocation.command@ == command
    &&& invocation.argument matches Argument::Connect(arg)
    &&& arg.addr@ == addr
    &&& arg.remove_bond == remove_bond
    &&& arg.fallback_channels@ == fallback_channels
}

/// Whether an invocation sends bytes: the text that goes with it is their encoded form, and the
/// bytes can be read from it again.
pub open spec fn sends(
    invocation: Invocation,
    command: Seq<char>,
    addr: Seq<char>,
    data: Seq<u8>,
) -> bool {
    &&& invocation.command@ == command
    &&& invocation.argument matches Argument::AddressSend { addr: to, b64data }
    &&& to@ == addr
    &&& b64data@ == base64_encoded(data)
    &&& base64_decoded(b64data@) == Ok::<Seq<u8>, Seq<char>>(data)
}

/// The commands of the native plugin.
pub struct BtclassicSpp;

impl BtclassicSpp {
    /// Scan for devices.
    pub fn start_scan(&self) -> (r: Invocation)
        ensures
            plain(r, "startScan"@),
    {
        Invocation { command: "startScan", argument: Argument::Nothing }
    }

    /// End the scan.
    pub fn stop_scan(&self) -> (r: Invocation)
        ensures
            plain(r, "stopScan"@),
    {
        Invocation { command: "stopScan", argument: Argument::Nothing }
    }

    /// Scan for low-energy devices.
    pub fn start_ble_scan(&self) -> (r: Invocation)
        ensures
            plain(r, "startBleScan"@),
    {
        Invocation { command: "startBleScan", argument: Argument::Nothing }
    }

    /// End the scan for low-energy devices.
    pub fn stop_ble_scan(&self) -> (r: Invocation)
        ensures
            plain(r, "stopBleScan"@),
    {
        Invocation { command: "stopBleScan", argument: Argument::Nothing }
    }

    /// Connect to a device.
    pub fn connect(&self, addr: &str, remove_bond: bool, fallback_channels: &[u8]) -> (r: Invocation)
        ensures
            connects(r, "connect"@, addr@, remove_bond, fallback_channels@),
    {
        Invocation {
            command: "connect",
            argument: Argument::Connect(
                ConnectArg {
                    addr: addr.to_owned(),
                    remove_bond,
                    fallback_channels: bytes::copy_of_all(fallback_channels),
                },
            ),
        }
    }

    /// Connect to a low-energy device.
    pub fn connect_ble(&self, addr: &str) -> (r: Invocation)
        ensures
            connects(r, "connectBle"@, addr@, false, Seq::<u8>::empty()),
    {
        Invocation {
            command: "connectBle",
            argument: Argument::Connect(
                ConnectArg {
                    addr: addr.to_owned(),
                    remove_bond: false,
                    fallback_channels: Vec::new(),
                },
            ),
        }
    }

    /// End the connection to a device.
    pub fn disconnect(&self, addr: &str) -> (r: Invocation)
        ensures
            with_address(r, "disconnect"@, addr@),
    {
        Invocation { command: "disconnect", argument: Argument::Address { addr: addr.to_owned() } }
    }

    /// End the connection to a low-energy device.
    pub fn disconnect_ble(&self, addr: &str) -> (r: Invocation)
        ensures
            with_address(r, "disconnectBle"@, addr@),
    {
        Invocation {
            command: "disconnectBle",
            argument: Argument::Address { addr: addr.to_owned() },
        }
    }

    /// Read what a device sends.
    pub fn start_subscription(&self, addr: &str) -> (r: Invocation)
        ensures
            with_address(r, "startSubscription"@, addr@),
    {
        Invocation {
            command: "startSubscription",
            argument: Argument::Address { addr: addr.to_owned() },
        }
    }

    /// Read what a low-energy device sends.
    pub fn start_ble_subscription(&self, addr: &str) -> (r: Invocation)
        ensures
            with_address(r, "startBleSubscription"@, addr@),
    {
        Invocation {
            command: "startBleSubscription",
            argument: Argument::Address { addr: addr.to_owned() },
        }
    }

    /// Send bytes to a device.
    pub fn send(&self, addr: &str, data: &[u8]) -> (r: Invocation)
        requires
            encodable(data@.len() as int),
        ensures
            sends(r, "send"@, addr@, data@),
    {
        Invocation {
            command: "send",
            argument: Argument::AddressSend { addr: addr.to_owned(), b64data: encode(data) },
        }
    }

    /// Send bytes to a low-energy device.
    pub fn send_ble(&self, addr: &str, data: &[u8]) -> (r: Invocation)
        requires
            encodable(data@.len() as int),
        ensures
            sends(r, "sendBle"@, addr@, data@),
    {
        Invocation {
            command: "sendBle",
            argument: Argument::AddressSend { addr: addr.to_owned(), b64data: encode(data) },
        }
    }

    /// List the devices that were found.
    pub fn get_scanned_devices(&self) -> (r: Invocation)
        ensures
            plain(r, "getScannedDevices"@),
    {
        Invocation { command: "getScannedDevices", argument: Argument::Nothing }
    }

    /// List the low-energy devices that were found.
    pub fn get_ble_scanned_devices(&self) -> (r: Invocation)
        ensures
            plain(r, "getBleScannedDevices"@),
    {
        Invocation { command: "getBleScannedDevices", argument: Argument::Nothing }
    }

    /// Tell what is known of a connected device.
    pub fn get_connected_device_info(&self, addr: &str) -> (r: Invocation)
        ensures
            with_address(r, "getConnectedDeviceInfo"@, addr@),
    {
        Invocation {
            command: "getConnectedDeviceInfo",
            argument: Argument::Address { addr: addr.to_owned() },
        }
    }

    /// Tell how many bytes one write to a device may hold.
    pub fn get_max_send_len(&self, addr: &str) -> (r: Invocation)
        ensures
            with_address(r, "getMaxSendLen"@, addr@),
    {
        Invocation {
            command: "getMaxSendLen",
            argument: Argument::Address { addr: addr.to_owned() },
        }
    }

    /// Tell how many bytes one write to a low-energy device may hold.
    pub fn get_ble_max_send_len(&self, addr: &str) -> (r: Invocation)
        ensures
            with_address(r, "getBleMaxSendLen"@, addr@),
    {
        Invocation {
            command: "getBleMaxSendLen",
            argument: Argument::Address { addr: addr.to_owned() },
        }
    }

    /// Tell when a device is connected.
    pub fn on_connected(&self, addr: &str) -> (r: Invocation)
        ensures
            with_channel(r, "onConnected"@, addr@),
    {
        Invocation {
            command: "onConnected",
            argument: Argument::AddressChannel { addr: addr.to_owned() },
        }
    }

    /// Tell what a device sends.
    pub fn set_data_listener(&self, addr: &str) -> (r: Invocation)
        ensures
            with_channel(r, "setDataListener"@, addr@),
    {
        Invocation {
            command: "setDataListener",
            argument: Argument::AddressChannel { addr: addr.to_owned() },
        }
    }
}

/// How many bytes one write may hold, as the native plugin answers it.
pub fn max_send_len(answer: GetMaxSendLenResult) -> (r: Option<usize>)
    ensures
        r == answer.ret,
{
    answer.ret
}

/// What the native plugin reports of a device.
#[derive(Debug, PartialEq, Eq)]
pub struct DataMessage {
    /// The encoded bytes.
    pub ret: String,
    pub err: Option<String>,
}

/// What a listener is told when the encoded bytes of a report were decoded, or not.
pub open spec fn told_of_bytes(decoded: Result<Seq<u8>, Seq<char>>) -> Result<Seq<u8>, Seq<char>> {
    match decoded {
        Ok(data) => Ok(data),
        Err(reason) => Err("Base64 decode error from mobile: "@ + reason),
    }
}

/// What a listener is told when the encoded bytes of a report were decoded, or not.
pub fn decoded_message(decoded: Result<Vec<u8>, String>) -> (r: Result<Vec<u8>, String>)
    ensures
        decoded_view(r) == told_of_bytes(decoded_view(decoded)),
{
    match decoded {
        Ok(data) => Ok(data),
        Err(reason) => Err(text::joined("Base64 decode error from mobile: ", reason.as_str())),
    }
}

/// What a listener is told of a report; `message` is the report, or why it cannot be read.
pub fn data_message(message: Result<DataMessage, String>) -> (r: Result<Vec<u8>, String>)
    ensures
        match message {
            Err(reason) => decoded_view(r) == Err::<Seq<u8>, Seq<char>>(
                "Deserialize error from mobile: "@ + reason@,
            ),
            Ok(report) => match report.err {
                Some(error) => decoded_view(r) == Err::<Seq<u8>, Seq<char>>(error@),
                None => decoded_view(r) == told_of_bytes(base64_decoded(report.ret@)),
            },
        },
{
    match message {
        Err(reason) => Err(text::joined("Deserialize error from mobile: ", reason.as_str())),
        Ok(report) => match report.err {
            Some(error) => Err(error),
            None => decoded_message(decode(report.ret.as_str())),
        },
    }
}

/// What was sent is what a listener on the other side is told: bytes come through the encoded
/// form unchanged.
pub proof fn law_sent_bytes_arrive(
    invocation: Invocation,
    command: Seq<char>,
    addr: Seq<char>,
    data: Seq<u8>,
)
    requires
        sends(invocation, command, addr, data),
    ensures
        invocation.argument matches Argument::AddressSend { b64data, .. } && told_of_bytes(
            base64_decoded(b64data@),
        ) == Ok::<Seq<u8>, Seq<char>>(data),
{
}

/// A request to connect is handed on as it is: the address, whether the bond is to be removed, and
/// all channels in their order. A low-energy device has neither a bond to remove nor channels.
pub proof fn law_requests_to_connect(
    plugin: &BtclassicSpp,
    addr: &str,
    remove_bond: bool,
    channels: &[u8],
    classic: Invocation,
    low_energy: Invocation,
)
    requires
        call_ensures(BtclassicSpp::connect, (plugin, addr, remove_bond, channels), classic),
        call_ensures(BtclassicSpp::connect_ble, (plugin, addr), low_energy),
    ensures
        classic.command@ == "connect"@,
        classic.argument matches Argument::Connect(arg) && arg.addr@ == addr@ && arg.remove_bond
            == remove_bond && arg.fallback_channels@ == channels@,
        low_energy.command@ == "connectBle"@,
        low_energy.argument matches Argument::Connect(arg) && arg.addr@ == addr@
            && !arg.remove_bond && arg.fallback_channels@.len() == 0,
{
}

/// Bytes that are sent go to the address that was asked for, and are read again as they were, all
/// of them.
pub proof fn law_requests_to_send(
    plugin: &BtclassicSpp,
    addr: &str,
    data: &[u8],
    classic: Invocation,
    low_energy: Invocation,
    message: DataMessage,
    told: Result<Vec<u8>, String>,
)
    requires
        call_ensures(BtclassicSpp::send, (plugin, addr, data), classic),
        call_ensures(BtclassicSpp::send_ble, (plugin, addr, data), low_energy),
        call_ensures(data_message, (Ok::<DataMessage, String>(message),), told),
        message.err is None,
        classic.argument matches Argument::AddressSend { b64data, .. } ==> b64data@ == message.ret@,
    ensures
        classic.command@ == "send"@,
        classic.argument matches Argument::AddressSend { addr: to, b64data } && to@ == addr@
            && b64data@ == base64_encoded(data@),
        low_energy.command@ == "sendBle"@,
        low_energy.argument matches Argument::AddressSend { addr: to, b64data } && to@ == addr@
            && b64data@ == base64_encoded(data@),
        told matches Ok(bytes) && bytes@ == data@,
{
}

/// Commands that go with an address name it as it was given, and the commands of the two kinds of
/// devices differ.
pub proof fn law_requests_with_an_address(
    plugin: &BtclassicSpp,
    addr: &str,
    a: Invocation,
    b: Invocation,
    c: Invocation,
    d: Invocation,
    e: Invocation,
    f: Invocation,
    g: Invocation,
)
    requires
        call_ensures(BtclassicSpp::disconnect, (plugin, addr), a),
        call_ensures(BtclassicSpp::disconnect_ble, (plugin, addr), b),
        call_ensures(BtclassicSpp::start_subscription, (plugin, addr), c),
        call_ensures(BtclassicSpp::start_ble_subscription, (plugin, addr), d),
        call_ensures(BtclassicSpp::get_connected_device_info, (plugin, addr), e),
        call_ensures(BtclassicSpp::get_max_send_len, (plugin, addr), f),
        call_ensures(BtclassicSpp::get_ble_max_send_len, (plugin, addr), g),
    ensures
        a.command@ == "disconnect"@,
        b.command@ == "disconnectBle"@,
        c.command@ == "startSubscription"@,
        d.command@ == "startBleSubscription"@,
        e.command@ == "getConnectedDeviceInfo"@,
        f.command@ == "getMaxSendLen"@,
        g.command@ == "getBleMaxSendLen"@,
        a.argument matches Argument::Address { addr: to } && to@ == addr@,
        b.argument matches Argument::Address { addr: to } && to@ == addr@,
        c.argument matches Argument::Address { addr: to } && to@ == addr@,
        d.argument matches Argument::Address { addr: to } && to@ == addr@,
        e.argument matches Argument::Address { addr: to } && to@ == addr@,
        f.argument matches Argument::Address { addr: to } && to@ == addr@,
        g.argument matches Argument::Address { addr: to } && to@ == addr@,
{
}

/// Commands that report events name the address as it was given; the others go with nothing.
pub proof fn law_other_requests(
    plugin: &BtclassicSpp,
    addr: &str,
    connected: Invocation,
    listener: Invocation,
    a: Invocation,
    b: Invocation,
    c: Invocation,
    d: Invocation,
    e: Invocation,
    f: Invocation,
    answer: GetMaxSendLenResult,
    len: Option<usize>,
)
    requires
        call_ensures(BtclassicSpp::on_connected, (plugin, addr), connected),
        call_ensures(BtclassicSpp::set_data_listener, (plugin, addr), listener),
        call_ensures(BtclassicSpp::start_scan, (plugin,), a),
        call_ensures(BtclassicSpp::stop_scan, (plugin,), b),
        call_ensures(BtclassicSpp::start_ble_scan, (plugin,), c),
        call_ensures(BtclassicSpp::stop_ble_scan, (plugin,), d),
        call_ensures(BtclassicSpp::get_scanned_devices, (plugin,), e),
        call_ensures(BtclassicSpp::get_ble_scanned_devices, (plugin,), f),
        call_ensures(max_send_len, (answer,), len),
    ensures
        connected.command@ == "onConnected"@,
        connected.argument matches Argument::AddressChannel { addr: to } && to@ == addr@,
        listener.command@ == "setDataListener"@,
        listener.argument matches Argument::AddressChannel { addr: to } && to@ == addr@,
        a.command@ == "startScan"@ && a.argument is Nothing,
        b.command@ == "stopScan"@ && b.argument is Nothing,
        c.command@ == "startBleScan"@ && c.argument is Nothing,
        d.command@ == "stopBleScan"@ && d.argument is Nothing,
        e.command@ == "getScannedDevices"@ && e.argument is Nothing,
        f.command@ == "getBleScannedDevices"@ && f.argument is Nothing,
        len == answer.ret,
{
}

/// A listener is told of an error as it is reported, and of bytes as they are decoded; why a report
/// or its bytes cannot be read is told after a word on which of the two it was.
pub proof fn law_reports(
    message: Result<DataMessage, String>,
    r: Result<Vec<u8>, String>,
    decoded: Result<Vec<u8>, String>,
    told: Result<Vec<u8>, String>,
)
    requires
        call_ensures(data_message, (message,), r),
        call_ensures(decoded_message, (decoded,), told),
    ensures
        message matches Err(reason) ==> (r matches Err(text) && text@
            == "Deserialize error from mobile: "@ + reason@),
        message matches Ok(report) ==> (report.err matches Some(error) ==> (r matches Err(text)
            && text@ == error@)),
        message matches Ok(report) ==> (report.err is None ==> (match base64_decoded(report.ret@) {
            Ok(data) => r matches Ok(bytes) && bytes@ == data,
            Err(reason) => r matches Err(text) && text@ == "Base64 decode error from mobile: "@
                + reason,
        })),
        decoded matches Ok(data) ==> (told matches Ok(bytes) && bytes@ == data@),
        decoded matches Err(reason) ==> (told matches Err(text) && text@
            == "Base64 decode error from mobile: "@ + reason@),
{
}

/// What is said of decoded bytes or of an error is said of those bytes or of that error.
pub proof fn law_what_was_decoded(data: Vec<u8>, reason: String)
    ensures
        decoded_view(Ok(data)) == Ok::<Seq<u8>, Seq<char>>(data@),
        decoded_view(Err(reason)) == Err::<Seq<u8>, Seq<char>>(reason@),
{
}

/// Bytes can be sent wherever their encoded form fits in memory.
pub proof fn law_bytes_that_can_be_sent(plugin: &BtclassicSpp, addr: &str, data: &[u8])
    requires
        (data@.len() / 3) * 4 + 4 <= isize::MAX,
    ensures
        call_requires(BtclassicSpp::send, (plugin, addr, data)),
        call_requires(BtclassicSpp::send_ble, (plugin, addr, data)),
{
}

} // verus!
