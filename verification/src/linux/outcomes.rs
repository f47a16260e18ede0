//! What each call promises, said of what goes into it and what comes out of it.
use vstd::prelude::*;

use crate::linux::address;
use crate::linux::connect;
use crate::linux::connect::{
    Attempt, AttemptResult, ConnectAction, ConnectFinished, ConnectSequence, ConnectStart,
    ServiceAction, ServiceEvent,
};
use crate::linux::error::LinuxError;
use crate::linux::scan;
use crate::linux::scan::{ScanAction, ScanEvent, ScanHandles};
use crate::linux::state;
use crate::linux::state::{DeviceConnection, GlobalState, StateView, StoppedConnection};
use crate::linux::steps::StopStep;
use crate::linux::subscription;
use crate::linux::subscription::{ReadAction, ReadEvent, ReaderStart};
use crate::linux::teardown;
use crate::linux::teardown::Teardown;
use crate::linux::uuid;
use crate::mac_address;
use crate::models::{DeviceView, SPPDevice};
use crate::text;

verus! {

/// What waits for connections is the same in both states.
pub open spec fn same_callbacks(a: StateView, b: StateView) -> bool {
    a.on_connected_callbacks == b.on_connected_callbacks && a.data_listener_callbacks
        == b.data_listener_callbacks
}

/// The scan and what it has found are the same in both states.
pub open spec fn same_scan(a: StateView, b: StateView) -> bool {
    &&& a.adapter == b.adapter
    &&& a.scanned_devices == b.scanned_devices
    &&& a.scan_stop == b.scan_stop
    &&& a.scan_thread == b.scan_thread
}

/// The connections to all devices but the one at `key` are the same in both states.
pub open spec fn same_other_connections(a: StateView, b: StateView, key: Seq<char>) -> bool {
    forall|other: Seq<char>|
        other != key ==> (#[trigger] a.connections.contains_key(other)
            <==> b.connections.contains_key(other)) && (b.connections.contains_key(other)
            ==> a.connections[other] == b.connections[other])
}

/// The limits of the backend, and the service that it asks for.
pub proof fn law_limits()
    ensures
        connect::SPP_SERVICE_UUID@ == "00001101-0000-1000-8000-00805f9b34fb"@,
        connect::CONNECT_TIMEOUT_SECS == 10,
        connect::HIGHEST_CHANNEL == 255,
        subscription::READ_BUFFER_LEN == 1024,
{
}

/// An address is read exactly where it has six fields between colons and each is a byte; its text
/// is then that of those bytes. An error names the first field that is no byte, or else the whole.
pub proof fn law_address(addr: &str, r: Result<(String, [u8; 6]), LinuxError>, i: int)
    requires
        call_ensures(address::normalize_addr, (addr,), r),
    ensures
        ({
            let fields = mac_address::parts_of(addr@, ':');
            let first_bad = 0 <= i < fields.len() && mac_address::hex_byte_value(fields[i]) is None
                && (forall|j: int|
                0 <= j < i ==> mac_address::hex_byte_value(#[trigger] fields[j]) is Some);
            let all_good = forall|j: int|
                0 <= j < fields.len() ==> mac_address::hex_byte_value(#[trigger] fields[j]) is Some;
            &&& r is Ok <==> fields.len() == 6 && all_good
            &&& r matches Ok((key, bytes)) ==> {
                &&& key@ == mac_address::mac_text(bytes@)
                &&& forall|j: int|
                    0 <= j < 6 ==> mac_address::hex_byte_value(#[trigger] fields[j]) == Some(
                        bytes@[j],
                    )
                &&& address::canonical(addr@) == Ok::<Seq<char>, Seq<char>>(key@)
            }
            &&& r matches Err(error) ==> {
                &&& error matches LinuxError::InvalidAddress(reason)
                &&& first_bad ==> reason@ == "invalid Bluetooth address: "@ + fields[i]
                &&& all_good ==> reason@ == "invalid Bluetooth address: "@ + addr@
                &&& address::canonical(addr@) is Err
            }
        }),
{
    let fields = mac_address::parts_of(addr@, ':');
    address::law_fields_are_read_in_order(fields, i);
}

/// A scan that is stopped is no longer known; what it has found stays listed, and connections and
/// callbacks stay.
pub proof fn law_stop_scan(st: &mut GlobalState, r: ScanHandles)
    requires
        call_ensures(scan::stop_scan_impl, (st,), r),
    ensures
        r.stop == old(st)@.scan_stop,
        r.thread == old(st)@.scan_thread,
        final(st)@.scan_stop is None,
        final(st)@.scan_thread is None,
        final(st)@.scanned_devices == old(st)@.scanned_devices,
        final(st)@.adapter == old(st)@.adapter,
        final(st)@.connections == old(st)@.connections,
        same_callbacks(final(st)@, old(st)@),
{
}

/// A scan begins with nothing found, under its own flag and task, and what ends an earlier one is
/// handed out.
pub proof fn law_start_scan(st: &mut GlobalState, stop_flag: u64, thread: u64, r: ScanHandles)
    requires
        call_ensures(scan::start_scan_impl, (st, stop_flag, thread), r),
    ensures
        r.stop == old(st)@.scan_stop,
        r.thread == old(st)@.scan_thread,
        final(st)@.scan_stop == Some(stop_flag),
        final(st)@.scan_thread == Some(thread),
        final(st)@.scanned_devices.len() == 0,
        final(st)@.adapter == old(st)@.adapter,
        final(st)@.connections == old(st)@.connections,
        same_callbacks(final(st)@, old(st)@),
{
}

/// A device that came into range and could be opened is listed: what was listed before stays, in
/// its place and as it was, and the device is put behind it with its name, unless its address is
/// listed already.
pub proof fn law_found_device_is_listed(
    st: &mut GlobalState,
    address: [u8; 6],
    name: Option<String>,
    stop_requested: bool,
    r: ScanAction,
)
    requires
        call_ensures(
            scan::scan_step,
            (st, ScanEvent::DeviceAdded { address, opened: true, name }, stop_requested),
            r,
        ),
    ensures
        ({
            let key = mac_address::mac_text(address@);
            let before = old(st)@.scanned_devices;
            let after = final(st)@.scanned_devices;
            let known = exists|i: int|
                0 <= i < before.len() && (#[trigger] before[i]).address == key;
            &&& before.is_prefix_of(after)
            &&& exists|i: int| 0 <= i < after.len() && (#[trigger] after[i]).address == key
            &&& known ==> after == before
            &&& !known ==> after.len() == before.len() + 1 && after.last().address == key
                && after.last().name == text::text_of(name)
        }),
{
    let before = old(st)@.scanned_devices;
    let after = final(st)@.scanned_devices;
    let key = mac_address::mac_text(address@);
    if !(exists|i: int| 0 <= i < before.len() && (#[trigger] before[i]).address == key) {
        assert(after[before.len() as int].address == key);
    }
}

/// A device that went out of range is taken off the list, and the others stay in their order; every
/// other event but the opening of a device leaves the list alone.
pub proof fn law_other_events_and_the_list(
    st: &mut GlobalState,
    event: ScanEvent,
    stop_requested: bool,
    r: ScanAction,
)
    requires
        call_ensures(scan::scan_step, (st, event, stop_requested), r),
    ensures
        event matches ScanEvent::DeviceRemoved { address } ==> final(st)@.scanned_devices == old(
            st,
        )@.scanned_devices.filter(
            |device: DeviceView| device.address != mac_address::mac_text(address@),
        ),
        event is Started || event is Powered || event is Discovering || event is Tick || event
            is Other || event is Ended ==> final(st)@.scanned_devices == old(
            st,
        )@.scanned_devices,
        event matches ScanEvent::DeviceAdded { opened, .. } ==> (!opened
            ==> final(st)@.scanned_devices == old(st)@.scanned_devices),
{
}

/// The task powers the adapter on and then discovers. While it discovers, it waits for the next
/// event until it is to stop or discovery has ended; then it returns and the scan is no longer
/// known. A task that never came to discover leaves the state alone.
pub proof fn law_course_of_a_scan(
    st: &mut GlobalState,
    event: ScanEvent,
    stop_requested: bool,
    r: ScanAction,
)
    requires
        call_ensures(scan::scan_step, (st, event, stop_requested), r),
    ensures
        ({
            let before = old(st)@;
            let after = final(st)@;
            let discovers = event == ScanEvent::Discovering(true) || event is Tick || event
                is DeviceAdded || event is DeviceRemoved || event is Other || event is Ended;
            let over = stop_requested || event is Ended;
            &&& event is Started ==> (before.adapter matches Some(adapter) ==> r
                == ScanAction::PowerOn(adapter)) && (before.adapter is None ==> r
                == ScanAction::Exit)
            &&& event == ScanEvent::Powered(true) ==> r == ScanAction::Discover
            &&& event == ScanEvent::Powered(false) || event == ScanEvent::Discovering(false) ==> r
                == ScanAction::Exit
            &&& !discovers ==> after == before
            &&& discovers && !over ==> r == ScanAction::AwaitEvent && after.scan_stop
                == before.scan_stop && after.scan_thread == before.scan_thread
            &&& discovers && over ==> r == ScanAction::Exit && after.scan_stop is None
                && after.scan_thread is None
            &&& after.adapter == before.adapter
            &&& after.connections == before.connections
            &&& same_callbacks(after, before)
        }),
{
}

/// The list is told as it is.
pub proof fn law_scanned_devices(st: &GlobalState, r: Result<Vec<SPPDevice>, LinuxError>)
    requires
        call_ensures(scan::get_scanned_devices_impl, (st,), r),
    ensures
        r matches Ok(devices) && devices@.len() == st@.scanned_devices.len() && forall|i: int|
            0 <= i < devices@.len() ==> (#[trigger] devices@[i])@ == st@.scanned_devices[i],
{
    let devices = r->Ok_0;
    assert forall|i: int| 0 <= i < devices@.len() implies (#[trigger] devices@[i])@
        == st@.scanned_devices[i] by {
        assert(crate::models::devices_of(devices@)[i] == devices@[i]@);
    }
}

/// The listener that was set last is the one that is used, whichever was there before: it is the
/// listener of a device that is connected, and waits for one that is not. Nothing else of the
/// device and nothing of another one changes.
pub proof fn law_last_listener_is_used(
    st: &mut GlobalState,
    addr: &str,
    callback: u64,
    r: Result<(), LinuxError>,
    key: Seq<char>,
)
    requires
        call_ensures(state::set_data_listener_impl, (st, addr, callback), r),
        address::canonical(addr@) == Ok::<Seq<char>, Seq<char>>(key),
    ensures
        ({
            let before = old(st)@;
            let after = final(st)@;
            let connected = before.connections.contains_key(key);
            &&& r is Ok
            &&& after.connections.contains_key(key) <==> connected
            &&& connected ==> {
                let was = before.connections[key];
                let now = after.connections[key];
                &&& now.data_listener_callback == Some(callback)
                &&& now.on_connected_callback == was.on_connected_callback
                &&& now.socket_stream == was.socket_stream
                &&& now.read_stop == was.read_stop
                &&& now.read_thread == was.read_thread
                &&& now.readers == was.readers
                &&& now.connected_device_info == was.connected_device_info
                &&& after.data_listener_callbacks == before.data_listener_callbacks
            }
            &&& !connected ==> after.data_listener_callbacks
                == before.data_listener_callbacks.insert(key, callback)
            &&& same_other_connections(after, before, key)
            &&& after.on_connected_callbacks == before.on_connected_callbacks
            &&& same_scan(after, before)
        }),
{
}

/// The next subscription to a connected device starts with the listener that was set last.
pub proof fn law_subscription_starts_with_the_last_listener(
    st: &mut GlobalState,
    addr: &str,
    callback: u64,
    set: Result<(), LinuxError>,
    later: &mut GlobalState,
    again: &str,
    stop_flag: u64,
    r: Result<Option<ReaderStart>, LinuxError>,
    key: Seq<char>,
)
    requires
        call_ensures(state::set_data_listener_impl, (st, addr, callback), set),
        call_ensures(subscription::start_subscription_impl, (later, again, stop_flag), r),
        address::canonical(addr@) == Ok::<Seq<char>, Seq<char>>(key),
        address::canonical(again@) == Ok::<Seq<char>, Seq<char>>(key),
        old(st)@.connections.contains_key(key),
        old(st)@.connections[key].read_thread is None,
        old(later)@ == final(st)@,
    ensures
        r matches Ok(Some(start)) && start.listener == callback && start.socket_stream == old(
            st,
        )@.connections[key].socket_stream && start.stop_flag == stop_flag,
{
}

/// The callback that was registered last is the one that counts, whichever was there before; it is
/// due at once where the device is connected, and waits where it is not.
pub proof fn law_last_callback_counts(
    st: &mut GlobalState,
    addr: &str,
    callback: u64,
    r: Result<bool, LinuxError>,
    key: Seq<char>,
)
    requires
        call_ensures(state::on_connected_impl, (st, addr, callback), r),
        address::canonical(addr@) == Ok::<Seq<char>, Seq<char>>(key),
    ensures
        ({
            let before = old(st)@;
            let after = final(st)@;
            let connected = before.connections.contains_key(key);
            &&& r == Ok::<bool, LinuxError>(connected)
            &&& after.connections.contains_key(key) <==> connected
            &&& connected ==> {
                let was = before.connections[key];
                let now = after.connections[key];
                &&& now.on_connected_callback == Some(callback)
                &&& now.data_listener_callback == was.data_listener_callback
                &&& now.socket_stream == was.socket_stream
                &&& now.read_stop == was.read_stop
                &&& now.read_thread == was.read_thread
                &&& now.readers == was.readers
                &&& now.connected_device_info == was.connected_device_info
                &&& after.on_connected_callbacks == before.on_connected_callbacks
            }
            &&& !connected ==> after.on_connected_callbacks
                == before.on_connected_callbacks.insert(key, callback)
            &&& same_other_connections(after, before, key)
            &&& after.data_listener_callbacks == before.data_listener_callbacks
            &&& same_scan(after, before)
        }),
{
}

/// An address that cannot be read is refused by every request, and nothing changes.
pub proof fn law_unreadable_addresses_are_refused(
    addr: &str,
    number: u64,
    listening: &mut GlobalState,
    listened: Result<(), LinuxError>,
    registering: &mut GlobalState,
    registered: Result<bool, LinuxError>,
    sending: &GlobalState,
    sent: Result<u64, LinuxError>,
    known: Result<Option<SPPDevice>, LinuxError>,
    ending: &mut GlobalState,
    ended: Result<Option<StoppedConnection>, LinuxError>,
    subscribing: &mut GlobalState,
    subscribed: Result<Option<ReaderStart>, LinuxError>,
)
    requires
        call_ensures(state::set_data_listener_impl, (listening, addr, number), listened),
        call_ensures(state::on_connected_impl, (registering, addr, number), registered),
        call_ensures(state::send_impl, (sending, addr), sent),
        call_ensures(state::get_connected_device_info_impl, (sending, addr), known),
        call_ensures(state::disconnect_impl, (ending, addr), ended),
        call_ensures(
            subscription::start_subscription_impl,
            (subscribing, addr, number),
            subscribed,
        ),
        address::canonical(addr@) is Err,
    ensures
        listened matches Err(LinuxError::InvalidAddress(_)) && final(listening)@ == old(
            listening,
        )@,
        registered matches Err(LinuxError::InvalidAddress(_)) && final(registering)@ == old(
            registering,
        )@,
        sent matches Err(LinuxError::InvalidAddress(_)),
        known matches Err(LinuxError::InvalidAddress(_)),
        ended matches Err(LinuxError::InvalidAddress(_)) && final(ending)@ == old(ending)@,
        subscribed matches Err(LinuxError::InvalidAddress(_)) && final(subscribing)@ == old(
            subscribing,
        )@,
{
}

/// Bytes go to the stream of the connection to the device, and what is known of the device is told,
/// while it is connected.
pub proof fn law_connected_device(
    st: &GlobalState,
    addr: &str,
    sent: Result<u64, LinuxError>,
    known: Result<Option<SPPDevice>, LinuxError>,
    len: Result<Option<usize>, LinuxError>,
    key: Seq<char>,
)
    requires
        call_ensures(state::send_impl, (st, addr), sent),
        call_ensures(state::get_connected_device_info_impl, (st, addr), known),
        call_ensures(state::get_max_send_len_impl, (addr,), len),
        address::canonical(addr@) == Ok::<Seq<char>, Seq<char>>(key),
    ensures
        st@.connections.contains_key(key) ==> sent == Ok::<u64, LinuxError>(
            st@.connections[key].socket_stream,
        ),
        !st@.connections.contains_key(key) ==> sent == Err::<u64, LinuxError>(
            LinuxError::NotConnected,
        ),
        known matches Ok(device) && (device is Some <==> st@.connections.contains_key(key)) && (
        device matches Some(there) ==> there@ == st@.connections[key].connected_device_info),
        len == Ok::<Option<usize>, LinuxError>(None),
{
}

/// A disconnect stops what belongs to the connection and leaves nothing of the device behind; no
/// other device is touched.
pub proof fn law_disconnect(
    st: &mut GlobalState,
    addr: &str,
    r: Result<Option<StoppedConnection>, LinuxError>,
    key: Seq<char>,
)
    requires
        call_ensures(state::disconnect_impl, (st, addr), r),
        address::canonical(addr@) == Ok::<Seq<char>, Seq<char>>(key),
    ensures
        ({
            let before = old(st)@;
            let after = final(st)@;
            &&& r matches Ok(gone)
            &&& gone is Some <==> before.connections.contains_key(key)
            &&& gone matches Some(stopped) ==> {
                &&& stopped.socket_stream == before.connections[key].socket_stream
                &&& stopped.read_stop == before.connections[key].read_stop
                &&& stopped.read_thread == before.connections[key].read_thread
            }
            &&& after.connections == before.connections.remove(key)
            &&& after.on_connected_callbacks == before.on_connected_callbacks.remove(key)
            &&& after.data_listener_callbacks == before.data_listener_callbacks.remove(key)
            &&& same_scan(after, before)
        }),
{
}

/// Whether `parts` hold what has to be stopped for the connection to the device at `key`, if there
/// is one.
pub open spec fn stops(
    parts: Seq<StoppedConnection>,
    st: StateView,
    key: Seq<char>,
) -> bool {
    st.connections.contains_key(key) ==> exists|i: int|
        0 <= i < parts.len() && (#[trigger] parts[i]).socket_stream
            == st.connections[key].socket_stream && parts[i].read_stop
            == st.connections[key].read_stop && parts[i].read_thread
            == st.connections[key].read_thread
}

/// When everything ends, every connection is stopped, each once, the scan is stopped, and nothing
/// is left but what was found.
pub proof fn law_everything_ends(
    st: &mut GlobalState,
    key: Seq<char>,
    r: Teardown,
    other: &mut GlobalState,
    parts: Vec<StoppedConnection>,
)
    requires
        call_ensures(teardown::disconnect_all, (st,), r),
        call_ensures(state::disconnect_all_impl, (other,), parts),
    ensures
        stops(r.connections@, old(st)@, key),
        r.connections@.len() == old(st)@.connections.dom().len(),
        r.scan.stop == old(st)@.scan_stop,
        r.scan.thread == old(st)@.scan_thread,
        !final(st)@.connections.contains_key(key),
        !final(st)@.on_connected_callbacks.contains_key(key),
        !final(st)@.data_listener_callbacks.contains_key(key),
        final(st)@.scan_stop is None,
        final(st)@.scan_thread is None,
        final(st)@.scanned_devices == old(st)@.scanned_devices,
        final(st)@.adapter == old(st)@.adapter,
        stops(parts@, old(other)@, key),
        parts@.len() == old(other)@.connections.dom().len(),
        !final(other)@.connections.contains_key(key),
        !final(other)@.on_connected_callbacks.contains_key(key),
        !final(other)@.data_listener_callbacks.contains_key(key),
        same_scan(final(other)@, old(other)@),
{
    let keys = choose|keys: Seq<Seq<char>>|
        state::stops_each_once(old(st)@.connections, keys, r.connections@);
    lemma_stopped_once(old(st)@, keys, r.connections@, key);
    let others = choose|keys: Seq<Seq<char>>|
        state::stops_each_once(old(other)@.connections, keys, parts@);
    lemma_stopped_once(old(other)@, others, parts@, key);
}

proof fn lemma_stopped_once(
    st: StateView,
    keys: Seq<Seq<char>>,
    parts: Seq<StoppedConnection>,
    key: Seq<char>,
)
    requires
        state::stops_each_once(st.connections, keys, parts),
    ensures
        stops(parts, st, key),
        parts.len() == st.connections.dom().len(),
{
    if st.connections.contains_key(key) {
        assert(keys.contains(key));
        let i = keys.index_of(key);
        assert(parts[i] == state::stopped(st.connections[keys[i]]));
    }
    keys.unique_seq_to_set();
    assert forall|k: Seq<char>| keys.to_set().contains(k) == st.connections.dom().contains(k) by {
        assert(st.connections.contains_key(k) <==> keys.contains(k));
    }
    assert(keys.to_set() =~= st.connections.dom());
}

/// A connection is begun by ending the scan and an earlier connection to that device only; callbacks
/// stay, and the service is tried first.
pub proof fn law_connect(
    st: &mut GlobalState,
    addr: &str,
    channels: &[u8],
    tried: Vec<u8>,
    r: ConnectStart,
)
    requires
        call_ensures(connect::connect_impl, (st, addr, channels), r),
        call_ensures(connect::normalized_fallback_channels, (channels,), tried),
    ensures
        ({
            let before = old(st)@;
            let after = final(st)@;
            &&& r.scan.stop == before.scan_stop
            &&& r.scan.thread == before.scan_thread
            &&& after.scan_stop is None
            &&& after.scan_thread is None
            &&& after.adapter == before.adapter
            &&& after.scanned_devices == before.scanned_devices
            &&& same_callbacks(after, before)
            &&& r.begun is Ok <==> address::canonical(addr@) is Ok
            &&& r.begun is Err ==> after.connections == before.connections
            &&& r.begun matches Err(error) ==> error is InvalidAddress
            &&& r.begun matches Ok(begun) ==> {
                let key = begun.address@;
                &&& address::canonical(addr@) == Ok::<Seq<char>, Seq<char>>(key)
                &&& key == mac_address::mac_text(begun.bytes@)
                &&& after.connections == before.connections.remove(key)
                &&& begun.replaced is Some <==> before.connections.contains_key(key)
                &&& begun.replaced matches Some(stopped) ==> {
                    &&& stopped.socket_stream == before.connections[key].socket_stream
                    &&& stopped.read_stop == before.connections[key].read_stop
                    &&& stopped.read_thread == before.connections[key].read_thread
                }
                &&& begun.sequence@.channels == tried@
                &&& begun.sequence@.failures == 0
                &&& begun.sequence@.last_error is None
            }
        }),
{
}

/// The channels to try are those of the request that are not zero, each once and in their order,
/// or five and one.
pub proof fn law_channels_to_try(channels: &[u8], r: Vec<u8>)
    requires
        call_ensures(connect::normalized_fallback_channels, (channels,), r),
    ensures
        r@.len() > 0,
        forall|i: int| 0 <= i < r@.len() ==> 1 <= #[trigger] r@[i],
        forall|i: int, j: int| 0 <= i < j < r@.len() ==> r@[i] != r@[j],
        forall|i: int|
            0 <= i < channels@.len() && 1 <= #[trigger] channels@[i] ==> r@.contains(channels@[i]),
        channels@.len() > 0 && channels@.no_duplicates() && (forall|i: int|
            0 <= i < channels@.len() ==> 1 <= #[trigger] channels@[i]) ==> r@ == channels@,
        (forall|i: int| 0 <= i < channels@.len() ==> #[trigger] channels@[i] == 0) ==> r@ == seq![
            5u8,
            1u8,
        ],
{
    crate::channels::law_channels_that_can_be_used(channels@, 255);
}

/// The service is tried first, and then one channel after the other in their order; when all have
/// failed, the last failure is told.
pub proof fn law_next_attempt(sequence: &ConnectSequence, r: ConnectAction)
    requires
        call_ensures(ConnectSequence::next_action, (sequence,), r),
    ensures
        ({
            let channels = sequence@.channels;
            let failures = sequence@.failures;
            &&& failures == 0 ==> (r matches ConnectAction::Try(attempt) && attempt
                == Attempt::Service)
            &&& 0 < failures <= channels.len() ==> (r matches ConnectAction::Try(attempt)
                && attempt == Attempt::Channel(channels[failures - 1]))
            &&& failures > channels.len() ==> (r matches ConnectAction::GiveUp(
                LinuxError::ConnectFailed(last),
            ) && text::text_of(last) == sequence@.last_error)
        }),
{
}

/// The first attempt that succeeds connects. One that fails leads on to the next, and its failure
/// is the last one; none is made twice, and none is left out.
pub proof fn law_attempts(
    sequence: &mut ConnectSequence,
    result: AttemptResult,
    r: ConnectAction,
)
    requires
        call_ensures(ConnectSequence::advance, (sequence, result), r),
    ensures
        ({
            let before = old(sequence)@;
            let after = final(sequence)@;
            let channels = before.channels;
            let left = before.failures <= channels.len();
            &&& after.channels == channels
            &&& left ==> (result matches AttemptResult::Connected(stream) ==> after == before && (r
                matches ConnectAction::Connected(made) && made == stream))
            &&& left && !(result is Connected) ==> {
                &&& after.failures == before.failures + 1
                &&& after.last_error is Some
                &&& result matches AttemptResult::Failed(reason) ==> after.last_error == Some(
                    reason@,
                )
                &&& result is TimedOut && before.failures == 0 ==> after.last_error == Some(
                    "Timeout connecting through SPP Service UUID"@,
                )
                &&& result is TimedOut && before.failures > 0 ==> after.last_error == Some(
                    "Timeout connecting on channel "@ + text::decimal(
                        channels[before.failures - 1] as nat,
                    ),
                )
                &&& before.failures < channels.len() ==> (r matches ConnectAction::Try(attempt)
                    && attempt == Attempt::Channel(channels[before.failures as int]))
                &&& before.failures == channels.len() ==> (r matches ConnectAction::GiveUp(
                    LinuxError::ConnectFailed(last),
                ) && text::text_of(last) == after.last_error)
            }
            &&& !left ==> after == before && (r matches ConnectAction::GiveUp(
                LinuxError::ConnectFailed(last),
            ) && text::text_of(last) == before.last_error)
        }),
{
}

/// While asking for the service, only an offer of the device is accepted, and the stream that it
/// gives connects. Everything else that ends the attempt is told with the reason that was given.
pub proof fn law_service(target: [u8; 6], event: ServiceEvent, r: ServiceAction)
    requires
        call_ensures(connect::connect_spp_uuid, (target, event), r),
    ensures
        event matches ServiceEvent::Requested(device) ==> (device@ == target@ <==> r is Accept) && (
        device@ != target@ <==> r is Reject),
        event matches ServiceEvent::Accepted(stream) ==> (r matches ServiceAction::Done(
            AttemptResult::Connected(made),
        ) && made == stream),
        event is TimedOut ==> (r matches ServiceAction::Done(AttemptResult::TimedOut)),
        event matches ServiceEvent::InvalidUuid(reason) ==> failed(
            r,
            "Invalid SPP UUID: "@ + reason@,
        ),
        event matches ServiceEvent::SessionFailed(reason) ==> failed(
            r,
            "Failed to create bluer session: "@ + reason@,
        ),
        event matches ServiceEvent::AdapterFailed(reason) ==> failed(
            r,
            "Failed to get default adapter: "@ + reason@,
        ),
        event matches ServiceEvent::DeviceFailed(reason) ==> failed(
            r,
            "Failed to open device "@ + mac_address::mac_text(target@) + ": "@ + reason@,
        ),
        event matches ServiceEvent::RegistrationFailed(reason) ==> failed(
            r,
            "Failed to register SPP profile: "@ + reason@,
        ),
        event matches ServiceEvent::AcceptFailed(reason) ==> failed(
            r,
            "Failed to accept SPP profile fd: "@ + reason@,
        ),
        event is ProfileClosed ==> failed(r, "SPP profile closed before receiving an RFCOMM fd"@),
        event is ConnectReturned ==> failed(
            r,
            "BlueZ ConnectProfile completed without providing an RFCOMM fd"@,
        ),
        event matches ServiceEvent::ConnectFailed(reason) ==> failed(
            r,
            "BlueZ ConnectProfile failed: "@ + reason@,
        ),
{
}

/// Whether an attempt ended with this failure.
pub open spec fn failed(action: ServiceAction, text: Seq<char>) -> bool {
    action matches ServiceAction::Done(AttemptResult::Failed(reason)) && reason@ == text
}

/// A connection that was made has its stream, the device's name and address, and the callbacks that
/// waited for it, which wait no longer; it has no reader yet. No other device is touched.
pub proof fn law_finish_connect(
    st: &mut GlobalState,
    address: String,
    stream: u64,
    name: Option<String>,
    r: ConnectFinished,
)
    requires
        call_ensures(connect::finish_connect, (st, address, stream, name), r),
    ensures
        ({
            let key = address@;
            let before = old(st)@;
            let after = final(st)@;
            let made = after.connections[key];
            &&& after.connections.contains_key(key)
            &&& made.socket_stream == stream
            &&& made.connected_device_info.name == text::text_of(name)
            &&& made.connected_device_info.address == key
            &&& made.read_stop is None
            &&& made.read_thread is None
            &&& made.readers.len() == 0
            &&& made.on_connected_callback is Some <==> before.on_connected_callbacks.contains_key(
                key,
            )
            &&& made.on_connected_callback matches Some(callback) ==> callback
                == before.on_connected_callbacks[key]
            &&& made.data_listener_callback is Some
                <==> before.data_listener_callbacks.contains_key(key)
            &&& made.data_listener_callback matches Some(callback) ==> callback
                == before.data_listener_callbacks[key]
            &&& r.callback == made.on_connected_callback
            &&& r.displaced is Some <==> before.connections.contains_key(key)
            &&& r.displaced matches Some(stopped) ==> {
                &&& stopped.socket_stream == before.connections[key].socket_stream
                &&& stopped.read_stop == before.connections[key].read_stop
                &&& stopped.read_thread == before.connections[key].read_thread
            }
            &&& same_other_connections(after, before, key)
            &&& after.on_connected_callbacks == before.on_connected_callbacks.remove(key)
            &&& after.data_listener_callbacks == before.data_listener_callbacks.remove(key)
            &&& same_scan(after, before)
        }),
{
}

/// A subscription to a connected device starts a reader with the connection's own listener and
/// stream and with the flag that was given, unless a reader runs; it is refused without a
/// connection or a listener. Only the connection's own record of its readers changes.
pub proof fn law_start_subscription(
    st: &mut GlobalState,
    addr: &str,
    stop_flag: u64,
    r: Result<Option<ReaderStart>, LinuxError>,
    key: Seq<char>,
)
    requires
        call_ensures(subscription::start_subscription_impl, (st, addr, stop_flag), r),
        address::canonical(addr@) == Ok::<Seq<char>, Seq<char>>(key),
    ensures
        ({
            let before = old(st)@;
            let after = final(st)@;
            let there = before.connections.contains_key(key);
            let was = before.connections[key];
            let starts = there && was.read_thread is None && was.data_listener_callback is Some;
            &&& !there ==> r == Err::<Option<ReaderStart>, LinuxError>(LinuxError::NotConnected)
            &&& there && was.read_thread is Some ==> (r matches Ok(None))
            &&& there && was.read_thread is None && was.data_listener_callback is None ==> r == Err::<
                Option<ReaderStart>,
                LinuxError,
            >(LinuxError::ListenerNotSet)
            &&& !starts ==> after == before
            &&& starts ==> {
                let now = after.connections[key];
                &&& r matches Ok(Some(start))
                &&& start.address@ == key
                &&& start.socket_stream == was.socket_stream
                &&& start.stop_flag == stop_flag
                &&& start.listener == was.data_listener_callback->0
                &&& after.connections.contains_key(key)
                &&& now.read_stop == Some(stop_flag)
                &&& now.readers == was.readers.push(stop_flag)
                &&& now.read_thread == was.read_thread
                &&& now.socket_stream == was.socket_stream
                &&& now.connected_device_info == was.connected_device_info
                &&& now.on_connected_callback == was.on_connected_callback
                &&& now.data_listener_callback == was.data_listener_callback
                &&& same_other_connections(after, before, key)
                &&& same_callbacks(after, before)
                &&& same_scan(after, before)
            }
        }),
{
}

/// The task of a reader is recorded while the reader runs and its connection was not replaced, and
/// with nothing else; without a connection it is refused.
pub proof fn law_finish_subscription(
    st: &mut GlobalState,
    reader: &ReaderStart,
    thread: u64,
    r: Result<bool, LinuxError>,
)
    requires
        call_ensures(subscription::finish_subscription, (st, reader, thread), r),
    ensures
        ({
            let key = reader.address@;
            let before = old(st)@;
            let after = final(st)@;
            let there = before.connections.contains_key(key);
            let was = before.connections[key];
            let own = there && was.socket_stream == reader.socket_stream && was.readers.contains(
                reader.stop_flag,
            );
            &&& !there ==> r == Err::<bool, LinuxError>(LinuxError::ConnectionWasClosed)
            &&& there ==> r == Ok::<bool, LinuxError>(own)
            &&& !own ==> after == before
            &&& own ==> {
                let now = after.connections[key];
                &&& after.connections.contains_key(key)
                &&& now.read_thread == Some(thread)
                &&& now.read_stop == was.read_stop
                &&& now.readers == was.readers
                &&& now.socket_stream == was.socket_stream
                &&& now.connected_device_info == was.connected_device_info
                &&& now.on_connected_callback == was.on_connected_callback
                &&& now.data_listener_callback == was.data_listener_callback
                &&& same_other_connections(after, before, key)
                &&& same_callbacks(after, before)
                &&& same_scan(after, before)
            }
        }),
{
}

/// A reader that returned is no longer recorded with its connection, so that another one can be
/// started; a connection that replaced it, and everything else, stays as it is.
pub proof fn law_reader_finished(st: &mut GlobalState, reader: &ReaderStart, r: Option<u64>)
    requires
        call_ensures(subscription::reader_finished, (st, reader), r),
    ensures
        ({
            let key = reader.address@;
            let before = old(st)@;
            let after = final(st)@;
            let was = before.connections[key];
            let own = before.connections.contains_key(key) && was.socket_stream
                == reader.socket_stream;
            &&& !own ==> r is None && after == before
            &&& own ==> {
                let now = after.connections[key];
                &&& r == was.read_thread
                &&& after.connections.contains_key(key)
                &&& now.read_thread is None
                &&& now.read_stop is None
                &&& !now.readers.contains(reader.stop_flag)
                &&& forall|flag: u64|
                    flag != reader.stop_flag ==> now.readers.contains(flag) == was.readers.contains(
                        flag,
                    )
                &&& now.socket_stream == was.socket_stream
                &&& now.connected_device_info == was.connected_device_info
                &&& now.on_connected_callback == was.on_connected_callback
                &&& now.data_listener_callback == was.data_listener_callback
                &&& same_other_connections(after, before, key)
                &&& same_callbacks(after, before)
                &&& same_scan(after, before)
            }
        }),
{
    crate::numbers::lemma_others(
        old(st)@.connections[reader.address@].readers,
        reader.stop_flag,
    );
}

/// A reader passes on all bytes that it gets, as they are, and every error; it returns after an
/// error or the end of the stream, or when it is to stop.
pub proof fn law_reader(event: ReadEvent, stop_requested: bool, r: ReadAction)
    requires
        call_ensures(subscription::reader_step, (event, stop_requested), r),
    ensures
        event is Idle ==> r.report is None && r.finished == stop_requested,
        event matches ReadEvent::Received(data) ==> (data@.len() > 0 ==> (r.report matches Some(
            Ok(bytes),
        ) && bytes@ == data@ && r.finished == stop_requested)) && (data@.len() == 0 ==> (r.report
            matches Some(Err(reason)) && reason@ == "Connection closed"@ && r.finished)),
        event matches ReadEvent::Failed(error) ==> (r.report matches Some(Err(reason)) && reason@
            == error@ && r.finished),
{
}

/// A scan is stopped by its flag and then by its task.
pub proof fn law_steps_of_a_scan(scan: &ScanHandles, r: Vec<StopStep>)
    requires
        call_ensures(ScanHandles::steps, (scan,), r),
    ensures
        scan.stop is None && scan.thread is None ==> r@.len() == 0,
        scan.stop matches Some(flag) ==> r@[0] == StopStep::RaiseFlag(flag),
        scan.thread matches Some(task) ==> r@.last() == StopStep::AbortTask(task),
        r@.len() == (if scan.stop is Some {
            1int
        } else {
            0
        }) + (if scan.thread is Some {
            1int
        } else {
            0
        }),
{
}

/// A connection is stopped by its reader's flag, then by its reader's task, and then its stream is
/// dropped.
pub proof fn law_steps_of_a_connection(connection: &StoppedConnection, r: Vec<StopStep>)
    requires
        call_ensures(StoppedConnection::steps, (connection,), r),
    ensures
        connection.read_stop matches Some(flag) ==> r@[0] == StopStep::RaiseFlag(flag),
        connection.read_thread matches Some(task) ==> r@[r@.len() - 2] == StopStep::AbortTask(task),
        r@.last() == StopStep::DropStream(connection.socket_stream),
        r@.len() == 1 + (if connection.read_stop is Some {
            1int
        } else {
            0
        }) + (if connection.read_thread is Some {
            1int
        } else {
            0
        }),
{
}

/// Before a connection is made, the scan is stopped, and then an earlier connection to the device.
pub proof fn law_steps_before_a_connection(
    start: &ConnectStart,
    r: Vec<StopStep>,
    first: Vec<StopStep>,
    replaced: &StoppedConnection,
    second: Vec<StopStep>,
)
    requires
        call_ensures(ConnectStart::steps, (start,), r),
        call_ensures(ScanHandles::steps, (&start.scan,), first),
        call_ensures(StoppedConnection::steps, (replaced,), second),
        start.begun matches Ok(begun) ==> (begun.replaced matches Some(stopped) ==> stopped
            == *replaced),
    ensures
        ({
            let replaces = start.begun is Ok && start.begun->Ok_0.replaced is Some;
            &&& replaces ==> r@ == first@ + second@
            &&& !replaces ==> r@ == first@
        }),
{
    assert(first@ + Seq::<StopStep>::empty() =~= first@);
}

/// When everything ends, every connection is stopped, one after the other, and then the scan.
pub proof fn law_steps_of_the_end(
    end: &Teardown,
    r: Vec<StopStep>,
    scan: Vec<StopStep>,
    last: &StoppedConnection,
    stopped: Vec<StopStep>,
    fewer: &Teardown,
    before: Vec<StopStep>,
)
    requires
        call_ensures(Teardown::steps, (end,), r),
        call_ensures(ScanHandles::steps, (&end.scan,), scan),
        call_ensures(StoppedConnection::steps, (last,), stopped),
        call_ensures(Teardown::steps, (fewer,), before),
        fewer.scan == (ScanHandles { stop: None, thread: None }),
    ensures
        end.connections@.len() == 0 ==> r@ == scan@,
        end.connections@ == fewer.connections@.push(*last) ==> r@ == before@ + stopped@ + scan@,
{
    if end.connections@.len() == 0 {
        assert(r@ =~= scan@);
    }
    if end.connections@ == fewer.connections@.push(*last) {
        assert(end.connections@.drop_last() =~= fewer.connections@);
        assert(r@ =~= before@ + stopped@ + scan@);
    }
}

/// Every error is told in its own words, with the reason that it holds.
pub proof fn law_every_error_is_told(error: &LinuxError, r: String)
    requires
        call_ensures(LinuxError::text, (error,), r),
    ensures
        error matches LinuxError::InvalidAddress(reason) ==> r@ == "Invalid address format: "@
            + reason@,
        error matches LinuxError::ConnectFailed(Some(reason)) ==> r@
            == "Failed to connect through SPP UUID or fallback channels: "@ + ("Some("@ + reason@
            + ")"@),
        error matches LinuxError::ConnectFailed(None) ==> r@
            == "Failed to connect through SPP UUID or fallback channels: "@ + "None"@,
        error is NotConnected ==> r@ == "Not connected"@,
        error is ListenerNotSet ==> r@ == "Data listener not set"@,
        error is ConnectionWasClosed ==> r@ == "Connection was closed"@,
{
}

/// Before anything was done there is nothing but the adapter, and a sequence of attempts begins with
/// nothing failed.
pub proof fn law_beginning(
    adapter: Option<u64>,
    st: GlobalState,
    key: Seq<char>,
    channels: Vec<u8>,
    sequence: ConnectSequence,
)
    requires
        call_ensures(GlobalState::new, (adapter,), st),
        call_ensures(ConnectSequence::new, (channels,), sequence),
    ensures
        st@.adapter == adapter,
        st@.scanned_devices.len() == 0,
        st@.scan_stop is None,
        st@.scan_thread is None,
        !st@.connections.contains_key(key),
        !st@.on_connected_callbacks.contains_key(key),
        !st@.data_listener_callbacks.contains_key(key),
        sequence@.channels == channels@,
        sequence@.failures == 0,
        sequence@.last_error is None,
{
}

/// What holds of the state at all times: a connection is one to the device at its address, and where
/// a flag or a task is recorded, a reader has not returned.
pub proof fn law_state_is_sound(st: StateView, key: Seq<char>)
    requires
        state::well_formed(st),
        st.connections.contains_key(key),
    ensures
        st.connections[key].connected_device_info.address == key,
        st.connections[key].readers.len() == 0 ==> st.connections[key].read_stop is None
            && st.connections[key].read_thread is None,
{
}

/// An identifier of thirty-two hexadecimal digits in groups of eight, four, four, four and twelve
/// with hyphens between is read, and each two digits are one byte, in their order. One that cannot
/// be read ends the attempt with the reason.
pub proof fn law_identifiers(line: &str, r: Result<[u8; 16], ServiceEvent>, j: int, p: int)
    requires
        call_ensures(uuid::service_uuid, (line,), r),
        0 <= j < 16,
        p == 2 * j + (if j < 4 {
            0int
        } else if j < 6 {
            1int
        } else if j < 8 {
            2int
        } else if j < 10 {
            3int
        } else {
            4int
        }),
    ensures
        line@.len() == 36 && line@[8] == '-' && line@[13] == '-' && line@[18] == '-' && line@[23]
            == '-' && (forall|i: int|
            0 <= i < 36 && i != 8 && i != 13 && i != 18 && i != 23 ==> mac_address::hex_value(
                #[trigger] line@[i],
            ) is Some) ==> (r matches Ok(bytes) && bytes@[j] as int == mac_address::hex_value(
            line@[p],
        )->0 * 16 + mac_address::hex_value(line@[p + 1])->0),
        r matches Err(event) ==> event is InvalidUuid,
{
    if line@.len() == 36 && line@[8] == '-' && line@[13] == '-' && line@[18] == '-' && line@[23]
        == '-' && (forall|i: int|
        0 <= i < 36 && i != 8 && i != 13 && i != 18 && i != 23 ==> mac_address::hex_value(
            #[trigger] line@[i],
        ) is Some) {
        assert forall|k: int| 0 <= k < 32 implies mac_address::hex_value(
            line@[#[trigger] uuid::digit_place(k)],
        ) is Some by {
            let place = uuid::digit_place(k);
            assert(mac_address::hex_value(line@[place]) is Some);
        }
        assert(uuid::is_hyphenated(line@));
        assert(uuid::digit_place(2 * j) == p);
        assert(uuid::digit_place(2 * j + 1) == p + 1);
    }
}

/// What is said of the state is said of what it is made of.
pub proof fn law_what_the_state_holds(st: GlobalState, connection: DeviceConnection)
    ensures
        st@.adapter == st.adapter,
        st@.scanned_devices == st.scanned_devices@,
        st@.scan_stop == st.scan_stop,
        st@.scan_thread == st.scan_thread,
        st@.connections == st.connections@,
        st@.on_connected_callbacks == st.on_connected_callbacks@,
        st@.data_listener_callbacks == st.data_listener_callbacks@,
        connection@.socket_stream == connection.socket_stream,
        connection@.read_stop == connection.read_stop,
        connection@.read_thread == connection.read_thread,
        connection@.readers == connection.readers@,
        connection@.connected_device_info == connection.connected_device_info@,
        connection@.on_connected_callback == connection.on_connected_callback,
        connection@.data_listener_callback == connection.data_listener_callback,
{
}

/// Every request may be made in every state, whatever it is made with.
pub proof fn law_requests_are_open(
    st: &mut GlobalState,
    asked: &GlobalState,
    addr: &str,
    number: u64,
    other: u64,
    event: ScanEvent,
    flag: bool,
    channels: &[u8],
    key: String,
    name: Option<String>,
    reader: &ReaderStart,
)
    requires
        old(st).wf(),
        asked.wf(),
    ensures
        call_requires(scan::stop_scan_impl, (st,)),
        call_requires(scan::start_scan_impl, (st, number, other)),
        call_requires(scan::scan_step, (st, event, flag)),
        call_requires(state::get_connected_device_info_impl, (asked, addr)),
        call_requires(state::on_connected_impl, (st, addr, number)),
        call_requires(state::set_data_listener_impl, (st, addr, number)),
        call_requires(state::send_impl, (asked, addr)),
        call_requires(state::disconnect_impl, (st, addr)),
        call_requires(state::disconnect_all_impl, (st,)),
        call_requires(teardown::disconnect_all, (st,)),
        call_requires(connect::connect_impl, (st, addr, channels)),
        call_requires(connect::finish_connect, (st, key, number, name)),
        call_requires(subscription::start_subscription_impl, (st, addr, number)),
        call_requires(subscription::finish_subscription, (st, reader, number)),
        call_requires(subscription::reader_finished, (st, reader)),
{
}

} // verus!
