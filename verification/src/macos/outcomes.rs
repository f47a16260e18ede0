//! What each call promises, said of what goes into it and what comes out of it.
use std::collections::VecDeque;
use std::sync::Arc;
use vstd::prelude::*;

use crate::macos::address;
use crate::macos::connection;
use crate::macos::connection::{
    ChannelAction, ChannelEnd, CloseOutcome, NextChannel, NextConnection, OpenOutcome, Retry,
    RetryOutcome, SdpAction, SdpEvent,
};
use crate::macos::error::MacError;
use crate::macos::laws;
use crate::macos::requests;
use crate::macos::requests::{
    Arrival, ConnectRequest, ConnectStart, Delivery, ListenerStep, NativeDevice, Shutdown,
};
use crate::macos::scan;
use crate::macos::scan::ScanStart;
use crate::macos::send;
use crate::macos::send::{AcceptedSend, PumpStep, WriteCompletion, WriteRequest};
use crate::macos::session;
use crate::macos::session::{ClosedSession, DroppedDevice, ListenerError};
use crate::macos::state;
use crate::macos::state::{
    MainThreadState, PendingConnection, PendingRfcommSend, RfcommSession, SharedState,
};
use crate::models::{DeviceView, SPPDevice};
use crate::text;

verus! {

/// The channels to try are channels that can be used, each once. A request whose channels all can
/// be used and differ is taken as it is; one without any channel that can be used becomes channel
/// five and then channel one.
pub proof fn law_channels_to_try(channels: &[u8], r: VecDeque<u8>)
    requires
        call_ensures(requests::normalized_fallback_channels, (channels,), r),
    ensures
        r@.len() > 0,
        forall|i: int| 0 <= i < r@.len() ==> 1 <= #[trigger] r@[i] <= 30,
        forall|i: int, j: int| 0 <= i < j < r@.len() ==> r@[i] != r@[j],
        forall|i: int|
            0 <= i < channels@.len() && 1 <= #[trigger] channels@[i] <= 30 ==> r@.contains(
                channels@[i],
            ),
        channels@.len() > 0 && channels@.no_duplicates() && (forall|i: int|
            0 <= i < channels@.len() ==> 1 <= #[trigger] channels@[i] <= 30) ==> r@ == channels@,
        (forall|i: int|
            0 <= i < channels@.len() ==> !(1 <= #[trigger] channels@[i] <= 30)) ==> r@ == seq![
            5u8,
            1u8,
        ],
{
    crate::channels::law_channels_that_can_be_used(channels@, 30);
}

/// A request to connect is refused while a session with the device retires, changes nothing for a
/// device that is connected or being connected, and otherwise stops the scan and names the device
/// to look up and the channels to try.
pub proof fn law_connect(
    st: &mut MainThreadState,
    shared: &mut SharedState,
    addr: &str,
    channels: &[u8],
    tried: VecDeque<u8>,
    r: Result<ConnectStart, MacError>,
)
    requires
        call_ensures(requests::connect_impl, (st, shared, addr, channels), r),
        call_ensures(requests::normalized_fallback_channels, (channels,), tried),
    ensures
        ({
            let key = address::normalized(addr@);
            let before = old(st)@;
            let after = final(st)@;
            let closing = exists|generation: usize| #[trigger]
                before.retiring.contains_key(generation) && before.retiring[generation].addr == key;
            let known = before.sessions.contains_key(key) || before.connections.contains_key(key);
            &&& closing ==> (r matches Err(MacError::StillClosing(told)) && told@ == key)
            &&& !closing && known ==> (r matches Ok(ConnectStart::Known))
            &&& closing || known ==> after == before && final(shared)@ == old(shared)@
            &&& !closing && !known ==> {
                &&& r matches Ok(ConnectStart::LookUp(request))
                &&& request.addr@ == key
                &&& request.api_addr@ == address::hyphenated(key)
                &&& request.stopped == before.inquiry
                &&& request.channels@ == tried@
                &&& after.inquiry is None
                &&& after.delegate == before.delegate
                &&& laws::same_sessions(after, before)
                &&& laws::same_waiting(after, before)
                &&& !final(shared)@.scan_loop_running
                &&& final(shared)@.scanned_devices == old(shared)@.scanned_devices
                &&& final(shared)@.connected_device_info == old(shared)@.connected_device_info
                &&& final(shared)@.on_connected_callbacks == old(shared)@.on_connected_callbacks
                &&& final(shared)@.data_listeners == old(shared)@.data_listeners
            }
        }),
{
}

/// A device that was found is accepted with exactly the channels of the request, in their order,
/// and waits behind every other one; one that was not found is refused, and nothing changes.
pub proof fn law_finish_connect(
    st: &mut MainThreadState,
    request: ConnectRequest,
    device: Option<NativeDevice>,
    r: Result<bool, MacError>,
)
    requires
        call_ensures(requests::finish_connect, (st, request, device), r),
    ensures
        ({
            let addr = request.addr@;
            let before = old(st)@;
            let after = final(st)@;
            &&& device is None ==> (r matches Err(MacError::DeviceNotFound(told)) && told@ == addr
                && after == before)
            &&& device matches Some(found) ==> {
                &&& r matches Ok(accepted)
                &&& accepted
                &&& after.connections.contains_key(addr)
                &&& after.connections[addr].channels == request.channels@
                &&& after.connections[addr].device == found.device
                &&& after.connections[addr].info.name == text::text_of(found.name)
                &&& after.connections[addr].info.address == addr
                &&& !after.connections[addr].sdp_resolved
                &&& after.connections[addr].last_error.len() == 0
                &&& after.connections[addr].generation == after.next_id
                &&& after.next_id != 0
                &&& after.next_id != before.next_id
                &&& after.connect_queue == before.connect_queue.push(addr)
                &&& after.connecting == before.connecting
                &&& laws::same_other_connections(after, before, addr)
                &&& laws::same_sessions(after, before)
                &&& laws::same_scan(after, before)
            }
        }),
{
}

/// From the request to the first channel: where the service query finds nothing, the first channel
/// that is opened is the first of those to try, on the device that was found; and where it finds
/// one, that one is opened first.
pub proof fn law_first_channel_opened(
    accepting: &mut MainThreadState,
    request: ConnectRequest,
    device: NativeDevice,
    accepted: Result<bool, MacError>,
    looking: &mut MainThreadState,
    addr: &str,
    found: Option<u8>,
    wanted: bool,
    opening: &mut MainThreadState,
    shared: &mut SharedState,
    next: NextChannel,
)
    requires
        call_ensures(requests::finish_connect, (accepting, request, Some(device)), accepted),
        call_ensures(
            connection::finish_sdp,
            (looking, addr, final(accepting)@.connections[request.addr@].generation, found),
            wanted,
        ),
        call_ensures(connection::try_next_channel, (opening, shared, addr), next),
        addr@ == request.addr@,
        request.channels@.len() > 0,
        old(looking)@ == final(accepting)@,
        old(opening)@ == final(looking)@,
    ensures
        wanted,
        next.action matches ChannelAction::Open { device: opened, channel, .. } && opened
            == device.device && channel == (match found {
            Some(channel) => channel,
            None => request.channels@[0],
        }),
        found is None ==> final(opening)@.connections[addr@].channels == request.channels@.skip(1),
{
}

/// What is known of a connected device is told as it is.
pub proof fn law_connected_device_info(shared: &SharedState, addr: &str, r: Option<SPPDevice>)
    requires
        call_ensures(requests::get_connected_device_info_impl, (shared, addr), r),
    ensures
        ({
            let key = address::normalized(addr@);
            &&& r is Some <==> shared@.connected_device_info.contains_key(key)
            &&& r matches Some(device) ==> device@ == shared@.connected_device_info[key]
        }),
{
}

/// The callback that was registered last is the one that is called, whichever was there before.
pub proof fn law_last_callback_counts(
    shared: &mut SharedState,
    addr: &str,
    callback: u64,
    later: &SharedState,
    key: &str,
    told: Option<u64>,
)
    requires
        call_ensures(requests::on_connected_impl, (shared, addr, callback), ()),
        call_ensures(session::notify_connected, (later, key), told),
        later@ == final(shared)@,
    ensures
        key@ == address::normalized(addr@) ==> told == Some(callback),
        key@ != address::normalized(addr@) ==> (told is Some
            <==> old(shared)@.on_connected_callbacks.contains_key(key@)) && (told matches Some(other)
            ==> other == old(shared)@.on_connected_callbacks[key@]),
        final(shared)@.data_listeners == old(shared)@.data_listeners,
        final(shared)@.connected_device_info == old(shared)@.connected_device_info,
        final(shared)@.scanned_devices == old(shared)@.scanned_devices,
        final(shared)@.scan_loop_running == old(shared)@.scan_loop_running,
{
}

/// Bytes of a live session go to the listener that was set last, whichever was there before; the
/// listeners for other devices stay.
pub proof fn law_last_listener_hears(
    shared: &mut SharedState,
    addr: &str,
    listener: u64,
    st: &MainThreadState,
    later: &SharedState,
    key: &str,
    generation: usize,
    r: Option<Delivery>,
)
    requires
        call_ensures(requests::set_data_listener_impl, (shared, addr, listener), ()),
        call_ensures(requests::deliver_data, (st, later, key, generation), r),
        later@ == final(shared)@,
    ensures
        ({
            let live = st@.sessions.contains_key(key@) && st@.sessions[key@].generation
                == generation && !st@.sessions[key@].failed;
            let own = key@ == address::normalized(addr@);
            &&& !live ==> r is None
            &&& live && own ==> r == Some(
                Delivery { active: st@.sessions[key@].active, listener },
            )
            &&& live && !own ==> (r is Some <==> old(shared)@.data_listeners.contains_key(key@))
            &&& live && !own ==> (r matches Some(other) ==> other.active
                == st@.sessions[key@].active && other.listener
                == old(shared)@.data_listeners[key@])
            &&& final(shared)@.on_connected_callbacks == old(shared)@.on_connected_callbacks
            &&& final(shared)@.connected_device_info == old(shared)@.connected_device_info
            &&& final(shared)@.scanned_devices == old(shared)@.scanned_devices
            &&& final(shared)@.scan_loop_running == old(shared)@.scan_loop_running
        }),
{
}

/// An event is passed on unless it belongs to a session that has ended, and an error that is
/// passed on is the last one.
pub proof fn law_listener_step(active: Option<bool>, is_error: bool, r: ListenerStep)
    requires
        call_ensures(requests::listener_step, (active, is_error), r),
    ensures
        r.call <==> active != Some(false),
        r.stop <==> active != Some(false) && is_error,
{
}

/// Bytes are handed on at once where their session is open, later where it is not yet, and not at
/// all where there are none.
pub proof fn law_data_arrived(
    st: &MainThreadState,
    addr: &str,
    generation: usize,
    len: usize,
    r: Arrival,
)
    requires
        call_ensures(requests::data_arrived, (st, addr, generation, len), r),
    ensures
        ({
            let open = st@.sessions.contains_key(addr@) && st@.sessions[addr@].generation
                == generation && st@.sessions[addr@].opened;
            &&& len == 0 <==> r is Ignored
            &&& len > 0 && open <==> r is Now
            &&& len > 0 && !open <==> r is Later
        }),
{
}

/// The worker of a listener is named for its device.
pub proof fn law_worker_name(addr: &str, r: String)
    requires
        call_ensures(requests::worker_name, (addr,), r),
    ensures
        r@ == "rfcomm-rx-"@ + address::normalized(addr@),
{
}

/// Whether `end` is all that is left to do for the session with the device at `addr`: its own flag
/// and channel, and its own send, which fails for this reason.
pub open spec fn ends_the_session(
    end: Option<ClosedSession>,
    st: state::MainView,
    addr: Seq<char>,
    reason: Seq<char>,
) -> bool {
    let session = st.sessions[addr];
    &&& end is Some <==> st.sessions.contains_key(addr)
    &&& end matches Some(left) ==> {
        &&& left.generation == session.generation
        &&& left.channel == session.channel
        &&& left.active == session.active
        &&& left.failed_send is Some <==> session.pending_send is Some
        &&& left.failed_send matches Some(failed) ==> failed.completion
            == session.pending_send->0.completion && failed.reason@ == reason
    }
}

/// Whether nothing of the device at `addr` is left, its session retires as it is, and nothing of
/// another device has changed.
pub open spec fn gone(before: state::MainView, after: state::MainView, addr: Seq<char>) -> bool {
    &&& !after.sessions.contains_key(addr)
    &&& !after.connections.contains_key(addr)
    &&& !after.connect_queue.contains(addr)
    &&& forall|other: Seq<char>|
        other != addr ==> after.connect_queue.contains(other) == before.connect_queue.contains(
            other,
        )
    &&& after.connecting == (if before.connecting == Some(addr) {
        None
    } else {
        before.connecting
    })
    &&& laws::same_other_sessions(after, before, addr)
    &&& laws::same_other_connections(after, before, addr)
    &&& laws::same_scan(after, before)
    &&& after.next_id == before.next_id
    &&& before.sessions.contains_key(addr) ==> after.retiring.contains_key(
        before.sessions[addr].generation,
    ) && after.retiring[before.sessions[addr].generation] == before.sessions[addr]
    &&& forall|generation: usize| #[trigger]
        before.retiring.contains_key(generation) ==> after.retiring.contains_key(generation)
}

/// Whether nothing is remembered of the device at `addr`, and everything else is as it was.
pub open spec fn forgotten(
    before: state::SharedView,
    after: state::SharedView,
    addr: Seq<char>,
) -> bool {
    &&& after.connected_device_info == before.connected_device_info.remove(addr)
    &&& after.on_connected_callbacks == before.on_connected_callbacks.remove(addr)
    &&& after.data_listeners == before.data_listeners.remove(addr)
    &&& after.scanned_devices == before.scanned_devices
    &&& after.scan_loop_running == before.scan_loop_running
}

/// Whether the listener for `addr`, if there is one, is told of the error.
pub open spec fn told_of(
    told: Option<ListenerError>,
    shared: state::SharedView,
    addr: Seq<char>,
    error: Seq<char>,
) -> bool {
    &&& told is Some <==> shared.data_listeners.contains_key(addr)
    &&& told matches Some(news) ==> news.listener == shared.data_listeners[addr] && news.error@
        == error
}

/// A disconnect leaves nothing of the device behind, and touches no other one.
pub proof fn law_disconnect(
    st: &mut MainThreadState,
    shared: &mut SharedState,
    addr: &str,
    r: Option<ClosedSession>,
)
    requires
        call_ensures(requests::disconnect_impl, (st, shared, addr), r),
    ensures
        ({
            let key = address::normalized(addr@);
            &&& gone(old(st)@, final(st)@, key)
            &&& forgotten(old(shared)@, final(shared)@, key)
            &&& ends_the_session(r, old(st)@, key, "Connection disconnected during RFCOMM send"@)
            &&& r matches Some(end) ==> end.close_channel
        }),
{
    session::law_dropped_device_is_gone(old(st)@, old(shared)@, address::normalized(addr@));
}

/// A device that is given up leaves nothing behind, its listener is told why, and no other device
/// is touched.
pub proof fn law_fail_connection(
    st: &mut MainThreadState,
    shared: &mut SharedState,
    addr: &str,
    reason: String,
    r: DroppedDevice,
)
    requires
        call_ensures(session::fail_connection, (st, shared, addr, reason), r),
    ensures
        gone(old(st)@, final(st)@, addr@),
        forgotten(old(shared)@, final(shared)@, addr@),
        ends_the_session(r.closed, old(st)@, addr@, reason@),
        r.closed matches Some(end) ==> end.close_channel,
        told_of(r.told, old(shared)@, addr@, reason@),
{
    session::law_dropped_device_is_gone(old(st)@, old(shared)@, addr@);
}

/// A session that failed is given up with its device, unless it was replaced or has ended.
pub proof fn law_fail_session(
    st: &mut MainThreadState,
    shared: &mut SharedState,
    addr: &str,
    generation: usize,
    reason: String,
    r: Option<DroppedDevice>,
)
    requires
        call_ensures(session::fail_session, (st, shared, addr, generation, reason), r),
    ensures
        ({
            let own = old(st)@.sessions.contains_key(addr@) && old(st)@.sessions[addr@].generation
                == generation;
            &&& r is Some <==> own
            &&& !own ==> final(st)@ == old(st)@ && final(shared)@ == old(shared)@
            &&& r matches Some(dropped) ==> {
                &&& gone(old(st)@, final(st)@, addr@)
                &&& forgotten(old(shared)@, final(shared)@, addr@)
                &&& ends_the_session(dropped.closed, old(st)@, addr@, reason@)
                &&& dropped.closed matches Some(end) ==> end.close_channel
                &&& told_of(dropped.told, old(shared)@, addr@, reason@)
            }
        }),
{
    session::law_dropped_device_is_gone(old(st)@, old(shared)@, addr@);
}

/// A session is marked as failed once, and its own flag is lowered.
pub proof fn law_fail_session_later(
    st: &mut MainThreadState,
    addr: &str,
    generation: usize,
    r: Option<u64>,
)
    requires
        call_ensures(session::fail_session_later, (st, addr, generation), r),
    ensures
        ({
            let before = old(st)@;
            let after = final(st)@;
            let due = before.sessions.contains_key(addr@) && before.sessions[addr@].generation
                == generation && !before.sessions[addr@].failed;
            &&& r is Some <==> due
            &&& !due ==> after == before
            &&& r matches Some(active) ==> {
                &&& active == before.sessions[addr@].active
                &&& after.sessions.contains_key(addr@)
                &&& after.sessions[addr@].failed
                &&& after.sessions[addr@].generation == generation
                &&& after.sessions[addr@].channel == before.sessions[addr@].channel
                &&& after.sessions[addr@].pending_send == before.sessions[addr@].pending_send
                &&& after.sessions[addr@].mtu == before.sessions[addr@].mtu
                &&& after.sessions[addr@].opened == before.sessions[addr@].opened
                &&& laws::same_other_sessions(after, before, addr@)
                &&& after.retiring == before.retiring
                &&& laws::same_waiting(after, before)
            }
        }),
{
}

/// A session that ends retires as it is; its send fails, and its channel is closed unless it was
/// closed already.
pub proof fn law_close_session(
    st: &mut MainThreadState,
    addr: &str,
    reason: &str,
    already_closed: bool,
    r: Option<ClosedSession>,
)
    requires
        call_ensures(session::close_session, (st, addr, reason, already_closed), r),
    ensures
        ends_the_session(r, old(st)@, addr@, reason@),
        r matches Some(end) ==> end.close_channel == !already_closed,
        !final(st)@.sessions.contains_key(addr@),
        laws::same_other_sessions(final(st)@, old(st)@, addr@),
        laws::same_waiting(final(st)@, old(st)@),
        laws::same_scan(final(st)@, old(st)@),
        final(st)@.next_id == old(st)@.next_id,
        old(st)@.sessions.contains_key(addr@) ==> final(st)@.retiring == old(st)@.retiring.insert(
            old(st)@.sessions[addr@].generation,
            old(st)@.sessions[addr@],
        ),
        !old(st)@.sessions.contains_key(addr@) ==> final(st)@ == old(st)@,
{
}

/// A session that was asked to close is dropped when its channel is closed, or no write of it is
/// under way; until then its buffers stay.
pub proof fn law_finish_close(
    st: &mut MainThreadState,
    generation: usize,
    status: i32,
    r: Option<u64>,
)
    requires
        call_ensures(session::finish_close, (st, generation, status), r),
    ensures
        ({
            let before = old(st)@;
            let after = final(st)@;
            let there = before.retiring.contains_key(generation);
            let used = there && before.retiring[generation].pending_send is Some
                && before.retiring[generation].pending_send->0.in_flight > 0;
            &&& status != 0 && used ==> r is None && after == before
            &&& status == 0 || !used ==> {
                &&& after.retiring == before.retiring.remove(generation)
                &&& r is Some <==> there
                &&& r matches Some(channel) ==> channel == before.retiring[generation].channel
                &&& after.sessions == before.sessions
                &&& laws::same_waiting(after, before)
                &&& laws::same_scan(after, before)
                &&& after.next_id == before.next_id
            }
        }),
{
}

/// Forgetting a device forgets that device only, and its listener is told of the error where there
/// is one.
pub proof fn law_clear_device_state(
    shared: &mut SharedState,
    addr: &str,
    error: Option<String>,
    r: Option<ListenerError>,
)
    requires
        call_ensures(session::clear_device_state, (shared, addr, error), r),
    ensures
        forgotten(old(shared)@, final(shared)@, addr@),
        error matches Some(text) ==> told_of(r, old(shared)@, addr@, text@),
        error is None ==> r is None,
{
}

/// When everything is disconnected, nobody is connected or waits, and nothing is remembered but
/// what a scan has found; every session that there was retires, and each has something left to do.
pub proof fn law_disconnect_all(
    st: &mut MainThreadState,
    shared: &mut SharedState,
    addr: Seq<char>,
    r: Vec<ClosedSession>,
)
    requires
        call_ensures(requests::disconnect_all_impl, (st, shared), r),
    ensures
        ({
            let before = old(st)@;
            let after = final(st)@;
            &&& !after.sessions.contains_key(addr)
            &&& !after.connections.contains_key(addr)
            &&& after.connect_queue.len() == 0
            &&& after.connecting is None
            &&& laws::same_scan(after, before)
            &&& after.next_id == before.next_id
            &&& !final(shared)@.connected_device_info.contains_key(addr)
            &&& !final(shared)@.on_connected_callbacks.contains_key(addr)
            &&& !final(shared)@.data_listeners.contains_key(addr)
            &&& final(shared)@.scanned_devices == old(shared)@.scanned_devices
            &&& final(shared)@.scan_loop_running == old(shared)@.scan_loop_running
            &&& before.sessions.contains_key(addr) ==> after.retiring.contains_key(
                before.sessions[addr].generation,
            )
            &&& r@.len() == before.sessions.dom().len()
            &&& before.sessions.contains_key(addr) ==> exists|i: int|
                0 <= i < r@.len() && (#[trigger] r@[i]).generation
                    == before.sessions[addr].generation && r@[i].channel
                    == before.sessions[addr].channel && r@[i].active
                    == before.sessions[addr].active && r@[i].close_channel
        }),
{
    let keys = choose|keys: Seq<Seq<char>>|
        requests::ends_each_once(old(st)@.sessions, keys, r@, "Bluetooth shutdown"@) && final(st)@
            == #[trigger] requests::all_closed(requests::nobody_waits(old(st)@), keys);
    laws::law_every_session_ends(requests::nobody_waits(old(st)@), keys);
    laws::law_every_session_is_ended_once(
        old(st)@.sessions,
        keys,
        r@,
        "Bluetooth shutdown"@,
        addr,
    );
    if old(st)@.sessions.contains_key(addr) {
        assert(keys.contains(addr));
    }
}

/// The backend shuts down with no scan, no session and nobody waiting, and nothing is remembered
/// but what a scan has found.
pub proof fn law_cleanup(
    st: &mut MainThreadState,
    shared: &mut SharedState,
    addr: Seq<char>,
    r: Shutdown,
)
    requires
        call_ensures(requests::cleanup_bluetooth_resources, (st, shared), r),
    ensures
        r.inquiry == old(st)@.inquiry,
        final(st)@.inquiry is None,
        !final(shared)@.scan_loop_running,
        !final(st)@.sessions.contains_key(addr),
        !final(st)@.connections.contains_key(addr),
        final(st)@.connect_queue.len() == 0,
        final(st)@.connecting is None,
        !final(shared)@.connected_device_info.contains_key(addr),
        !final(shared)@.on_connected_callbacks.contains_key(addr),
        !final(shared)@.data_listeners.contains_key(addr),
        final(shared)@.scanned_devices == old(shared)@.scanned_devices,
        r.closed@.len() == old(st)@.sessions.dom().len(),
        old(st)@.sessions.contains_key(addr) ==> exists|i: int|
            0 <= i < r.closed@.len() && (#[trigger] r.closed@[i]).generation
                == old(st)@.sessions[addr].generation && r.closed@[i].channel
                == old(st)@.sessions[addr].channel && r.closed@[i].active
                == old(st)@.sessions[addr].active && r.closed@[i].close_channel,
{
    let start = requests::nobody_waits(scan::scan_stopped(old(st)@));
    let keys = choose|keys: Seq<Seq<char>>|
        requests::ends_each_once(old(st)@.sessions, keys, r.closed@, "Bluetooth shutdown"@)
            && final(st)@ == #[trigger] requests::all_closed(start, keys);
    laws::law_every_session_ends(start, keys);
    laws::law_every_session_is_ended_once(
        old(st)@.sessions,
        keys,
        r.closed@,
        "Bluetooth shutdown"@,
        addr,
    );
}

/// The first device in line that is to be connected gets the turn and is described as it was
/// accepted; while somebody has the turn, nothing changes.
pub proof fn law_next_connection(st: &mut MainThreadState, i: int, r: Option<NextConnection>)
    requires
        call_ensures(connection::start_next_connection, (st,), r),
    ensures
        ({
            let before = old(st)@;
            let after = final(st)@;
            let first = 0 <= i < before.connect_queue.len() && before.connections.contains_key(
                before.connect_queue[i],
            ) && (forall|j: int|
                0 <= j < i ==> !before.connections.contains_key(
                    #[trigger] before.connect_queue[j],
                ));
            &&& before.connecting is Some ==> r is None && after == before
            &&& before.connecting is None && first ==> {
                let addr = before.connect_queue[i];
                &&& r matches Some(next)
                &&& next.addr@ == addr
                &&& next.generation == before.connections[addr].generation
                &&& next.device == before.connections[addr].device
                &&& text::text_of(next.name) == before.connections[addr].info.name
                &&& next.sdp_resolved == before.connections[addr].sdp_resolved
                &&& after.connecting == Some(addr)
                &&& after.connect_queue == before.connect_queue.skip(i + 1)
            }
            &&& after.connections == before.connections
            &&& laws::same_sessions(after, before)
            &&& laws::same_scan(after, before)
            &&& after.next_id == before.next_id
        }),
{
    let before = old(st)@;
    if before.connecting is None && 0 <= i < before.connect_queue.len()
        && before.connections.contains_key(before.connect_queue[i]) && (forall|j: int|
        0 <= j < i ==> !before.connections.contains_key(#[trigger] before.connect_queue[j])) {
        laws::law_first_in_line_gets_the_turn(before, i);
        assert(before.connect_queue.skip(i)[0] == before.connect_queue[i]);
    }
}

/// Where nobody in line is to be connected, nobody gets the turn.
pub proof fn law_nobody_to_connect(st: &mut MainThreadState, r: Option<NextConnection>)
    requires
        call_ensures(connection::start_next_connection, (st,), r),
        forall|j: int|
            0 <= j < old(st)@.connect_queue.len() ==> !old(st)@.connections.contains_key(
                #[trigger] old(st)@.connect_queue[j],
            ),
    ensures
        r is None,
        final(st)@.connecting == old(st)@.connecting,
{
    laws::law_nobody_gets_a_turn_for_nothing(old(st)@);
    if r is Some {
        laws::law_one_in_line_is_to_be_connected(old(st)@.connect_queue, old(st)@.connections);
        let first = connection::in_line(old(st)@.connect_queue, old(st)@.connections)[0];
        let j = old(st)@.connect_queue.index_of(first);
        assert(old(st)@.connect_queue[j] == first);
    }
}

/// The search for a channel ends with the first one that is found, or with the thirtieth look.
pub proof fn law_poll_sdp(event: SdpEvent, r: SdpAction)
    requires
        call_ensures(connection::poll_sdp, (event,), r),
    ensures
        event matches SdpEvent::Turn { resolved } ==> (resolved <==> r is TryChannel) && (!resolved
            <==> r is LookUp),
        event matches SdpEvent::Known(Some(channel)) ==> r == SdpAction::Finish(Some(channel)),
        event matches SdpEvent::Known(None) ==> r is Query,
        event matches SdpEvent::QueryStarted(status) ==> (status == 0 <==> r == (SdpAction::Poll {
            attempt: 0,
        })) && (status != 0 <==> r == SdpAction::Finish(None)),
        event matches SdpEvent::Polled { attempt, channel: Some(channel) } ==> r
            == SdpAction::Finish(Some(channel)),
        event matches SdpEvent::Polled { attempt, channel: None } ==> (attempt < 29
            ==> (r matches SdpAction::Poll { attempt: next } && next == attempt + 1)) && (attempt
            >= 29 ==> r == SdpAction::Finish(None)),
{
}

/// The channel of a service record counts exactly where it was read and can be used.
pub proof fn law_cached_channel(record: Option<(i32, u8)>, r: Option<u8>)
    requires
        call_ensures(connection::cached_spp_channel, (record,), r),
    ensures
        record is None ==> r is None,
        record matches Some((status, channel)) ==> (status == 0 && 1 <= channel <= 30 <==> r
            is Some) && (r is Some ==> r == Some(channel)),
{
}

/// A query is looked at for the device that has the turn, and for no other.
pub proof fn law_device_to_poll(
    st: &MainThreadState,
    addr: &str,
    generation: usize,
    r: Option<u64>,
)
    requires
        call_ensures(connection::device_to_poll, (st, addr, generation), r),
    ensures
        r is Some <==> st@.connecting == Some(addr@) && st@.connections.contains_key(addr@)
            && st@.connections[addr@].generation == generation,
        r matches Some(device) ==> device == st@.connections[addr@].device,
{
}

/// What a query found goes to the connection that asked for it: nothing found leaves its channels
/// as they are, and a channel that was found comes first.
pub proof fn law_finish_sdp(
    st: &mut MainThreadState,
    addr: &str,
    generation: usize,
    channel: Option<u8>,
    r: bool,
)
    requires
        call_ensures(connection::finish_sdp, (st, addr, generation, channel), r),
    ensures
        ({
            let before = old(st)@;
            let after = final(st)@;
            &&& r <==> before.connections.contains_key(addr@)
                && before.connections[addr@].generation == generation
            &&& !r ==> after == before
            &&& r ==> {
                let channels = before.connections[addr@].channels;
                let left = after.connections[addr@].channels;
                &&& after.connections.contains_key(addr@)
                &&& after.connections[addr@].sdp_resolved
                &&& after.connections[addr@].generation == generation
                &&& after.connections[addr@].device == before.connections[addr@].device
                &&& after.connections[addr@].info == before.connections[addr@].info
                &&& after.connections[addr@].last_error == before.connections[addr@].last_error
                &&& channel is None ==> left == channels
                &&& channel matches Some(found) ==> left.len() > 0 && left[0] == found
                    && left.skip(1) == channels.filter(|other: u8| other != found)
                &&& laws::same_other_connections(after, before, addr@)
                &&& after.connect_queue == before.connect_queue
                &&& after.connecting == before.connecting
                &&& laws::same_sessions(after, before)
                &&& laws::same_scan(after, before)
                &&& after.next_id == before.next_id
            }
        }),
{
    if channel is Some && old(st)@.connections.contains_key(addr@) {
        let found = channel->0;
        let rest = old(st)@.connections[addr@].channels.filter(|other: u8| other != found);
        assert((seq![found] + rest).skip(1) =~= rest);
    }
}

/// What a failed attempt leaves: a connection with channels left keeps them and waits behind every
/// other one, one without is given up, and no other device is touched.
pub proof fn law_retry(
    st: &mut MainThreadState,
    shared: &mut SharedState,
    addr: &str,
    reason: String,
    r: Retry,
)
    requires
        call_ensures(connection::retry_connection, (st, shared, addr, reason), r),
    ensures
        retried_as_promised(
            old(st)@,
            final(st)@,
            old(shared)@,
            final(shared)@,
            addr@,
            reason@,
            r,
        ),
{
    lemma_retried(old(st)@, old(shared)@, addr@, reason@, r);
}

/// What a failed attempt leaves.
pub open spec fn retried_as_promised(
    before: state::MainView,
    after: state::MainView,
    shared: state::SharedView,
    told: state::SharedView,
    addr: Seq<char>,
    reason: Seq<char>,
    r: Retry,
) -> bool {
    let waiting = before.connections.contains_key(addr);
    let left = waiting && before.connections[addr].channels.len() > 0;
    &&& ends_the_session(r.closed, before, addr, reason)
    &&& r.closed matches Some(end) ==> end.close_channel
    &&& !after.sessions.contains_key(addr)
    &&& laws::same_other_sessions(after, before, addr)
    &&& laws::same_other_connections(after, before, addr)
    &&& laws::same_scan(after, before)
    &&& after.next_id == before.next_id
    &&& before.sessions.contains_key(addr) ==> after.retiring == before.retiring.insert(
        before.sessions[addr].generation,
        before.sessions[addr],
    )
    &&& !before.sessions.contains_key(addr) ==> after.retiring == before.retiring
    &&& !waiting <==> r.outcome is NotConnecting
    &&& !waiting ==> laws::same_waiting(after, before) && told == shared
    &&& left <==> r.outcome is Queued
    &&& left ==> {
        &&& told == shared
        &&& after.connections.contains_key(addr)
        &&& after.connections[addr].channels == before.connections[addr].channels
        &&& after.connections[addr].generation == before.connections[addr].generation
        &&& after.connections[addr].device == before.connections[addr].device
        &&& after.connections[addr].info == before.connections[addr].info
        &&& after.connections[addr].sdp_resolved == before.connections[addr].sdp_resolved
        &&& after.connections[addr].last_error == reason
        &&& after.connect_queue == before.connect_queue.push(addr)
        &&& after.connecting == (if before.connecting == Some(addr) {
            None
        } else {
            before.connecting
        })
    }
    &&& waiting && !left ==> {
        &&& gone(before, after, addr)
        &&& forgotten(shared, told, addr)
        &&& r.outcome matches RetryOutcome::GivenUp(dropped)
        &&& told_of(
            dropped.told,
            shared,
            addr,
            "All RFCOMM channel attempts failed: "@ + reason,
        )
    }
}

proof fn lemma_retried(
    before: state::MainView,
    shared: state::SharedView,
    addr: Seq<char>,
    reason: Seq<char>,
    r: Retry,
)
    requires
        connection::retries(r, before, shared, addr, reason),
    ensures
        retried_as_promised(
            before,
            connection::retried(before, addr, reason),
            shared,
            connection::retried_shared(before, shared, addr),
            addr,
            reason,
            r,
        ),
{
    let ended = session::closed(before, addr);
    session::law_dropped_device_is_gone(ended, shared, addr);
    session::law_dropped_device_is_gone(before, shared, addr);
}

/// A channel that is refused makes the connection that asked for it try another one, and changes
/// nothing for a connection that was replaced or has ended.
pub proof fn law_channel_rejected(
    st: &mut MainThreadState,
    shared: &mut SharedState,
    addr: &str,
    connection: Option<usize>,
    channel: u8,
    status: i32,
    r: Option<Retry>,
)
    requires
        call_ensures(
            connection::channel_rejected,
            (st, shared, addr, connection, channel, status),
            r,
        ),
    ensures
        ({
            let own = old(st)@.connections.contains_key(addr@) && connection == Some(
                old(st)@.connections[addr@].generation,
            );
            &&& r is Some <==> own
            &&& !own ==> final(st)@ == old(st)@ && final(shared)@ == old(shared)@
            &&& r matches Some(retry) ==> retried_as_promised(
                old(st)@,
                final(st)@,
                old(shared)@,
                final(shared)@,
                addr@,
                "Channel "@ + text::decimal(channel as nat) + " rejected ("@
                    + text::signed_decimal(status as int) + ")"@,
                retry,
            )
        }),
{
    laws::law_failures_tell_what_the_system_said(channel, status, Seq::empty());
    if r is Some {
        lemma_retried(
            old(st)@,
            old(shared)@,
            addr@,
            connection::rejected_message(channel, status),
            r->0,
        );
    }
}

/// The generation of a connection is told where the device is being connected.
pub proof fn law_connection_generation(st: &MainThreadState, addr: &str, r: Option<usize>)
    requires
        call_ensures(connection::connection_generation, (st, addr), r),
    ensures
        r is Some <==> st@.connections.contains_key(addr@),
        r matches Some(generation) ==> generation == st@.connections[addr@].generation,
{
}

/// A channel is on its way to open where it was accepted and given.
pub proof fn law_channel_opening(status: i32, given: bool, r: bool)
    requires
        call_ensures(connection::channel_opening, (status, given), r),
    ensures
        r <==> status == 0 && given,
{
}

/// A channel that does not open in time makes its connection try another one; one that is open or
/// was replaced changes nothing.
pub proof fn law_open_timed_out(
    st: &mut MainThreadState,
    shared: &mut SharedState,
    addr: &str,
    generation: usize,
    channel: u8,
    r: Option<Retry>,
)
    requires
        call_ensures(connection::open_timed_out, (st, shared, addr, generation, channel), r),
    ensures
        ({
            let late = old(st)@.sessions.contains_key(addr@) && old(st)@.sessions[addr@].generation
                == generation && !old(st)@.sessions[addr@].opened;
            &&& r is Some <==> late
            &&& !late ==> final(st)@ == old(st)@ && final(shared)@ == old(shared)@
            &&& r matches Some(retry) ==> retried_as_promised(
                old(st)@,
                final(st)@,
                old(shared)@,
                final(shared)@,
                addr@,
                "Channel "@ + text::decimal(channel as nat) + " open timed out"@,
                retry,
            )
        }),
{
    laws::law_failures_tell_what_the_system_said(channel, 0, Seq::empty());
    if r is Some {
        lemma_retried(
            old(st)@,
            old(shared)@,
            addr@,
            connection::open_timeout_message(channel),
            r->0,
        );
    }
}

/// The next channel that is opened is the first one that is left to try, on the connection's own
/// device and under a number of its own; without one, the device is given up.
pub proof fn law_try_next_channel(
    st: &mut MainThreadState,
    shared: &mut SharedState,
    addr: &str,
    r: NextChannel,
)
    requires
        call_ensures(connection::try_next_channel, (st, shared, addr), r),
    ensures
        ({
            let before = old(st)@;
            let after = final(st)@;
            let waiting = before.connections.contains_key(addr@);
            let channels = before.connections[addr@].channels;
            &&& ends_the_session(r.closed, before, addr@, "Retrying RFCOMM channel"@)
            &&& before.sessions.contains_key(addr@) ==> after.retiring == before.retiring.insert(
                before.sessions[addr@].generation,
                before.sessions[addr@],
            )
            &&& !before.sessions.contains_key(addr@) ==> after.retiring == before.retiring
            &&& r.closed matches Some(end) ==> end.close_channel
            &&& !after.sessions.contains_key(addr@)
            &&& laws::same_other_sessions(after, before, addr@)
            &&& laws::same_other_connections(after, before, addr@)
            &&& laws::same_scan(after, before)
            &&& !waiting ==> r.action is Nothing && laws::same_waiting(after, before)
                && final(shared)@ == old(shared)@
            &&& waiting && channels.len() > 0 ==> {
                &&& r.action == (ChannelAction::Open {
                    device: before.connections[addr@].device,
                    channel: channels[0],
                    generation: after.next_id,
                })
                &&& after.next_id != before.next_id
                &&& after.next_id != 0
                &&& after.connections.contains_key(addr@)
                &&& after.connections[addr@].channels == channels.skip(1)
                &&& after.connections[addr@].generation == before.connections[addr@].generation
                &&& after.connections[addr@].device == before.connections[addr@].device
                &&& after.connections[addr@].info == before.connections[addr@].info
                &&& after.connections[addr@].last_error == before.connections[addr@].last_error
                &&& after.connections[addr@].sdp_resolved == before.connections[addr@].sdp_resolved
                &&& after.connect_queue == before.connect_queue
                &&& after.connecting == before.connecting
                &&& final(shared)@ == old(shared)@
            }
            &&& waiting && channels.len() == 0 ==> {
                &&& r.action matches ChannelAction::GivenUp(dropped)
                &&& gone(before, after, addr@)
                &&& forgotten(old(shared)@, final(shared)@, addr@)
                &&& told_of(
                    dropped.told,
                    old(shared)@,
                    addr@,
                    "All RFCOMM channel attempts failed: "@ + before.connections[addr@].last_error,
                )
            }
        }),
{
    session::law_dropped_device_is_gone(
        session::closed(old(st)@, addr@),
        old(shared)@,
        addr@,
    );
    session::law_dropped_device_is_gone(old(st)@, old(shared)@, addr@);
}

/// A channel that was asked to open has a session with the numbers that were made for it.
pub proof fn law_channel_requested(
    st: &mut MainThreadState,
    addr: &str,
    generation: usize,
    channel: u64,
    delegate: u64,
    active: u64,
)
    requires
        call_ensures(
            connection::channel_requested,
            (st, addr, generation, channel, delegate, active),
            (),
        ),
    ensures
        ({
            let session = final(st)@.sessions[addr@];
            &&& final(st)@.sessions.contains_key(addr@)
            &&& session.addr == addr@
            &&& session.generation == generation
            &&& session.channel == channel
            &&& session.delegate == delegate
            &&& session.active == active
            &&& !session.opened
            &&& !session.failed
            &&& !session.pump_scheduled
            &&& session.pending_send is None
            &&& laws::same_other_sessions(final(st)@, old(st)@, addr@)
            &&& final(st)@.retiring == old(st)@.retiring
            &&& laws::same_waiting(final(st)@, old(st)@)
            &&& laws::same_scan(final(st)@, old(st)@)
            &&& final(st)@.next_id == old(st)@.next_id
        }),
{
}

/// When a channel opens, the session's unit of transfer is the channel's own wherever that is
/// within the limits. The device is then known with what was known when it was accepted, whoever
/// registered last is called, and the device no longer waits.
pub proof fn law_open_complete(
    st: &mut MainThreadState,
    shared: &mut SharedState,
    addr: &str,
    generation: usize,
    status: i32,
    mtu: usize,
    r: OpenOutcome,
)
    requires
        call_ensures(
            connection::handle_open_complete,
            (st, shared, addr, generation, status, mtu),
            r,
        ),
    ensures
        ({
            let before = old(st)@;
            let after = final(st)@;
            let opening = before.sessions.contains_key(addr@) && before.sessions[addr@].generation
                == generation && !before.sessions[addr@].opened;
            let wanted = before.connections.contains_key(addr@);
            &&& !opening <==> r is Ignored
            &&& !opening ==> after == before && final(shared)@ == old(shared)@
            &&& opening && status != 0 ==> {
                &&& r matches OpenOutcome::Retried(retry)
                &&& retried_as_promised(
                    before,
                    after,
                    old(shared)@,
                    final(shared)@,
                    addr@,
                    "RFCOMM open completion failed ("@ + text::signed_decimal(status as int)
                        + ")"@,
                    retry,
                )
            }
            &&& opening && status == 0 ==> {
                &&& r matches OpenOutcome::Opened(notice)
                &&& notice is Some <==> wanted
                &&& notice matches Some(told) ==> {
                    &&& told.active == before.sessions[addr@].active
                    &&& told.callback is Some <==> old(
                        shared,
                    )@.on_connected_callbacks.contains_key(addr@)
                    &&& told.callback matches Some(callback) ==> callback == old(
                        shared,
                    )@.on_connected_callbacks[addr@]
                }
                &&& after.sessions.contains_key(addr@)
                &&& 1 <= mtu <= 65535 ==> after.sessions[addr@].mtu == mtu
                &&& mtu == 0 ==> after.sessions[addr@].mtu == 1
                &&& mtu > 65535 ==> after.sessions[addr@].mtu == 65535
                &&& after.sessions[addr@].opened
                &&& after.sessions[addr@].generation == generation
                &&& after.sessions[addr@].channel == before.sessions[addr@].channel
                &&& after.sessions[addr@].active == before.sessions[addr@].active
                &&& after.sessions[addr@].failed == before.sessions[addr@].failed
                &&& after.sessions[addr@].pending_send == before.sessions[addr@].pending_send
                &&& laws::same_other_sessions(after, before, addr@)
                &&& after.retiring == before.retiring
                &&& laws::same_other_connections(after, before, addr@)
                &&& laws::same_scan(after, before)
                &&& after.next_id == before.next_id
                &&& !after.connections.contains_key(addr@)
                &&& wanted ==> !after.connect_queue.contains(addr@) && after.connecting != Some(
                    addr@,
                )
                &&& forall|other: Seq<char>|
                    other != addr@ ==> after.connect_queue.contains(other)
                        == before.connect_queue.contains(other)
                &&& before.connecting != Some(addr@) ==> after.connecting == before.connecting
                &&& wanted ==> final(shared)@.connected_device_info == old(
                    shared,
                )@.connected_device_info.insert(addr@, before.connections[addr@].info)
                &&& !wanted ==> final(shared)@.connected_device_info == old(
                    shared,
                )@.connected_device_info
                &&& final(shared)@.on_connected_callbacks == old(shared)@.on_connected_callbacks
                &&& final(shared)@.data_listeners == old(shared)@.data_listeners
                &&& final(shared)@.scanned_devices == old(shared)@.scanned_devices
                &&& final(shared)@.scan_loop_running == old(shared)@.scan_loop_running
            }
        }),
{
    laws::law_failures_tell_what_the_system_said(0, status, Seq::empty());
    crate::macos::queue::lemma_others(old(st)@.connect_queue, addr@);
    match r {
        OpenOutcome::Retried(retry) => {
            lemma_retried(old(st)@, old(shared)@, addr@, connection::open_failure(status), retry);
        },
        _ => {},
    }
}

/// Between the opening of a channel and its end, the length that is reported and the writes that
/// are made keep to the channel's own unit of transfer.
pub proof fn law_unit_of_the_channel_is_kept(
    st: &mut MainThreadState,
    shared: &mut SharedState,
    addr: &str,
    generation: usize,
    mtu: usize,
    opened: OpenOutcome,
    asked: &MainThreadState,
    name: &str,
    reported: Result<Option<usize>, MacError>,
    pumped: &mut MainThreadState,
    step: PumpStep,
)
    requires
        call_ensures(
            connection::handle_open_complete,
            (st, shared, addr, generation, 0i32, mtu),
            opened,
        ),
        call_ensures(send::get_max_send_len_impl, (asked, name), reported),
        call_ensures(send::pump_pending_rfcomm_send, (pumped, addr, generation), step),
        opened is Opened,
        1 <= mtu <= 65535,
        !old(st)@.sessions[addr@].failed,
        asked@ == final(st)@,
        address::normalized(name@) == addr@,
        old(pumped).wf(),
        old(pumped)@.sessions.contains_key(addr@),
        old(pumped)@.sessions[addr@].mtu == final(st)@.sessions[addr@].mtu,
    ensures
        reported == Ok::<Option<usize>, MacError>(Some(mtu)),
        step matches PumpStep::Write(request) ==> 1 <= request.len <= mtu && (request.len == mtu
            || request.offset + request.len == request.payload@.len()),
{
}

/// A channel that the other side closes ends its own session: a device that was connected is
/// forgotten and its listener is told, one that was still being connected tries another channel,
/// and a session that replaced it stays.
pub proof fn law_channel_closed(
    st: &mut MainThreadState,
    shared: &mut SharedState,
    addr: &str,
    generation: usize,
    r: ChannelEnd,
)
    requires
        call_ensures(connection::channel_closed, (st, shared, addr, generation), r),
    ensures
        ({
            let before = old(st)@;
            let after = final(st)@;
            let own = before.sessions.contains_key(addr@) && before.sessions[addr@].generation
                == generation;
            let wanted = before.connections.contains_key(addr@);
            &&& r.released is Some <==> before.retiring.contains_key(generation)
            &&& r.released matches Some(channel) ==> channel
                == before.retiring[generation].channel
            &&& !own <==> r.outcome is Ignored
            &&& !own ==> after.sessions == before.sessions && laws::same_waiting(after, before)
                && after.retiring == before.retiring.remove(generation) && final(shared)@ == old(
                shared,
            )@
            &&& own && !wanted ==> {
                &&& r.outcome matches CloseOutcome::Disconnected(end, told)
                &&& ends_the_session(Some(end), before, addr@, "RFCOMM channel closed"@)
                &&& !end.close_channel
                &&& told_of(told, old(shared)@, addr@, "Connection closed"@)
                &&& forgotten(old(shared)@, final(shared)@, addr@)
                &&& laws::same_waiting(after, before)
            }
            &&& own && wanted ==> {
                &&& r.outcome matches CloseOutcome::Retried(end, retry)
                &&& ends_the_session(Some(end), before, addr@, "RFCOMM channel closed"@)
                &&& !end.close_channel
                &&& retry.closed is None
                &&& before.connections[addr@].channels.len() > 0 <==> retry.outcome is Queued
                &&& before.connections[addr@].channels.len() == 0 <==> retry.outcome is GivenUp
                &&& retry.outcome is Queued ==> {
                    &&& after.connections.contains_key(addr@)
                    &&& after.connections[addr@].channels == before.connections[addr@].channels
                    &&& after.connections[addr@].last_error
                        == "RFCOMM channel closed while opening"@
                    &&& after.connect_queue == before.connect_queue.push(addr@)
                    &&& after.connecting != Some(addr@)
                    &&& final(shared)@ == old(shared)@
                }
                &&& retry.outcome matches RetryOutcome::GivenUp(dropped) ==> {
                    &&& !after.connections.contains_key(addr@)
                    &&& !after.connect_queue.contains(addr@)
                    &&& after.connecting != Some(addr@)
                    &&& forgotten(old(shared)@, final(shared)@, addr@)
                    &&& told_of(
                        dropped.told,
                        old(shared)@,
                        addr@,
                        "All RFCOMM channel attempts failed: "@
                            + "RFCOMM channel closed while opening"@,
                    )
                }
            }
            &&& own ==> !after.sessions.contains_key(addr@)
            &&& own ==> after.retiring.contains_key(generation) && after.retiring[generation]
                == before.sessions[addr@]
            &&& laws::same_other_sessions(after, before, addr@)
            &&& laws::same_other_connections(after, before, addr@)
            &&& laws::same_scan(after, before)
            &&& after.next_id == before.next_id
        }),
{
    laws::law_closed_channel_ends_its_session(old(st)@, old(shared)@, addr@, generation);
    crate::macos::queue::lemma_others(old(st)@.connect_queue, addr@);
}

/// A write is tried again exactly where the system says that it is busy, has no space, or has too
/// little or too much data; a write to a paused channel is not made, and counts as one to a busy
/// one.
pub proof fn law_backpressure(status: i32, retried: bool, paused: bool, before: Option<i32>)
    requires
        call_ensures(send::is_retryable_rfcomm_backpressure, (status,), retried),
        call_ensures(send::status_before_write, (paused,), before),
    ensures
        retried <==> status == -536870187 || status == -536870181 || status == -536870169 || status
            == -536870168,
        paused ==> before == Some(-536870187i32),
        !paused ==> before is None,
{
}

/// A turn of writes is scheduled exactly where a session has something to send, has not failed, and
/// no turn is scheduled.
pub proof fn law_schedule_pump(st: &mut MainThreadState, addr: &str, generation: usize, r: bool)
    requires
        call_ensures(send::schedule_pump, (st, addr, generation), r),
    ensures
        r <==> old(st)@.sessions.contains_key(addr@) && old(st)@.sessions[addr@].generation
            == generation && !old(st)@.sessions[addr@].failed && !old(
            st,
        )@.sessions[addr@].pump_scheduled && old(st)@.sessions[addr@].pending_send is Some,
        r ==> final(st)@.sessions[addr@].pump_scheduled && final(st)@.sessions[addr@].pending_send
            == old(st)@.sessions[addr@].pending_send,
        !r ==> final(st)@ == old(st)@,
        laws::same_but_this_session(final(st)@, old(st)@, addr@),
{
}

/// A turn that begins is no longer scheduled, and belongs to the session that it was scheduled for.
pub proof fn law_begin_turn(st: &mut MainThreadState, addr: &str, generation: usize, r: bool)
    requires
        call_ensures(send::begin_turn, (st, addr, generation), r),
    ensures
        r <==> old(st)@.sessions.contains_key(addr@) && old(st)@.sessions[addr@].generation
            == generation,
        r ==> !final(st)@.sessions[addr@].pump_scheduled && final(st)@.sessions[addr@].pending_send
            == old(st)@.sessions[addr@].pending_send,
        !r ==> final(st)@ == old(st)@,
        laws::same_but_this_session(final(st)@, old(st)@, addr@),
{
}

/// Whether a session can make a write now.
pub open spec fn can_write(st: state::MainView, addr: Seq<char>, generation: usize) -> bool {
    &&& st.sessions.contains_key(addr)
    &&& st.sessions[addr].generation == generation
    &&& st.sessions[addr].opened
    &&& !st.sessions[addr].failed
    &&& st.sessions[addr].pending_send is Some
    &&& st.sessions[addr].pending_send->0.in_flight < 8
    &&& st.sessions[addr].pending_send->0.next_offset
        < st.sessions[addr].pending_send->0.payload.len()
}

/// Whether `request` is the write that follows what was written: it starts where the last one
/// ended, holds as much as the channel takes or all that is left, and is counted.
pub open spec fn next_write(
    request: WriteRequest,
    before: state::MainView,
    after: state::MainView,
    addr: Seq<char>,
) -> bool {
    let session = before.sessions[addr];
    let send = session.pending_send->0;
    let next = after.sessions[addr].pending_send->0;
    &&& request.channel == session.channel
    &&& request.payload@ == send.payload
    &&& request.id == send.id
    &&& request.offset == send.next_offset
    &&& 1 <= request.len <= session.mtu
    &&& request.offset + request.len <= send.payload.len()
    &&& request.len == session.mtu || request.offset + request.len == send.payload.len()
    &&& after.sessions[addr].pending_send is Some
    &&& next.next_offset == send.next_offset + request.len
    &&& next.in_flight == send.in_flight + 1
    &&& next.id == send.id
    &&& next.payload == send.payload
    &&& next.completion == send.completion
    &&& after.sessions[addr].pump_scheduled == session.pump_scheduled
    &&& laws::same_but_this_session(after, before, addr)
}

/// A turn makes the next write where one can be made, and ends where not.
pub proof fn law_pump(st: &mut MainThreadState, addr: &str, generation: usize, r: PumpStep)
    requires
        old(st).wf(),
        call_ensures(send::pump_pending_rfcomm_send, (st, addr, generation), r),
    ensures
        can_write(old(st)@, addr@, generation) <==> r is Write,
        !can_write(old(st)@, addr@, generation) <==> r is Done,
        r matches PumpStep::Write(request) ==> next_write(request, old(st)@, final(st)@, addr@),
        r is Done ==> final(st)@ == old(st)@,
{
    laws::law_next_write_starts_where_the_last_one_ended(old(st)@, addr@, generation);
    laws::law_turn_makes_the_write_that_can_be_made(r, old(st)@, addr@, generation);
}

/// A write is taken where one can be made, and nothing changes where not.
pub proof fn law_reserve_write(
    st: &mut MainThreadState,
    addr: &str,
    generation: usize,
    r: Option<WriteRequest>,
)
    requires
        old(st).wf(),
        call_ensures(send::reserve_write, (st, addr, generation), r),
    ensures
        can_write(old(st)@, addr@, generation) <==> r is Some,
        r matches Some(request) ==> next_write(request, old(st)@, final(st)@, addr@),
        r is None ==> final(st)@ == old(st)@,
{
    laws::law_next_write_starts_where_the_last_one_ended(old(st)@, addr@, generation);
}

/// After a write that was accepted the next one is made, unless the turn is over: then another
/// turn follows after a millisecond. A turn is over after its fourth write, or when its time is
/// spent.
pub proof fn law_after_accepted_write(
    st: &mut MainThreadState,
    addr: &str,
    generation: usize,
    request: &WriteRequest,
    made: usize,
    budget_spent: bool,
    r: PumpStep,
)
    requires
        old(st).wf(),
        made < 4,
        call_ensures(
            send::after_write,
            (st, addr, generation, request, made, 0i32, budget_spent),
            r,
        ),
    ensures
        ({
            let before = old(st)@;
            let after = final(st)@;
            let over = budget_spent || made == 3;
            let due = before.sessions.contains_key(addr@) && before.sessions[addr@].generation
                == generation && !before.sessions[addr@].failed
                && !before.sessions[addr@].pump_scheduled && before.sessions[addr@].pending_send
                is Some;
            &&& !over && can_write(before, addr@, generation) ==> (r matches PumpStep::Write(next)
                && next_write(next, before, after, addr@))
            &&& !over && !can_write(before, addr@, generation) ==> r is Done && after == before
            &&& over && due ==> r == PumpStep::Schedule(1) && after.sessions[addr@].pump_scheduled
                && after.sessions[addr@].pending_send == before.sessions[addr@].pending_send
                && laws::same_but_this_session(after, before, addr@)
            &&& over && !due ==> r is Done && after == before
        }),
{
    laws::law_next_write_starts_where_the_last_one_ended(old(st)@, addr@, generation);
    if !(budget_spent || made == 3) {
        laws::law_turn_makes_the_write_that_can_be_made(r, old(st)@, addr@, generation);
    }
}

/// A write that was not accepted is taken back, so that the send goes on where that write started:
/// after ten milliseconds where that may help, and not at all where it does not, as the session has
/// then failed.
pub proof fn law_after_rejected_write(
    st: &mut MainThreadState,
    addr: &str,
    generation: usize,
    request: &WriteRequest,
    made: usize,
    status: i32,
    budget_spent: bool,
    r: PumpStep,
)
    requires
        status != 0,
        call_ensures(
            send::after_write,
            (st, addr, generation, request, made, status, budget_spent),
            r,
        ),
    ensures
        ({
            let before = old(st)@;
            let after = final(st)@;
            let session = before.sessions[addr@];
            let send = session.pending_send->0;
            let live = before.sessions.contains_key(addr@) && session.generation == generation
                && !session.failed;
            let own = before.sessions.contains_key(addr@) && session.generation == generation
                && session.pending_send is Some && send.id == request.id && send.in_flight > 0;
            let again = status == -536870187 || status == -536870181 || status == -536870169
                || status == -536870168;
            &&& own ==> {
                &&& after.sessions[addr@].pending_send is Some
                &&& after.sessions[addr@].pending_send->0.next_offset == request.offset
                &&& after.sessions[addr@].pending_send->0.in_flight == send.in_flight - 1
                &&& after.sessions[addr@].pending_send->0.payload == send.payload
                &&& after.sessions[addr@].pending_send->0.id == send.id
                &&& after.sessions[addr@].pending_send->0.completion == send.completion
            }
            &&& again && live && session.pending_send is Some && !session.pump_scheduled ==> r
                == PumpStep::Schedule(10) && after.sessions[addr@].pump_scheduled
            &&& again && !(live && session.pending_send is Some && !session.pump_scheduled) ==> r
                is Done
            &&& again ==> laws::same_but_this_session(after, before, addr@)
            &&& !again && live ==> {
                &&& r matches PumpStep::FailLater { active, reason }
                &&& active == session.active
                &&& reason@ == "RFCOMM writeAsync failed: "@ + text::signed_decimal(status as int)
                &&& after.sessions[addr@].failed
                &&& after.sessions[addr@].opened == session.opened
                &&& after.sessions[addr@].mtu == session.mtu
                &&& after.sessions[addr@].channel == session.channel
                &&& after.sessions[addr@].active == session.active
                &&& after.sessions[addr@].generation == generation
                &&& after.sessions[addr@].pump_scheduled == session.pump_scheduled
                &&& laws::same_other_sessions(after, before, addr@)
                &&& after.retiring == before.retiring
                &&& laws::same_waiting(after, before)
            }
            &&& !again && !live ==> r is Done
        }),
{
}

/// A write that has completed is counted down. A send has ended when its last byte was written and
/// its last write has completed; a write that failed fails its session, once.
pub proof fn law_write_complete(
    st: &mut MainThreadState,
    addr: &str,
    generation: usize,
    id: usize,
    status: i32,
    r: WriteCompletion,
)
    requires
        call_ensures(send::handle_write_complete, (st, addr, generation, id, status), r),
        !old(st)@.retiring.contains_key(generation),
    ensures
        ({
            let before = old(st)@;
            let after = final(st)@;
            let session = before.sessions[addr@];
            let send = session.pending_send->0;
            let own = before.sessions.contains_key(addr@) && session.generation == generation
                && session.pending_send is Some && send.id == id;
            let last = send.next_offset == send.payload.len() && send.in_flight <= 1;
            let now = after.sessions[addr@];
            &&& !own ==> r is Ignore && after == before
            &&& own && !session.failed && status == 0 && last ==> r == WriteCompletion::Completed(
                send.completion,
            ) && now.pending_send is None && laws::same_but_this_session(after, before, addr@)
            &&& own && !(!session.failed && status == 0 && last) ==> {
                &&& now.pending_send is Some
                &&& now.pending_send->0.id == id
                &&& now.pending_send->0.payload == send.payload
                &&& now.pending_send->0.next_offset == send.next_offset
                &&& now.pending_send->0.completion == send.completion
                &&& send.in_flight > 0 ==> now.pending_send->0.in_flight == send.in_flight - 1
                &&& send.in_flight == 0 ==> now.pending_send->0.in_flight == 0
            }
            &&& own && session.failed ==> r is Ignore
            &&& own && !session.failed && status != 0 ==> {
                &&& r matches WriteCompletion::FailLater { active, reason }
                &&& active == session.active
                &&& reason@ == "RFCOMM async write failed: "@ + text::signed_decimal(status as int)
                &&& now.failed
                &&& now.opened == session.opened
                &&& now.mtu == session.mtu
                &&& now.channel == session.channel
                &&& now.active == session.active
                &&& now.generation == generation
                &&& now.pump_scheduled == session.pump_scheduled
            }
            &&& own && !session.failed && status == 0 && !last ==> {
                &&& !session.pump_scheduled ==> r == WriteCompletion::Schedule(1)
                &&& session.pump_scheduled ==> r is Ignore
                &&& now.pump_scheduled
                &&& laws::same_but_this_session(after, before, addr@)
            }
            &&& laws::same_other_sessions(after, before, addr@)
            &&& after.retiring == before.retiring
            &&& laws::same_waiting(after, before)
        }),
{
}

/// A completed write of a retiring session is counted down too, and the session is let go with its
/// last one.
pub proof fn law_retiring_write_complete(
    st: &mut MainThreadState,
    addr: &str,
    generation: usize,
    id: usize,
    status: i32,
    r: WriteCompletion,
)
    requires
        call_ensures(send::handle_write_complete, (st, addr, generation, id, status), r),
        old(st)@.retiring.contains_key(generation),
    ensures
        ({
            let before = old(st)@;
            let after = final(st)@;
            let session = before.retiring[generation];
            let send = session.pending_send->0;
            let own = session.pending_send is Some && send.id == id;
            let now = after.retiring[generation].pending_send->0;
            &&& own && send.in_flight <= 1 ==> r == WriteCompletion::ReleaseLater(generation)
            &&& !(own && send.in_flight <= 1) ==> r is Ignore
            &&& !own ==> after == before
            &&& own ==> {
                &&& after.retiring.contains_key(generation)
                &&& after.retiring[generation].pending_send is Some
                &&& send.in_flight > 0 ==> now.in_flight == send.in_flight - 1
                &&& now.payload == send.payload
                &&& laws::same_session(after.retiring[generation], session)
            }
            &&& after.sessions == before.sessions
            &&& laws::same_waiting(after, before)
        }),
{
    laws::law_retiring_writes_are_counted_down(old(st)@, generation, id);
}

/// A caller's bytes are sent all and as they are; no bytes need nothing, and a caller on the main
/// run loop is refused.
pub proof fn law_send(data: &[u8], on_main_loop: bool, r: Result<Option<Arc<Vec<u8>>>, MacError>)
    requires
        call_ensures(send::send_impl, (data, on_main_loop), r),
    ensures
        data@.len() == 0 ==> (r matches Ok(None)),
        data@.len() > 0 && on_main_loop ==> (r matches Err(MacError::SendOnMainLoop)),
        data@.len() > 0 && !on_main_loop ==> (r matches Ok(Some(payload)) && payload@ == data@),
{
}

/// A send is accepted by a device that is connected and sends nothing else: it holds the whole
/// payload, of which nothing is written, under a number of its own.
pub proof fn law_begin_send(
    st: &mut MainThreadState,
    addr: &str,
    payload: Arc<Vec<u8>>,
    completion: u64,
    r: Result<AcceptedSend, MacError>,
)
    requires
        call_ensures(send::begin_send, (st, addr, payload, completion), r),
    ensures
        ({
            let key = address::normalized(addr@);
            let before = old(st)@;
            let after = final(st)@;
            let open = before.sessions.contains_key(key) && before.sessions[key].opened
                && !before.sessions[key].failed;
            let busy = before.sessions[key].pending_send is Some;
            &&& !open <==> r == Err::<AcceptedSend, MacError>(MacError::NotConnected)
            &&& open && busy <==> r == Err::<AcceptedSend, MacError>(MacError::SendInProgress)
            &&& open && !busy <==> r is Ok
            &&& r matches Ok(accepted) ==> {
                let send = after.sessions[key].pending_send->0;
                &&& accepted.generation == before.sessions[key].generation
                &&& accepted.id == after.next_id
                &&& after.sessions[key].pending_send is Some
                &&& send.id == after.next_id
                &&& send.payload == payload@
                &&& send.next_offset == 0
                &&& send.in_flight == 0
                &&& send.completion == completion
                &&& after.sessions[key].pump_scheduled == before.sessions[key].pump_scheduled
                &&& laws::same_session(after.sessions[key], before.sessions[key])
                &&& after.sessions.contains_key(key)
            }
            &&& r is Err ==> after.sessions == before.sessions
            &&& after.next_id != before.next_id
            &&& after.next_id != 0
            &&& laws::same_other_sessions(after, before, key)
            &&& after.retiring == before.retiring
            &&& laws::same_waiting(after, before)
            &&& laws::same_scan(after, before)
        }),
{
}

/// A send that does not end in time gives up its device, unless it has ended meanwhile.
pub proof fn law_send_timed_out(
    st: &mut MainThreadState,
    shared: &mut SharedState,
    addr: &str,
    send: &AcceptedSend,
    reason: String,
    r: Option<DroppedDevice>,
)
    requires
        call_ensures(send::send_timed_out, (st, shared, addr, send, reason), r),
    ensures
        ({
            let key = address::normalized(addr@);
            let session = old(st)@.sessions[key];
            let pending = old(st)@.sessions.contains_key(key) && session.generation
                == send.generation && session.pending_send is Some && session.pending_send->0.id
                == send.id;
            &&& r is Some <==> pending
            &&& !pending ==> final(st)@ == old(st)@ && final(shared)@ == old(shared)@
            &&& r matches Some(dropped) ==> {
                &&& gone(old(st)@, final(st)@, key)
                &&& forgotten(old(shared)@, final(shared)@, key)
                &&& ends_the_session(dropped.closed, old(st)@, key, reason@)
                &&& dropped.closed matches Some(end) ==> end.close_channel
                &&& told_of(dropped.told, old(shared)@, key, reason@)
            }
        }),
{
    session::law_dropped_device_is_gone(old(st)@, old(shared)@, address::normalized(addr@));
}

/// The longest write is told of a device that is connected, and it is the unit of its channel.
pub proof fn law_max_send_len(
    st: &MainThreadState,
    addr: &str,
    r: Result<Option<usize>, MacError>,
)
    requires
        call_ensures(send::get_max_send_len_impl, (st, addr), r),
    ensures
        ({
            let key = address::normalized(addr@);
            let open = st@.sessions.contains_key(key) && st@.sessions[key].opened
                && !st@.sessions[key].failed;
            &&& r matches Ok(len)
            &&& len is Some <==> open
            &&& len matches Some(len) ==> len == st@.sessions[key].mtu
        }),
{
}

/// A scan begins with an empty list, unless a device is being connected; the inquiry of an earlier
/// scan is stopped either way.
pub proof fn law_start_scan(
    st: &mut MainThreadState,
    shared: &mut SharedState,
    new_delegate: u64,
    addr: Seq<char>,
    r: ScanStart,
)
    requires
        call_ensures(scan::start_scan_impl, (st, shared, new_delegate), r),
    ensures
        ({
            let before = old(st)@;
            let after = final(st)@;
            &&& r.stopped == before.inquiry
            &&& after.inquiry is None
            &&& laws::same_sessions(after, before)
            &&& laws::same_waiting(after, before)
            &&& after.next_id == before.next_id
            &&& before.connections.contains_key(addr) ==> r.begun == Err::<u64, MacError>(
                MacError::ScanWhileConnecting,
            )
            &&& (forall|other: Seq<char>| !before.connections.contains_key(other)) ==> r.begun
                is Ok
            &&& r.begun is Err ==> {
                &&& after.delegate == before.delegate
                &&& !final(shared)@.scan_loop_running
                &&& final(shared)@.scanned_devices == old(shared)@.scanned_devices
            }
            &&& r.begun matches Ok(delegate) ==> {
                &&& before.delegate matches Some(there) ==> delegate == there
                &&& before.delegate is None ==> delegate == new_delegate
                &&& after.delegate == Some(delegate)
                &&& final(shared)@.scan_loop_running
                &&& final(shared)@.scanned_devices.len() == 0
            }
            &&& final(shared)@.connected_device_info == old(shared)@.connected_device_info
            &&& final(shared)@.on_connected_callbacks == old(shared)@.on_connected_callbacks
            &&& final(shared)@.data_listeners == old(shared)@.data_listeners
        }),
{
    if forall|other: Seq<char>| !old(st)@.connections.contains_key(other) {
        assert(old(st)@.connections =~= Map::<Seq<char>, state::PendingView>::empty());
    }
}

/// A device that the running inquiry finds is listed with its name under its address in normal
/// form, unless the address is listed already; nothing is dropped from the list, and what another
/// inquiry finds is not listed.
pub proof fn law_device_found(
    st: &MainThreadState,
    shared: &mut SharedState,
    inquiry: u64,
    raw: Option<String>,
    name: Option<String>,
    none: Seq<char>,
)
    requires
        call_ensures(scan::device_found, (st, shared, inquiry, raw, name), ()),
        none.len() == 0,
    ensures
        ({
            let key = address::normalized(
                match raw {
                    Some(text) => text@,
                    None => none,
                },
            );
            let before = old(shared)@.scanned_devices;
            let after = final(shared)@.scanned_devices;
            let known = exists|i: int|
                0 <= i < before.len() && (#[trigger] before[i]).address == key;
            &&& st@.inquiry == Some(inquiry) && !known ==> after == before.push(
                DeviceView { name: text::text_of(name), address: key },
            )
            &&& st@.inquiry != Some(inquiry) || known ==> after == before
            &&& final(shared)@.scan_loop_running == old(shared)@.scan_loop_running
            &&& final(shared)@.connected_device_info == old(shared)@.connected_device_info
            &&& final(shared)@.on_connected_callbacks == old(shared)@.on_connected_callbacks
            &&& final(shared)@.data_listeners == old(shared)@.data_listeners
        }),
{
    assert(none =~= Seq::<char>::empty());
}

/// The running inquiry is followed by another one where the scan was not stopped and the inquiry
/// neither failed nor was aborted; then and only then the scan goes on. The end of another inquiry
/// changes nothing.
pub proof fn law_inquiry_complete(
    st: &mut MainThreadState,
    shared: &mut SharedState,
    inquiry: u64,
    error: i32,
    aborted: bool,
    r: bool,
)
    requires
        call_ensures(scan::inquiry_complete, (st, shared, inquiry, error, aborted), r),
    ensures
        ({
            let running = old(st)@.inquiry == Some(inquiry);
            &&& r <==> running && old(shared)@.scan_loop_running && error == 0 && !aborted
            &&& !running ==> final(st)@ == old(st)@ && final(shared)@ == old(shared)@
            &&& running ==> final(st)@.inquiry is None && final(shared)@.scan_loop_running == r
            &&& final(st)@.delegate == old(st)@.delegate
            &&& laws::same_sessions(final(st)@, old(st)@)
            &&& laws::same_waiting(final(st)@, old(st)@)
            &&& final(st)@.next_id == old(st)@.next_id
            &&& final(shared)@.scanned_devices == old(shared)@.scanned_devices
            &&& final(shared)@.connected_device_info == old(shared)@.connected_device_info
            &&& final(shared)@.data_listeners == old(shared)@.data_listeners
            &&& final(shared)@.on_connected_callbacks == old(shared)@.on_connected_callbacks
        }),
{
}

/// A scan that is stopped has no inquiry, and what it has found stays listed.
pub proof fn law_stop_scan(st: &mut MainThreadState, shared: &mut SharedState, r: Option<u64>)
    requires
        call_ensures(scan::stop_scan_impl, (st, shared), r),
    ensures
        r == old(st)@.inquiry,
        final(st)@.inquiry is None,
        final(st)@.delegate == old(st)@.delegate,
        laws::same_sessions(final(st)@, old(st)@),
        laws::same_waiting(final(st)@, old(st)@),
        final(st)@.next_id == old(st)@.next_id,
        !final(shared)@.scan_loop_running,
        final(shared)@.scanned_devices == old(shared)@.scanned_devices,
        final(shared)@.connected_device_info == old(shared)@.connected_device_info,
        final(shared)@.on_connected_callbacks == old(shared)@.on_connected_callbacks,
        final(shared)@.data_listeners == old(shared)@.data_listeners,
{
}

/// An inquiry is created where none runs; it runs until it could not be started, or ends.
pub proof fn law_inquiry(
    asked: &MainThreadState,
    due: bool,
    st: &mut MainThreadState,
    made: Option<u64>,
    created: Result<u64, MacError>,
    later: &mut MainThreadState,
    inquiry: u64,
    status: i32,
    started: Result<(), MacError>,
    shared: &SharedState,
    delegate: Option<u64>,
)
    requires
        call_ensures(scan::start_inquiry, (asked,), due),
        call_ensures(scan::inquiry_created, (st, made), created),
        call_ensures(scan::inquiry_started, (later, inquiry, status), started),
        call_ensures(scan::restart_delegate, (asked, shared), delegate),
    ensures
        due <==> asked@.inquiry is None,
        made is None ==> created == Err::<u64, MacError>(MacError::InquiryNotCreated) && final(st)@
            == old(st)@,
        made matches Some(new) ==> created == Ok::<u64, MacError>(new) && final(st)@.inquiry == Some(
            new,
        ) && final(st)@.delegate == old(st)@.delegate && laws::same_sessions(final(st)@, old(st)@)
            && laws::same_waiting(final(st)@, old(st)@),
        status == 0 ==> started is Ok && final(later)@ == old(later)@,
        status != 0 ==> started == Err::<(), MacError>(MacError::ScanNotStarted(status)),
        status != 0 && old(later)@.inquiry == Some(inquiry) ==> final(later)@.inquiry is None,
        status != 0 && old(later)@.inquiry != Some(inquiry) ==> final(later)@ == old(later)@,
        shared@.scan_loop_running ==> delegate == asked@.delegate,
        !shared@.scan_loop_running ==> delegate is None,
{
}

/// An inquiry that could not be started ends the scan, and what was found stays listed.
pub proof fn law_scan_not_started(shared: &mut SharedState)
    requires
        call_ensures(scan::scan_not_started, (shared,), ()),
    ensures
        !final(shared)@.scan_loop_running,
        final(shared)@.scanned_devices == old(shared)@.scanned_devices,
        final(shared)@.connected_device_info == old(shared)@.connected_device_info,
        final(shared)@.on_connected_callbacks == old(shared)@.on_connected_callbacks,
        final(shared)@.data_listeners == old(shared)@.data_listeners,
{
}

/// A write counts for the send that it belongs to, where that is pending; the message of a send
/// that took too long says how long that is, and why waiting ended.
pub proof fn law_late_writes(
    st: &MainThreadState,
    addr: &str,
    generation: usize,
    request: &WriteRequest,
    r: bool,
    error: &str,
    message: String,
)
    requires
        call_ensures(send::write_is_counted, (st, addr, generation, request), r),
        call_ensures(send::timeout_text, (error,), message),
    ensures
        ({
            let session = st@.sessions[addr@];
            let pending = st@.sessions.contains_key(addr@) && session.generation == generation
                && session.pending_send is Some && session.pending_send->0.id == request.id;
            r <==> (pending ==> session.pending_send->0.in_flight > 0 && request.offset
                <= session.pending_send->0.payload.len())
        }),
        message@ == "RFCOMM async send did not complete within "@ + text::decimal(45) + "s: "@
            + error@,
{
    laws::law_failures_tell_what_the_system_said(0, 0, error@);
}

/// Before anything was done there is nothing: no inquiry, no session, nobody who waits, nothing that
/// was found and nobody who listens.
pub proof fn law_beginning(st: MainThreadState, shared: SharedState, addr: Seq<char>)
    requires
        call_ensures(MainThreadState::new, (), st),
        call_ensures(SharedState::new, (), shared),
    ensures
        st@.inquiry is None,
        st@.delegate is None,
        !st@.sessions.contains_key(addr),
        !st@.connections.contains_key(addr),
        st@.connect_queue.len() == 0,
        st@.connecting is None,
        st@.next_id == 0,
        forall|generation: usize| !st@.retiring.contains_key(generation),
        shared@.scanned_devices.len() == 0,
        !shared@.scan_loop_running,
        !shared@.connected_device_info.contains_key(addr),
        !shared@.on_connected_callbacks.contains_key(addr),
        !shared@.data_listeners.contains_key(addr),
{
}

/// What is said of a session, a connection or a send is said of what it is made of.
pub proof fn law_what_sessions_and_connections_hold(
    session: RfcommSession,
    connection: PendingConnection,
    pending: PendingRfcommSend,
)
    ensures
        session@.addr == session.addr@,
        session@.generation == session.generation,
        session@.channel == session.channel,
        session@.delegate == session.delegate,
        session@.active == session.active,
        session@.opened == session.opened,
        session@.failed == session.failed,
        session@.mtu == session.mtu,
        session@.pump_scheduled == session.pump_scheduled,
        session@.pending_send is Some <==> session.pending_send is Some,
        session.pending_send matches Some(send) ==> session@.pending_send == Some(send@),
        connection@.generation == connection.generation,
        connection@.device == connection.device,
        connection@.info == connection.info@,
        connection@.channels == connection.channels@,
        connection@.last_error == connection.last_error@,
        connection@.sdp_resolved == connection.sdp_resolved,
        pending@.id == pending.id,
        pending@.payload == pending.payload@,
        pending@.next_offset == pending.next_offset,
        pending@.in_flight == pending.in_flight,
        pending@.completion == pending.completion,
{
}

/// What is said of the state is said of what it is made of.
pub proof fn law_what_the_state_holds(st: MainThreadState, shared: SharedState)
    ensures
        st@.inquiry == st.inquiry,
        st@.delegate == st.delegate,
        st@.sessions == st.sessions@,
        st@.retiring == st.retiring@,
        st@.connections == st.connections@,
        st@.connect_queue == st.connect_queue@,
        st@.connecting is Some <==> st.connecting is Some,
        st.connecting matches Some(addr) ==> st@.connecting == Some(addr@),
        st@.next_id == st.next_id,
        shared@.scanned_devices == shared.scanned_devices@,
        shared@.scan_loop_running == shared.scan_loop_running,
        shared@.connected_device_info == shared.connected_device_info@,
        shared@.on_connected_callbacks == shared.on_connected_callbacks@,
        shared@.data_listeners == shared.data_listeners@,
{
}

/// Every request may be made, and every event taken, in every state.
pub proof fn law_requests_are_open(
    st: &mut MainThreadState,
    shared: &mut SharedState,
    addr: &str,
    channels: &[u8],
    request: ConnectRequest,
    device: Option<NativeDevice>,
    generation: usize,
    id: usize,
    status: i32,
    number: u64,
    other: u64,
    third: u64,
    found: Option<u8>,
    reason: String,
    flag: bool,
)
    requires
        old(st).wf(),
    ensures
        call_requires(requests::connect_impl, (st, shared, addr, channels)),
        call_requires(requests::finish_connect, (st, request, device)),
        call_requires(requests::disconnect_impl, (st, shared, addr)),
        call_requires(requests::disconnect_all_impl, (st, shared)),
        call_requires(requests::cleanup_bluetooth_resources, (st, shared)),
        call_requires(connection::start_next_connection, (st,)),
        call_requires(connection::finish_sdp, (st, addr, generation, found)),
        call_requires(connection::retry_connection, (st, shared, addr, reason)),
        call_requires(connection::try_next_channel, (st, shared, addr)),
        call_requires(
            connection::channel_requested,
            (st, addr, generation, number, other, third),
        ),
        call_requires(connection::handle_open_complete, (st, shared, addr, generation, status, id)),
        call_requires(connection::channel_closed, (st, shared, addr, generation)),
        call_requires(session::close_session, (st, addr, addr, flag)),
        call_requires(session::finish_close, (st, generation, status)),
        call_requires(session::fail_session, (st, shared, addr, generation, reason)),
        call_requires(session::fail_session_later, (st, addr, generation)),
        call_requires(send::schedule_pump, (st, addr, generation)),
        call_requires(send::begin_turn, (st, addr, generation)),
        call_requires(send::pump_pending_rfcomm_send, (st, addr, generation)),
        call_requires(send::handle_write_complete, (st, addr, generation, id, status)),
        call_requires(scan::start_scan_impl, (st, shared, number)),
        call_requires(scan::stop_scan_impl, (st, shared)),
        call_requires(scan::inquiry_complete, (st, shared, number, status, flag)),
        call_requires(scan::inquiry_started, (st, number, status)),
{
}

/// Every send may begin, every timeout and every refusal may be taken, and a turn goes on after each
/// of its first four writes, where a write that was not accepted is one of a pending send.
pub proof fn law_sends_are_open(
    st: &mut MainThreadState,
    shared: &mut SharedState,
    addr: &str,
    payload: Arc<Vec<u8>>,
    completion: u64,
    send: &AcceptedSend,
    reason: String,
    generation: usize,
    connection: Option<usize>,
    channel: u8,
    status: i32,
    request: &WriteRequest,
    made: usize,
    flag: bool,
)
    requires
        old(st).wf(),
        made < 4,
    ensures
        call_requires(send::begin_send, (st, addr, payload, completion)),
        call_requires(send::send_timed_out, (st, shared, addr, send, reason)),
        call_requires(
            connection::channel_rejected,
            (st, shared, addr, connection, channel, status),
        ),
        call_requires(connection::open_timed_out, (st, shared, addr, generation, channel)),
        call_requires(
            send::after_write,
            (st, addr, generation, request, made, 0i32, flag),
        ),
        send::counted(old(st)@, addr@, generation, request.id, request.offset) ==> call_requires(
            send::after_write,
            (st, addr, generation, request, made, status, flag),
        ),
{
}

} // verus!
