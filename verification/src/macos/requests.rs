//! What callers ask of the backend, and what devices send.
use std::collections::VecDeque;
use vstd::prelude::*;

use crate::address_map;
use crate::channels;
use crate::macos::address;
use crate::macos::error::MacError;
use crate::macos::retiring;
use crate::macos::scan;
use crate::macos::session;
use crate::macos::session::ClosedSession;
use crate::macos::state;
use crate::macos::state::{
    MainThreadState, MainView, PendingConnection, PendingView, SessionView, SharedState, SharedView,
};
use crate::models;
use crate::models::{DeviceView, SPPDevice};
use crate::text;

verus! {

/// The channels to try, in order.
pub fn normalized_fallback_channels(channels: &[u8]) -> (r: VecDeque<u8>)
    ensures
        r@ == channels::fallback_order(channels@, state::HIGHEST_CHANNEL),
{
    let ordered: Vec<u8> = channels::normalized(channels, state::HIGHEST_CHANNEL);
    let mut out: VecDeque<u8> = VecDeque::new();
    let mut i: usize = 0;
    assert(ordered@.take(0) =~= Seq::<u8>::empty());
    while i < ordered.len()
        invariant
            i <= ordered@.len(),
            out@ == ordered@.take(i as int),
        decreases ordered@.len() - i,
    {
        out.push_back(ordered[i]);
        assert(out@ =~= ordered@.take(i + 1));
        i = i + 1;
    }
    assert(ordered@.take(i as int) =~= ordered@);
    out
}

/// A connection that waits for the native device.
pub struct ConnectRequest {
    /// The inquiry to stop before.
    pub stopped: Option<u64>,
    pub addr: String,
    /// The address in the form under which the native device is looked up.
    pub api_addr: String,
    pub channels: VecDeque<u8>,
}

/// How a request to connect was taken.
pub enum ConnectStart {
    /// The device is connected or being connected; nothing is to be done.
    Known,
    /// The native device is to be looked up for [`finish_connect`].
    LookUp(ConnectRequest),
}

/// Whether the device at `addr` is connected or being connected.
pub open spec fn known(st: MainView, addr: Seq<char>) -> bool {
    st.connections.contains_key(addr) || st.sessions.contains_key(addr)
}

/// Asks for a connection to a device. A device whose earlier session is still closing is
/// refused; one that is connected or being connected is not disturbed. Scanning stops.
pub fn connect_impl(
    st: &mut MainThreadState,
    shared: &mut SharedState,
    addr: &str,
    fallback_channels: &[u8],
) -> (r: Result<ConnectStart, MacError>)
    requires
        old(st).wf(),
    ensures
        final(st).wf(),
        ({
            let key = address::normalized(addr@);
            if retiring::retires(old(st)@.retiring, key) {
                &&& r matches Err(MacError::StillClosing(closing))
                &&& closing@ == key
                &&& final(st)@ == old(st)@
                &&& final(shared)@ == old(shared)@
            } else if known(old(st)@, key) {
                &&& r matches Ok(start)
                &&& start is Known
                &&& final(st)@ == old(st)@
                &&& final(shared)@ == old(shared)@
            } else {
                &&& r matches Ok(ConnectStart::LookUp(request))
                &&& request.stopped == old(st)@.inquiry
                &&& request.addr@ == key
                &&& request.api_addr@ == address::hyphenated(key)
                &&& request.channels@ == channels::fallback_order(
                    fallback_channels@,
                    state::HIGHEST_CHANNEL,
                )
                &&& final(st)@ == scan::scan_stopped(old(st)@)
                &&& final(shared)@ == scan::scan_stopped_shared(old(shared)@)
            }
        }),
{
    let key: String = address::normalize_addr_from_macos(addr);
    let channels: VecDeque<u8> = normalized_fallback_channels(fallback_channels);
    let exists: bool = st.connections.contains_key(key.as_str()) || st.sessions.contains_key(
        key.as_str(),
    );
    if st.retiring.any_for(key.as_str()) {
        return Err(MacError::StillClosing(key));
    }
    if exists {
        return Ok(ConnectStart::Known);
    }
    let stopped: Option<u64> = scan::stop_scan_impl(st, shared);
    let api_addr: String = address::addr_to_macos_format(key.as_str());
    Ok(ConnectStart::LookUp(ConnectRequest { stopped, addr: key, api_addr, channels }))
}

/// A native device that was looked up.
pub struct NativeDevice {
    pub device: u64,
    pub name: Option<String>,
}

/// The state when a connection was accepted: it is made when the device has its turn.
pub open spec fn connection_accepted(
    st: MainView,
    addr: Seq<char>,
    device: u64,
    name: Option<Seq<char>>,
    channels: Seq<u8>,
) -> MainView {
    MainView {
        connections: st.connections.insert(
            addr,
            PendingView {
                generation: state::id_after(st.next_id),
                device,
                info: DeviceView { name, address: addr },
                channels,
                last_error: Seq::empty(),
                sdp_resolved: false,
            },
        ),
        connect_queue: st.connect_queue.push(addr),
        next_id: state::id_after(st.next_id),
        ..st
    }
}

/// Takes the native device that was looked up, if there is one. The result says that the
/// connection was accepted, not that it was made; the next device may have its turn.
pub fn finish_connect(
    st: &mut MainThreadState,
    request: ConnectRequest,
    device: Option<NativeDevice>,
) -> (r: Result<bool, MacError>)
    requires
        old(st).wf(),
    ensures
        final(st).wf(),
        match device {
            Some(device) => r == Ok::<bool, MacError>(true) && final(st)@ == connection_accepted(
                old(st)@,
                request.addr@,
                device.device,
                text::text_of(device.name),
                request.channels@,
            ),
            None => r matches Err(MacError::DeviceNotFound(addr)) && addr@ == request.addr@
                && final(st)@ == old(st)@,
        },
{
    match device {
        Some(device) => {
            let info = SPPDevice { name: device.name, address: request.addr.clone() };
            let generation: usize = state::next_id(st);
            let last_error: String = String::new();
            assert(last_error@ =~= Seq::<char>::empty());
            let queued: String = request.addr.clone();
            st.connections.insert(
                request.addr,
                PendingConnection {
                    generation,
                    device: device.device,
                    info,
                    channels: request.channels,
                    last_error,
                    sdp_resolved: false,
                },
            );
            st.connect_queue.push_back(queued);
            Ok(true)
        },
        None => Err(MacError::DeviceNotFound(request.addr)),
    }
}

/// What is known of a device while it is connected.
pub fn get_connected_device_info_impl(shared: &SharedState, addr: &str) -> (r: Option<SPPDevice>)
    ensures
        models::device_of(r) == address_map::found(
            shared@.connected_device_info,
            address::normalized(addr@),
        ),
{
    let key: String = address::normalize_addr_from_macos(addr);
    match shared.connected_device_info.get(key.as_str()) {
        Some(device) => Some(device.clone()),
        None => None,
    }
}

/// Registers the callback for the connection to a device, in place of an earlier one.
pub fn on_connected_impl(shared: &mut SharedState, addr: &str, callback: u64)
    ensures
        final(shared)@ == (SharedView {
            on_connected_callbacks: old(shared)@.on_connected_callbacks.insert(
                address::normalized(addr@),
                callback,
            ),
            ..old(shared)@
        }),
{
    let key: String = address::normalize_addr_from_macos(addr);
    shared.on_connected_callbacks.insert(key, callback);
}

/// The name of the worker that serves the listener for a device.
pub fn worker_name(addr: &str) -> (r: String)
    ensures
        r@ == "rfcomm-rx-"@ + address::normalized(addr@),
{
    let key: String = address::normalize_addr_from_macos(addr);
    text::joined("rfcomm-rx-", key.as_str())
}

/// Sets the listener for data from a device, in place of an earlier one.
pub fn set_data_listener_impl(shared: &mut SharedState, addr: &str, listener: u64)
    ensures
        final(shared)@ == (SharedView {
            data_listeners: old(shared)@.data_listeners.insert(
                address::normalized(addr@),
                listener,
            ),
            ..old(shared)@
        }),
{
    let key: String = address::normalize_addr_from_macos(addr);
    shared.data_listeners.insert(key, listener);
}

/// What the worker of a listener does with an event.
#[derive(Debug, PartialEq, Eq)]
pub struct ListenerStep {
    /// Whether the listener is called with the event.
    pub call: bool,
    /// Whether the worker ends.
    pub stop: bool,
}

/// What the worker of a listener does with an event: it drops what a session sent that has
/// ended, and ends after an error.
pub open spec fn step_for(active: Option<bool>, is_error: bool) -> ListenerStep {
    ListenerStep { call: active != Some(false), stop: active != Some(false) && is_error }
}

/// What the worker of a listener does with an event: `active` is the session's flag, where the
/// event belongs to a session.
pub fn listener_step(active: Option<bool>, is_error: bool) -> (r: ListenerStep)
    ensures
        r == step_for(active, is_error),
{
    let call: bool = match active {
        Some(raised) => raised,
        None => true,
    };
    ListenerStep { call, stop: call && is_error }
}

/// An event for a listener: the session's flag when the event is taken, where it belongs to a
/// session, and the bytes or the error.
pub struct ListenerEvent {
    pub active: Option<bool>,
    pub data: Result<Seq<u8>, Seq<char>>,
}

/// With what a listener is called for several events, in order.
pub open spec fn heard(events: Seq<ListenerEvent>) -> Seq<Result<Seq<u8>, Seq<char>>>
    decreases events.len(),
{
    if events.len() == 0 {
        Seq::empty()
    } else {
        let event = events[0];
        let step = step_for(event.active, event.data is Err);
        let calls = if step.call {
            seq![event.data]
        } else {
            Seq::empty()
        };
        if step.stop {
            calls
        } else {
            calls + heard(events.skip(1))
        }
    }
}

/// The bytes and errors of the events that are not dropped, in order.
pub open spec fn not_dropped(events: Seq<ListenerEvent>) -> Seq<Result<Seq<u8>, Seq<char>>>
    decreases events.len(),
{
    if events.len() == 0 {
        Seq::empty()
    } else if events[0].active == Some(false) {
        not_dropped(events.skip(1))
    } else {
        seq![events[0].data] + not_dropped(events.skip(1))
    }
}

/// Everything up to the first error, and that error.
pub open spec fn through_first_error(all: Seq<Result<Seq<u8>, Seq<char>>>) -> Seq<
    Result<Seq<u8>, Seq<char>>,
>
    decreases all.len(),
{
    if all.len() == 0 {
        Seq::empty()
    } else if all[0] is Err {
        seq![all[0]]
    } else {
        seq![all[0]] + through_first_error(all.skip(1))
    }
}

/// A listener hears the events in the order in which they were sent: an event is skipped exactly
/// when its session's flag is down, and after the first error nothing follows.
pub proof fn law_listener_hears_in_order(events: Seq<ListenerEvent>)
    ensures
        heard(events) == through_first_error(not_dropped(events)),
        heard(events).is_prefix_of(not_dropped(events)),
        forall|i: int|
            0 <= i < heard(events).len() - 1 ==> (#[trigger] heard(events)[i]) is Ok,
        (forall|i: int|
            0 <= i < not_dropped(events).len() ==> (#[trigger] not_dropped(events)[i]) is Ok)
            ==> heard(events) == not_dropped(events),
    decreases events.len(),
{
    if events.len() > 0 {
        let rest = events.skip(1);
        law_listener_hears_in_order(rest);
        let event = events[0];
        if event.active == Some(false) {
            assert(heard(events) =~= heard(rest));
        } else {
            let all = not_dropped(events);
            assert(all.skip(1) =~= not_dropped(rest));
            if event.data is Ok {
                assert forall|i: int| 0 <= i < heard(events).len() - 1 implies (
                #[trigger] heard(events)[i]) is Ok by {
                    if i > 0 {
                        assert(heard(events)[i] == heard(rest)[i - 1]);
                    }
                }
                if forall|i: int| 0 <= i < all.len() ==> (#[trigger] all[i]) is Ok {
                    assert forall|i: int| 0 <= i < not_dropped(rest).len() implies (
                    #[trigger] not_dropped(rest)[i]) is Ok by {
                        assert(all[i + 1] == not_dropped(rest)[i]);
                    }
                }
            } else {
                assert(all[0] == event.data);
            }
        }
    }
}

/// Data arrives by itself; there is nothing to start.
pub fn start_subscription_impl(_addr: &str) -> (r: Result<(), MacError>)
    ensures
        r == Ok::<(), MacError>(()),
{
    Ok(())
}

/// When bytes from a device are handed on.
#[derive(Debug, PartialEq, Eq)]
pub enum Arrival {
    /// Not at all: there are none.
    Ignored,
    /// At once.
    Now,
    /// On a later turn, as the channel is not open yet.
    Later,
}

/// When bytes that have arrived are handed on with [`deliver_data`].
pub fn data_arrived(st: &MainThreadState, addr: &str, generation: usize, len: usize) -> (r: Arrival)
    ensures
        r == (if len == 0 {
            Arrival::Ignored
        } else if session::is_session(st@, addr@, generation) && st@.sessions[addr@].opened {
            Arrival::Now
        } else {
            Arrival::Later
        }),
{
    if len == 0 {
        return Arrival::Ignored;
    }
    let opened: bool = match st.sessions.get(addr) {
        Some(session) => session.generation == generation && session.opened,
        None => false,
    };
    if opened {
        Arrival::Now
    } else {
        Arrival::Later
    }
}

/// To whom bytes are handed.
#[derive(Debug, PartialEq, Eq)]
pub struct Delivery {
    /// The session's flag.
    pub active: u64,
    pub listener: u64,
}

/// To whom bytes from a session are handed, if the session is still live and there is a
/// listener.
pub fn deliver_data(st: &MainThreadState, shared: &SharedState, addr: &str, generation: usize) -> (r:
    Option<Delivery>)
    ensures
        r == (if session::can_fail(st@, addr@, generation)
            && shared@.data_listeners.contains_key(addr@) {
            Some(
                Delivery {
                    active: st@.sessions[addr@].active,
                    listener: shared@.data_listeners[addr@],
                },
            )
        } else {
            None
        }),
{
    match st.sessions.get(addr) {
        Some(session) => if session.generation == generation && !session.failed {
            match shared.data_listeners.get(addr) {
                Some(listener) => Some(Delivery { active: session.active, listener: *listener }),
                None => None,
            }
        } else {
            None
        },
        None => None,
    }
}

/// Ends the connection to a device, or the attempts to make it, and forgets the device. Its
/// listener is told nothing.
pub fn disconnect_impl(st: &mut MainThreadState, shared: &mut SharedState, addr: &str) -> (r: Option<
    ClosedSession,
>)
    requires
        old(st).wf(),
    ensures
        final(st).wf(),
        ({
            let key = address::normalized(addr@);
            &&& final(st)@ == session::dropped(old(st)@, key)
            &&& final(shared)@ == session::cleared(old(shared)@, key)
            &&& session::ends_if_any(
                r,
                address_map::found(old(st)@.sessions, key),
                "Connection disconnected during RFCOMM send"@,
                false,
            )
        }),
{
    let key: String = address::normalize_addr_from_macos(addr);
    let closed = session::close_session(
        st,
        key.as_str(),
        "Connection disconnected during RFCOMM send",
        false,
    );
    let _ = session::clear_device_state(shared, key.as_str(), None);
    session::release_connection_slot(st, key.as_str());
    closed
}

/// The state when the sessions with the devices at `keys` have ended, one after the other.
pub open spec fn all_closed(st: MainView, keys: Seq<Seq<char>>) -> MainView
    decreases keys.len(),
{
    if keys.len() == 0 {
        st
    } else {
        session::closed(all_closed(st, keys.drop_last()), keys.last())
    }
}

/// The state when nobody waits to be connected.
pub open spec fn nobody_waits(st: MainView) -> MainView {
    MainView {
        connect_queue: Seq::empty(),
        connecting: None,
        connections: Map::empty(),
        ..st
    }
}

/// The addresses `keys` name every session once, and `ends` are what is left to do for each.
pub open spec fn ends_each_once(
    sessions: Map<Seq<char>, SessionView>,
    keys: Seq<Seq<char>>,
    ends: Seq<ClosedSession>,
    reason: Seq<char>,
) -> bool {
    &&& keys.len() == ends.len()
    &&& keys.no_duplicates()
    &&& forall|key: Seq<char>| sessions.contains_key(key) <==> keys.contains(key)
    &&& forall|i: int|
        0 <= i < keys.len() ==> session::ends(#[trigger] ends[i], sessions[keys[i]], reason, false)
}

/// The shared state when nothing of any device is remembered.
pub open spec fn nothing_remembered(shared: SharedView) -> SharedView {
    SharedView {
        connected_device_info: Map::empty(),
        on_connected_callbacks: Map::empty(),
        data_listeners: Map::empty(),
        ..shared
    }
}

/// Ends every session and every attempt to connect, in no particular order, and forgets every
/// device.
pub fn disconnect_all_impl(st: &mut MainThreadState, shared: &mut SharedState) -> (r: Vec<
    ClosedSession,
>)
    requires
        old(st).wf(),
    ensures
        final(st).wf(),
        final(st)@.sessions == Map::<Seq<char>, SessionView>::empty(),
        exists|keys: Seq<Seq<char>>|
            ends_each_once(old(st)@.sessions, keys, r@, "Bluetooth shutdown"@) && final(st)@
                == #[trigger] all_closed(nobody_waits(old(st)@), keys),
        final(shared)@ == nothing_remembered(old(shared)@),
{
    st.connect_queue.clear();
    st.connecting = None;
    st.connections.clear();
    let ghost start = nobody_waits(old(st)@);
    let ghost sessions = old(st)@.sessions;
    let addrs: Vec<String> = st.sessions.keys();
    let ghost keys = Seq::new(addrs@.len(), |i: int| addrs@[i]@);
    proof {
        assert forall|key: Seq<char>| sessions.contains_key(key) <==> keys.contains(key) by {
            if sessions.contains_key(key) {
                let i = choose|i: int| 0 <= i < addrs@.len() && addrs@[i]@ == key;
                assert(keys[i] == key);
            }
            if keys.contains(key) {
                let i = keys.index_of(key);
                assert(sessions.contains_key(addrs@[i]@));
            }
        }
        assert(keys.take(0) =~= Seq::<Seq<char>>::empty());
    }
    let mut ends: Vec<ClosedSession> = Vec::new();
    let mut i: usize = 0;
    while i < addrs.len()
        invariant
            i <= addrs@.len(),
            keys == Seq::new(addrs@.len(), |j: int| addrs@[j]@),
            keys.no_duplicates(),
            st.wf(),
            st@ == all_closed(start, keys.take(i as int)),
            ends@.len() == i,
            forall|key: Seq<char>| sessions.contains_key(key) <==> keys.contains(key),
            forall|key: Seq<char>| #[trigger]
                st@.sessions.contains_key(key) ==> sessions.contains_key(key)
                    && st@.sessions[key] == sessions[key],
            forall|j: int| 0 <= j < i ==> !st@.sessions.contains_key(#[trigger] keys[j]),
            forall|j: int|
                i <= j < keys.len() ==> st@.sessions.contains_key(#[trigger] keys[j]),
            forall|j: int|
                0 <= j < i ==> session::ends(
                    #[trigger] ends@[j],
                    sessions[keys[j]],
                    "Bluetooth shutdown"@,
                    false,
                ),
        decreases addrs@.len() - i,
    {
        let ghost left = st@.sessions;
        assert(keys[i as int] == addrs@[i as int]@);
        match session::close_session(st, addrs[i].as_str(), "Bluetooth shutdown", false) {
            Some(end) => {
                ends.push(end);
            },
            None => {},
        }
        assert(keys.take(i + 1).drop_last() =~= keys.take(i as int));
        assert forall|key: Seq<char>| #[trigger] st@.sessions.contains_key(key) implies left
            .contains_key(key) && st@.sessions[key] == left[key] by {
            assert(st@.sessions == left.remove(keys[i as int]));
        }
        i = i + 1;
    }
    proof {
        assert(keys.take(i as int) =~= keys);
        assert(st@.sessions =~= Map::<Seq<char>, SessionView>::empty()) by {
            assert forall|key: Seq<char>| !st@.sessions.contains_key(key) by {
                if st@.sessions.contains_key(key) {
                    assert(keys.contains(key));
                    let j = keys.index_of(key);
                    assert(!st@.sessions.contains_key(keys[j]));
                }
            }
        }
        assert(ends_each_once(sessions, keys, ends@, "Bluetooth shutdown"@));
    }
    shared.connected_device_info.clear();
    shared.on_connected_callbacks.clear();
    shared.data_listeners.clear();
    ends
}

/// What is left to do when the backend shuts down; `steps` gives the order.
pub struct Shutdown {
    /// The inquiry to stop.
    pub inquiry: Option<u64>,
    pub closed: Vec<ClosedSession>,
}

/// Stops scanning, ends every connection and forgets every device.
pub fn cleanup_bluetooth_resources(st: &mut MainThreadState, shared: &mut SharedState) -> (r:
    Shutdown)
    requires
        old(st).wf(),
    ensures
        final(st).wf(),
        r.inquiry == old(st)@.inquiry,
        final(st)@.sessions == Map::<Seq<char>, SessionView>::empty(),
        exists|keys: Seq<Seq<char>>|
            ends_each_once(old(st)@.sessions, keys, r.closed@, "Bluetooth shutdown"@) && final(st)@
                == #[trigger] all_closed(nobody_waits(scan::scan_stopped(old(st)@)), keys),
        final(shared)@ == nothing_remembered(scan::scan_stopped_shared(old(shared)@)),
{
    let inquiry: Option<u64> = scan::stop_scan_impl(st, shared);
    let closed: Vec<ClosedSession> = disconnect_all_impl(st, shared);
    Shutdown { inquiry, closed }
}

/// A second request to connect to a device changes nothing: once a connection was accepted, the
/// device is known until it is given up or disconnected.
pub proof fn law_accepted_device_is_known(
    st: MainView,
    addr: Seq<char>,
    device: u64,
    name: Option<Seq<char>>,
    channels: Seq<u8>,
)
    ensures
        known(connection_accepted(st, addr, device, name, channels), addr),
        connection_accepted(st, addr, device, name, channels).connect_queue.contains(addr),
        !known(session::dropped(st, addr), addr),
{
    let after = connection_accepted(st, addr, device, name, channels);
    assert(after.connect_queue[st.connect_queue.len() as int] == addr);
}

} // verus!
