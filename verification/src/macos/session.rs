//! The end of a session: its channel is closed, its send fails, its buffers live on until no
//! write uses them.
use vstd::prelude::*;

use crate::address_map;
use crate::macos::queue;
use crate::macos::retiring;
use crate::macos::state;
use crate::macos::state::{MainThreadState, MainView, SessionView, SharedState, SharedView};
use crate::text;

verus! {

broadcast use {address_map::lemma_put_back, address_map::lemma_remove_absent};

/// Whether the session with the device at `addr` is the one of this generation.
pub open spec fn is_session(st: MainView, addr: Seq<char>, generation: usize) -> bool {
    st.sessions.contains_key(addr) && st.sessions[addr].generation == generation
}

/// Whether the session with the device at `addr` is the one of this generation.
pub fn session_matches(st: &MainThreadState, addr: &str, generation: usize) -> (r: bool)
    ensures
        r == is_session(st@, addr@, generation),
{
    match st.sessions.get(addr) {
        Some(session) => session.generation == generation,
        None => false,
    }
}

/// The callback to call for a device that was just connected.
pub fn notify_connected(shared: &SharedState, addr: &str) -> (r: Option<u64>)
    ensures
        r == address_map::found(shared@.on_connected_callbacks, addr@),
{
    match shared.on_connected_callbacks.get(addr) {
        Some(callback) => Some(*callback),
        None => None,
    }
}

/// An error that a listener is told of.
#[derive(Debug, PartialEq, Eq)]
pub struct ListenerError {
    pub listener: u64,
    pub error: String,
}

/// The shared state without anything of the device at `addr`.
pub open spec fn cleared(shared: SharedView, addr: Seq<char>) -> SharedView {
    SharedView {
        connected_device_info: shared.connected_device_info.remove(addr),
        on_connected_callbacks: shared.on_connected_callbacks.remove(addr),
        data_listeners: shared.data_listeners.remove(addr),
        ..shared
    }
}

/// Whether `told` says that the listener for `addr`, if there is one, is told of the error, if
/// there is one.
pub open spec fn tells(
    told: Option<ListenerError>,
    shared: SharedView,
    addr: Seq<char>,
    error: Option<Seq<char>>,
) -> bool {
    match (address_map::found(shared.data_listeners, addr), error) {
        (Some(listener), Some(error)) => told matches Some(news) && news.listener == listener
            && news.error@ == error,
        _ => told is None,
    }
}

/// Forgets a device; returns what its listener is told.
pub fn clear_device_state(shared: &mut SharedState, addr: &str, error: Option<String>) -> (r:
    Option<ListenerError>)
    ensures
        final(shared)@ == cleared(old(shared)@, addr@),
        tells(r, old(shared)@, addr@, text::text_of(error)),
{
    let _ = shared.connected_device_info.remove(addr);
    let _ = shared.on_connected_callbacks.remove(addr);
    let listener: Option<u64> = shared.data_listeners.remove(addr);
    match (listener, error) {
        (Some(listener), Some(error)) => Some(ListenerError { listener, error }),
        _ => None,
    }
}

/// The state without the session that retires under `generation`.
pub open spec fn released(st: MainView, generation: usize) -> MainView {
    MainView { retiring: st.retiring.remove(generation), ..st }
}

/// The channel of a session, if there is one.
pub open spec fn channel_of(session: Option<SessionView>) -> Option<u64> {
    match session {
        Some(session) => Some(session.channel),
        None => None,
    }
}

/// Drops a retiring session with its buffers; returns the channel whose delegate is to be
/// taken away.
pub fn release_retiring_session(st: &mut MainThreadState, generation: usize) -> (r: Option<u64>)
    requires
        old(st).wf(),
    ensures
        final(st).wf(),
        final(st)@ == released(old(st)@, generation),
        r == channel_of(retiring::retired(old(st)@.retiring, generation)),
{
    match st.retiring.remove(generation) {
        Some(session) => Some(session.channel),
        None => None,
    }
}

/// A send that failed, and whom to tell.
#[derive(Debug, PartialEq, Eq)]
pub struct FailedSend {
    pub completion: u64,
    pub reason: String,
}

/// What is left to do for a session that ended; `steps` gives the order.
#[derive(Debug, PartialEq, Eq)]
pub struct ClosedSession {
    pub generation: usize,
    pub channel: u64,
    /// The flag to lower.
    pub active: u64,
    pub failed_send: Option<FailedSend>,
    /// Whether the channel is to be closed; it was closed already where not.
    pub close_channel: bool,
}

/// The state when the session with the device at `addr` has ended: it is no longer live, and
/// retires with all its buffers.
pub open spec fn closed(st: MainView, addr: Seq<char>) -> MainView {
    match address_map::found(st.sessions, addr) {
        Some(session) => MainView {
            sessions: st.sessions.remove(addr),
            retiring: st.retiring.insert(session.generation, session),
            ..st
        },
        None => st,
    }
}

/// Whether `end` is what is left to do for a session that ended for this reason.
pub open spec fn ends(
    end: ClosedSession,
    session: SessionView,
    reason: Seq<char>,
    already_closed: bool,
) -> bool {
    &&& end.generation == session.generation
    &&& end.channel == session.channel
    &&& end.active == session.active
    &&& end.close_channel == !already_closed
    &&& match session.pending_send {
        Some(send) => end.failed_send matches Some(failed) && failed.completion == send.completion
            && failed.reason@ == reason,
        None => end.failed_send is None,
    }
}

/// Whether `end` is what is left to do for the session, if there is one.
pub open spec fn ends_if_any(
    end: Option<ClosedSession>,
    session: Option<SessionView>,
    reason: Seq<char>,
    already_closed: bool,
) -> bool {
    match session {
        Some(session) => end matches Some(end) && ends(end, session, reason, already_closed),
        None => end is None,
    }
}

/// Ends the session with a device, if there is one. The session stops being live before
/// anything native is called; its delegate and its payload are kept until the channel is closed.
pub fn close_session(
    st: &mut MainThreadState,
    addr: &str,
    reason: &str,
    already_closed: bool,
) -> (r: Option<ClosedSession>)
    requires
        old(st).wf(),
    ensures
        final(st).wf(),
        final(st)@ == closed(old(st)@, addr@),
        ends_if_any(r, address_map::found(old(st)@.sessions, addr@), reason@, already_closed),
{
    match st.sessions.remove(addr) {
        Some(session) => {
            let failed_send: Option<FailedSend> = match &session.pending_send {
                Some(send) => Some(
                    FailedSend { completion: send.completion, reason: reason.to_owned() },
                ),
                None => None,
            };
            let end = ClosedSession {
                generation: session.generation,
                channel: session.channel,
                active: session.active,
                failed_send,
                close_channel: !already_closed,
            };
            st.retiring.insert(session);
            Some(end)
        },
        None => None,
    }
}

/// Whether writes of a retiring session are under way.
pub open spec fn writes_pending(session: Option<SessionView>) -> bool {
    session matches Some(session) && session.pending_send matches Some(send) && send.in_flight != 0
}

/// Whether a session that was asked to close can be dropped: its channel is closed, or at least
/// no write uses its buffers.
pub open spec fn droppable(st: MainView, generation: usize, status: i32) -> bool {
    status == state::RETURN_SUCCESS || !writes_pending(retiring::retired(st.retiring, generation))
}

/// Takes the status of the native close; returns the channel whose delegate is to be taken
/// away where the session is dropped.
pub fn finish_close(st: &mut MainThreadState, generation: usize, status: i32) -> (r: Option<u64>)
    requires
        old(st).wf(),
    ensures
        final(st).wf(),
        if droppable(old(st)@, generation, status) {
            final(st)@ == released(old(st)@, generation) && r == channel_of(
                retiring::retired(old(st)@.retiring, generation),
            )
        } else {
            final(st)@ == old(st)@ && r is None
        },
{
    let pending: bool = match st.retiring.get(generation) {
        Some(session) => match &session.pending_send {
            Some(send) => send.in_flight != 0,
            None => false,
        },
        None => false,
    };
    if status == state::RETURN_SUCCESS || !pending {
        release_retiring_session(st, generation)
    } else {
        None
    }
}

/// The state when the device at `addr` is no longer being connected.
pub open spec fn slot_released(st: MainView, addr: Seq<char>) -> MainView {
    MainView {
        connections: st.connections.remove(addr),
        connect_queue: queue::others(st.connect_queue, addr),
        connecting: if st.connecting == Some(addr) {
            None
        } else {
            st.connecting
        },
        ..st
    }
}

/// Ends the attempts to connect to a device, so that the next one may have its turn.
pub fn release_connection_slot(st: &mut MainThreadState, addr: &str)
    requires
        old(st).wf(),
    ensures
        final(st).wf(),
        final(st)@ == slot_released(old(st)@, addr@),
{
    let _ = st.connections.remove(addr);
    st.connect_queue.remove_all(addr);
    if text::holds_text(&st.connecting, addr) {
        st.connecting = None;
    }
}

/// What is left to do for a device that was given up; `steps` gives the order.
#[derive(Debug, PartialEq, Eq)]
pub struct DroppedDevice {
    pub closed: Option<ClosedSession>,
    pub told: Option<ListenerError>,
}

/// The state when the device at `addr` was given up.
pub open spec fn dropped(st: MainView, addr: Seq<char>) -> MainView {
    slot_released(closed(st, addr), addr)
}

/// Gives up a device: ends its session, forgets it, and lets the next one have its turn.
pub fn fail_connection(
    st: &mut MainThreadState,
    shared: &mut SharedState,
    addr: &str,
    reason: String,
) -> (r: DroppedDevice)
    requires
        old(st).wf(),
    ensures
        final(st).wf(),
        final(st)@ == dropped(old(st)@, addr@),
        final(shared)@ == cleared(old(shared)@, addr@),
        ends_if_any(r.closed, address_map::found(old(st)@.sessions, addr@), reason@, false),
        tells(r.told, old(shared)@, addr@, Some(reason@)),
{
    let closed = close_session(st, addr, reason.as_str(), false);
    let told = clear_device_state(shared, addr, Some(reason));
    release_connection_slot(st, addr);
    DroppedDevice { closed, told }
}

/// The state with `session` in place of what was known of the live session with `addr`.
pub open spec fn with_session(st: MainView, addr: Seq<char>, session: SessionView) -> MainView {
    MainView { sessions: st.sessions.insert(addr, session), ..st }
}

/// Whether a session can still fail: it is live and has not failed yet.
pub open spec fn can_fail(st: MainView, addr: Seq<char>, generation: usize) -> bool {
    is_session(st, addr, generation) && !st.sessions[addr].failed
}

/// Marks a session as failed, once; returns the flag to lower. The session is to be given up
/// with [`fail_session`] on a later turn of the run loop.
pub fn fail_session_later(st: &mut MainThreadState, addr: &str, generation: usize) -> (r: Option<
    u64,
>)
    requires
        old(st).wf(),
    ensures
        final(st).wf(),
        if can_fail(old(st)@, addr@, generation) {
            &&& r == Some(old(st)@.sessions[addr@].active)
            &&& final(st)@ == with_session(
                old(st)@,
                addr@,
                SessionView { failed: true, ..old(st)@.sessions[addr@] },
            )
        } else {
            r is None && final(st)@ == old(st)@
        },
{
    let due: bool = match st.sessions.get(addr) {
        Some(session) => session.generation == generation && !session.failed,
        None => false,
    };
    if !due {
        return None;
    }
    match st.sessions.remove(addr) {
        Some(mut session) => {
            session.failed = true;
            let active: u64 = session.active;
            st.sessions.insert(addr.to_owned(), session);
            Some(active)
        },
        None => None,
    }
}

/// Gives up a device whose session failed, unless the session was replaced meanwhile.
pub fn fail_session(
    st: &mut MainThreadState,
    shared: &mut SharedState,
    addr: &str,
    generation: usize,
    reason: String,
) -> (r: Option<DroppedDevice>)
    requires
        old(st).wf(),
    ensures
        final(st).wf(),
        if is_session(old(st)@, addr@, generation) {
            &&& r matches Some(gone)
            &&& ends_if_any(gone.closed, Some(old(st)@.sessions[addr@]), reason@, false)
            &&& tells(gone.told, old(shared)@, addr@, Some(reason@))
            &&& final(st)@ == dropped(old(st)@, addr@)
            &&& final(shared)@ == cleared(old(shared)@, addr@)
        } else {
            r is None && final(st)@ == old(st)@ && final(shared)@ == old(shared)@
        },
{
    if session_matches(st, addr, generation) {
        Some(fail_connection(st, shared, addr, reason))
    } else {
        None
    }
}

/// A device that was given up has no session, is not being connected and does not wait for
/// its turn, and nothing about it is remembered; other devices are not affected.
pub proof fn law_dropped_device_is_gone(st: MainView, shared: SharedView, addr: Seq<char>)
    ensures
        !dropped(st, addr).sessions.contains_key(addr),
        !dropped(st, addr).connections.contains_key(addr),
        !dropped(st, addr).connect_queue.contains(addr),
        dropped(st, addr).connecting != Some(addr),
        !cleared(shared, addr).connected_device_info.contains_key(addr),
        !cleared(shared, addr).on_connected_callbacks.contains_key(addr),
        !cleared(shared, addr).data_listeners.contains_key(addr),
        address_map::same_elsewhere(dropped(st, addr).sessions, st.sessions, addr),
        address_map::same_elsewhere(dropped(st, addr).connections, st.connections, addr),
        forall|other: Seq<char>|
            other != addr ==> dropped(st, addr).connect_queue.contains(other)
                == st.connect_queue.contains(other),
        address_map::same_elsewhere(
            cleared(shared, addr).connected_device_info,
            shared.connected_device_info,
            addr,
        ),
        address_map::same_elsewhere(
            cleared(shared, addr).on_connected_callbacks,
            shared.on_connected_callbacks,
            addr,
        ),
        address_map::same_elsewhere(
            cleared(shared, addr).data_listeners,
            shared.data_listeners,
            addr,
        ),
{
    queue::lemma_others(st.connect_queue, addr);
}

/// A session whose channel could not be closed keeps its buffers while writes use them.
pub proof fn law_buffers_outlive_writes(st: MainView, addr: Seq<char>, status: i32)
    requires
        st.sessions.contains_key(addr),
        writes_pending(Some(st.sessions[addr])),
        status != state::RETURN_SUCCESS,
    ensures
        ({
            let generation = st.sessions[addr].generation;
            let after = closed(st, addr);
            &&& !droppable(after, generation, status)
            &&& retiring::retired(after.retiring, generation) == Some(st.sessions[addr])
        }),
{
}

} // verus!
