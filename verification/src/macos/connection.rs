//! Connecting: one device at a time asks for its channel and tries one channel after another.
use std::collections::VecDeque;
use vstd::prelude::*;

use crate::address_map;
use crate::macos::requests;
use crate::macos::scan;
use crate::macos::send;
use crate::macos::session;
use crate::macos::session::{ClosedSession, DroppedDevice, ListenerError};
use crate::macos::state;
use crate::macos::state::{
    MainThreadState, MainView, PendingView, RfcommSession, SendView, SessionView, SharedState,
    SharedView,
};
use crate::models::SPPDevice;
use crate::text;

verus! {

broadcast use {address_map::lemma_put_back, address_map::lemma_remove_absent};

/// The short UUID of the serial port service.
pub const SPP_SERVICE_UUID: u16 = 0x1101;

/// How long to wait between two looks at what a service query found, in milliseconds.
pub const SDP_POLL_MS: u64 = 100;

/// The number of the last look, counted from zero.
pub const LAST_SDP_POLL: usize = 29;

/// How long a channel may take to open, in seconds.
pub const OPEN_TIMEOUT_SECS: u64 = 12;

/// The channel that a service record names: `record` holds the status and the number that were
/// read from it.
pub open spec fn cached_channel(record: Option<(i32, u8)>) -> Option<u8> {
    match record {
        Some((status, channel)) => if status == state::RETURN_SUCCESS && 1 <= channel
            <= state::HIGHEST_CHANNEL {
            Some(channel)
        } else {
            None
        },
        None => None,
    }
}

/// The channel that a service record names, where it is a usable one.
pub fn cached_spp_channel(record: Option<(i32, u8)>) -> (r: Option<u8>)
    ensures
        r == cached_channel(record),
{
    match record {
        Some((status, channel)) => if status == state::RETURN_SUCCESS && channel >= 1 && channel
            <= state::HIGHEST_CHANNEL {
            Some(channel)
        } else {
            None
        },
        None => None,
    }
}

/// The queue from the first device on that is still to be connected.
pub open spec fn in_line(queue: Seq<Seq<char>>, connections: Map<Seq<char>, PendingView>) -> Seq<
    Seq<char>,
>
    decreases queue.len(),
{
    if queue.len() == 0 || connections.contains_key(queue[0]) {
        queue
    } else {
        in_line(queue.skip(1), connections)
    }
}

/// The state when the next device, if there is one, has its turn.
pub open spec fn turn_taken(st: MainView) -> MainView {
    let queue = in_line(st.connect_queue, st.connections);
    if st.connecting is Some {
        st
    } else if queue.len() == 0 {
        MainView { connect_queue: Seq::empty(), ..st }
    } else {
        MainView { connect_queue: queue.skip(1), connecting: Some(queue[0]), ..st }
    }
}

/// The device whose turn it is.
pub struct NextConnection {
    pub addr: String,
    pub generation: usize,
    pub device: u64,
    pub name: Option<String>,
    /// Whether what can be known of the device's channel is known.
    pub sdp_resolved: bool,
}

/// Lets the next device that is to be connected have its turn, unless another one has it.
pub fn start_next_connection(st: &mut MainThreadState) -> (r: Option<NextConnection>)
    requires
        old(st).wf(),
    ensures
        final(st).wf(),
        final(st)@ == turn_taken(old(st)@),
        ({
            let queue = in_line(old(st)@.connect_queue, old(st)@.connections);
            if old(st)@.connecting is Some || queue.len() == 0 {
                r is None
            } else {
                let connection = old(st)@.connections[queue[0]];
                &&& r matches Some(next)
                &&& next.addr@ == queue[0]
                &&& next.generation == connection.generation
                &&& next.device == connection.device
                &&& text::text_of(next.name) == connection.info.name
                &&& next.sdp_resolved == connection.sdp_resolved
            }
        }),
{
    if st.connecting.is_some() {
        return None;
    }
    let ghost before = st@;
    loop
        invariant
            st.wf(),
            st.connecting is None,
            st@ == (MainView { connect_queue: st@.connect_queue, ..before }),
            in_line(st@.connect_queue, before.connections) == in_line(
                before.connect_queue,
                before.connections,
            ),
            before == old(st)@,
            before.connecting is None,
        decreases st@.connect_queue.len(),
    {
        match st.connect_queue.pop_front() {
            Some(addr) => {
                match st.connections.get(addr.as_str()) {
                    Some(connection) => {
                        let next = NextConnection {
                            addr: addr.clone(),
                            generation: connection.generation,
                            device: connection.device,
                            name: text::copy_of(&connection.info.name),
                            sdp_resolved: connection.sdp_resolved,
                        };
                        st.connecting = Some(addr);
                        return Some(next);
                    },
                    None => {},
                }
            },
            None => {
                assert(st@.connect_queue =~= Seq::empty());
                return None;
            },
        }
    }
}

/// What is known of a device's channel.
pub enum SdpEvent {
    /// It is the device's turn.
    Turn { resolved: bool },
    /// This is the channel that was known beforehand.
    Known(Option<u8>),
    /// A query for it was begun, with this status.
    QueryStarted(i32),
    /// A look at the query's result, the `attempt`th from zero on, found this channel.
    Polled { attempt: usize, channel: Option<u8> },
}

/// What to do to learn a device's channel.
#[derive(Debug, PartialEq, Eq)]
pub enum SdpAction {
    /// Go on with [`try_next_channel`].
    TryChannel,
    /// Look whether the channel is known beforehand.
    LookUp,
    /// Begin a query.
    Query,
    /// Look after [`SDP_POLL_MS`], with [`device_to_poll`].
    Poll { attempt: usize },
    /// Go on with [`finish_sdp`].
    Finish(Option<u8>),
}

/// What to do next to learn a device's channel.
pub open spec fn next_sdp_action(event: SdpEvent) -> SdpAction {
    match event {
        SdpEvent::Turn { resolved } => if resolved {
            SdpAction::TryChannel
        } else {
            SdpAction::LookUp
        },
        SdpEvent::Known(Some(channel)) => SdpAction::Finish(Some(channel)),
        SdpEvent::Known(None) => SdpAction::Query,
        SdpEvent::QueryStarted(status) => if status == state::RETURN_SUCCESS {
            SdpAction::Poll { attempt: 0 }
        } else {
            SdpAction::Finish(None)
        },
        SdpEvent::Polled { attempt, channel } => if channel is Some || attempt >= LAST_SDP_POLL {
            SdpAction::Finish(channel)
        } else {
            SdpAction::Poll { attempt: (attempt + 1) as usize }
        },
    }
}

/// What to do next to learn a device's channel.
pub fn poll_sdp(event: SdpEvent) -> (r: SdpAction)
    ensures
        r == next_sdp_action(event),
{
    match event {
        SdpEvent::Turn { resolved } => if resolved {
            SdpAction::TryChannel
        } else {
            SdpAction::LookUp
        },
        SdpEvent::Known(channel) => match channel {
            Some(channel) => SdpAction::Finish(Some(channel)),
            None => SdpAction::Query,
        },
        SdpEvent::QueryStarted(status) => if status == state::RETURN_SUCCESS {
            SdpAction::Poll { attempt: 0 }
        } else {
            SdpAction::Finish(None)
        },
        SdpEvent::Polled { attempt, channel } => if channel.is_some() || attempt >= LAST_SDP_POLL {
            SdpAction::Finish(channel)
        } else {
            SdpAction::Poll { attempt: attempt + 1 }
        },
    }
}

/// Whether it is still the turn of the connection of this generation.
pub open spec fn has_turn(st: MainView, addr: Seq<char>, generation: usize) -> bool {
    &&& st.connections.contains_key(addr)
    &&& st.connections[addr].generation == generation
    &&& st.connecting == Some(addr)
}

/// The device to look at for the result of a query, if the result is still wanted.
pub fn device_to_poll(st: &MainThreadState, addr: &str, generation: usize) -> (r: Option<u64>)
    ensures
        r == (if has_turn(st@, addr@, generation) {
            Some(st@.connections[addr@].device)
        } else {
            None
        }),
{
    match st.connections.get(addr) {
        Some(connection) => if connection.generation == generation && text::holds_text(
            &st.connecting,
            addr,
        ) {
            Some(connection.device)
        } else {
            None
        },
        None => None,
    }
}

/// The channels with the one that was found in front, where one was.
pub open spec fn found_first(channels: Seq<u8>, channel: Option<u8>) -> Seq<u8> {
    match channel {
        Some(channel) => seq![channel] + channels.filter(|other: u8| other != channel),
        None => channels,
    }
}

/// The state with `connection` in place of what was known of the connection to `addr`.
pub open spec fn with_connection(st: MainView, addr: Seq<char>, connection: PendingView) -> MainView {
    MainView { connections: st.connections.insert(addr, connection), ..st }
}

/// Whether the connection of this generation is being made.
pub open spec fn is_connection(st: MainView, addr: Seq<char>, generation: usize) -> bool {
    st.connections.contains_key(addr) && st.connections[addr].generation == generation
}

/// The state when a device's channel is known, or known not to be known.
pub open spec fn resolved(
    st: MainView,
    addr: Seq<char>,
    generation: usize,
    channel: Option<u8>,
) -> MainView {
    if is_connection(st, addr, generation) {
        let connection = st.connections[addr];
        with_connection(
            st,
            addr,
            PendingView {
                sdp_resolved: true,
                channels: found_first(connection.channels, channel),
                ..connection
            },
        )
    } else {
        st
    }
}

/// Puts a channel in front of the others.
fn put_first(channels: VecDeque<u8>, channel: u8) -> (r: VecDeque<u8>)
    ensures
        r@ == found_first(channels@, Some(channel)),
{
    let mut out: VecDeque<u8> = VecDeque::new();
    out.push_back(channel);
    let ghost keep = |other: u8| other != channel;
    let mut i: usize = 0;
    proof {
        reveal(Seq::filter);
        assert(channels@.take(0) =~= Seq::<u8>::empty());
        assert(out@ =~= seq![channel] + channels@.take(0).filter(keep));
    }
    while i < channels.len()
        invariant
            i <= channels@.len(),
            keep == (|other: u8| other != channel),
            out@ == seq![channel] + channels@.take(i as int).filter(keep),
        decreases channels@.len() - i,
    {
        proof {
            reveal(Seq::filter);
            assert(channels@.take(i + 1).drop_last() =~= channels@.take(i as int));
        }
        let other: u8 = channels[i];
        if other != channel {
            out.push_back(other);
        }
        assert(out@ =~= seq![channel] + channels@.take(i + 1).filter(keep));
        i = i + 1;
    }
    assert(channels@.take(i as int) =~= channels@);
    out
}

/// Takes what was found of a device's channel; says whether the next channel is to be tried.
pub fn finish_sdp(
    st: &mut MainThreadState,
    addr: &str,
    generation: usize,
    channel: Option<u8>,
) -> (r: bool)
    requires
        old(st).wf(),
    ensures
        final(st).wf(),
        r == is_connection(old(st)@, addr@, generation),
        final(st)@ == resolved(old(st)@, addr@, generation, channel),
{
    let current: bool = match st.connections.get(addr) {
        Some(connection) => connection.generation == generation,
        None => false,
    };
    if current {
        match st.connections.remove(addr) {
            Some(mut connection) => {
                connection.sdp_resolved = true;
                match channel {
                    Some(channel) => {
                        let mut channels: VecDeque<u8> = VecDeque::new();
                        std::mem::swap(&mut channels, &mut connection.channels);
                        connection.channels = put_first(channels, channel);
                    },
                    None => {},
                }
                st.connections.insert(addr.to_owned(), connection);
            },
            None => {},
        }
    }
    current
}

/// The message of a connection for which no channel is left.
pub open spec fn exhausted_message(last_error: Seq<char>) -> Seq<char> {
    "All RFCOMM channel attempts failed: "@ + last_error
}

/// What became of a connection whose attempt failed.
#[derive(Debug, PartialEq, Eq)]
pub enum RetryOutcome {
    /// The device was not being connected.
    NotConnecting,
    /// No channel is left.
    GivenUp(DroppedDevice),
    /// The connection waits for another turn; the next device may have its own.
    Queued,
}

/// What is left to do when an attempt failed; `steps` gives the order.
#[derive(Debug, PartialEq, Eq)]
pub struct Retry {
    pub closed: Option<ClosedSession>,
    pub outcome: RetryOutcome,
}

/// The state when a connection with channels left waits for another turn.
pub open spec fn requeued(st: MainView, addr: Seq<char>, reason: Seq<char>) -> MainView {
    MainView {
        connecting: if st.connecting == Some(addr) {
            None
        } else {
            st.connecting
        },
        connect_queue: st.connect_queue.push(addr),
        ..with_connection(
            st,
            addr,
            PendingView { last_error: reason, ..st.connections[addr] },
        )
    }
}

/// The state when an attempt to connect to the device at `addr` failed.
pub open spec fn retried(st: MainView, addr: Seq<char>, reason: Seq<char>) -> MainView {
    let st = session::closed(st, addr);
    if !st.connections.contains_key(addr) {
        st
    } else if st.connections[addr].channels.len() == 0 {
        session::dropped(st, addr)
    } else {
        requeued(st, addr, reason)
    }
}

/// The shared state when an attempt to connect to the device at `addr` failed.
pub open spec fn retried_shared(st: MainView, shared: SharedView, addr: Seq<char>) -> SharedView {
    if st.connections.contains_key(addr) && st.connections[addr].channels.len() == 0 {
        session::cleared(shared, addr)
    } else {
        shared
    }
}

/// Whether `retry` is what is left to do when an attempt failed for this reason.
pub open spec fn retries(
    retry: Retry,
    st: MainView,
    shared: SharedView,
    addr: Seq<char>,
    reason: Seq<char>,
) -> bool {
    &&& session::ends_if_any(retry.closed, address_map::found(st.sessions, addr), reason, false)
    &&& if !st.connections.contains_key(addr) {
        retry.outcome is NotConnecting
    } else if st.connections[addr].channels.len() == 0 {
        &&& retry.outcome matches RetryOutcome::GivenUp(gone)
        &&& gone.closed is None
        &&& session::tells(gone.told, shared, addr, Some(exhausted_message(reason)))
    } else {
        retry.outcome is Queued
    }
}

/// Takes the failure of an attempt: the connection waits for another turn, so that another
/// device may try before, or is given up where no channel is left.
pub fn retry_connection(
    st: &mut MainThreadState,
    shared: &mut SharedState,
    addr: &str,
    reason: String,
) -> (r: Retry)
    requires
        old(st).wf(),
    ensures
        final(st).wf(),
        final(st)@ == retried(old(st)@, addr@, reason@),
        final(shared)@ == retried_shared(old(st)@, old(shared)@, addr@),
        retries(r, old(st)@, old(shared)@, addr@, reason@),
{
    let closed = session::close_session(st, addr, reason.as_str(), false);
    match st.connections.remove(addr) {
        Some(mut connection) => {
            let message: String = text::joined(
                "All RFCOMM channel attempts failed: ",
                reason.as_str(),
            );
            connection.last_error = reason;
            let exhausted: bool = connection.channels.len() == 0;
            st.connections.insert(addr.to_owned(), connection);
            if exhausted {
                let ghost marked = st@;
                let gone = session::fail_connection(st, shared, addr, message);
                proof {
                    let before = session::closed(old(st)@, addr@);
                    assert(marked.connections.remove(addr@) =~= before.connections.remove(addr@));
                    assert(session::dropped(marked, addr@) =~= session::dropped(before, addr@));
                }
                Retry { closed, outcome: RetryOutcome::GivenUp(gone) }
            } else {
                if text::holds_text(&st.connecting, addr) {
                    st.connecting = None;
                }
                st.connect_queue.push_back(addr.to_owned());
                Retry { closed, outcome: RetryOutcome::Queued }
            }
        },
        None => Retry { closed, outcome: RetryOutcome::NotConnecting },
    }
}

/// What to do for a connection whose turn it is.
#[derive(Debug, PartialEq, Eq)]
pub enum ChannelAction {
    /// The device is no longer being connected.
    Nothing,
    /// No channel is left.
    GivenUp(DroppedDevice),
    /// Open this channel with a delegate of this generation.
    Open { device: u64, channel: u8, generation: usize },
}

/// What is left to do for a connection whose turn it is; `steps` gives the order.
#[derive(Debug, PartialEq, Eq)]
pub struct NextChannel {
    pub closed: Option<ClosedSession>,
    pub action: ChannelAction,
}

/// The state when the next channel of a connection is about to be opened.
pub open spec fn channel_taken(st: MainView, addr: Seq<char>) -> MainView {
    let connection = st.connections[addr];
    MainView {
        next_id: state::id_after(st.next_id),
        ..with_connection(
            st,
            addr,
            PendingView { channels: connection.channels.skip(1), ..connection },
        )
    }
}

/// The state when a connection was asked to try its next channel.
pub open spec fn channel_tried(st: MainView, addr: Seq<char>) -> MainView {
    let st = session::closed(st, addr);
    if !st.connections.contains_key(addr) {
        st
    } else if st.connections[addr].channels.len() == 0 {
        session::dropped(st, addr)
    } else {
        channel_taken(st, addr)
    }
}

/// Tries the next channel of a connection.
pub fn try_next_channel(st: &mut MainThreadState, shared: &mut SharedState, addr: &str) -> (r:
    NextChannel)
    requires
        old(st).wf(),
    ensures
        final(st).wf(),
        final(st)@ == channel_tried(old(st)@, addr@),
        final(shared)@ == retried_shared(old(st)@, old(shared)@, addr@),
        session::ends_if_any(
            r.closed,
            address_map::found(old(st)@.sessions, addr@),
            "Retrying RFCOMM channel"@,
            false,
        ),
        if !old(st)@.connections.contains_key(addr@) {
            r.action is Nothing
        } else {
            let connection = old(st)@.connections[addr@];
            if connection.channels.len() == 0 {
                &&& r.action matches ChannelAction::GivenUp(gone)
                &&& gone.closed is None
                &&& session::tells(
                    gone.told,
                    old(shared)@,
                    addr@,
                    Some(exhausted_message(connection.last_error)),
                )
            } else {
                r.action == (ChannelAction::Open {
                    device: connection.device,
                    channel: connection.channels[0],
                    generation: state::id_after(old(st)@.next_id),
                })
            }
        },
{
    let closed = session::close_session(st, addr, "Retrying RFCOMM channel", false);
    match st.connections.remove(addr) {
        Some(mut connection) => {
            let device: u64 = connection.device;
            let channel: Option<u8> = connection.channels.pop_front();
            let ghost rest = connection.channels@;
            let message: String = text::joined(
                "All RFCOMM channel attempts failed: ",
                connection.last_error.as_str(),
            );
            st.connections.insert(addr.to_owned(), connection);
            match channel {
                Some(channel) => {
                    let generation: usize = state::next_id(st);
                    proof {
                        let before = session::closed(old(st)@, addr@);
                        assert(rest =~= before.connections[addr@].channels.skip(1));
                    }
                    NextChannel {
                        closed,
                        action: ChannelAction::Open { device, channel, generation },
                    }
                },
                None => {
                    let ghost marked = st@;
                    let gone = session::fail_connection(st, shared, addr, message);
                    proof {
                        let before = session::closed(old(st)@, addr@);
                        assert(marked.connections.remove(addr@)
                            =~= before.connections.remove(addr@));
                        assert(session::dropped(marked, addr@) =~= session::dropped(
                            before,
                            addr@,
                        ));
                    }
                    NextChannel { closed, action: ChannelAction::GivenUp(gone) }
                },
            }
        },
        None => NextChannel { closed, action: ChannelAction::Nothing },
    }
}

/// The generation of the connection that is being made to a device, if one is.
pub open spec fn generation_of(connection: Option<PendingView>) -> Option<usize> {
    match connection {
        Some(connection) => Some(connection.generation),
        None => None,
    }
}

/// The generation of the connection that is being made to a device, if one is.
pub fn connection_generation(st: &MainThreadState, addr: &str) -> (r: Option<usize>)
    ensures
        r == generation_of(address_map::found(st@.connections, addr@)),
{
    match st.connections.get(addr) {
        Some(connection) => Some(connection.generation),
        None => None,
    }
}

/// The message of a channel that could not be opened.
pub open spec fn rejected_message(channel: u8, status: i32) -> Seq<char> {
    "Channel "@ + (text::decimal(channel as nat) + (" rejected ("@ + (text::signed_decimal(
        status as int,
    ) + ")"@)))
}

/// Takes the refusal of a channel on a later turn: `connection` is what
/// [`connection_generation`] said at the time of the refusal. A connection that was replaced
/// or has ended is left alone.
pub fn channel_rejected(
    st: &mut MainThreadState,
    shared: &mut SharedState,
    addr: &str,
    connection: Option<usize>,
    channel: u8,
    status: i32,
) -> (r: Option<Retry>)
    requires
        old(st).wf(),
    ensures
        final(st).wf(),
        ({
            let current = generation_of(address_map::found(old(st)@.connections, addr@));
            let reason = rejected_message(channel, status);
            if current is Some && current == connection {
                &&& r matches Some(retry)
                &&& retries(retry, old(st)@, old(shared)@, addr@, reason)
                &&& final(st)@ == retried(old(st)@, addr@, reason)
                &&& final(shared)@ == retried_shared(old(st)@, old(shared)@, addr@)
            } else {
                r is None && final(st)@ == old(st)@ && final(shared)@ == old(shared)@
            }
        }),
{
    let same: bool = match (connection_generation(st, addr), connection) {
        (Some(current), Some(then)) => current == then,
        _ => false,
    };
    if !same {
        return None;
    }
    let reason: String = text::joined(
        "Channel ",
        text::joined(
            text::decimal_text(channel as u64).as_str(),
            text::joined(
                " rejected (",
                text::joined(text::signed_decimal_text(status).as_str(), ")").as_str(),
            ).as_str(),
        ).as_str(),
    );
    Some(retry_connection(st, shared, addr, reason))
}

/// Whether a channel that was asked to open with this status is on its way to open: the system
/// must have given the channel too. Where it is not, it is taken as refused.
pub fn channel_opening(status: i32, given: bool) -> (r: bool)
    ensures
        r == (status == state::RETURN_SUCCESS && given),
{
    status == state::RETURN_SUCCESS && given
}

/// A session whose channel was asked to open.
pub open spec fn opening_session(
    addr: Seq<char>,
    generation: usize,
    channel: u64,
    delegate: u64,
    active: u64,
) -> SessionView {
    SessionView {
        addr,
        generation,
        channel,
        delegate,
        active,
        opened: false,
        failed: false,
        mtu: 1,
        pump_scheduled: false,
        pending_send: None,
    }
}

/// Files the session of a channel that was asked to open; it carries nothing before it is open.
pub fn channel_requested(
    st: &mut MainThreadState,
    addr: &str,
    generation: usize,
    channel: u64,
    delegate: u64,
    active: u64,
)
    requires
        old(st).wf(),
    ensures
        final(st).wf(),
        final(st)@ == session::with_session(
            old(st)@,
            addr@,
            opening_session(addr@, generation, channel, delegate, active),
        ),
{
    st.sessions.insert(
        addr.to_owned(),
        RfcommSession {
            addr: addr.to_owned(),
            generation,
            channel,
            delegate,
            active,
            opened: false,
            failed: false,
            mtu: 1,
            pump_scheduled: false,
            pending_send: None,
        },
    );
}

/// Whether the session of this generation has not opened yet.
pub open spec fn is_opening(st: MainView, addr: Seq<char>, generation: usize) -> bool {
    session::is_session(st, addr, generation) && !st.sessions[addr].opened
}

/// The message of a channel that did not open in time.
pub open spec fn open_timeout_message(channel: u8) -> Seq<char> {
    "Channel "@ + (text::decimal(channel as nat) + " open timed out"@)
}

/// Takes the end of the time in which a channel may open.
pub fn open_timed_out(
    st: &mut MainThreadState,
    shared: &mut SharedState,
    addr: &str,
    generation: usize,
    channel: u8,
) -> (r: Option<Retry>)
    requires
        old(st).wf(),
    ensures
        final(st).wf(),
        ({
            let reason = open_timeout_message(channel);
            if is_opening(old(st)@, addr@, generation) {
                &&& r matches Some(retry)
                &&& retries(retry, old(st)@, old(shared)@, addr@, reason)
                &&& final(st)@ == retried(old(st)@, addr@, reason)
                &&& final(shared)@ == retried_shared(old(st)@, old(shared)@, addr@)
            } else {
                r is None && final(st)@ == old(st)@ && final(shared)@ == old(shared)@
            }
        }),
{
    let late: bool = match st.sessions.get(addr) {
        Some(session) => session.generation == generation && !session.opened,
        None => false,
    };
    if !late {
        return None;
    }
    let reason: String = text::joined(
        "Channel ",
        text::joined(text::decimal_text(channel as u64).as_str(), " open timed out").as_str(),
    );
    Some(retry_connection(st, shared, addr, reason))
}

/// A unit of transfer within its limits.
pub open spec fn clamped_mtu(mtu: usize) -> usize {
    if mtu < 1 {
        1
    } else if mtu > state::MAX_MTU {
        state::MAX_MTU
    } else {
        mtu
    }
}

/// The state when a session has opened, whether or not it was still wanted.
pub open spec fn session_opened(st: MainView, addr: Seq<char>, mtu: usize) -> MainView {
    session::with_session(
        st,
        addr,
        SessionView { opened: true, mtu: clamped_mtu(mtu), ..st.sessions[addr] },
    )
}

/// The state when a device was connected.
pub open spec fn device_connected(st: MainView, addr: Seq<char>, mtu: usize) -> MainView {
    if st.connections.contains_key(addr) {
        session::slot_released(session_opened(st, addr, mtu), addr)
    } else {
        session_opened(st, addr, mtu)
    }
}

/// The shared state when a device was connected: only now it is told what device that is.
pub open spec fn device_published(st: MainView, shared: SharedView, addr: Seq<char>) -> SharedView {
    if st.connections.contains_key(addr) {
        SharedView {
            connected_device_info: shared.connected_device_info.insert(
                addr,
                st.connections[addr].info,
            ),
            ..shared
        }
    } else {
        shared
    }
}

/// Whom to tell that a device was connected.
#[derive(Debug, PartialEq, Eq)]
pub struct ConnectedNotice {
    /// The callback is called on a thread of its own, if this flag is still raised there.
    pub active: u64,
    pub callback: Option<u64>,
}

/// What became of a channel whose opening has ended.
#[derive(Debug, PartialEq, Eq)]
pub enum OpenOutcome {
    /// The session was replaced, has ended, or was open already.
    Ignored,
    /// The channel did not open.
    Retried(Retry),
    /// The channel is open; the next device may have its turn where a notice is given.
    Opened(Option<ConnectedNotice>),
}

/// The message of a channel that failed to open.
pub open spec fn open_failure(status: i32) -> Seq<char> {
    "RFCOMM open completion failed ("@ + (text::signed_decimal(status as int) + ")"@)
}

/// Takes the end of the opening of a channel; `mtu` is the channel's unit of transfer, where it
/// opened.
pub fn handle_open_complete(
    st: &mut MainThreadState,
    shared: &mut SharedState,
    addr: &str,
    generation: usize,
    status: i32,
    mtu: usize,
) -> (r: OpenOutcome)
    requires
        old(st).wf(),
    ensures
        final(st).wf(),
        if !is_opening(old(st)@, addr@, generation) {
            r is Ignored && final(st)@ == old(st)@ && final(shared)@ == old(shared)@
        } else if status != state::RETURN_SUCCESS {
            let reason = open_failure(status);
            &&& r matches OpenOutcome::Retried(retry)
            &&& retries(retry, old(st)@, old(shared)@, addr@, reason)
            &&& final(st)@ == retried(old(st)@, addr@, reason)
            &&& final(shared)@ == retried_shared(old(st)@, old(shared)@, addr@)
        } else {
            &&& r == OpenOutcome::Opened(
                if old(st)@.connections.contains_key(addr@) {
                    Some(
                        ConnectedNotice {
                            active: old(st)@.sessions[addr@].active,
                            callback: address_map::found(
                                old(shared)@.on_connected_callbacks,
                                addr@,
                            ),
                        },
                    )
                } else {
                    None
                },
            )
            &&& final(st)@ == device_connected(old(st)@, addr@, mtu)
            &&& final(shared)@ == device_published(old(st)@, old(shared)@, addr@)
        },
{
    let opening: bool = match st.sessions.get(addr) {
        Some(session) => session.generation == generation && !session.opened,
        None => false,
    };
    if !opening {
        return OpenOutcome::Ignored;
    }
    if status != state::RETURN_SUCCESS {
        let reason: String = text::joined(
            "RFCOMM open completion failed (",
            text::joined(text::signed_decimal_text(status).as_str(), ")").as_str(),
        );
        return OpenOutcome::Retried(retry_connection(st, shared, addr, reason));
    }
    let mut active: u64 = 0;
    match st.sessions.remove(addr) {
        Some(mut session) => {
            active = session.active;
            session.opened = true;
            session.mtu = if mtu < 1 {
                1
            } else if mtu > state::MAX_MTU {
                state::MAX_MTU
            } else {
                mtu
            };
            st.sessions.insert(addr.to_owned(), session);
        },
        None => {},
    }
    let info: Option<SPPDevice> = match st.connections.get(addr) {
        Some(connection) => Some(connection.info.clone()),
        None => None,
    };
    match info {
        Some(info) => {
            shared.connected_device_info.insert(addr.to_owned(), info);
            session::release_connection_slot(st, addr);
            let callback: Option<u64> = session::notify_connected(shared, addr);
            OpenOutcome::Opened(Some(ConnectedNotice { active, callback }))
        },
        None => OpenOutcome::Opened(None),
    }
}

/// What became of a device whose channel was closed by the other side.
#[derive(Debug, PartialEq, Eq)]
pub enum CloseOutcome {
    /// The session was replaced or has ended.
    Ignored,
    /// The channel was still opening.
    Retried(ClosedSession, Retry),
    /// The device is no longer connected: its audio guard stops, and its listener is told.
    Disconnected(ClosedSession, Option<ListenerError>),
}

/// What is left to do when a channel was closed by the other side; `steps` gives the order.
#[derive(Debug, PartialEq, Eq)]
pub struct ChannelEnd {
    /// The channel of a retiring session that was dropped.
    pub released: Option<u64>,
    pub outcome: CloseOutcome,
}

/// The state when a channel was closed by the other side.
pub open spec fn channel_ended(st: MainView, addr: Seq<char>, generation: usize) -> MainView {
    let st = session::released(st, generation);
    if !session::is_session(st, addr, generation) {
        st
    } else if st.connections.contains_key(addr) {
        retried(session::closed(st, addr), addr, "RFCOMM channel closed while opening"@)
    } else {
        session::closed(st, addr)
    }
}

/// The shared state when a channel was closed by the other side.
pub open spec fn channel_ended_shared(
    st: MainView,
    shared: SharedView,
    addr: Seq<char>,
    generation: usize,
) -> SharedView {
    if !session::is_session(st, addr, generation) {
        shared
    } else if st.connections.contains_key(addr) {
        retried_shared(st, shared, addr)
    } else {
        session::cleared(shared, addr)
    }
}

/// Takes the news, on a later turn, that a channel was closed by the other side.
pub fn channel_closed(
    st: &mut MainThreadState,
    shared: &mut SharedState,
    addr: &str,
    generation: usize,
) -> (r: ChannelEnd)
    requires
        old(st).wf(),
    ensures
        final(st).wf(),
        final(st)@ == channel_ended(old(st)@, addr@, generation),
        final(shared)@ == channel_ended_shared(old(st)@, old(shared)@, addr@, generation),
        r.released == session::channel_of(
            crate::macos::retiring::retired(old(st)@.retiring, generation),
        ),
        if !session::is_session(old(st)@, addr@, generation) {
            r.outcome is Ignored
        } else {
            let session = old(st)@.sessions[addr@];
            let after = session::closed(session::released(old(st)@, generation), addr@);
            if old(st)@.connections.contains_key(addr@) {
                &&& r.outcome matches CloseOutcome::Retried(end, retry)
                &&& session::ends(end, session, "RFCOMM channel closed"@, true)
                &&& retries(
                    retry,
                    after,
                    old(shared)@,
                    addr@,
                    "RFCOMM channel closed while opening"@,
                )
            } else {
                &&& r.outcome matches CloseOutcome::Disconnected(end, told)
                &&& session::ends(end, session, "RFCOMM channel closed"@, true)
                &&& session::tells(told, old(shared)@, addr@, Some("Connection closed"@))
            }
        },
{
    let released: Option<u64> = session::release_retiring_session(st, generation);
    if !session::session_matches(st, addr, generation) {
        return ChannelEnd { released, outcome: CloseOutcome::Ignored };
    }
    match session::close_session(st, addr, "RFCOMM channel closed", true) {
        Some(end) => if st.connections.contains_key(addr) {
            let retry = retry_connection(
                st,
                shared,
                addr,
                "RFCOMM channel closed while opening".to_owned(),
            );
            ChannelEnd { released, outcome: CloseOutcome::Retried(end, retry) }
        } else {
            let told = session::clear_device_state(
                shared,
                addr,
                Some("Connection closed".to_owned()),
            );
            ChannelEnd { released, outcome: CloseOutcome::Disconnected(end, told) }
        },
        None => ChannelEnd { released, outcome: CloseOutcome::Ignored },
    }
}

/// At most one device has its turn: while one has it, no other one gets it, and whoever gets it
/// is to be connected.
pub proof fn law_one_turn_at_a_time(st: MainView)
    ensures
        st.connecting is Some ==> turn_taken(st) == st,
        st.connecting is None ==> (turn_taken(st).connecting matches Some(addr)
            ==> st.connections.contains_key(addr) && st.connect_queue.contains(addr)),
    decreases st.connect_queue.len(),
{
    if st.connecting is None && st.connect_queue.len() > 0 {
        if !st.connections.contains_key(st.connect_queue[0]) {
            let rest = MainView { connect_queue: st.connect_queue.skip(1), ..st };
            law_one_turn_at_a_time(rest);
            if turn_taken(st).connecting is Some {
                let addr = turn_taken(st).connecting->0;
                assert(rest.connect_queue.contains(addr));
                let i = rest.connect_queue.index_of(addr);
                assert(st.connect_queue[i + 1] == addr);
            }
        }
    }
}

/// A device that waits and is to be connected is reached: where nobody has the turn, somebody
/// gets it.
pub proof fn law_a_waiting_device_gets_its_turn(st: MainView, addr: Seq<char>)
    requires
        st.connecting is None,
        st.connect_queue.contains(addr),
        st.connections.contains_key(addr),
    ensures
        turn_taken(st).connecting is Some,
    decreases st.connect_queue.len(),
{
    let i = st.connect_queue.index_of(addr);
    if !st.connections.contains_key(st.connect_queue[0]) {
        let rest = MainView { connect_queue: st.connect_queue.skip(1), ..st };
        assert(rest.connect_queue[i - 1] == addr);
        law_a_waiting_device_gets_its_turn(rest, addr);
    }
}

/// After a failed attempt with channels left, the device waits behind every other one, and the
/// turn is free.
pub proof fn law_retry_waits_behind_the_others(st: MainView, addr: Seq<char>, reason: Seq<char>)
    requires
        st.connections.contains_key(addr),
        st.connections[addr].channels.len() > 0,
        st.connecting == Some(addr),
    ensures
        retried(st, addr, reason).connect_queue == st.connect_queue.push(addr),
        retried(st, addr, reason).connecting is None,
        retried(st, addr, reason).connections[addr].channels == st.connections[addr].channels,
        !retried(st, addr, reason).sessions.contains_key(addr),
{
}

/// Every channel of a connection is tried at most once, from first to last: each attempt takes
/// the first one away, and after the last one the device is given up.
pub proof fn law_each_channel_is_tried_once(st: MainView, addr: Seq<char>)
    requires
        st.connections.contains_key(addr),
    ensures
        ({
            let channels = st.connections[addr].channels;
            if channels.len() > 0 {
                &&& channel_tried(st, addr).connections.contains_key(addr)
                &&& channels == seq![channels[0]] + channel_tried(
                    st,
                    addr,
                ).connections[addr].channels
            } else {
                !channel_tried(st, addr).connections.contains_key(addr)
            }
        }),
{
    let channels = st.connections[addr].channels;
    if channels.len() > 0 {
        assert(channels =~= seq![channels[0]] + channels.skip(1));
    }
}

/// The channel that a device names is tried first and once, and no other channel is lost.
pub proof fn law_found_channel_comes_first(channels: Seq<u8>, channel: u8)
    requires
        channels.no_duplicates(),
    ensures
        found_first(channels, Some(channel))[0] == channel,
        found_first(channels, Some(channel)).no_duplicates(),
        forall|other: u8|
            found_first(channels, Some(channel)).contains(other) == (other == channel
                || channels.contains(other)),
{
    let keep = |other: u8| other != channel;
    let rest = channels.filter(keep);
    lemma_filter_distinct(channels, channel);
    let all = found_first(channels, Some(channel));
    assert(all =~= seq![channel] + rest);
    assert forall|other: u8| all.contains(other) == (other == channel || channels.contains(
        other,
    )) by {
        assert(all[0] == channel);
        if rest.contains(other) {
            assert(all[rest.index_of(other) + 1] == other);
        }
        if all.contains(other) && other != channel {
            let i = all.index_of(other);
            assert(rest[i - 1] == other);
        }
    }
}

proof fn lemma_filter_distinct(channels: Seq<u8>, channel: u8)
    requires
        channels.no_duplicates(),
    ensures
        channels.filter(|other: u8| other != channel).no_duplicates(),
        !channels.filter(|other: u8| other != channel).contains(channel),
        forall|other: u8|
            other != channel ==> channels.filter(|other: u8| other != channel).contains(other)
                == channels.contains(other),
    decreases channels.len(),
{
    reveal(Seq::filter);
    let keep = |other: u8| other != channel;
    if channels.len() > 0 {
        let init = channels.drop_last();
        let last = channels.last();
        lemma_filter_distinct(init, channel);
        let kept = init.filter(keep);
        let all = channels.filter(keep);
        assert(all == if keep(last) { kept.push(last) } else { kept });
        assert(!init.contains(last));
        assert forall|other: u8| other != channel implies all.contains(other)
            == channels.contains(other) by {
            if init.contains(other) {
                assert(channels[init.index_of(other)] == other);
                assert(kept.contains(other));
                assert(all[kept.index_of(other)] == other);
            }
            if other == last {
                assert(all[all.len() - 1] == other);
            }
            if channels.contains(other) && other != last {
                assert(init[channels.index_of(other)] == other);
            }
            if all.contains(other) && other != last {
                assert(kept[all.index_of(other)] == other);
            }
            assert(channels[channels.len() - 1] == last);
        }
        if all.contains(channel) {
            let i = all.index_of(channel);
            assert(kept[i] == channel);
        }
    }
}

/// A device whose channel opened is connected: it is published, it no longer waits, and bytes
/// can be sent to it.
pub proof fn law_opened_device_is_connected(
    st: MainView,
    shared: SharedView,
    addr: Seq<char>,
    generation: usize,
    mtu: usize,
)
    requires
        state::well_formed(st),
        is_opening(st, addr, generation),
        !st.sessions[addr].failed,
        st.connections.contains_key(addr),
    ensures
        ({
            let after = device_connected(st, addr, mtu);
            &&& send::connected(after, addr)
            &&& 1 <= after.sessions[addr].mtu <= state::MAX_MTU
            &&& !after.connections.contains_key(addr)
            &&& !after.connect_queue.contains(addr)
            &&& after.connecting != Some(addr)
            &&& device_published(st, shared, addr).connected_device_info[addr]
                == st.connections[addr].info
        }),
{
    crate::macos::queue::lemma_others(st.connect_queue, addr);
}

/// Every generation that is in use was given out: none is above the number that was given out
/// last.
pub open spec fn given_out(st: MainView) -> bool {
    &&& forall|addr: Seq<char>| #[trigger]
        st.sessions.contains_key(addr) ==> st.sessions[addr].generation <= st.next_id
    &&& forall|generation: usize| #[trigger]
        st.retiring.contains_key(generation) ==> st.retiring[generation].generation <= st.next_id
    &&& forall|addr: Seq<char>| #[trigger]
        st.connections.contains_key(addr) ==> st.connections[addr].generation <= st.next_id
}

/// The number that is given out next belongs to nothing that there is, until the numbers have
/// all been used once: a late event of an earlier session cannot be taken for one of the next.
pub proof fn law_new_generation_is_fresh(st: MainView)
    requires
        given_out(st),
        st.next_id < usize::MAX,
    ensures
        forall|addr: Seq<char>| #[trigger]
            st.sessions.contains_key(addr) ==> st.sessions[addr].generation != state::id_after(
                st.next_id,
            ),
        forall|generation: usize| #[trigger]
            st.retiring.contains_key(generation) ==> st.retiring[generation].generation
                != state::id_after(st.next_id),
        forall|addr: Seq<char>| #[trigger]
            st.connections.contains_key(addr) ==> st.connections[addr].generation
                != state::id_after(st.next_id),
{
}

/// What is done with sessions and connections keeps generations to those that were given out.
pub proof fn law_generations_stay_given_out(
    st: MainView,
    addr: Seq<char>,
    generation: usize,
    reason: Seq<char>,
    mtu: usize,
)
    requires
        given_out(st),
        st.next_id < usize::MAX,
    ensures
        given_out(send::numbered(st)),
        given_out(turn_taken(st)),
        given_out(session::released(st, generation)),
        given_out(session::closed(st, addr)),
        given_out(session::dropped(st, addr)),
        given_out(retried(st, addr, reason)),
        given_out(channel_tried(st, addr)),
        given_out(channel_ended(st, addr, generation)),
        st.sessions.contains_key(addr) ==> given_out(device_connected(st, addr, mtu)),
{
    let ended = session::released(st, generation);
    assert(given_out(session::closed(ended, addr)));
    assert(given_out(session::closed(session::closed(ended, addr), addr)));
    assert(given_out(session::closed(st, addr)));
    assert(given_out(session::slot_released(session::closed(st, addr), addr)));
}

/// What is done with sends keeps generations to those that were given out.
pub proof fn law_sends_keep_generations_given_out(
    st: MainView,
    addr: Seq<char>,
    generation: usize,
    id: usize,
    offset: usize,
    send: Option<SendView>,
)
    requires
        given_out(st),
    ensures
        given_out(send::scheduled(st, addr, generation)),
        given_out(send::turn_begun(st, addr, generation)),
        given_out(send::reserved_if_any(st, addr, generation)),
        given_out(send::unreserved(st, addr, generation, id, offset)),
        given_out(send::failing(st, addr, generation)),
        given_out(send::retiring_drained(st, generation, id)),
        st.sessions.contains_key(addr) ==> given_out(send::with_send(st, addr, send)),
{
}

/// What is found of a device's channel, the end of a scan and the end of every session keep
/// generations to those that were given out.
pub proof fn law_lookups_and_endings_keep_generations_given_out(
    st: MainView,
    addr: Seq<char>,
    generation: usize,
    channel: Option<u8>,
    inquiry: u64,
    keys: Seq<Seq<char>>,
)
    requires
        given_out(st),
    ensures
        given_out(resolved(st, addr, generation, channel)),
        given_out(scan::inquiry_dropped(st, inquiry)),
        given_out(scan::scan_stopped(st)),
        given_out(requests::nobody_waits(st)),
        given_out(requests::all_closed(requests::nobody_waits(st), keys)),
        given_out(requests::all_closed(requests::nobody_waits(scan::scan_stopped(st)), keys)),
{
    lemma_all_closed_given_out(requests::nobody_waits(st), keys);
    lemma_all_closed_given_out(requests::nobody_waits(scan::scan_stopped(st)), keys);
}

/// Ending sessions one after the other keeps generations to those that were given out.
proof fn lemma_all_closed_given_out(st: MainView, keys: Seq<Seq<char>>)
    requires
        given_out(st),
    ensures
        given_out(requests::all_closed(st, keys)),
    decreases keys.len(),
{
    if keys.len() > 0 {
        lemma_all_closed_given_out(st, keys.drop_last());
    }
}

/// A connection that is accepted, and a channel that is asked to open under the number that was
/// given out for it, keep generations to those that were given out.
pub proof fn law_new_sessions_are_given_out(
    st: MainView,
    addr: Seq<char>,
    device: u64,
    name: Option<Seq<char>>,
    channels: Seq<u8>,
    channel: u64,
    delegate: u64,
    active: u64,
)
    requires
        given_out(st),
        st.next_id < usize::MAX,
    ensures
        given_out(
            requests::connection_accepted(st, addr, device, name, channels),
        ),
        given_out(
            session::with_session(
                channel_tried(st, addr),
                addr,
                opening_session(
                    addr,
                    channel_tried(st, addr).next_id,
                    channel,
                    delegate,
                    active,
                ),
            ),
        ),
{
    law_generations_stay_given_out(st, addr, 0, Seq::empty(), 1);
}

} // verus!
