//! What holds of the backend, said of what goes into a step and what comes out of it.
use vstd::prelude::*;

use crate::macos::connection;
use crate::macos::connection::{Retry, SdpAction, SdpEvent};
use crate::macos::queue;
use crate::macos::requests;
use crate::macos::scan;
use crate::macos::send;
use crate::macos::send::{PumpStep, WriteRequest};
use crate::macos::session;
use crate::macos::session::{ClosedSession, ListenerError};
use crate::macos::state;
use crate::macos::state::{MainView, PendingView, SendView, SessionView, SharedView};
use crate::models::DeviceView;

verus! {

/// Sessions that are live and sessions that retire are the same in both states.
pub open spec fn same_sessions(a: MainView, b: MainView) -> bool {
    a.sessions == b.sessions && a.retiring == b.retiring
}

/// Whoever waits to be connected is the same in both states.
pub open spec fn same_waiting(a: MainView, b: MainView) -> bool {
    &&& a.connections == b.connections
    &&& a.connect_queue == b.connect_queue
    &&& a.connecting == b.connecting
}

/// The scan is the same in both states.
pub open spec fn same_scan(a: MainView, b: MainView) -> bool {
    a.inquiry == b.inquiry && a.delegate == b.delegate
}

/// The sessions with all devices but the one at `addr` are the same in both states.
pub open spec fn same_other_sessions(a: MainView, b: MainView, addr: Seq<char>) -> bool {
    forall|other: Seq<char>|
        other != addr ==> (#[trigger] a.sessions.contains_key(other) <==> b.sessions.contains_key(
            other,
        )) && (b.sessions.contains_key(other) ==> a.sessions[other] == b.sessions[other])
}

/// The connections to all devices but the one at `addr` are the same in both states.
pub open spec fn same_other_connections(a: MainView, b: MainView, addr: Seq<char>) -> bool {
    forall|other: Seq<char>|
        other != addr ==> (#[trigger] a.connections.contains_key(other)
            <==> b.connections.contains_key(other)) && (b.connections.contains_key(other)
            ==> a.connections[other] == b.connections[other])
}

/// The limits of the backend and the codes that the system uses.
pub proof fn law_limits()
    ensures
        state::RETURN_SUCCESS == 0,
        state::MAX_IN_FLIGHT == 8,
        state::MAX_MTU == 65535,
        state::HIGHEST_CHANNEL == 30,
        connection::SPP_SERVICE_UUID == 0x1101,
        connection::SDP_POLL_MS == 100,
        connection::LAST_SDP_POLL == 29,
        connection::OPEN_TIMEOUT_SECS == 12,
        send::WRITES_PER_TURN == 4,
        send::PUMP_BUDGET_MS == 2,
        send::PUMP_YIELD_MS == 1,
        send::BACKPRESSURE_RETRY_MS == 10,
        send::SEND_TIMEOUT_SECS == 45,
{
}

/// A write is tried again exactly where the system says that it is busy, has no space, or has too
/// little or too much data.
pub proof fn law_only_backpressure_is_tried_again(status: i32)
    ensures
        send::retryable(status) <==> status == -536870187 || status == -536870181 || status
            == -536870169 || status == -536870168,
        !send::retryable(0),
{
}

/// When a channel opens, the session's unit of transfer is the channel's own wherever that is
/// within the limits, and the nearest limit where it is not; nothing else of the session changes
/// but that it is open.
pub proof fn law_opened_session_has_the_unit_of_its_channel(
    st: MainView,
    addr: Seq<char>,
    mtu: usize,
)
    requires
        st.sessions.contains_key(addr),
    ensures
        ({
            let before = st.sessions[addr];
            let after = connection::device_connected(st, addr, mtu);
            &&& after.sessions.contains_key(addr)
            &&& 1 <= mtu <= 65535 ==> after.sessions[addr].mtu == mtu
            &&& mtu == 0 ==> after.sessions[addr].mtu == 1
            &&& mtu > 65535 ==> after.sessions[addr].mtu == 65535
            &&& after.sessions[addr].opened
            &&& after.sessions[addr].addr == before.addr
            &&& after.sessions[addr].generation == before.generation
            &&& after.sessions[addr].channel == before.channel
            &&& after.sessions[addr].delegate == before.delegate
            &&& after.sessions[addr].active == before.active
            &&& after.sessions[addr].failed == before.failed
            &&& after.sessions[addr].pump_scheduled == before.pump_scheduled
            &&& after.sessions[addr].pending_send == before.pending_send
            &&& same_other_sessions(after, st, addr)
            &&& after.retiring == st.retiring
            &&& after.next_id == st.next_id
            &&& same_scan(after, st)
        }),
{
}

/// No write of a device is longer than the unit of its channel, and none is shorter but the last
/// one: the writes of `n` bytes over a channel with the unit `mtu` are `n / mtu` full ones and one
/// with what is left.
pub proof fn law_writes_are_as_long_as_the_channel_takes(
    st: MainView,
    addr: Seq<char>,
    mtu: usize,
    send: SendView,
)
    requires
        st.sessions.contains_key(addr),
        1 <= mtu <= 65535,
        send.next_offset < send.payload.len() <= usize::MAX,
    ensures
        ({
            let session = connection::device_connected(st, addr, mtu).sessions[addr];
            let len = send::write_len(session, send);
            let left = send.payload.len() - send.next_offset;
            &&& 1 <= len <= mtu
            &&& left >= mtu ==> len == mtu
            &&& left < mtu ==> len == left
        }),
{
}

/// A device whose channel opened while it was being connected no longer waits, the turn is free,
/// and the others wait as before; one that was given up meanwhile changes nothing of that.
pub proof fn law_connected_device_gives_up_its_turn(st: MainView, addr: Seq<char>, mtu: usize)
    ensures
        ({
            let after = connection::device_connected(st, addr, mtu);
            &&& !after.connections.contains_key(addr)
            &&& same_other_connections(after, st, addr)
            &&& st.connections.contains_key(addr) ==> {
                &&& !after.connect_queue.contains(addr)
                &&& forall|other: Seq<char>|
                    other != addr ==> after.connect_queue.contains(other)
                        == st.connect_queue.contains(other)
                &&& after.connecting == (if st.connecting == Some(addr) {
                    None
                } else {
                    st.connecting
                })
            }
            &&& !st.connections.contains_key(addr) ==> after.connect_queue == st.connect_queue
                && after.connecting == st.connecting
        }),
{
    queue::lemma_others(st.connect_queue, addr);
}

/// A device is published when its channel opened while it was being connected, with what was known
/// of it when the connection was accepted; callbacks, listeners and other devices stay.
pub proof fn law_published_device_is_the_one_that_was_asked_for(
    st: MainView,
    shared: SharedView,
    addr: Seq<char>,
)
    ensures
        ({
            let after = connection::device_published(st, shared, addr);
            &&& st.connections.contains_key(addr) ==> after.connected_device_info.contains_key(addr)
                && after.connected_device_info[addr] == st.connections[addr].info
            &&& forall|other: Seq<char>|
                other != addr ==> (#[trigger] after.connected_device_info.contains_key(other)
                    <==> shared.connected_device_info.contains_key(other)) && (
                shared.connected_device_info.contains_key(other)
                    ==> after.connected_device_info[other] == shared.connected_device_info[other])
            &&& !st.connections.contains_key(addr) ==> after == shared
            &&& after.on_connected_callbacks == shared.on_connected_callbacks
            &&& after.data_listeners == shared.data_listeners
            &&& after.scanned_devices == shared.scanned_devices
            &&& after.scan_loop_running == shared.scan_loop_running
        }),
{
}

/// A connection that is accepted holds what was asked for: the device that was found, its name,
/// and the channels of the request, all of them and in their order. It waits behind every other
/// one, under a number of its own, and nothing else changes.
pub proof fn law_accepted_connection_holds_the_request(
    st: MainView,
    addr: Seq<char>,
    device: u64,
    name: Option<Seq<char>>,
    channels: Seq<u8>,
)
    ensures
        ({
            let after = requests::connection_accepted(st, addr, device, name, channels);
            let connection = after.connections[addr];
            &&& after.connections.contains_key(addr)
            &&& connection.channels == channels
            &&& connection.device == device
            &&& connection.info.name == name
            &&& connection.info.address == addr
            &&& !connection.sdp_resolved
            &&& connection.last_error.len() == 0
            &&& connection.generation == after.next_id
            &&& connection.generation != st.next_id
            &&& connection.generation != 0
            &&& same_other_connections(after, st, addr)
            &&& after.connect_queue == st.connect_queue.push(addr)
            &&& after.connecting == st.connecting
            &&& same_sessions(after, st)
            &&& same_scan(after, st)
        }),
{
}

/// Where the service query finds nothing, the channels of the request are opened one after the
/// other, from the first to the last; where it finds one, that one is opened first.
pub proof fn law_first_channel_opened_is_the_first_of_the_request(
    st: MainView,
    addr: Seq<char>,
    device: u64,
    name: Option<Seq<char>>,
    channels: Seq<u8>,
    found: Option<u8>,
)
    requires
        channels.len() > 0,
        !st.sessions.contains_key(addr),
    ensures
        ({
            let accepted = requests::connection_accepted(st, addr, device, name, channels);
            let looked_up = connection::resolved(accepted, addr, accepted.next_id, found);
            let left = looked_up.connections[addr].channels;
            &&& looked_up.connections.contains_key(addr)
            &&& left.len() > 0
            &&& found is None ==> left == channels
            &&& found matches Some(channel) ==> left[0] == channel
            &&& connection::channel_tried(looked_up, addr).connections.contains_key(addr)
            &&& connection::channel_tried(looked_up, addr).connections[addr].channels == left.skip(1)
            &&& looked_up.connections[addr].device == device
            &&& looked_up.connections[addr].sdp_resolved
        }),
{
}

/// The channel of a service record counts exactly where it was read and can be used.
pub proof fn law_recorded_channel_counts_where_usable(status: i32, channel: u8)
    ensures
        connection::cached_channel(None) is None,
        status == 0 && 1 <= channel <= 30 ==> connection::cached_channel(Some((status, channel)))
            == Some(channel),
        status != 0 || channel == 0 || channel > 30 ==> connection::cached_channel(
            Some((status, channel)),
        ) is None,
{
}

/// The first device in line that is still to be connected gets the turn, those before it are no
/// longer in line, and those behind it stay in their order.
pub proof fn law_first_in_line_gets_the_turn(st: MainView, i: int)
    requires
        st.connecting is None,
        0 <= i < st.connect_queue.len(),
        st.connections.contains_key(st.connect_queue[i]),
        forall|j: int| 0 <= j < i ==> !st.connections.contains_key(#[trigger] st.connect_queue[j]),
    ensures
        connection::turn_taken(st).connecting == Some(st.connect_queue[i]),
        connection::turn_taken(st).connect_queue == st.connect_queue.skip(i + 1),
        connection::turn_taken(st).connections == st.connections,
        connection::turn_taken(st).next_id == st.next_id,
        same_sessions(connection::turn_taken(st), st),
        same_scan(connection::turn_taken(st), st),
        connection::in_line(st.connect_queue, st.connections) == st.connect_queue.skip(i),
    decreases i,
{
    if i == 0 {
        assert(st.connect_queue.skip(0) =~= st.connect_queue);
    } else {
        assert(!st.connections.contains_key(st.connect_queue[0]));
        let rest = MainView { connect_queue: st.connect_queue.skip(1), ..st };
        assert forall|j: int| 0 <= j < i - 1 implies !rest.connections.contains_key(
            #[trigger] rest.connect_queue[j],
        ) by {
            assert(rest.connect_queue[j] == st.connect_queue[j + 1]);
        }
        law_first_in_line_gets_the_turn(rest, i - 1);
        assert(st.connect_queue.skip(1).skip(i - 1) =~= st.connect_queue.skip(i));
        assert(st.connect_queue.skip(1).skip(i) =~= st.connect_queue.skip(i + 1));
    }
}

/// Where nobody in line is to be connected, nobody gets the turn; and while somebody has it,
/// nothing changes.
pub proof fn law_nobody_gets_a_turn_for_nothing(st: MainView)
    ensures
        st.connecting is Some ==> connection::turn_taken(st) == st,
        st.connecting is None && (forall|j: int|
            0 <= j < st.connect_queue.len() ==> !st.connections.contains_key(
                #[trigger] st.connect_queue[j],
            )) ==> {
            let after = connection::turn_taken(st);
            &&& after.connecting is None
            &&& after.connect_queue.len() == 0
            &&& after.connections == st.connections
            &&& after.next_id == st.next_id
            &&& same_sessions(after, st)
            &&& same_scan(after, st)
        },
    decreases st.connect_queue.len(),
{
    if st.connecting is None && st.connect_queue.len() > 0 && (forall|j: int|
        0 <= j < st.connect_queue.len() ==> !st.connections.contains_key(
            #[trigger] st.connect_queue[j],
        )) {
        assert(!st.connections.contains_key(st.connect_queue[0]));
        let rest = MainView { connect_queue: st.connect_queue.skip(1), ..st };
        assert forall|j: int| 0 <= j < rest.connect_queue.len() implies !rest.connections
            .contains_key(#[trigger] rest.connect_queue[j]) by {
            assert(rest.connect_queue[j] == st.connect_queue[j + 1]);
        }
        law_nobody_gets_a_turn_for_nothing(rest);
    }
}

/// Whoever is first in line, where somebody is, has waited for a turn and is to be connected.
pub proof fn law_one_in_line_is_to_be_connected(
    queue: Seq<Seq<char>>,
    connections: Map<Seq<char>, PendingView>,
)
    ensures
        connection::in_line(queue, connections).len() > 0 ==> queue.contains(
            connection::in_line(queue, connections)[0],
        ) && connections.contains_key(connection::in_line(queue, connections)[0]),
    decreases queue.len(),
{
    if queue.len() > 0 {
        if connections.contains_key(queue[0]) {
            assert(queue.contains(queue[0]));
        } else {
            let rest = queue.skip(1);
            law_one_in_line_is_to_be_connected(rest, connections);
            if connection::in_line(rest, connections).len() > 0 {
                let first = connection::in_line(rest, connections)[0];
                assert(queue[rest.index_of(first) + 1] == first);
            }
        }
    }
}

/// A device is asked for its channel only where the channel is not known; what is found ends the
/// search at once, and without it the search ends with the thirtieth look.
pub proof fn law_search_for_the_channel(
    found: Option<u8>,
    channel: u8,
    status: i32,
    attempt: usize,
    resolved: bool,
)
    ensures
        connection::next_sdp_action(SdpEvent::Turn { resolved }) == (if resolved {
            SdpAction::TryChannel
        } else {
            SdpAction::LookUp
        }),
        connection::next_sdp_action(SdpEvent::Known(Some(channel))) == SdpAction::Finish(
            Some(channel),
        ),
        connection::next_sdp_action(SdpEvent::Known(None)) == SdpAction::Query,
        connection::next_sdp_action(SdpEvent::QueryStarted(0)) == (SdpAction::Poll { attempt: 0 }),
        status != 0 ==> connection::next_sdp_action(SdpEvent::QueryStarted(status))
            == SdpAction::Finish(None),
        connection::next_sdp_action(SdpEvent::Polled { attempt, channel: Some(channel) })
            == SdpAction::Finish(Some(channel)),
        attempt < 29 ==> connection::next_sdp_action(SdpEvent::Polled { attempt, channel: None })
            == (SdpAction::Poll { attempt: (attempt + 1) as usize }),
        attempt >= 29 ==> connection::next_sdp_action(SdpEvent::Polled { attempt, channel: None })
            == SdpAction::Finish(None),
{
}

/// The result of a query is wanted exactly while the connection that asked for it has its turn.
pub proof fn law_result_is_wanted_by_the_connection_with_the_turn(
    st: MainView,
    addr: Seq<char>,
    generation: usize,
)
    ensures
        connection::has_turn(st, addr, generation) <==> st.connecting == Some(addr)
            && st.connections.contains_key(addr) && st.connections[addr].generation == generation,
        connection::is_connection(st, addr, generation) <==> st.connections.contains_key(addr)
            && st.connections[addr].generation == generation,
{
}

/// What is found of a channel goes to the connection that asked for it and to no other.
pub proof fn law_found_channel_goes_to_its_connection(
    st: MainView,
    addr: Seq<char>,
    generation: usize,
    found: Option<u8>,
)
    ensures
        ({
            let after = connection::resolved(st, addr, generation, found);
            let own = st.connections.contains_key(addr) && st.connections[addr].generation
                == generation;
            &&& !own ==> after == st
            &&& own ==> {
                let before = st.connections[addr];
                &&& after.connections.contains_key(addr)
                &&& after.connections[addr].sdp_resolved
                &&& after.connections[addr].generation == generation
                &&& after.connections[addr].device == before.device
                &&& after.connections[addr].info == before.info
                &&& after.connections[addr].last_error == before.last_error
                &&& found is None ==> after.connections[addr].channels == before.channels
                &&& found matches Some(channel) ==> after.connections[addr].channels
                    == connection::found_first(before.channels, Some(channel))
                &&& same_other_connections(after, st, addr)
                &&& after.connect_queue == st.connect_queue
                &&& after.connecting == st.connecting
                &&& after.next_id == st.next_id
                &&& same_sessions(after, st)
                &&& same_scan(after, st)
            }
        }),
{
}

/// A channel that was found goes before the others, which keep their order: one more channel at
/// the end of the request is one more at the end, unless it is the one that was found.
pub proof fn law_other_channels_keep_their_order(channels: Seq<u8>, last: u8, channel: u8)
    ensures
        connection::found_first(Seq::empty(), Some(channel)) == seq![channel],
        connection::found_first(channels, None) == channels,
        last != channel ==> connection::found_first(channels.push(last), Some(channel))
            == connection::found_first(channels, Some(channel)).push(last),
        connection::found_first(channels.push(channel), Some(channel)) == connection::found_first(
            channels,
            Some(channel),
        ),
{
    reveal(Seq::filter);
    assert(channels.push(last).drop_last() =~= channels);
    assert(channels.push(channel).drop_last() =~= channels);
    assert(connection::found_first(Seq::empty(), Some(channel)) =~= seq![channel]);
    if last != channel {
        assert(connection::found_first(channels.push(last), Some(channel))
            =~= connection::found_first(channels, Some(channel)).push(last));
    }
}

/// After an attempt that failed, a connection with channels left keeps them all, remembers why it
/// failed and waits behind every other one; its turn is over, and so is its session.
pub proof fn law_failed_attempt_keeps_what_is_left_to_try(
    st: MainView,
    shared: SharedView,
    addr: Seq<char>,
    reason: Seq<char>,
)
    requires
        st.connections.contains_key(addr),
        st.connections[addr].channels.len() > 0,
    ensures
        ({
            let after = connection::retried(st, addr, reason);
            let before = st.connections[addr];
            &&& after.connections.contains_key(addr)
            &&& after.connections[addr].channels == before.channels
            &&& after.connections[addr].last_error == reason
            &&& after.connections[addr].generation == before.generation
            &&& after.connections[addr].device == before.device
            &&& after.connections[addr].info == before.info
            &&& after.connections[addr].sdp_resolved == before.sdp_resolved
            &&& same_other_connections(after, st, addr)
            &&& after.connect_queue == st.connect_queue.push(addr)
            &&& after.connecting == (if st.connecting == Some(addr) {
                None
            } else {
                st.connecting
            })
            &&& !after.sessions.contains_key(addr)
            &&& same_other_sessions(after, st, addr)
            &&& after.next_id == st.next_id
            &&& same_scan(after, st)
            &&& connection::retried_shared(st, shared, addr) == shared
        }),
{
}

/// A device whose last channel failed is forgotten, and a device that is not being connected loses
/// its session only.
pub proof fn law_failed_attempt_without_channels_gives_up(
    st: MainView,
    shared: SharedView,
    addr: Seq<char>,
    reason: Seq<char>,
)
    ensures
        ({
            let after = connection::retried(st, addr, reason);
            let told = connection::retried_shared(st, shared, addr);
            &&& !after.sessions.contains_key(addr)
            &&& same_other_sessions(after, st, addr)
            &&& same_other_connections(after, st, addr)
            &&& st.connections.contains_key(addr) && st.connections[addr].channels.len() == 0 ==> {
                &&& !after.connections.contains_key(addr)
                &&& !after.connect_queue.contains(addr)
                &&& after.connecting != Some(addr)
                &&& !told.connected_device_info.contains_key(addr)
                &&& !told.on_connected_callbacks.contains_key(addr)
                &&& !told.data_listeners.contains_key(addr)
            }
            &&& !st.connections.contains_key(addr) ==> same_waiting(after, st) && told == shared
        }),
{
    queue::lemma_others(st.connect_queue, addr);
}

/// What a failed attempt leaves to do is told by what is left to try: nothing, another turn, or to
/// give the device up and to tell its listener why.
pub proof fn law_failed_attempt_is_followed_up(
    retry: Retry,
    st: MainView,
    shared: SharedView,
    addr: Seq<char>,
    reason: Seq<char>,
)
    requires
        connection::retries(retry, st, shared, addr, reason),
    ensures
        retry.closed is Some <==> st.sessions.contains_key(addr),
        retry.closed matches Some(end) ==> {
            &&& end.generation == st.sessions[addr].generation
            &&& end.channel == st.sessions[addr].channel
            &&& end.active == st.sessions[addr].active
            &&& end.close_channel
        },
        !st.connections.contains_key(addr) <==> retry.outcome is NotConnecting,
        st.connections.contains_key(addr) && st.connections[addr].channels.len() > 0
            <==> retry.outcome is Queued,
        retry.outcome matches connection::RetryOutcome::GivenUp(gone) ==> {
            &&& gone.closed is None
            &&& gone.told is Some <==> shared.data_listeners.contains_key(addr)
            &&& gone.told matches Some(told) ==> told.listener == shared.data_listeners[addr]
                && told.error@ == "All RFCOMM channel attempts failed: "@ + reason
        },
{
}

/// The next channel of a connection is taken from what is left to try, under a number of its own;
/// an earlier session of the device has ended by then.
pub proof fn law_next_channel_is_taken_from_what_is_left(st: MainView, addr: Seq<char>)
    requires
        st.connections.contains_key(addr),
        st.connections[addr].channels.len() > 0,
    ensures
        ({
            let before = st.connections[addr];
            let after = connection::channel_tried(st, addr);
            &&& after.connections.contains_key(addr)
            &&& before.channels == seq![before.channels[0]] + after.connections[addr].channels
            &&& after.connections[addr].generation == before.generation
            &&& after.connections[addr].device == before.device
            &&& after.connections[addr].info == before.info
            &&& after.connections[addr].last_error == before.last_error
            &&& after.connections[addr].sdp_resolved == before.sdp_resolved
            &&& same_other_connections(after, st, addr)
            &&& after.connect_queue == st.connect_queue
            &&& after.connecting == st.connecting
            &&& !after.sessions.contains_key(addr)
            &&& same_other_sessions(after, st, addr)
            &&& after.next_id != st.next_id
            &&& after.next_id != 0
            &&& same_scan(after, st)
        }),
{
    let channels = st.connections[addr].channels;
    assert(channels =~= seq![channels[0]] + channels.skip(1));
}

/// Numbers are given out one after the other, and never zero.
pub proof fn law_numbers_follow_each_other(id: usize)
    ensures
        id < usize::MAX ==> state::id_after(id) == id + 1,
        id == usize::MAX ==> state::id_after(id) == 1,
{
}

/// A channel that was asked to open has a session that carries nothing yet, of the number and with
/// the native objects that were made for it.
pub proof fn law_requested_channel_has_a_session(
    st: MainView,
    addr: Seq<char>,
    generation: usize,
    channel: u64,
    delegate: u64,
    active: u64,
)
    ensures
        ({
            let after = session::with_session(
                st,
                addr,
                connection::opening_session(addr, generation, channel, delegate, active),
            );
            let session = after.sessions[addr];
            &&& after.sessions.contains_key(addr)
            &&& session.addr == addr
            &&& session.generation == generation
            &&& session.channel == channel
            &&& session.delegate == delegate
            &&& session.active == active
            &&& !session.opened
            &&& !session.failed
            &&& !session.pump_scheduled
            &&& session.pending_send is None
            &&& same_other_sessions(after, st, addr)
            &&& after.retiring == st.retiring
            &&& same_waiting(after, st)
            &&& same_scan(after, st)
            &&& after.next_id == st.next_id
            &&& connection::is_opening(after, addr, generation)
            &&& !send::connected(after, addr)
        }),
{
}

/// A channel is still opening exactly while its own session is there and not open.
pub proof fn law_channel_is_opening_until_its_session_is_open(
    st: MainView,
    addr: Seq<char>,
    generation: usize,
)
    ensures
        connection::is_opening(st, addr, generation) <==> st.sessions.contains_key(addr)
            && st.sessions[addr].generation == generation && !st.sessions[addr].opened,
        session::is_session(st, addr, generation) <==> st.sessions.contains_key(addr)
            && st.sessions[addr].generation == generation,
        session::can_fail(st, addr, generation) <==> st.sessions.contains_key(addr)
            && st.sessions[addr].generation == generation && !st.sessions[addr].failed,
        send::connected(st, addr) <==> st.sessions.contains_key(addr) && st.sessions[addr].opened
            && !st.sessions[addr].failed,
        requests::known(st, addr) <==> st.sessions.contains_key(addr)
            || st.connections.contains_key(addr),
{
}

/// A channel that the other side closes ends its own session: a device that was connected is
/// forgotten, one that was still being connected goes on with what is left to try, and a session
/// that replaced it stays.
pub proof fn law_closed_channel_ends_its_session(
    st: MainView,
    shared: SharedView,
    addr: Seq<char>,
    generation: usize,
)
    ensures
        ({
            let after = connection::channel_ended(st, addr, generation);
            let told = connection::channel_ended_shared(st, shared, addr, generation);
            let own = st.sessions.contains_key(addr) && st.sessions[addr].generation == generation;
            &&& !own ==> after.sessions == st.sessions && same_waiting(after, st) && told == shared
                && !after.retiring.contains_key(generation)
            &&& own ==> !after.sessions.contains_key(addr) && same_other_sessions(after, st, addr)
            &&& own && !st.connections.contains_key(addr) ==> {
                &&& same_waiting(after, st)
                &&& !told.connected_device_info.contains_key(addr)
                &&& !told.on_connected_callbacks.contains_key(addr)
                &&& !told.data_listeners.contains_key(addr)
                &&& after.retiring.contains_key(generation)
                &&& after.retiring[generation] == st.sessions[addr]
            }
            &&& own && st.connections.contains_key(addr) && st.connections[addr].channels.len() > 0
                ==> {
                &&& after.connections.contains_key(addr)
                &&& after.connections[addr].channels == st.connections[addr].channels
                &&& after.connect_queue == st.connect_queue.push(addr)
                &&& told == shared
            }
            &&& own && st.connections.contains_key(addr) && st.connections[addr].channels.len() == 0
                ==> {
                &&& !after.connections.contains_key(addr)
                &&& !told.connected_device_info.contains_key(addr)
            }
            &&& same_other_connections(after, st, addr)
            &&& after.next_id == st.next_id
            &&& same_scan(after, st)
        }),
{
}

/// A session that ends is no longer live, and retires as it is: its buffers stay.
pub proof fn law_ended_session_retires_as_it_is(st: MainView, addr: Seq<char>)
    ensures
        ({
            let after = session::closed(st, addr);
            &&& !after.sessions.contains_key(addr)
            &&& same_other_sessions(after, st, addr)
            &&& st.sessions.contains_key(addr) ==> {
                let generation = st.sessions[addr].generation;
                &&& after.retiring.contains_key(generation)
                &&& after.retiring[generation] == st.sessions[addr]
                &&& forall|other: usize|
                    other != generation ==> (#[trigger] after.retiring.contains_key(other)
                        <==> st.retiring.contains_key(other)) && (st.retiring.contains_key(other)
                        ==> after.retiring[other] == st.retiring[other])
            }
            &&& !st.sessions.contains_key(addr) ==> after == st
            &&& same_waiting(after, st)
            &&& same_scan(after, st)
            &&& after.next_id == st.next_id
        }),
{
    if !st.sessions.contains_key(addr) {
        assert(session::closed(st, addr) == st);
    }
}

/// What is left to do for a session that ended is told by the session: its own flag and channel,
/// and its own send, which fails for the reason that was given.
pub proof fn law_end_of_a_session_names_its_own(
    end: Option<ClosedSession>,
    session: Option<SessionView>,
    reason: Seq<char>,
    already_closed: bool,
)
    requires
        session::ends_if_any(end, session, reason, already_closed),
    ensures
        end is Some <==> session is Some,
        session matches Some(ended) ==> {
            let left = end->0;
            &&& left.generation == ended.generation
            &&& left.channel == ended.channel
            &&& left.active == ended.active
            &&& left.close_channel == !already_closed
            &&& left.failed_send is Some <==> ended.pending_send is Some
            &&& left.failed_send matches Some(failed) ==> failed.completion
                == ended.pending_send->0.completion && failed.reason@ == reason
        },
{
}

/// A listener is told of an error exactly where there are a listener and an error.
pub proof fn law_listener_is_told_of_the_error(
    told: Option<ListenerError>,
    shared: SharedView,
    addr: Seq<char>,
    error: Option<Seq<char>>,
)
    requires
        session::tells(told, shared, addr, error),
    ensures
        told is Some <==> shared.data_listeners.contains_key(addr) && error is Some,
        told matches Some(news) ==> news.listener == shared.data_listeners[addr] && news.error@
            == error->0,
{
}

/// A retiring session is dropped alone, with the channel that it has; it is dropped when its
/// channel is closed or no write of it is under way, and not before.
pub proof fn law_retiring_session_is_dropped_alone(st: MainView, generation: usize, status: i32)
    ensures
        ({
            let after = session::released(st, generation);
            &&& !after.retiring.contains_key(generation)
            &&& forall|other: usize|
                other != generation ==> (#[trigger] after.retiring.contains_key(other)
                    <==> st.retiring.contains_key(other)) && (st.retiring.contains_key(other)
                    ==> after.retiring[other] == st.retiring[other])
            &&& after.sessions == st.sessions
            &&& same_waiting(after, st)
            &&& same_scan(after, st)
            &&& after.next_id == st.next_id
        }),
        st.retiring.contains_key(generation) ==> session::channel_of(
            crate::macos::retiring::retired(st.retiring, generation),
        ) == Some(st.retiring[generation].channel),
        !st.retiring.contains_key(generation) ==> session::channel_of(
            crate::macos::retiring::retired(st.retiring, generation),
        ) is None,
        status == 0 ==> session::droppable(st, generation, status),
        status != 0 ==> (session::droppable(st, generation, status) <==> !(
        st.retiring.contains_key(generation) && st.retiring[generation].pending_send is Some
            && st.retiring[generation].pending_send->0.in_flight > 0)),
{
}

/// A device is refused exactly while a session with it retires.
pub proof fn law_device_retires_while_a_session_does(st: MainView, addr: Seq<char>)
    ensures
        crate::macos::retiring::retires(st.retiring, addr) <==> exists|generation: usize|
            #[trigger] st.retiring.contains_key(generation) && st.retiring[generation].addr == addr,
        st.sessions.contains_key(addr) && st.sessions[addr].addr == addr
            ==> crate::macos::retiring::retires(session::closed(st, addr).retiring, addr),
{
    if st.sessions.contains_key(addr) && st.sessions[addr].addr == addr {
        assert(session::closed(st, addr).retiring.contains_key(st.sessions[addr].generation));
    }
}

/// A device that no longer waits leaves the line as it was without it: the others keep their
/// order.
pub proof fn law_line_keeps_its_order(queue: Seq<Seq<char>>, last: Seq<char>, addr: Seq<char>)
    ensures
        queue::others(Seq::empty(), addr).len() == 0,
        last != addr ==> queue::others(queue.push(last), addr) == queue::others(queue, addr).push(
            last,
        ),
        queue::others(queue.push(addr), addr) == queue::others(queue, addr),
{
    reveal(Seq::filter);
    assert(queue.push(last).drop_last() =~= queue);
    assert(queue.push(addr).drop_last() =~= queue);
}

/// A device that is given up keeps nothing, and nothing of another device changes but the turn,
/// which is free where the device had it.
pub proof fn law_given_up_device_frees_its_turn(st: MainView, shared: SharedView, addr: Seq<char>)
    ensures
        ({
            let after = session::dropped(st, addr);
            let told = session::cleared(shared, addr);
            &&& after.connect_queue == queue::others(st.connect_queue, addr)
            &&& after.connecting == (if st.connecting == Some(addr) {
                None
            } else {
                st.connecting
            })
            &&& after.retiring == session::closed(st, addr).retiring
            &&& after.next_id == st.next_id
            &&& same_scan(after, st)
            &&& same_other_sessions(after, st, addr)
            &&& same_other_connections(after, st, addr)
            &&& told.scanned_devices == shared.scanned_devices
            &&& told.scan_loop_running == shared.scan_loop_running
        }),
{
}

/// A turn of writes is due exactly where a session has something to send, has not failed, and no
/// turn is scheduled; it is then scheduled, and nothing else changes.
pub proof fn law_turn_of_writes_is_scheduled_once(
    st: MainView,
    addr: Seq<char>,
    generation: usize,
)
    ensures
        ({
            let own = st.sessions.contains_key(addr) && st.sessions[addr].generation == generation;
            let due = own && !st.sessions[addr].failed && !st.sessions[addr].pump_scheduled
                && st.sessions[addr].pending_send is Some;
            let after = send::scheduled(st, addr, generation);
            let begun = send::turn_begun(st, addr, generation);
            &&& send::schedulable(st, addr, generation) <==> due
            &&& due ==> after.sessions[addr].pump_scheduled && after.sessions[addr].pending_send
                == st.sessions[addr].pending_send && !send::schedulable(after, addr, generation)
            &&& !due ==> after == st
            &&& own ==> !begun.sessions[addr].pump_scheduled && begun.sessions[addr].pending_send
                == st.sessions[addr].pending_send
            &&& !own ==> begun == st
            &&& same_but_this_session(after, st, addr)
            &&& same_but_this_session(begun, st, addr)
        }),
{
}

/// Nothing but the live session with the device at `addr` differs, and of that only what is sent
/// and when: it is the same session, as open, as failed and with the same unit of transfer.
pub open spec fn same_but_this_session(a: MainView, b: MainView, addr: Seq<char>) -> bool {
    &&& same_other_sessions(a, b, addr)
    &&& a.sessions.contains_key(addr) <==> b.sessions.contains_key(addr)
    &&& b.sessions.contains_key(addr) ==> same_session(a.sessions[addr], b.sessions[addr])
    &&& a.retiring == b.retiring
    &&& same_waiting(a, b)
    &&& same_scan(a, b)
    &&& a.next_id == b.next_id
}

/// The two are the same session, but for what is sent.
pub open spec fn same_session(a: SessionView, b: SessionView) -> bool {
    &&& a.addr == b.addr
    &&& a.generation == b.generation
    &&& a.channel == b.channel
    &&& a.delegate == b.delegate
    &&& a.active == b.active
    &&& a.opened == b.opened
    &&& a.failed == b.failed
    &&& a.mtu == b.mtu
}

/// A write can be made exactly where the session is open and has not failed, bytes are left, and
/// fewer than eight writes are under way. It starts where the last one ended, and is counted.
pub proof fn law_next_write_starts_where_the_last_one_ended(
    st: MainView,
    addr: Seq<char>,
    generation: usize,
)
    requires
        state::well_formed(st),
    ensures
        ({
            let session = st.sessions[addr];
            let send = session.pending_send->0;
            let can = st.sessions.contains_key(addr) && session.generation == generation
                && session.opened && !session.failed && session.pending_send is Some
                && send.in_flight < 8 && send.next_offset < send.payload.len();
            let after = send::reserved_if_any(st, addr, generation);
            let next = after.sessions[addr].pending_send->0;
            &&& send::writable(st, addr, generation) <==> can
            &&& !can ==> after == st
            &&& can ==> {
                &&& after.sessions[addr].pending_send is Some
                &&& next.id == send.id
                &&& next.payload == send.payload
                &&& next.completion == send.completion
                &&& next.in_flight == send.in_flight + 1
                &&& send.next_offset < next.next_offset <= send.payload.len()
                &&& next.next_offset - send.next_offset <= session.mtu
                &&& next.next_offset == send.payload.len() || next.next_offset - send.next_offset
                    == session.mtu
                &&& after.sessions[addr].pump_scheduled == session.pump_scheduled
            }
            &&& same_but_this_session(after, st, addr)
        }),
{
}

/// A write that is asked for is made over the session's channel and holds the bytes of its send
/// that follow what was written: as many as the channel takes at a time, or all that are left.
pub proof fn law_write_holds_the_next_bytes(
    request: WriteRequest,
    session: SessionView,
    send: SendView,
)
    requires
        send::requests(request, session, send),
        send.next_offset < send.payload.len() <= usize::MAX,
        session.mtu >= 1,
    ensures
        request.channel == session.channel,
        request.payload@ == send.payload,
        request.id == send.id,
        request.offset == send.next_offset,
        request.len >= 1,
        request.len <= session.mtu,
        request.offset + request.len <= send.payload.len(),
        request.len == session.mtu || request.offset + request.len == send.payload.len(),
{
}

/// A turn makes a write where one can be made, and ends where not.
pub proof fn law_turn_makes_the_write_that_can_be_made(
    step: PumpStep,
    st: MainView,
    addr: Seq<char>,
    generation: usize,
)
    requires
        state::well_formed(st),
        send::makes_next_write(step, st, addr, generation),
    ensures
        ({
            let session = st.sessions[addr];
            let send = session.pending_send->0;
            let can = st.sessions.contains_key(addr) && session.generation == generation
                && session.opened && !session.failed && session.pending_send is Some
                && send.in_flight < 8 && send.next_offset < send.payload.len();
            &&& can <==> step is Write
            &&& !can ==> step is Done
            &&& step matches PumpStep::Write(request) ==> request.channel == session.channel
                && request.payload@ == send.payload && request.id == send.id && request.offset
                == send.next_offset && 1 <= request.len <= session.mtu && (request.len
                == session.mtu || request.offset + request.len == send.payload.len())
        }),
{
}

/// A turn that ends asks for another one exactly where one is due, after the time that was given.
pub proof fn law_turn_yields_where_another_is_due(
    step: PumpStep,
    st: MainView,
    addr: Seq<char>,
    generation: usize,
    delay: u64,
    reason: Seq<char>,
)
    ensures
        ({
            let own = st.sessions.contains_key(addr) && st.sessions[addr].generation == generation
                && !st.sessions[addr].failed;
            let due = own && !st.sessions[addr].pump_scheduled && st.sessions[addr].pending_send
                is Some;
            &&& send::yields(step, st, addr, generation, delay) && due ==> step
                == PumpStep::Schedule(delay)
            &&& send::yields(step, st, addr, generation, delay) && !due ==> step is Done
            &&& send::gives_up(step, st, addr, generation, reason) && own ==> (step matches
                PumpStep::FailLater { active, reason: text } && active
                == st.sessions[addr].active && text@ == reason)
            &&& send::gives_up(step, st, addr, generation, reason) && !own ==> step is Done
        }),
{
}

/// A session fails once: it is marked, and stays the same otherwise.
pub proof fn law_session_fails_once(st: MainView, addr: Seq<char>, generation: usize)
    ensures
        ({
            let own = st.sessions.contains_key(addr) && st.sessions[addr].generation == generation
                && !st.sessions[addr].failed;
            let after = send::failing(st, addr, generation);
            &&& !own ==> after == st
            &&& own ==> {
                &&& after.sessions.contains_key(addr)
                &&& after.sessions[addr].failed
                &&& after.sessions[addr].generation == generation
                &&& after.sessions[addr].channel == st.sessions[addr].channel
                &&& after.sessions[addr].active == st.sessions[addr].active
                &&& after.sessions[addr].opened == st.sessions[addr].opened
                &&& after.sessions[addr].mtu == st.sessions[addr].mtu
                &&& after.sessions[addr].pending_send == st.sessions[addr].pending_send
                &&& same_other_sessions(after, st, addr)
                &&& after.retiring == st.retiring
                &&& same_waiting(after, st)
                &&& same_scan(after, st)
                &&& after.next_id == st.next_id
            }
        }),
{
}

/// A write that was not accepted is no longer under way, and the send goes on where that write
/// started; only the send that the write belongs to is touched.
pub proof fn law_rejected_write_is_made_again_from_its_start(
    st: MainView,
    addr: Seq<char>,
    generation: usize,
    id: usize,
    offset: usize,
)
    ensures
        ({
            let session = st.sessions[addr];
            let send = session.pending_send->0;
            let own = st.sessions.contains_key(addr) && session.generation == generation
                && session.pending_send is Some && send.id == id;
            let after = send::unreserved(st, addr, generation, id, offset);
            let next = after.sessions[addr].pending_send->0;
            &&& send::sends(st, addr, generation, id) <==> own
            &&& !own ==> after == st
            &&& own && send.in_flight > 0 ==> {
                &&& after.sessions[addr].pending_send is Some
                &&& next.next_offset == offset
                &&& next.in_flight == send.in_flight - 1
                &&& next.id == id
                &&& next.payload == send.payload
                &&& next.completion == send.completion
                &&& after.sessions[addr].pump_scheduled == session.pump_scheduled
            }
            &&& same_but_this_session(after, st, addr)
            &&& send::counted(st, addr, generation, id, offset) <==> (own ==> send.in_flight > 0
                && offset <= send.payload.len())
        }),
{
}

/// A write that has completed is no longer under way; nothing else of its send changes. A send has
/// ended well exactly when its last byte was written, its last write has completed, and none has
/// failed.
pub proof fn law_send_ends_with_its_last_write(session: SessionView, send: SendView, status: i32)
    ensures
        ({
            let next = send::drained(send);
            &&& send.in_flight > 0 ==> next.in_flight == send.in_flight - 1
            &&& send.in_flight == 0 ==> next.in_flight == 0
            &&& next.id == send.id
            &&& next.payload == send.payload
            &&& next.next_offset == send.next_offset
            &&& next.completion == send.completion
        }),
        send::ended_well(session, send, status) <==> status == 0 && !session.failed
            && send.next_offset == send.payload.len() && send.in_flight <= 1,
{
}

/// What is pending for a session is put in place of what was, and nothing else changes; a send
/// that begins has written nothing of its payload.
pub proof fn law_send_begins_with_nothing_written(
    st: MainView,
    addr: Seq<char>,
    id: usize,
    payload: Seq<u8>,
    completion: u64,
)
    requires
        st.sessions.contains_key(addr),
    ensures
        ({
            let after = send::with_send(
                st,
                addr,
                Some(send::fresh_send(id, payload, completion)),
            );
            let ended = send::with_send(st, addr, None);
            let send = after.sessions[addr].pending_send->0;
            &&& after.sessions[addr].pending_send is Some
            &&& send.id == id
            &&& send.payload == payload
            &&& send.next_offset == 0
            &&& send.in_flight == 0
            &&& send.completion == completion
            &&& ended.sessions[addr].pending_send is None
            &&& after.sessions[addr].pump_scheduled == st.sessions[addr].pump_scheduled
            &&& ended.sessions[addr].pump_scheduled == st.sessions[addr].pump_scheduled
            &&& same_but_this_session(after, st, addr)
            &&& same_but_this_session(ended, st, addr)
        }),
        ({
            let after = send::numbered(st);
            &&& st.next_id < usize::MAX ==> after.next_id == st.next_id + 1
            &&& same_sessions(after, st)
            &&& same_waiting(after, st)
            &&& same_scan(after, st)
        }),
{
}

/// The writes of a retiring session are counted down too, those of its own send only; it is let go
/// with the last one.
pub proof fn law_retiring_writes_are_counted_down(st: MainView, generation: usize, id: usize)
    ensures
        ({
            let session = st.retiring[generation];
            let send = session.pending_send->0;
            let own = st.retiring.contains_key(generation) && session.pending_send is Some
                && send.id == id;
            let after = send::retiring_drained(st, generation, id);
            let next = after.retiring[generation].pending_send->0;
            &&& !own ==> after == st
            &&& own ==> {
                &&& after.retiring.contains_key(generation)
                &&& after.retiring[generation].pending_send is Some
                &&& send.in_flight > 0 ==> next.in_flight == send.in_flight - 1
                &&& send.in_flight == 0 ==> next.in_flight == 0
                &&& next.id == id
                &&& next.payload == send.payload
                &&& next.next_offset == send.next_offset
                &&& same_session(after.retiring[generation], session)
                &&& forall|other: usize|
                    other != generation ==> (#[trigger] after.retiring.contains_key(other)
                        <==> st.retiring.contains_key(other)) && (st.retiring.contains_key(other)
                        ==> after.retiring[other] == st.retiring[other])
            }
            &&& after.sessions == st.sessions
            &&& same_waiting(after, st)
            &&& same_scan(after, st)
            &&& after.next_id == st.next_id
            &&& send::last_of_retiring(st, generation, id) <==> own && send.in_flight <= 1
        }),
{
}

/// When everything ends, nobody waits, and nothing of any device is remembered but what a scan has
/// found.
pub proof fn law_shutdown_forgets_every_device(st: MainView, shared: SharedView)
    ensures
        ({
            let after = requests::nobody_waits(st);
            let told = requests::nothing_remembered(shared);
            &&& after.connect_queue.len() == 0
            &&& after.connecting is None
            &&& forall|addr: Seq<char>| !after.connections.contains_key(addr)
            &&& same_sessions(after, st)
            &&& same_scan(after, st)
            &&& after.next_id == st.next_id
            &&& forall|addr: Seq<char>| !told.connected_device_info.contains_key(addr)
            &&& forall|addr: Seq<char>| !told.on_connected_callbacks.contains_key(addr)
            &&& forall|addr: Seq<char>| !told.data_listeners.contains_key(addr)
            &&& told.scanned_devices == shared.scanned_devices
            &&& told.scan_loop_running == shared.scan_loop_running
        }),
{
}

/// Sessions that end one after the other all end, and every one of them retires; the others stay.
pub proof fn law_every_session_ends(st: MainView, keys: Seq<Seq<char>>)
    ensures
        ({
            let after = requests::all_closed(st, keys);
            &&& forall|addr: Seq<char>| #[trigger]
                after.sessions.contains_key(addr) <==> st.sessions.contains_key(addr)
                    && !keys.contains(addr)
            &&& forall|addr: Seq<char>| #[trigger]
                after.sessions.contains_key(addr) ==> after.sessions[addr] == st.sessions[addr]
            &&& forall|addr: Seq<char>| #[trigger]
                keys.contains(addr) && st.sessions.contains_key(addr)
                    ==> after.retiring.contains_key(st.sessions[addr].generation)
            &&& forall|generation: usize| #[trigger]
                st.retiring.contains_key(generation) ==> after.retiring.contains_key(generation)
            &&& same_waiting(after, st)
            &&& same_scan(after, st)
            &&& after.next_id == st.next_id
        }),
    decreases keys.len(),
{
    if keys.len() > 0 {
        let init = keys.drop_last();
        let last = keys.last();
        law_every_session_ends(st, init);
        let before = requests::all_closed(st, init);
        let after = requests::all_closed(st, keys);
        assert forall|addr: Seq<char>| #[trigger] keys.contains(addr) == (init.contains(addr)
            || addr == last) by {
            if init.contains(addr) {
                assert(keys[init.index_of(addr)] == addr);
            }
            assert(keys[keys.len() - 1] == last);
            if keys.contains(addr) && addr != last {
                assert(init[keys.index_of(addr)] == addr);
            }
        }
        assert forall|addr: Seq<char>| #[trigger]
            keys.contains(addr) && st.sessions.contains_key(addr) implies after.retiring
            .contains_key(st.sessions[addr].generation) by {
            if init.contains(addr) {
                assert(before.retiring.contains_key(st.sessions[addr].generation));
            } else {
                assert(before.sessions.contains_key(addr));
                assert(before.sessions[addr] == st.sessions[addr]);
            }
        }
        assert forall|addr: Seq<char>| #[trigger] after.sessions.contains_key(addr) implies
            after.sessions[addr] == st.sessions[addr] by {
            assert(before.sessions.contains_key(addr));
        }
    }
}

/// Every session is ended, each once: for each there is what is left to do, and it is its own.
pub proof fn law_every_session_is_ended_once(
    sessions: Map<Seq<char>, SessionView>,
    keys: Seq<Seq<char>>,
    ends: Seq<ClosedSession>,
    reason: Seq<char>,
    addr: Seq<char>,
)
    requires
        requests::ends_each_once(sessions, keys, ends, reason),
    ensures
        ends.len() == keys.len(),
        ends.len() == sessions.dom().len(),
        forall|i: int, j: int| 0 <= i < j < keys.len() ==> keys[i] != keys[j],
        forall|i: int| 0 <= i < keys.len() ==> sessions.contains_key(#[trigger] keys[i]),
        sessions.contains_key(addr) ==> exists|i: int|
            0 <= i < ends.len() && keys[i] == addr && (#[trigger] ends[i]).generation
                == sessions[addr].generation && ends[i].channel == sessions[addr].channel
                && ends[i].active == sessions[addr].active && ends[i].close_channel && (
            ends[i].failed_send is Some <==> sessions[addr].pending_send is Some),
{
    assert forall|i: int| 0 <= i < keys.len() implies sessions.contains_key(#[trigger] keys[i]) by {
        assert(keys.contains(keys[i]));
    }
    if sessions.contains_key(addr) {
        assert(keys.contains(addr));
        let i = keys.index_of(addr);
        assert(session::ends(ends[i], sessions[keys[i]], reason, false));
        assert(ends[i].generation == sessions[addr].generation);
    }
    keys.unique_seq_to_set();
    assert forall|key: Seq<char>| keys.to_set().contains(key) == sessions.dom().contains(key) by {
        assert(sessions.contains_key(key) <==> keys.contains(key));
    }
    assert(keys.to_set() =~= sessions.dom());
}

/// A device that the running inquiry finds is listed with its name, unless its address is listed
/// already; what another inquiry finds is not listed. Nothing is dropped from the list.
pub proof fn law_inquiry_adds_what_it_finds(
    st: MainView,
    shared: SharedView,
    inquiry: u64,
    device: DeviceView,
)
    ensures
        ({
            let before = shared.scanned_devices;
            let after = scan::device_added(st, shared, inquiry, device);
            let known = exists|i: int|
                0 <= i < before.len() && (#[trigger] before[i]).address == device.address;
            &&& st.inquiry == Some(inquiry) && !known ==> after.scanned_devices == before.push(
                device,
            )
            &&& st.inquiry != Some(inquiry) || known ==> after.scanned_devices == before
            &&& after.scan_loop_running == shared.scan_loop_running
            &&& after.connected_device_info == shared.connected_device_info
            &&& after.on_connected_callbacks == shared.on_connected_callbacks
            &&& after.data_listeners == shared.data_listeners
        }),
{
}

/// The end of the running inquiry is followed by another one exactly where the scan was not stopped
/// and the inquiry neither failed nor was aborted; the end of another inquiry changes nothing.
pub proof fn law_scan_goes_on_until_stopped(
    st: MainView,
    shared: SharedView,
    inquiry: u64,
    error: i32,
    aborted: bool,
    new_delegate: u64,
    raw: Option<Seq<char>>,
)
    ensures
        scan::is_current(st, inquiry) <==> st.inquiry == Some(inquiry),
        scan::goes_on(shared, error, aborted) <==> shared.scan_loop_running && error == 0
            && !aborted,
        ({
            let after = scan::inquiry_dropped(st, inquiry);
            &&& st.inquiry == Some(inquiry) ==> after.inquiry is None
            &&& st.inquiry != Some(inquiry) ==> after.inquiry == st.inquiry
            &&& after.delegate == st.delegate
            &&& same_sessions(after, st)
            &&& same_waiting(after, st)
            &&& after.next_id == st.next_id
        }),
        ({
            let after = scan::scan_stopped(st);
            let told = scan::scan_stopped_shared(shared);
            &&& after.inquiry is None
            &&& after.delegate == st.delegate
            &&& same_sessions(after, st)
            &&& same_waiting(after, st)
            &&& after.next_id == st.next_id
            &&& !told.scan_loop_running
            &&& told.scanned_devices == shared.scanned_devices
            &&& told.connected_device_info == shared.connected_device_info
            &&& told.on_connected_callbacks == shared.on_connected_callbacks
            &&& told.data_listeners == shared.data_listeners
        }),
        st.delegate matches Some(delegate) ==> scan::inquiry_delegate(st, new_delegate) == delegate,
        st.delegate is None ==> scan::inquiry_delegate(st, new_delegate) == new_delegate,
        raw matches Some(text) ==> scan::raw_address(raw) == text,
        raw is None ==> scan::raw_address(raw).len() == 0,
{
}

/// A listener is called with everything that a live session sends and with what belongs to no
/// session, and with nothing that a session sends that has ended; it is the last call where that
/// is an error.
pub proof fn law_listener_is_called_while_the_session_lives(active: Option<bool>, is_error: bool)
    ensures
        active == Some(true) ==> requests::step_for(active, is_error).call,
        active is None ==> requests::step_for(active, is_error).call,
        active == Some(false) ==> !requests::step_for(active, is_error).call
            && !requests::step_for(active, is_error).stop,
        requests::step_for(active, is_error).stop ==> requests::step_for(active, is_error).call
            && is_error,
        requests::step_for(active, is_error).call && is_error ==> requests::step_for(
            active,
            is_error,
        ).stop,
{
}

/// What holds of the state at all times, of one session and of one that retires.
pub proof fn law_state_is_sound(st: MainView, addr: Seq<char>, generation: usize)
    requires
        state::well_formed(st),
    ensures
        st.sessions.contains_key(addr) ==> {
            &&& st.sessions[addr].addr == addr
            &&& 1 <= st.sessions[addr].mtu <= 65535
            &&& st.sessions[addr].pending_send matches Some(send) ==> st.sessions[addr].opened
                && send.next_offset <= send.payload.len() && send.in_flight <= 8
        },
        st.retiring.contains_key(generation) ==> {
            &&& st.retiring[generation].generation == generation
            &&& st.retiring[generation].pending_send matches Some(send) ==> send.next_offset
                <= send.payload.len() && send.in_flight <= 8
        },
        st.connecting matches Some(with_turn) ==> st.connections.contains_key(with_turn),
{
}

/// What a caller is told of a failure ends with what the system said of it.
pub proof fn law_failures_tell_what_the_system_said(
    channel: u8,
    status: i32,
    reason: Seq<char>,
)
    ensures
        connection::exhausted_message(reason) == "All RFCOMM channel attempts failed: "@ + reason,
        connection::open_failure(status) == "RFCOMM open completion failed ("@
            + crate::text::signed_decimal(status as int) + ")"@,
        connection::rejected_message(channel, status) == "Channel "@ + crate::text::decimal(
            channel as nat,
        ) + " rejected ("@ + crate::text::signed_decimal(status as int) + ")"@,
        connection::open_timeout_message(channel) == "Channel "@ + crate::text::decimal(
            channel as nat,
        ) + " open timed out"@,
        send::write_failure(status) == "RFCOMM writeAsync failed: "@ + crate::text::signed_decimal(
            status as int,
        ),
        send::completion_failure(status) == "RFCOMM async write failed: "@
            + crate::text::signed_decimal(status as int),
        send::timeout_message(reason) == "RFCOMM async send did not complete within "@
            + crate::text::decimal(45) + "s: "@ + reason,
{
    assert(connection::open_failure(status) =~= "RFCOMM open completion failed ("@
        + crate::text::signed_decimal(status as int) + ")"@);
    assert(connection::rejected_message(channel, status) =~= "Channel "@ + crate::text::decimal(
        channel as nat,
    ) + " rejected ("@ + crate::text::signed_decimal(status as int) + ")"@);
    assert(connection::open_timeout_message(channel) =~= "Channel "@ + crate::text::decimal(
        channel as nat,
    ) + " open timed out"@);
    assert(send::timeout_message(reason) =~= "RFCOMM async send did not complete within "@
        + crate::text::decimal(45) + "s: "@ + reason);
}

} // verus!
