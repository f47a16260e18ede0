//! What each call promises, said of what goes into it and what comes out of it.
use vstd::prelude::*;

use crate::mac_address;
use crate::models::{DeviceView, SPPDevice};
use crate::text;
use crate::win::address;
use crate::win::connect;
use crate::win::connect::{
    AfterSequence, Attempt, AttemptAction, AttemptEvent, ConnectRounds, ConnectSequence,
    ConnectSequenceFailure, ConnectStart, MadeConnection, SequenceAction, SocketAddress,
};
use crate::win::error;
use crate::win::error::{AttemptError, WinError};
use crate::win::pairing;
use crate::win::pairing::{AuthDecision, AuthRequest, AuthResponse, PairingEnd};
use crate::win::scan;
use crate::win::scan::{BegunScan, ScanStep, StackCleanup, StoppedScan};
use crate::win::state;
use crate::win::state::{
    ConnectedThreadHandles, DisconnectedConnection, GlobalState, SocketClose, StateView,
};
use crate::win::steps::Step;
use crate::win::transfer;
use crate::win::transfer::{ReadAction, ReadEvent, ReaderStart, SendAction, SendTarget};

verus! {

/// The connection and what is known of the device are the same in both states.
pub open spec fn same_connection(a: StateView, b: StateView) -> bool {
    &&& a.connected_device_info == b.connected_device_info
    &&& a.connection_handles == b.connection_handles
    &&& a.next_connection_id == b.next_connection_id
}

/// Whoever is told of connections and data is the same in both states.
pub open spec fn same_callbacks(a: StateView, b: StateView) -> bool {
    a.on_connected_callback == b.on_connected_callback && a.data_listener_callback
        == b.data_listener_callback
}

/// The scan, its threads and what was found are the same in both states.
pub open spec fn same_scan(a: StateView, b: StateView) -> bool {
    &&& a.scanned_devices == b.scanned_devices
    &&& a.is_scanning == b.is_scanning
    &&& a.scan_stop_event == b.scan_stop_event
    &&& a.scan_thread == b.scan_thread
    &&& a.reaping == b.reaping
    &&& a.scan_generation == b.scan_generation
}

/// The limits of the backend and the codes that the system uses.
pub proof fn law_limits()
    ensures
        connect::SPP_SERVICE_CLASS_UUID == 0x00001101_0000_1000_8000_00805F9B34FB,
        connect::UUID_ATTEMPTS == 3,
        connect::UUID_RETRY_MS == 250,
        connect::PORT_ANY == 0,
        connect::BTHPROTO_RFCOMM == 3,
        connect::HIGHEST_CHANNEL == 255,
        connect::WSAEACCES == 10013,
        connect::ERROR_SUCCESS == 0,
        connect::ERROR_NO_MORE_ITEMS == 259,
        connect::PAIRING_SETTLE_MS == 500,
        transfer::READ_BUFFER_LEN == 1024,
        transfer::READ_RETRY_MS == 10,
        transfer::WSAEWOULDBLOCK == 10035,
        transfer::WSAETIMEDOUT == 10060,
        scan::INQUIRY_CYCLE_PAUSE_MS == 3000,
        scan::INQUIRY_TIMEOUT_MULTIPLIER == 3,
        state::WINSOCK_VERSION == 0x0202,
        error::SEND_TIMEOUT_MS == 20_000,
        pairing::METHOD_LEGACY == 1,
        pairing::METHOD_NUMERIC_COMPARISON == 3,
        pairing::METHOD_PASSKEY == 5,
{
}

/// Whenever the device was not reached and the code says that access was denied, whatever service
/// or port was asked for, pairing is wanted from then on. No other failure asks for it, and none
/// takes it back; the last failure is the one that is kept.
pub proof fn law_denied_access_asks_for_pairing(
    failure: &mut ConnectSequenceFailure,
    error: AttemptError,
    service: u128,
    port: u32,
    code: i32,
    reason: String,
)
    requires
        call_ensures(ConnectSequenceFailure::note, (failure, error), ()),
    ensures
        error == (AttemptError::NotConnected { service, port, code: 10013 })
            ==> final(failure).auth_required,
        old(failure).auth_required ==> final(failure).auth_required,
        error == (AttemptError::NotConnected { service, port, code }) && code != 10013
            ==> final(failure).auth_required == old(failure).auth_required,
        error == AttemptError::NoTarget || error == AttemptError::NoSocket(code) || error
            == AttemptError::SocketCall(reason) ==> final(failure).auth_required == old(
            failure,
        ).auth_required,
        final(failure).last_error == Some(error),
{
}

/// However a sequence of attempts went, it asks for pairing exactly where some attempt was denied
/// access, of whatever kind it was.
pub proof fn law_sequence_asks_for_pairing(channels: Seq<u8>, errors: Seq<AttemptError>)
    ensures
        connect::after_failures(channels, errors).failure.auth_required <==> exists|i: int|
            0 <= i < errors.len() && (#[trigger] errors[i] matches AttemptError::NotConnected {
                code,
                ..
            } && code == 10013),
        connect::after_failures(channels, errors).failures == errors.len(),
        connect::after_failures(channels, errors).channels == channels,
        errors.len() > 0 ==> connect::after_failures(channels, errors).failure.last_error == Some(
            errors.last(),
        ),
    decreases errors.len(),
{
    if errors.len() > 0 {
        let init = errors.drop_last();
        law_sequence_asks_for_pairing(channels, init);
        let last = errors[errors.len() - 1];
        if exists|i: int|
            0 <= i < init.len() && (#[trigger] init[i] matches AttemptError::NotConnected {
                code,
                ..
            } && code == 10013) {
            let i = choose|i: int|
                0 <= i < init.len() && (#[trigger] init[i] matches AttemptError::NotConnected {
                    code,
                    ..
                } && code == 10013);
            assert(errors[i] == init[i]);
        }
        if exists|i: int|
            0 <= i < errors.len() && (#[trigger] errors[i] matches AttemptError::NotConnected {
                code,
                ..
            } && code == 10013) {
            let i = choose|i: int|
                0 <= i < errors.len() && (#[trigger] errors[i] matches
                    AttemptError::NotConnected { code, .. } && code == 10013);
            if i < init.len() {
                assert(init[i] == errors[i]);
            } else {
                assert(errors[i] == last);
            }
        }
    }
}

/// The channels to try are those of the request that are not zero, each once and in their order,
/// or five and one.
pub proof fn law_channels_to_try(channels: &[u8], r: Vec<u8>)
    requires
        call_ensures(connect::normalized_fallback_channels, (channels,), r),
    ensures
        r@.len() > 0,
        forall|i: int| 0 <= i < r@.len() ==> 1 <= #[trigger] r@[i],
        forall|i: int, j: int| 0 <= i < j < r@.len() ==> r@[i] != r@[j],
        forall|i: int|
            0 <= i < channels@.len() && 1 <= #[trigger] channels@[i] ==> r@.contains(channels@[i]),
        channels@.len() > 0 && channels@.no_duplicates() && (forall|i: int|
            0 <= i < channels@.len() ==> 1 <= #[trigger] channels@[i]) ==> r@ == channels@,
        (forall|i: int| 0 <= i < channels@.len() ==> #[trigger] channels@[i] == 0) ==> r@ == seq![
            5u8,
            1u8,
        ],
{
    crate::channels::law_channels_that_can_be_used(channels@, 255);
}

/// A socket connects to the device that was named: for the service on any port, and for a channel
/// on that port and with no service.
pub proof fn law_targets(
    device: u64,
    attempt: Attempt,
    r: Result<SocketAddress, AttemptError>,
    service: Option<u128>,
    channel: Option<u32>,
    asked: Result<SocketAddress, AttemptError>,
)
    requires
        call_ensures(connect::target_of, (device, attempt), r),
        call_ensures(connect::attempt_connect, (device, service, channel), asked),
    ensures
        r matches Ok(target) && target.device == device,
        attempt is Service ==> (r matches Ok(target) && target.port == 0 && target.service
            == 0x00001101_0000_1000_8000_00805F9B34FB),
        attempt matches Attempt::Channel(number) ==> (r matches Ok(target) && target.port
            == number as u32 && target.service == 0),
        service matches Some(guid) ==> asked == Ok::<SocketAddress, AttemptError>(
            SocketAddress { device, service: guid, port: 0 },
        ),
        service is None ==> (channel matches Some(port) ==> asked == Ok::<
            SocketAddress,
            AttemptError,
        >(SocketAddress { device, service: 0, port })),
        service is None && channel is None ==> asked == Err::<SocketAddress, AttemptError>(
            AttemptError::NoTarget,
        ),
{
}

/// A socket is connected when it was made, and handed on when it was connected; whatever fails is
/// told with its own reason and code, and a socket that there is is closed.
pub proof fn law_steps_of_an_attempt(
    target: &SocketAddress,
    event: AttemptEvent,
    r: AttemptAction,
)
    requires
        call_ensures(connect::attempt_step, (target, event), r),
    ensures
        event matches AttemptEvent::SocketMade(socket) ==> r == AttemptAction::Connect(socket),
        event matches AttemptEvent::ConnectReturned { socket, result, code } ==> (result == 0
            <==> r == AttemptAction::Ready(socket)) && (result != 0 ==> (r matches
            AttemptAction::Fail { close, error } && close == Some(socket) && error == (
        AttemptError::NotConnected { service: target.service, port: target.port, code }))),
        event matches AttemptEvent::SocketCallFailed(reason) ==> (r matches AttemptAction::Fail {
            close,
            error,
        } && close is None && error == AttemptError::SocketCall(reason)),
        event matches AttemptEvent::InvalidSocket(code) ==> (r matches AttemptAction::Fail {
            close,
            error,
        } && close is None && error == AttemptError::NoSocket(code)),
{
}

/// A sequence begins with nothing failed; the service is asked for three times, after a quarter and
/// after half a second, and then one channel after the other is tried at once.
pub proof fn law_next_attempt(
    channels: Vec<u8>,
    fresh: ConnectSequence,
    sequence: &ConnectSequence,
    r: Option<(u64, Attempt)>,
)
    requires
        call_ensures(ConnectSequence::new, (channels,), fresh),
        call_ensures(ConnectSequence::next_attempt, (sequence,), r),
    ensures
        fresh@.channels == channels@,
        fresh@.failures == 0,
        !fresh@.failure.auth_required,
        fresh@.failure.last_error is None,
        ({
            let failures = sequence@.failures;
            let tried = sequence@.channels;
            &&& failures == 0 ==> r == Some((0u64, Attempt::Service))
            &&& failures == 1 ==> r == Some((250u64, Attempt::Service))
            &&& failures == 2 ==> r == Some((500u64, Attempt::Service))
            &&& 3 <= failures < 3 + tried.len() ==> r == Some(
                (0u64, Attempt::Channel(tried[failures - 3])),
            )
            &&& failures >= 3 + tried.len() ==> r is None
        }),
{
}

/// The first attempt that succeeds connects. One that fails leads on to the next: the count goes up
/// by one, the failure is kept, and access that was denied is remembered, of whatever kind the
/// attempt was.
pub proof fn law_attempts(
    sequence: ConnectSequence,
    result: Result<u64, AttemptError>,
    next: Option<ConnectSequence>,
    action: SequenceAction,
)
    requires
        call_ensures(
            ConnectSequence::try_connect_sequence,
            (sequence, result),
            (next, action),
        ),
    ensures
        ({
            let failures = sequence@.failures;
            let tried = sequence@.channels;
            let left = failures < 3 + tried.len();
            let before = sequence@.failure;
            &&& left ==> (result matches Ok(socket) ==> next is None && action
                == SequenceAction::Connected(socket))
            &&& left ==> (result matches Err(error) ==> {
                let denied = error matches AttemptError::NotConnected { code, .. } && code == 10013;
                let more = failures + 1 < 3 + tried.len();
                &&& more <==> next is Some
                &&& next matches Some(on) ==> {
                    &&& on@.channels == tried
                    &&& on@.failures == failures + 1
                    &&& on@.failure.auth_required == (before.auth_required || denied)
                    &&& on@.failure.last_error == Some(error)
                }
                &&& failures == 0 ==> action == (SequenceAction::Try {
                    pause_ms: 250,
                    attempt: Attempt::Service,
                })
                &&& failures == 1 ==> action == (SequenceAction::Try {
                    pause_ms: 500,
                    attempt: Attempt::Service,
                })
                &&& 2 <= failures && more ==> action == (SequenceAction::Try {
                    pause_ms: 0,
                    attempt: Attempt::Channel(tried[failures - 2]),
                })
                &&& !more ==> (action matches SequenceAction::GiveUp(failure)
                    && failure.auth_required == (before.auth_required || denied)
                    && failure.last_error == Some(error))
            })
            &&& !left ==> next is None && action == SequenceAction::GiveUp(before)
        }),
{
}

/// What is left of a connection that ended: its own socket, flag, reader, lock and number.
pub open spec fn left_of(
    gone: Option<DisconnectedConnection>,
    handles: Option<ConnectedThreadHandles>,
) -> bool {
    &&& gone is Some <==> handles is Some
    &&& gone matches Some(left) ==> {
        &&& left.socket == handles->0.socket
        &&& left.stop_flag == handles->0.stop_flag
        &&& left.read_thread == handles->0.read_thread
        &&& left.socket_close_lock == handles->0.socket_close_lock
        &&& left.connection_id == handles->0.connection_id
    }
}

/// A device that is connected already is left alone. Otherwise the connection ends, the address is
/// read, and the channels to try are those of the request.
pub proof fn law_connect(
    st: &mut GlobalState,
    addr: &str,
    channels: &[u8],
    r: ConnectStart,
    tried: Vec<u8>,
    read: Result<u64, WinError>,
)
    requires
        call_ensures(connect::connect_impl_with_fallback_channels, (st, addr, channels), r),
        call_ensures(connect::normalized_fallback_channels, (channels,), tried),
        call_ensures(address::string_to_bth_addr, (addr,), read),
    ensures
        ({
            let before = old(st)@;
            let after = final(st)@;
            let same = before.connected_device_info is Some
                && before.connected_device_info->0.address == addr@;
            &&& same <==> r is AlreadyConnected
            &&& same ==> after == before
            &&& !same ==> {
                &&& r matches ConnectStart::Begin { disconnected, target, channels: left }
                &&& left_of(disconnected, before.connection_handles)
                &&& left@ == tried@
                &&& target is Ok <==> read is Ok
                &&& target matches Ok(number) ==> read == Ok::<u64, WinError>(number)
                &&& target matches Err(error) ==> {
                    let fields = mac_address::parts_of(addr@, ':');
                    &&& fields.len() != 6 ==> (error matches WinError::InvalidAddress(told) && told@
                        == addr@)
                    &&& fields.len() == 6 ==> (error matches WinError::InvalidHexByte(told)
                        && fields.contains(told@) && mac_address::hex_byte_value(told@) is None)
                }
                &&& after.connection_handles is None
                &&& after.connected_device_info is None
                &&& after.next_connection_id == before.next_connection_id
                &&& after.wsa_initialized == before.wsa_initialized
                &&& same_callbacks(after, before)
                &&& same_scan(after, before)
            }
        }),
{
    let fields = mac_address::parts_of(addr@, ':');
    match r {
        ConnectStart::Begin { disconnected, target, channels: left } => {
            match target {
                Err(WinError::InvalidHexByte(told)) => {
                    let k = choose|k: int| #[trigger]
                        address::last_bad_field(fields, k) && told@ == fields[k];
                    assert(fields.contains(fields[k]));
                },
                _ => {},
            }
        },
        _ => {},
    }
}

/// A request without channels is one for channel five and then one.
pub proof fn law_connect_without_channels(st: &mut GlobalState, addr: &str, r: ConnectStart)
    requires
        call_ensures(connect::connect_impl, (st, addr), r),
    ensures
        ({
            let before = old(st)@;
            let same = before.connected_device_info is Some
                && before.connected_device_info->0.address == addr@;
            &&& same <==> r is AlreadyConnected
            &&& same ==> final(st)@ == before
            &&& r matches ConnectStart::Begin { disconnected, target, channels } ==> channels@
                == seq![5u8, 1u8] && left_of(disconnected, before.connection_handles)
                && final(st)@.connection_handles is None
        }),
{
    let channels: Seq<u8> = seq![5u8, 1u8];
    assert(forall|i: int| 0 <= i < channels.len() ==> 1 <= #[trigger] channels[i] <= 255);
    crate::channels::law_channels_that_can_be_used(channels, 255);
}

/// A device that wants to be paired is paired with once, and a bond that the system holds is removed
/// before; after that the last failure is told with the address.
pub proof fn law_pairing_follows_once(
    fresh: ConnectRounds,
    rounds: &mut ConnectRounds,
    addr: &str,
    outcome: Result<u64, ConnectSequenceFailure>,
    authenticated: bool,
    r: AfterSequence,
)
    requires
        call_ensures(ConnectRounds::new, (), fresh),
        call_ensures(
            ConnectRounds::after_sequence,
            (rounds, addr, outcome, authenticated),
            r,
        ),
    ensures
        !fresh@,
        outcome matches Ok(socket) ==> r == AfterSequence::Connected(socket) && final(rounds)@
            == old(rounds)@,
        outcome matches Err(failure) ==> {
            let pairs = failure.auth_required && !old(rounds)@;
            &&& pairs ==> r == (AfterSequence::Pair { remove_bond: authenticated }) && final(rounds)@
            &&& !pairs ==> final(rounds)@ == old(rounds)@ && (r matches AfterSequence::GiveUp(
                WinError::ConnectFailed(to, last),
            ) && to@ == addr@ && last == failure.last_error)
        },
{
}

/// A connection that was made has the socket, the flag and the lock that were made for it, a number
/// of its own and no reader yet; the device is known by the address that was asked for and the name
/// that it has.
pub proof fn law_finish_connect(
    st: &mut GlobalState,
    addr: &str,
    name: &[u16],
    socket: u64,
    stop_flag: u64,
    socket_close_lock: u64,
    r: MadeConnection,
    written: String,
)
    requires
        call_ensures(
            connect::finish_connect,
            (st, addr, name, socket, stop_flag, socket_close_lock),
            r,
        ),
        call_ensures(address::string_from_utf16_char_array, (name,), written),
    ensures
        ({
            let before = old(st)@;
            let after = final(st)@;
            &&& after.connection_handles == Some(
                ConnectedThreadHandles {
                    socket,
                    read_thread: None,
                    stop_flag,
                    socket_close_lock,
                    connection_id: before.next_connection_id,
                },
            )
            &&& after.connected_device_info == Some(
                DeviceView { name: Some(written@), address: addr@ },
            )
            &&& after.next_connection_id != before.next_connection_id
            &&& after.next_connection_id != 0
            &&& before.next_connection_id < u64::MAX ==> after.next_connection_id
                == before.next_connection_id + 1
            &&& before.next_connection_id == u64::MAX ==> after.next_connection_id == 1
            &&& left_of(r.displaced, before.connection_handles)
            &&& r.callback == before.on_connected_callback
            &&& same_callbacks(after, before)
            &&& same_scan(after, before)
            &&& after.wsa_initialized == before.wsa_initialized
        }),
{
}

/// A disconnect leaves no connection and no known device, and everything else as it was.
pub proof fn law_disconnect(
    st: &mut GlobalState,
    r: Option<DisconnectedConnection>,
    other: &mut GlobalState,
    gone: Option<DisconnectedConnection>,
)
    requires
        call_ensures(state::disconnect_impl, (st,), r),
        call_ensures(state::disconnect_internal, (other,), gone),
    ensures
        left_of(r, old(st)@.connection_handles),
        final(st)@.connection_handles is None,
        final(st)@.connected_device_info is None,
        final(st)@.next_connection_id == old(st)@.next_connection_id,
        final(st)@.wsa_initialized == old(st)@.wsa_initialized,
        same_callbacks(final(st)@, old(st)@),
        same_scan(final(st)@, old(st)@),
        left_of(gone, old(other)@.connection_handles),
        final(other)@.connection_handles is None,
        final(other)@.connected_device_info is None,
        final(other)@.next_connection_id == old(other)@.next_connection_id,
        final(other)@.wsa_initialized == old(other)@.wsa_initialized,
        same_callbacks(final(other)@, old(other)@),
        same_scan(final(other)@, old(other)@),
{
}

/// A socket is closed under its own lock, after its reader, which does not wait for itself.
pub proof fn law_close(
    gone: DisconnectedConnection,
    on_reader: bool,
    r: SocketClose,
    if_any: Option<SocketClose>,
    nothing: Option<SocketClose>,
)
    requires
        call_ensures(state::close_disconnected_socket, (gone, on_reader), r),
        call_ensures(state::finish_disconnect, (Some(gone), on_reader), if_any),
        call_ensures(
            state::finish_disconnect,
            (None::<DisconnectedConnection>, on_reader),
            nothing,
        ),
    ensures
        on_reader ==> r.join is None,
        !on_reader ==> r.join == gone.read_thread,
        r.lock == gone.socket_close_lock,
        r.socket == gone.socket,
        r.connection_id == gone.connection_id,
        if_any == Some(r),
        nothing is None,
{
}

/// WinSock is started once, and is started where its result says so.
pub proof fn law_winsock(
    asked: &GlobalState,
    due: bool,
    st: &mut GlobalState,
    result: i32,
    r: Result<(), WinError>,
)
    requires
        call_ensures(state::init_winsock_if_needed, (asked,), due),
        call_ensures(state::winsock_started, (st, result), r),
    ensures
        due == !asked@.wsa_initialized,
        result == 0 ==> r is Ok && final(st)@.wsa_initialized,
        result != 0 ==> r == Err::<(), WinError>(WinError::WinsockNotStarted(result))
            && final(st)@.wsa_initialized == old(st)@.wsa_initialized,
        same_connection(final(st)@, old(st)@),
        same_callbacks(final(st)@, old(st)@),
        same_scan(final(st)@, old(st)@),
{
}

/// The callback that was registered last is the one that is called when a connection is made,
/// whichever was there before; it is due at once where a device is connected.
pub proof fn law_last_callback_counts(
    st: &mut GlobalState,
    callback: u64,
    due: bool,
    later: &mut GlobalState,
    addr: &str,
    name: &[u16],
    socket: u64,
    stop_flag: u64,
    lock: u64,
    made: MadeConnection,
)
    requires
        call_ensures(state::on_connected_impl, (st, callback), due),
        call_ensures(
            connect::finish_connect,
            (later, addr, name, socket, stop_flag, lock),
            made,
        ),
        old(later)@ == final(st)@,
    ensures
        due <==> old(st)@.connected_device_info is Some,
        made.callback == Some(callback),
        final(st)@.data_listener_callback == old(st)@.data_listener_callback,
        final(st)@.wsa_initialized == old(st)@.wsa_initialized,
        same_connection(final(st)@, old(st)@),
        same_scan(final(st)@, old(st)@),
{
}

/// What was received goes to the listener that was set last, whichever was there before.
pub proof fn law_last_listener_hears(
    st: &mut GlobalState,
    callback: u64,
    later: &GlobalState,
    r: Option<u64>,
)
    requires
        call_ensures(state::set_data_listener_impl, (st, callback), ()),
        call_ensures(state::notify_data_listener, (later,), r),
    ensures
        later@ == final(st)@ ==> r == Some(callback),
        r == later@.data_listener_callback,
        final(st)@.on_connected_callback == old(st)@.on_connected_callback,
        final(st)@.wsa_initialized == old(st)@.wsa_initialized,
        same_connection(final(st)@, old(st)@),
        same_scan(final(st)@, old(st)@),
{
}

/// What is known of the connected device is told as it is, and sends have no limit.
pub proof fn law_connected_device(
    st: &GlobalState,
    r: Option<SPPDevice>,
    len: Result<Option<usize>, WinError>,
)
    requires
        call_ensures(state::get_connected_device_info_impl, (st,), r),
        call_ensures(state::get_max_send_len_impl, (), len),
    ensures
        r is Some <==> st@.connected_device_info is Some,
        r matches Some(device) ==> device@ == st@.connected_device_info->0,
        len == Ok::<Option<usize>, WinError>(None),
{
}

/// Every thread of a scan that is known: those of stopped scans and the one of the scan.
pub open spec fn known_threads(st: StateView, thread: u64) -> bool {
    st.reaping.contains(thread) || st.scan_thread == Some(thread)
}

/// Whether the scan was stopped: none runs, its thread is remembered with those of earlier scans,
/// and what it reports from then on is dropped; what was found and the connection stay.
pub open spec fn scan_was_stopped(before: StateView, after: StateView) -> bool {
    let present = before.is_scanning || before.scan_thread is Some;
    &&& !after.is_scanning
    &&& after.scan_thread is None
    &&& present ==> after.scan_stop_event is None && after.scan_generation
        != before.scan_generation
    &&& !present ==> after.scan_stop_event == before.scan_stop_event && after.scan_generation
        == before.scan_generation
    &&& before.scan_thread matches Some(thread) ==> after.reaping == before.reaping.push(thread)
    &&& before.scan_thread is None ==> after.reaping == before.reaping
    &&& after.scanned_devices == before.scanned_devices
}

/// A scan that is stopped has its own event set and its own thread reaped; who waits, waits for
/// every thread that is known, and who does not, for none.
pub proof fn law_stop_scan(
    st: &mut GlobalState,
    wait: bool,
    r: StoppedScan,
    quick: &mut GlobalState,
    at_once: StoppedScan,
    patient: &mut GlobalState,
    after_all: StoppedScan,
    thread: u64,
)
    requires
        call_ensures(scan::stop_scan_inner, (st, wait), r),
        call_ensures(scan::stop_scan_impl, (quick,), at_once),
        call_ensures(scan::stop_scan_and_wait, (patient,), after_all),
    ensures
        scan_was_stopped(old(st)@, final(st)@),
        same_connection(final(st)@, old(st)@),
        same_callbacks(final(st)@, old(st)@),
        final(st)@.wsa_initialized == old(st)@.wsa_initialized,
        r.reap == old(st)@.scan_thread,
        old(st)@.is_scanning || old(st)@.scan_thread is Some ==> r.stop_event == old(
            st,
        )@.scan_stop_event,
        !old(st)@.is_scanning && old(st)@.scan_thread is None ==> r.stop_event is None,
        wait ==> r.wait_for@.contains(thread) == known_threads(old(st)@, thread),
        !wait ==> r.wait_for@.len() == 0,
        scan_was_stopped(old(quick)@, final(quick)@),
        same_connection(final(quick)@, old(quick)@),
        same_callbacks(final(quick)@, old(quick)@),
        at_once.reap == old(quick)@.scan_thread,
        at_once.wait_for@.len() == 0,
        old(quick)@.is_scanning || old(quick)@.scan_thread is Some ==> at_once.stop_event == old(
            quick,
        )@.scan_stop_event,
        scan_was_stopped(old(patient)@, final(patient)@),
        same_connection(final(patient)@, old(patient)@),
        same_callbacks(final(patient)@, old(patient)@),
        after_all.reap == old(patient)@.scan_thread,
        after_all.wait_for@.contains(thread) == known_threads(old(patient)@, thread),
        old(patient)@.is_scanning || old(patient)@.scan_thread is Some ==> after_all.stop_event
            == old(patient)@.scan_stop_event,
{
    match old(st)@.scan_thread {
        Some(current) => crate::numbers::lemma_pushed(old(st)@.reaping, current),
        None => {},
    }
    match old(patient)@.scan_thread {
        Some(current) => crate::numbers::lemma_pushed(old(patient)@.reaping, current),
        None => {},
    }
}

/// A thread that has returned is forgotten, and no other one.
pub proof fn law_reaped_thread(st: &mut GlobalState, thread: u64, other: u64)
    requires
        call_ensures(scan::scan_thread_reaped, (st, thread), ()),
    ensures
        !final(st)@.reaping.contains(thread),
        other != thread ==> final(st)@.reaping.contains(other) == old(st)@.reaping.contains(other),
        final(st)@.scan_thread == old(st)@.scan_thread,
        final(st)@.is_scanning == old(st)@.is_scanning,
        final(st)@.scan_stop_event == old(st)@.scan_stop_event,
        final(st)@.scan_generation == old(st)@.scan_generation,
        final(st)@.scanned_devices == old(st)@.scanned_devices,
        same_connection(final(st)@, old(st)@),
        same_callbacks(final(st)@, old(st)@),
        final(st)@.wsa_initialized == old(st)@.wsa_initialized,
{
    crate::numbers::lemma_others(old(st)@.reaping, thread);
}

/// A scan begins with an empty list under a number of its own, with its own event and thread; the
/// thread of an earlier one is still known. Where a scan runs, nothing is prepared.
pub proof fn law_start_scan(
    st: &mut GlobalState,
    due: bool,
    begun: &mut GlobalState,
    stop_event: u64,
    thread: u64,
    r: BegunScan,
    other: u64,
)
    requires
        call_ensures(scan::start_scan_impl, (st,), due),
        call_ensures(scan::scan_begun, (begun, stop_event, thread), r),
    ensures
        due == !old(st)@.is_scanning,
        due ==> final(st)@.scanned_devices.len() == 0,
        !due ==> final(st)@ == old(st)@,
        final(st)@.is_scanning == old(st)@.is_scanning,
        final(st)@.scan_thread == old(st)@.scan_thread,
        final(st)@.reaping == old(st)@.reaping,
        final(st)@.scan_generation == old(st)@.scan_generation,
        final(st)@.scan_stop_event == old(st)@.scan_stop_event,
        same_connection(final(st)@, old(st)@),
        same_callbacks(final(st)@, old(st)@),
        final(begun)@.is_scanning,
        final(begun)@.scan_stop_event == Some(stop_event),
        final(begun)@.scan_thread == Some(thread),
        final(begun)@.scan_generation != old(begun)@.scan_generation,
        r.generation == final(begun)@.scan_generation,
        r.reap == old(begun)@.scan_thread,
        known_threads(old(begun)@, other) ==> known_threads(final(begun)@, other),
        final(begun)@.scanned_devices == old(begun)@.scanned_devices,
        same_connection(final(begun)@, old(begun)@),
        same_callbacks(final(begun)@, old(begun)@),
        final(begun)@.wsa_initialized == old(begun)@.wsa_initialized,
{
    match old(begun)@.scan_thread {
        Some(current) => crate::numbers::lemma_pushed(old(begun)@.reaping, current),
        None => {},
    }
}

/// The thread of a scan looks for the stop event before each question and after each pause; it asks
/// for one device after the other while devices are found, and pauses when none is.
pub proof fn law_course_of_a_scan(step: ScanStep, answer: bool, r: ScanStep)
    requires
        call_ensures(scan::next_scan_step, (step, answer), r),
    ensures
        answer && (step is CheckBeforeCycle || step is CheckBeforeNext || step is Pause) ==> r
            is Finished,
        step is Finished ==> r is Finished,
        !answer && step is CheckBeforeCycle ==> r is FindFirst,
        !answer && step is CheckBeforeNext ==> r is FindNext,
        !answer && step is Pause ==> r is CheckBeforeCycle,
        answer && (step is FindFirst || step is FindNext) ==> r is CheckBeforeNext,
        !answer && (step is FindFirst || step is FindNext) ==> r is Pause,
{
}

/// A device that the running scan finds is listed: what was listed stays, in its place and as it
/// was, and the device is put behind it with its name, unless its address is listed already. What
/// an earlier scan finds is not listed.
pub proof fn law_found_device_is_listed(
    st: &mut GlobalState,
    name: &[u16],
    addr: u64,
    generation: u64,
    written: String,
    key: String,
)
    requires
        call_ensures(scan::remember_scanned_device, (st, name, addr, generation), ()),
        call_ensures(address::string_from_utf16_char_array, (name,), written),
        call_ensures(address::bth_addr_to_string, (addr,), key),
    ensures
        ({
            let before = old(st)@.scanned_devices;
            let after = final(st)@.scanned_devices;
            let own = old(st)@.scan_generation == generation;
            let known = exists|i: int|
                0 <= i < before.len() && (#[trigger] before[i]).address == key@;
            &&& before.is_prefix_of(after)
            &&& own && !known ==> after == before.push(
                DeviceView { name: Some(written@), address: key@ },
            )
            &&& !own || known ==> after == before
            &&& final(st)@.is_scanning == old(st)@.is_scanning
            &&& final(st)@.scan_stop_event == old(st)@.scan_stop_event
            &&& final(st)@.scan_thread == old(st)@.scan_thread
            &&& final(st)@.reaping == old(st)@.reaping
            &&& final(st)@.scan_generation == old(st)@.scan_generation
            &&& final(st)@.wsa_initialized == old(st)@.wsa_initialized
            &&& same_connection(final(st)@, old(st)@)
            &&& same_callbacks(final(st)@, old(st)@)
        }),
{
}

/// A scan whose thread has returned runs no longer; the thread of an earlier scan changes nothing.
/// The list is told as it is.
pub proof fn law_scan_finished(
    st: &mut GlobalState,
    generation: u64,
    asked: &GlobalState,
    listed: Vec<SPPDevice>,
)
    requires
        call_ensures(scan::scan_finished, (st, generation), ()),
        call_ensures(scan::get_scanned_devices_impl, (asked,), listed),
    ensures
        old(st)@.scan_generation == generation ==> !final(st)@.is_scanning,
        old(st)@.scan_generation != generation ==> final(st)@ == old(st)@,
        final(st)@.scanned_devices == old(st)@.scanned_devices,
        final(st)@.scan_thread == old(st)@.scan_thread,
        final(st)@.scan_stop_event == old(st)@.scan_stop_event,
        final(st)@.reaping == old(st)@.reaping,
        final(st)@.scan_generation == old(st)@.scan_generation,
        final(st)@.wsa_initialized == old(st)@.wsa_initialized,
        same_connection(final(st)@, old(st)@),
        same_callbacks(final(st)@, old(st)@),
        listed@.len() == asked@.scanned_devices.len(),
        forall|i: int|
            0 <= i < listed@.len() ==> (#[trigger] listed@[i])@ == asked@.scanned_devices[i],
{
    assert forall|i: int| 0 <= i < listed@.len() implies (#[trigger] listed@[i])@
        == asked@.scanned_devices[i] by {
        assert(crate::models::devices_of(listed@)[i] == listed@[i]@);
    }
}

/// The backend shuts down with no scan, no connection and WinSock stopped where it was started.
pub proof fn law_cleanup(
    st: &mut GlobalState,
    r: StackCleanup,
    other: &mut GlobalState,
    stack: StackCleanup,
)
    requires
        call_ensures(scan::cleanup_bluetooth_resources, (st,), r),
        call_ensures(scan::bluetooth_stack_cleanup, (other,), stack),
    ensures
        scan_was_stopped(old(st)@, final(st)@),
        final(st)@.connection_handles is None,
        final(st)@.connected_device_info is None,
        !final(st)@.wsa_initialized,
        same_callbacks(final(st)@, old(st)@),
        final(st)@.next_connection_id == old(st)@.next_connection_id,
        r.reap == old(st)@.scan_thread,
        old(st)@.is_scanning || old(st)@.scan_thread is Some ==> r.stop_event == old(
            st,
        )@.scan_stop_event,
        !old(st)@.is_scanning && old(st)@.scan_thread is None ==> r.stop_event is None,
        left_of(r.disconnected, old(st)@.connection_handles),
        r.stop_winsock == old(st)@.wsa_initialized,
        scan_was_stopped(old(other)@, final(other)@),
        final(other)@.connection_handles is None,
        final(other)@.connected_device_info is None,
        same_callbacks(final(other)@, old(other)@),
        final(other)@.next_connection_id == old(other)@.next_connection_id,
        old(other)@.is_scanning || old(other)@.scan_thread is Some ==> stack.stop_event == old(
            other,
        )@.scan_stop_event,
        !old(other)@.is_scanning && old(other)@.scan_thread is None ==> stack.stop_event is None,
        !final(other)@.wsa_initialized,
        stack.reap == old(other)@.scan_thread,
        left_of(stack.disconnected, old(other)@.connection_handles),
        stack.stop_winsock == old(other)@.wsa_initialized,
{
}

/// A reader is started with the connection's own socket, flag and number where none runs; without a
/// connection it is refused.
pub proof fn law_start_subscription(
    st: &GlobalState,
    r: Result<Option<ReaderStart>, WinError>,
)
    requires
        call_ensures(transfer::start_subscription_impl, (st,), r),
    ensures
        st@.connection_handles is None ==> r == Err::<Option<ReaderStart>, WinError>(
            WinError::CannotSubscribe,
        ),
        st@.connection_handles matches Some(handles) ==> (handles.read_thread is Some ==> r == Ok::<
            Option<ReaderStart>,
            WinError,
        >(None)) && (handles.read_thread is None ==> (r matches Ok(Some(start)) && start.socket
            == handles.socket && start.stop_flag == handles.stop_flag && start.connection_id
            == handles.connection_id)),
{
}

/// The thread of a reader is recorded with the connection that the reader was made for, where that
/// has none, and nothing else changes.
pub proof fn law_finish_subscription(
    st: &mut GlobalState,
    reader: &ReaderStart,
    thread: u64,
    r: bool,
)
    requires
        call_ensures(transfer::finish_subscription, (st, reader, thread), r),
    ensures
        ({
            let before = old(st)@.connection_handles;
            let after = final(st)@.connection_handles;
            &&& r <==> before is Some && before->0.socket == reader.socket
                && before->0.connection_id == reader.connection_id && before->0.read_thread is None
            &&& !r ==> final(st)@ == old(st)@
            &&& r ==> {
                &&& after matches Some(handles)
                &&& handles.read_thread == Some(thread)
                &&& handles.socket == before->0.socket
                &&& handles.stop_flag == before->0.stop_flag
                &&& handles.socket_close_lock == before->0.socket_close_lock
                &&& handles.connection_id == before->0.connection_id
                &&& final(st)@.connected_device_info == old(st)@.connected_device_info
                &&& final(st)@.next_connection_id == old(st)@.next_connection_id
                &&& same_callbacks(final(st)@, old(st)@)
                &&& same_scan(final(st)@, old(st)@)
                &&& final(st)@.wsa_initialized == old(st)@.wsa_initialized
            }
        }),
{
}

/// The listener is told of the bytes that were read, all of them and no others.
pub proof fn law_bytes_that_were_read(
    buffer: &[u8],
    count: i32,
    code: i32,
    event: ReadEvent,
    stopped: bool,
    r: ReadAction,
)
    requires
        call_ensures(transfer::read_event, (buffer, count, code), event),
        call_ensures(transfer::reader_step, (event, stopped), r),
        count <= buffer@.len(),
    ensures
        count > 0 ==> (r matches ReadAction::Deliver(data) && data@.len() == count && forall|i: int|
            0 <= i < count ==> #[trigger] data@[i] == buffer@[i]),
        count <= 0 && stopped ==> r is Stop,
        count == 0 && !stopped ==> (r matches ReadAction::Fail(reason) && reason@
            == "Connection closed by peer"@),
        count < 0 && !stopped && code == 10035 ==> r is Rest,
        count < 0 && !stopped && code != 10035 ==> (r matches ReadAction::Fail(reason) && reason@
            == "Socket error: "@ + text::signed_decimal(code as int)),
{
}

/// A reader reads on until its flag is raised or it has failed or stopped.
pub proof fn law_reads_again(last: &Option<ReadAction>, stopped: bool, r: bool)
    requires
        call_ensures(transfer::reads_again, (last, stopped), r),
    ensures
        stopped ==> !r,
        !stopped && last is None ==> r,
        !stopped ==> (last matches Some(action) ==> (r <==> action is Deliver || action is Rest)),
{
}

/// A reader that has returned ends its own connection and no other one; so does a failed send,
/// where the connection has no reader to do so.
pub proof fn law_ends_of_connections(
    st: &mut GlobalState,
    reader: &ReaderStart,
    r: Option<DisconnectedConnection>,
    sending: &mut GlobalState,
    target: &SendTarget,
    failed: Option<DisconnectedConnection>,
)
    requires
        call_ensures(transfer::reader_finished, (st, reader), r),
        call_ensures(transfer::send_failed, (sending, target), failed),
    ensures
        ({
            let handles = old(st)@.connection_handles;
            let own = handles is Some && handles->0.socket == reader.socket
                && handles->0.connection_id == reader.connection_id;
            &&& own ==> left_of(r, handles) && final(st)@.connection_handles is None
                && final(st)@.connected_device_info is None
            &&& !own ==> r is None && final(st)@ == old(st)@
            &&& same_callbacks(final(st)@, old(st)@)
            &&& same_scan(final(st)@, old(st)@)
            &&& final(st)@.next_connection_id == old(st)@.next_connection_id
            &&& final(st)@.wsa_initialized == old(st)@.wsa_initialized
        }),
        ({
            let handles = old(sending)@.connection_handles;
            let own = handles is Some && handles->0.socket == target.socket
                && handles->0.connection_id == target.connection_id && handles->0.read_thread
                is None;
            &&& own ==> left_of(failed, handles) && final(sending)@.connection_handles is None
                && final(sending)@.connected_device_info is None
            &&& !own ==> failed is None && final(sending)@ == old(sending)@
            &&& same_callbacks(final(sending)@, old(sending)@)
            &&& same_scan(final(sending)@, old(sending)@)
            &&& final(sending)@.next_connection_id == old(sending)@.next_connection_id
            &&& final(sending)@.wsa_initialized == old(sending)@.wsa_initialized
        }),
{
}

/// A send goes to the connection's own socket, under its own lock, flag and number; it is refused
/// without a connection, or while that is being closed.
pub proof fn law_send(
    st: &GlobalState,
    r: Result<SendTarget, WinError>,
    stopped: bool,
    open: Result<(), WinError>,
)
    requires
        call_ensures(transfer::send_impl, (st,), r),
        call_ensures(transfer::check_open, (stopped,), open),
    ensures
        st@.connection_handles is None ==> r == Err::<SendTarget, WinError>(WinError::CannotSend),
        st@.connection_handles matches Some(handles) ==> (r matches Ok(target) && target.socket
            == handles.socket && target.stop_flag == handles.stop_flag && target.socket_close_lock
            == handles.socket_close_lock && target.connection_id == handles.connection_id),
        stopped ==> open == Err::<(), WinError>(WinError::Closing),
        !stopped ==> open is Ok,
{
}

/// A send goes on where the last call ended, until every byte was sent; a call that sends nothing
/// fails it, with the code of that call.
pub proof fn law_send_goes_on(
    len: usize,
    first: SendAction,
    total_sent: usize,
    sent: i32,
    code: i32,
    r: SendAction,
)
    requires
        call_ensures(transfer::begin_send, (len,), first),
        call_ensures(transfer::send_step, (len, total_sent, sent, code), r),
    ensures
        len > 0 ==> first == SendAction::SendFrom(0),
        len == 0 ==> first == SendAction::Done,
        sent > 0 && total_sent + sent < len ==> (r matches SendAction::SendFrom(next) && next
            == total_sent + sent),
        sent > 0 && total_sent + sent >= len ==> r == SendAction::Done,
        sent <= 0 && code == 10060 ==> r == SendAction::TearDown(WinError::SendTimedOut),
        sent <= 0 && code != 10060 ==> r == SendAction::TearDown(WinError::SendFailed(code)),
{
}

/// A pairing request is confirmed to the device that asked, with the method that it asked for and
/// what that method needs; without a request there is nothing to answer.
pub proof fn law_pairing_requests(
    request: AuthRequest,
    r: AuthDecision,
    nothing: AuthDecision,
)
    requires
        call_ensures(pairing::auto_accept_auth_callback, (Some(request),), r),
        call_ensures(pairing::auto_accept_auth_callback, (None::<AuthRequest>,), nothing),
    ensures
        r.handled,
        r.answer matches Some(answer) && answer.address == request.address && answer.method
            == request.method && answer.negative == 0,
        request.method == 3 ==> r.answer->0.response == AuthResponse::Numeric(
            request.numeric_value,
        ),
        request.method == 5 ==> r.answer->0.response == AuthResponse::Passkey(request.passkey),
        request.method == 1 ==> (r.answer->0.response matches AuthResponse::Pin(pin) && pin@
            == seq!['0' as u8, '0' as u8, '0' as u8, '0' as u8]),
        request.method != 1 && request.method != 3 && request.method != 5
            ==> r.answer->0.response is Consent,
        !nothing.handled,
        nothing.answer is None,
{
}

/// Pairing succeeds also where the device was paired already; what was registered is taken back
/// where it was registered, and the device is read again where pairing succeeded.
pub proof fn law_end_of_pairing(
    addr: &str,
    register_result: u32,
    auth_result: u32,
    r: PairingEnd,
    end: &PairingEnd,
    again: bool,
)
    requires
        call_ensures(pairing::pair_device_headless, (addr, register_result, auth_result), r),
        call_ensures(PairingEnd::reads_device_again, (end,), again),
    ensures
        r.unregister <==> register_result == 0,
        r.result is Ok <==> auth_result == 0 || auth_result == 259,
        r.result matches Err(error) ==> (error matches WinError::PairingFailed(with, code) && with@
            == addr@ && code == auth_result),
        again <==> end.result is Ok,
{
}

/// The text of an address has its six bytes, the highest first; a text is read as that number
/// exactly where it has six fields that are bytes. An error names the whole text where there are
/// not six fields, or else the last field that is no byte.
pub proof fn law_addresses(
    addr: u64,
    written: String,
    line: &str,
    r: Result<u64, WinError>,
    i: int,
)
    requires
        call_ensures(address::bth_addr_to_string, (addr,), written),
        call_ensures(address::string_to_bth_addr, (line,), r),
    ensures
        ({
            let bytes = seq![
                ((addr / 0x100_0000_0000) % 256) as u8,
                ((addr / 0x1_0000_0000) % 256) as u8,
                ((addr / 0x100_0000) % 256) as u8,
                ((addr / 0x1_0000) % 256) as u8,
                ((addr / 0x100) % 256) as u8,
                (addr % 256) as u8,
            ];
            written@ == mac_address::mac_text(bytes)
        }),
        ({
            let fields = mac_address::parts_of(line@, ':');
            let all_good = forall|j: int|
                0 <= j < fields.len() ==> mac_address::hex_byte_value(#[trigger] fields[j]) is Some;
            let last_bad = 0 <= i < fields.len() && mac_address::hex_byte_value(fields[i]) is None
                && (forall|j: int|
                i < j < fields.len() ==> mac_address::hex_byte_value(#[trigger] fields[j])
                    is Some);
            &&& r is Ok <==> fields.len() == 6 && all_good
            &&& r matches Ok(number) ==> number == mac_address::hex_byte_value(fields[0])->0
                * 0x100_0000_0000 + mac_address::hex_byte_value(fields[1])->0 * 0x1_0000_0000
                + mac_address::hex_byte_value(fields[2])->0 * 0x100_0000
                + mac_address::hex_byte_value(fields[3])->0 * 0x1_0000
                + mac_address::hex_byte_value(fields[4])->0 * 0x100
                + mac_address::hex_byte_value(fields[5])->0
            &&& fields.len() != 6 ==> (r matches Err(WinError::InvalidAddress(told)) && told@
                == line@)
            &&& fields.len() == 6 && last_bad ==> (r matches Err(WinError::InvalidHexByte(told))
                && told@ == fields[i])
        }),
{
    let bytes = seq![
        ((addr / 0x100_0000_0000) % 256) as u8,
        ((addr / 0x1_0000_0000) % 256) as u8,
        ((addr / 0x100_0000) % 256) as u8,
        ((addr / 0x1_0000) % 256) as u8,
        ((addr / 0x100) % 256) as u8,
        (addr % 256) as u8,
    ];
    assert(address::address_bytes(addr) =~= bytes);
    let fields = mac_address::parts_of(line@, ':');
    if fields.len() == 6 && 0 <= i < fields.len() && mac_address::hex_byte_value(fields[i]) is None
        && (forall|j: int|
        i < j < fields.len() ==> mac_address::hex_byte_value(#[trigger] fields[j]) is Some) {
        let told = r->Err_0;
        let k = choose|k: int| #[trigger]
            address::last_bad_field(fields, k) && told->InvalidHexByte_0@ == fields[k];
        assert(k == i) by {
            if k < i {
                assert(mac_address::hex_byte_value(fields[i]) is Some);
            }
            if i < k {
                assert(mac_address::hex_byte_value(fields[k]) is Some);
            }
        }
    }
}

/// A name ends before its first zero, or with its buffer; every other unit that is no half of a
/// pair is the character with its number.
pub proof fn law_names(units: &[u16], r: String, n: int)
    requires
        call_ensures(address::string_from_utf16_char_array, (units,), r),
        0 <= n <= units@.len(),
        forall|i: int| 0 <= i < n ==> #[trigger] units@[i] != 0,
        n < units@.len() ==> units@[n] == 0,
        forall|i: int| 0 <= i < n ==> !(0xD800 <= #[trigger] units@[i] <= 0xDFFF),
    ensures
        r@.len() == n,
        forall|i: int| 0 <= i < n ==> (#[trigger] r@[i]) as int == units@[i] as int,
{
    address::law_name_ends_at_zero(units@, n);
    address::law_plain_units_are_characters(units@.take(n));
}

/// A scan is stopped by its event; its thread is then left to be reaped, and every thread that is
/// waited for is waited for.
pub proof fn law_steps_of_a_scan(stopped: &StoppedScan, r: Vec<Step>)
    requires
        call_ensures(StoppedScan::steps, (stopped,), r),
    ensures
        ({
            let n = (if stopped.stop_event is Some {
                1int
            } else {
                0
            });
            let m = n + (if stopped.reap is Some {
                1int
            } else {
                0
            });
            &&& stopped.stop_event matches Some(event) ==> r@[0] == Step::SetEvent(event)
            &&& stopped.reap matches Some(thread) ==> r@[n] == Step::Reap(thread)
            &&& r@.len() == m + stopped.wait_for@.len()
            &&& forall|i: int|
                0 <= i < stopped.wait_for@.len() ==> r@[m + i] == Step::WaitFor(
                    #[trigger] stopped.wait_for@[i],
                )
        }),
{
}

/// A connection that ended has its own flag raised and its own socket shut down, and its socket is
/// closed after its reader.
pub proof fn law_steps_of_a_connection(
    gone: &DisconnectedConnection,
    at_once: Vec<Step>,
    close: &SocketClose,
    r: Vec<Step>,
)
    requires
        call_ensures(DisconnectedConnection::stop_steps, (gone,), at_once),
        call_ensures(SocketClose::steps, (close,), r),
    ensures
        at_once@ == seq![Step::RaiseFlag(gone.stop_flag), Step::ShutDown(gone.socket)],
        r@.last() == (Step::CloseSocket {
            lock: close.lock,
            socket: close.socket,
            connection_id: close.connection_id,
        }),
        close.join is None ==> r@.len() == 1,
        close.join matches Some(reader) ==> r@.len() == 2 && r@[0] == Step::Join(reader),
{
}

/// The backend shuts down in this order: the scan's event is set, its thread is left to be reaped,
/// the connection is closed, and WinSock is stopped. A connection that was replaced is closed before
/// the callback is called.
pub proof fn law_steps_of_endings(
    cleanup: StackCleanup,
    r: Vec<Step>,
    made: MadeConnection,
    follow: Vec<Step>,
)
    requires
        call_ensures(StackCleanup::steps, (cleanup,), r),
        call_ensures(MadeConnection::steps, (made,), follow),
    ensures
        ({
            let n = (if cleanup.stop_event is Some {
                1int
            } else {
                0
            });
            let m = n + (if cleanup.reap is Some {
                1int
            } else {
                0
            });
            let k = m + (if cleanup.disconnected is Some {
                1int
            } else {
                0
            });
            &&& cleanup.stop_event matches Some(event) ==> r@[0] == Step::SetEvent(event)
            &&& cleanup.reap matches Some(thread) ==> r@[n] == Step::Reap(thread)
            &&& cleanup.disconnected matches Some(gone) ==> r@[m] == Step::Close(gone)
            &&& cleanup.stop_winsock ==> r@.len() == k + 1 && r@[k] == Step::StopWinsock
            &&& !cleanup.stop_winsock ==> r@.len() == k
        }),
        ({
            let n = (if made.displaced is Some {
                1int
            } else {
                0
            });
            &&& made.displaced matches Some(gone) ==> follow@[0] == Step::Close(gone)
            &&& made.callback matches Some(callback) ==> follow@.len() == n + 1 && follow@[n]
                == Step::Call(callback)
            &&& made.callback is None ==> follow@.len() == n
        }),
{
}

/// Every error is told in its own words, with the codes, addresses and reasons that it holds.
pub proof fn law_every_error_is_told(
    error: &WinError,
    r: String,
    failure: &AttemptError,
    told: String,
)
    requires
        call_ensures(WinError::text, (error,), r),
        call_ensures(AttemptError::text, (failure,), told),
    ensures
        error matches WinError::InvalidAddress(addr) ==> r@ == "Invalid Bluetooth address format: "@
            + addr@,
        error matches WinError::InvalidHexByte(field) ==> r@ == "Invalid hex byte in address: "@
            + field@,
        error is InvalidEvent ==> r@ == "CreateEventW returned an invalid handle"@,
        error matches WinError::WinsockNotStarted(code) ==> r@ == "WSAStartup failed with error: "@
            + text::signed_decimal(*code as int),
        error matches WinError::ConnectFailed(addr, Some(last)) ==> (last == *failure ==> r@
            == "SPP Service UUID and fallback RFCOMM channels failed for "@ + (addr@ + (": "@ + (
        "Some("@ + told@ + ")"@)))),
        error matches WinError::ConnectFailed(addr, None) ==> r@
            == "SPP Service UUID and fallback RFCOMM channels failed for "@ + (addr@ + (": "@
            + "None"@)),
        error matches WinError::PairingFailed(addr, code) ==> r@
            == "BluetoothAuthenticateDeviceEx failed for "@ + (addr@ + (": "@ + text::decimal(
            *code as nat,
        ))),
        error is CannotSubscribe ==> r@ == "Not connected. Cannot start subscription."@,
        error is CannotSend ==> r@ == "Not connected. Cannot send data."@,
        error is Closing ==> r@ == "Connection is closing. Cannot send data."@,
        error is SendTimedOut ==> r@ == "send timed out after "@ + (text::decimal(20_000)
            + "ms; connection torn down"@),
        error matches WinError::SendFailed(code) ==> r@ == "send failed with error "@ + (
        text::signed_decimal(*code as int) + "; connection torn down"@),
        failure is NoTarget ==> told@
            == "Either service_guid or port_channel must be specified for connect attempt"@,
        failure matches AttemptError::SocketCall(reason) ==> told@ == reason@,
        failure matches AttemptError::NoSocket(code) ==> told@ == "Failed to create socket: "@
            + text::signed_decimal(*code as int),
        failure matches AttemptError::NotConnected { service, port, code } ==> told@
            == "Connection failed for service "@ + (text::hex_fixed(*service as nat, 32) + (
        "/port "@ + (text::decimal(*port as nat) + (
        "\n\nCaused by:\n    connect failed with Win32 error "@ + text::signed_decimal(
            *code as int,
        ))))),
{
}

/// Numbers follow each other, and zero follows the last one. Before anything was done there is
/// nothing: no scan, no connection, nothing that was found and nobody who listens.
pub proof fn law_beginning(n: u64, r: u64, st: GlobalState)
    requires
        call_ensures(state::number_after, (n,), r),
        call_ensures(GlobalState::new, (), st),
    ensures
        n < u64::MAX ==> r == n + 1,
        n == u64::MAX ==> r == 0,
        !st@.wsa_initialized,
        st@.scanned_devices.len() == 0,
        !st@.is_scanning,
        st@.scan_stop_event is None,
        st@.scan_thread is None,
        st@.reaping.len() == 0,
        st@.scan_generation == 0,
        st@.connected_device_info is None,
        st@.connection_handles is None,
        st@.next_connection_id == 1,
        st@.on_connected_callback is None,
        st@.data_listener_callback is None,
{
}

/// What holds of the state at all times: a device is known as connected exactly while there is a
/// connection, and no connection has the number zero.
pub proof fn law_state_is_sound(st: StateView)
    requires
        state::well_formed(st),
    ensures
        st.connected_device_info is Some <==> st.connection_handles is Some,
        st.next_connection_id != 0,
        st.connection_handles matches Some(handles) ==> handles.connection_id != 0,
{
}

/// A scan that begins or stops takes the next number.
pub proof fn law_scans_are_numbered(
    stopping: &mut GlobalState,
    wait: bool,
    stopped: StoppedScan,
    beginning: &mut GlobalState,
    stop_event: u64,
    thread: u64,
    begun: BegunScan,
)
    requires
        call_ensures(scan::stop_scan_inner, (stopping, wait), stopped),
        call_ensures(scan::scan_begun, (beginning, stop_event, thread), begun),
    ensures
        old(stopping)@.scan_generation < u64::MAX && (old(stopping)@.is_scanning || old(
            stopping,
        )@.scan_thread is Some) ==> final(stopping)@.scan_generation == old(
            stopping,
        )@.scan_generation + 1,
        old(beginning)@.scan_generation < u64::MAX ==> begun.generation == old(
            beginning,
        )@.scan_generation + 1,
{
}

/// What is said of the state is said of what it is made of.
pub proof fn law_what_the_state_holds(st: GlobalState)
    ensures
        st@.wsa_initialized == st.wsa_initialized,
        st@.scanned_devices == st.scanned_devices@,
        st@.is_scanning == st.is_scanning,
        st@.scan_stop_event == st.scan_stop_event,
        st@.scan_thread == st.scan_thread,
        st@.reaping == st.reaping@,
        st@.scan_generation == st.scan_generation,
        st@.connected_device_info is Some <==> st.connected_device_info is Some,
        st.connected_device_info matches Some(device) ==> st@.connected_device_info == Some(device@),
        st@.connection_handles == st.connection_handles,
        st@.next_connection_id == st.next_connection_id,
        st@.on_connected_callback == st.on_connected_callback,
        st@.data_listener_callback == st.data_listener_callback,
{
}

/// Every request may be made in every state, whatever it is made with.
pub proof fn law_requests_are_open(
    st: &mut GlobalState,
    number: u64,
    other: u64,
    third: u64,
    result: i32,
    flag: bool,
    addr: &str,
    name: &[u16],
    channels: &[u8],
    reader: &ReaderStart,
    target: &SendTarget,
)
    requires
        old(st).wf(),
    ensures
        call_requires(state::winsock_started, (st, result)),
        call_requires(state::disconnect_impl, (st,)),
        call_requires(state::on_connected_impl, (st, number)),
        call_requires(state::set_data_listener_impl, (st, number)),
        call_requires(connect::connect_impl_with_fallback_channels, (st, addr, channels)),
        call_requires(connect::connect_impl, (st, addr)),
        call_requires(connect::finish_connect, (st, addr, name, number, other, third)),
        call_requires(scan::stop_scan_inner, (st, flag)),
        call_requires(scan::stop_scan_impl, (st,)),
        call_requires(scan::stop_scan_and_wait, (st,)),
        call_requires(scan::scan_thread_reaped, (st, number)),
        call_requires(scan::start_scan_impl, (st,)),
        call_requires(scan::scan_begun, (st, number, other)),
        call_requires(scan::remember_scanned_device, (st, name, number, other)),
        call_requires(scan::scan_finished, (st, number)),
        call_requires(scan::cleanup_bluetooth_resources, (st,)),
        call_requires(transfer::finish_subscription, (st, reader, number)),
        call_requires(transfer::reader_finished, (st, reader)),
        call_requires(transfer::send_failed, (st, target)),
{
}

/// What was read is taken wherever the call returned no more than the buffer holds.
pub proof fn law_reads_are_open(buffer: &[u8], count: i32, code: i32)
    requires
        count <= buffer@.len(),
    ensures
        call_requires(transfer::read_event, (buffer, count, code)),
{
}

} // verus!
