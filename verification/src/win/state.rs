//! The state of the WinSock backend.
//!
//! Sockets, events, threads, flags, locks and callbacks live outside of the state; it holds a
//! number for each.
use vstd::prelude::*;

use crate::models;
use crate::models::{DeviceList, DeviceView, SPPDevice};
use crate::win::error::WinError;

verus! {

/// The version of WinSock that is asked for.
pub const WINSOCK_VERSION: u16 = 0x0202;

/// What a connection is made of.
#[derive(Debug, PartialEq, Eq, Clone, Copy)]
pub struct ConnectedThreadHandles {
    pub socket: u64,
    pub read_thread: Option<u64>,
    /// The flag that tells the reader to return.
    pub stop_flag: u64,
    /// Held while the socket is written to or closed.
    pub socket_close_lock: u64,
    /// Tells this connection from every other one.
    pub connection_id: u64,
}

/// The state of the backend.
pub struct GlobalState {
    pub wsa_initialized: bool,
    pub scanned_devices: DeviceList,
    pub is_scanning: bool,
    pub scan_stop_event: Option<u64>,
    pub scan_thread: Option<u64>,
    /// The threads of stopped scans that have not returned yet, as far as is known.
    pub reaping: Vec<u64>,
    /// Changes whenever a scan starts or stops. An inquiry cannot be interrupted, so the thread
    /// of an earlier scan may still run; what it reports is dropped.
    pub scan_generation: u64,
    pub connected_device_info: Option<SPPDevice>,
    pub connection_handles: Option<ConnectedThreadHandles>,
    pub next_connection_id: u64,
    pub on_connected_callback: Option<u64>,
    pub data_listener_callback: Option<u64>,
}

/// What a [`GlobalState`] holds.
#[verifier::ext_equal]
pub struct StateView {
    pub wsa_initialized: bool,
    pub scanned_devices: Seq<DeviceView>,
    pub is_scanning: bool,
    pub scan_stop_event: Option<u64>,
    pub scan_thread: Option<u64>,
    pub reaping: Seq<u64>,
    pub scan_generation: u64,
    pub connected_device_info: Option<DeviceView>,
    pub connection_handles: Option<ConnectedThreadHandles>,
    pub next_connection_id: u64,
    pub on_connected_callback: Option<u64>,
    pub data_listener_callback: Option<u64>,
}

impl View for GlobalState {
    type V = StateView;

    open spec fn view(&self) -> StateView {
        StateView {
            wsa_initialized: self.wsa_initialized,
            scanned_devices: self.scanned_devices@,
            is_scanning: self.is_scanning,
            scan_stop_event: self.scan_stop_event,
            scan_thread: self.scan_thread,
            reaping: self.reaping@,
            scan_generation: self.scan_generation,
            connected_device_info: models::device_of(self.connected_device_info),
            connection_handles: self.connection_handles,
            next_connection_id: self.next_connection_id,
            on_connected_callback: self.on_connected_callback,
            data_listener_callback: self.data_listener_callback,
        }
    }
}

/// What holds of the state at all times: a device is known as connected exactly while there is
/// a connection, and no connection has the number zero.
pub open spec fn well_formed(st: StateView) -> bool {
    &&& st.connected_device_info is Some <==> st.connection_handles is Some
    &&& st.next_connection_id != 0
    &&& st.connection_handles matches Some(handles) ==> handles.connection_id != 0
}

impl GlobalState {
    /// Whether what holds at all times holds now.
    pub open spec fn wf(&self) -> bool {
        well_formed(self@)
    }

    /// The state before anything was scanned or connected.
    pub fn new() -> (r: Self)
        ensures
            r.wf(),
            r@ == (StateView {
                wsa_initialized: false,
                scanned_devices: Seq::empty(),
                is_scanning: false,
                scan_stop_event: None,
                scan_thread: None,
                reaping: Seq::empty(),
                scan_generation: 0,
                connected_device_info: None,
                connection_handles: None,
                next_connection_id: 1,
                on_connected_callback: None,
                data_listener_callback: None,
            }),
    {
        GlobalState {
            wsa_initialized: false,
            scanned_devices: DeviceList::new(),
            is_scanning: false,
            scan_stop_event: None,
            scan_thread: None,
            reaping: Vec::new(),
            scan_generation: 0,
            connected_device_info: None,
            connection_handles: None,
            next_connection_id: 1,
            on_connected_callback: None,
            data_listener_callback: None,
        }
    }
}

/// The number after `n`, and zero after the last one.
pub open spec fn following(n: u64) -> u64 {
    if n == u64::MAX {
        0
    } else {
        (n + 1) as u64
    }
}

/// The number after `n`, and zero after the last one.
pub fn number_after(n: u64) -> (r: u64)
    ensures
        r == following(n),
        r != n,
{
    if n == u64::MAX {
        0
    } else {
        n + 1
    }
}

/// Whether WinSock is to be started, with [`WINSOCK_VERSION`].
pub fn init_winsock_if_needed(st: &GlobalState) -> (r: bool)
    ensures
        r == !st@.wsa_initialized,
{
    !st.wsa_initialized
}

/// Takes the result of starting WinSock.
pub fn winsock_started(st: &mut GlobalState, result: i32) -> (r: Result<(), WinError>)
    requires
        old(st).wf(),
    ensures
        final(st).wf(),
        if result == 0 {
            r == Ok::<(), WinError>(()) && final(st)@ == (StateView {
                wsa_initialized: true,
                ..old(st)@
            })
        } else {
            r == Err::<(), WinError>(WinError::WinsockNotStarted(result)) && final(st)@ == old(st)@
        },
{
    if result != 0 {
        return Err(WinError::WinsockNotStarted(result));
    }
    st.wsa_initialized = true;
    Ok(())
}

/// A connection that ended: its flag is to be raised and its socket shut down at once, and the
/// socket is to be closed with [`finish_disconnect`].
#[derive(Debug, PartialEq, Eq)]
pub struct DisconnectedConnection {
    pub socket: u64,
    pub stop_flag: u64,
    pub read_thread: Option<u64>,
    pub socket_close_lock: u64,
    pub connection_id: u64,
}

/// What is left of a connection that ended.
pub open spec fn disconnection(handles: Option<ConnectedThreadHandles>) -> Option<
    DisconnectedConnection,
> {
    match handles {
        Some(handles) => Some(
            DisconnectedConnection {
                socket: handles.socket,
                stop_flag: handles.stop_flag,
                read_thread: handles.read_thread,
                socket_close_lock: handles.socket_close_lock,
                connection_id: handles.connection_id,
            },
        ),
        None => None,
    }
}

/// The state without a connection.
pub open spec fn disconnected(st: StateView) -> StateView {
    StateView { connection_handles: None, connected_device_info: None, ..st }
}

/// Ends the connection, if there is one.
pub fn disconnect_internal(st: &mut GlobalState) -> (r: Option<DisconnectedConnection>)
    requires
        old(st).wf(),
    ensures
        final(st).wf(),
        final(st)@ == disconnected(old(st)@),
        r == disconnection(old(st)@.connection_handles),
{
    let handles: Option<ConnectedThreadHandles> = st.connection_handles;
    st.connection_handles = None;
    st.connected_device_info = None;
    match handles {
        Some(handles) => Some(
            DisconnectedConnection {
                socket: handles.socket,
                stop_flag: handles.stop_flag,
                read_thread: handles.read_thread,
                socket_close_lock: handles.socket_close_lock,
                connection_id: handles.connection_id,
            },
        ),
        None => None,
    }
}

/// Ends the connection, if there is one, at a caller's request.
pub fn disconnect_impl(st: &mut GlobalState) -> (r: Option<DisconnectedConnection>)
    requires
        old(st).wf(),
    ensures
        final(st).wf(),
        final(st)@ == disconnected(old(st)@),
        r == disconnection(old(st)@.connection_handles),
{
    disconnect_internal(st)
}

/// How a socket is closed: first the reader, if it is not the caller itself, is waited for, and
/// the lock is held while the socket is closed.
#[derive(Debug, PartialEq, Eq)]
pub struct SocketClose {
    pub join: Option<u64>,
    pub lock: u64,
    pub socket: u64,
    pub connection_id: u64,
}

/// How the socket of a connection that ended is closed; `on_reader` says whether the caller is
/// its reader, which cannot wait for itself.
pub fn close_disconnected_socket(disconnected: DisconnectedConnection, on_reader: bool) -> (r:
    SocketClose)
    ensures
        r == (SocketClose {
            join: if on_reader {
                None
            } else {
                disconnected.read_thread
            },
            lock: disconnected.socket_close_lock,
            socket: disconnected.socket,
            connection_id: disconnected.connection_id,
        }),
{
    SocketClose {
        join: if on_reader {
            None
        } else {
            disconnected.read_thread
        },
        lock: disconnected.socket_close_lock,
        socket: disconnected.socket,
        connection_id: disconnected.connection_id,
    }
}

/// How the socket of a connection that ended is closed, if there was a connection.
pub fn finish_disconnect(disconnected: Option<DisconnectedConnection>, on_reader: bool) -> (r: Option<
    SocketClose,
>)
    ensures
        match disconnected {
            Some(gone) => r == Some(
                SocketClose {
                    join: if on_reader {
                        None
                    } else {
                        gone.read_thread
                    },
                    lock: gone.socket_close_lock,
                    socket: gone.socket,
                    connection_id: gone.connection_id,
                },
            ),
            None => r is None,
        },
{
    match disconnected {
        Some(gone) => Some(close_disconnected_socket(gone, on_reader)),
        None => None,
    }
}

/// What is known of the device while one is connected.
pub fn get_connected_device_info_impl(st: &GlobalState) -> (r: Option<SPPDevice>)
    ensures
        models::device_of(r) == st@.connected_device_info,
{
    match &st.connected_device_info {
        Some(device) => Some(device.clone()),
        None => None,
    }
}

/// Stream sockets have no fixed limit on the payload of one write.
pub fn get_max_send_len_impl() -> (r: Result<Option<usize>, WinError>)
    ensures
        r == Ok::<Option<usize>, WinError>(None),
{
    Ok(None)
}

/// Registers the callback for a connection, in place of an earlier one; says whether a device
/// is connected, so that the callback is due at once.
pub fn on_connected_impl(st: &mut GlobalState, callback: u64) -> (r: bool)
    requires
        old(st).wf(),
    ensures
        final(st).wf(),
        r == (old(st)@.connected_device_info is Some),
        final(st)@ == (StateView { on_connected_callback: Some(callback), ..old(st)@ }),
{
    let due: bool = st.connected_device_info.is_some();
    st.on_connected_callback = Some(callback);
    due
}

/// Sets the listener for data, in place of an earlier one.
pub fn set_data_listener_impl(st: &mut GlobalState, callback: u64)
    requires
        old(st).wf(),
    ensures
        final(st).wf(),
        final(st)@ == (StateView { data_listener_callback: Some(callback), ..old(st)@ }),
{
    st.data_listener_callback = Some(callback);
}

/// The listener to call with what was received, if there is one.
pub fn notify_data_listener(st: &GlobalState) -> (r: Option<u64>)
    ensures
        r == st@.data_listener_callback,
{
    st.data_listener_callback
}

} // verus!
