//! The state of the BlueZ backend.
//!
//! Streams, tasks, flags and callbacks live outside of the state; it holds a number for each.
use vstd::prelude::*;

use crate::address_map;
use crate::address_map::AddressMap;
use crate::linux::address;
use crate::linux::error::LinuxError;
use crate::models;
use crate::models::{DeviceList, DeviceView, SPPDevice};

verus! {

/// One established connection.
pub struct DeviceConnection {
    pub socket_stream: u64,
    pub read_stop: Option<u64>,
    pub read_thread: Option<u64>,
    /// The flags of the readers that were started and have not returned.
    pub readers: Vec<u64>,
    pub connected_device_info: SPPDevice,
    pub on_connected_callback: Option<u64>,
    pub data_listener_callback: Option<u64>,
}

/// What a [`DeviceConnection`] holds.
pub struct ConnectionView {
    pub socket_stream: u64,
    pub read_stop: Option<u64>,
    pub read_thread: Option<u64>,
    pub readers: Seq<u64>,
    pub connected_device_info: DeviceView,
    pub on_connected_callback: Option<u64>,
    pub data_listener_callback: Option<u64>,
}

impl View for DeviceConnection {
    type V = ConnectionView;

    open spec fn view(&self) -> ConnectionView {
        ConnectionView {
            socket_stream: self.socket_stream,
            read_stop: self.read_stop,
            read_thread: self.read_thread,
            readers: self.readers@,
            connected_device_info: self.connected_device_info@,
            on_connected_callback: self.on_connected_callback,
            data_listener_callback: self.data_listener_callback,
        }
    }
}

/// Everything the backend remembers.
pub struct GlobalState {
    pub adapter: Option<u64>,
    pub scanned_devices: DeviceList,
    pub scan_stop: Option<u64>,
    pub scan_thread: Option<u64>,
    pub connections: AddressMap<DeviceConnection>,
    /// Callbacks may be registered before the corresponding connection exists.
    pub on_connected_callbacks: AddressMap<u64>,
    pub data_listener_callbacks: AddressMap<u64>,
}

/// What a [`GlobalState`] holds.
#[verifier::ext_equal]
pub struct StateView {
    pub adapter: Option<u64>,
    pub scanned_devices: Seq<DeviceView>,
    pub scan_stop: Option<u64>,
    pub scan_thread: Option<u64>,
    pub connections: Map<Seq<char>, ConnectionView>,
    pub on_connected_callbacks: Map<Seq<char>, u64>,
    pub data_listener_callbacks: Map<Seq<char>, u64>,
}

impl View for GlobalState {
    type V = StateView;

    open spec fn view(&self) -> StateView {
        StateView {
            adapter: self.adapter,
            scanned_devices: self.scanned_devices@,
            scan_stop: self.scan_stop,
            scan_thread: self.scan_thread,
            connections: self.connections@,
            on_connected_callbacks: self.on_connected_callbacks@,
            data_listener_callbacks: self.data_listener_callbacks@,
        }
    }
}

/// What holds of a connection under its address: it is one to the device at that address, and
/// where a flag or a task is recorded, a reader has not returned.
pub open spec fn connection_ok(key: Seq<char>, connection: ConnectionView) -> bool {
    &&& connection.connected_device_info.address == key
    &&& connection.read_stop is Some || connection.read_thread is Some ==> connection.readers.len()
        > 0
}

/// What holds of the state at all times.
pub open spec fn well_formed(st: StateView) -> bool {
    forall|key: Seq<char>| #[trigger]
        st.connections.contains_key(key) ==> connection_ok(key, st.connections[key])
}

impl GlobalState {
    /// Whether what holds at all times holds now.
    pub open spec fn wf(&self) -> bool {
        well_formed(self@)
    }

    /// The state before anything was scanned or connected.
    pub fn new(adapter: Option<u64>) -> (r: Self)
        ensures
            r.wf(),
            r@ == (StateView {
                adapter,
                scanned_devices: Seq::empty(),
                scan_stop: None,
                scan_thread: None,
                connections: Map::empty(),
                on_connected_callbacks: Map::empty(),
                data_listener_callbacks: Map::empty(),
            }),
    {
        GlobalState {
            adapter,
            scanned_devices: DeviceList::new(),
            scan_stop: None,
            scan_thread: None,
            connections: AddressMap::new(),
            on_connected_callbacks: AddressMap::new(),
            data_listener_callbacks: AddressMap::new(),
        }
    }
}

/// What has to be stopped for a connection to end: its reader's flag and task, and its stream.
#[derive(Debug, PartialEq, Eq)]
pub struct StoppedConnection {
    pub read_stop: Option<u64>,
    pub read_thread: Option<u64>,
    pub socket_stream: u64,
}

/// What has to be stopped for `connection` to end.
pub open spec fn stopped(connection: ConnectionView) -> StoppedConnection {
    StoppedConnection {
        read_stop: connection.read_stop,
        read_thread: connection.read_thread,
        socket_stream: connection.socket_stream,
    }
}

/// Takes a connection apart into what has to be stopped.
pub fn stop_connection(connection: DeviceConnection) -> (r: StoppedConnection)
    ensures
        r == stopped(connection@),
{
    StoppedConnection {
        read_stop: connection.read_stop,
        read_thread: connection.read_thread,
        socket_stream: connection.socket_stream,
    }
}

/// What has to be stopped for an optional connection to end.
pub open spec fn stopped_if_any(connection: Option<ConnectionView>) -> Option<StoppedConnection> {
    match connection {
        Some(connection) => Some(stopped(connection)),
        None => None,
    }
}

/// What is known of the device at an address while it is connected.
pub fn get_connected_device_info_impl(st: &GlobalState, addr: &str) -> (r: Result<
    Option<SPPDevice>,
    LinuxError,
>)
    requires
        st.wf(),
    ensures
        match r {
            Ok(device) => address::canonical(addr@) matches Ok(key) && models::device_of(device)
                == (match address_map::found(st@.connections, key) {
                Some(connection) => Some(connection.connected_device_info),
                None => None,
            }) && (device matches Some(known) ==> known@.address == key),
            Err(error) => address::refuses(error, addr@),
        },
{
    match address::normalize_addr(addr) {
        Ok((key, _)) => match st.connections.get(key.as_str()) {
            Some(connection) => Ok(Some(connection.connected_device_info.clone())),
            None => Ok(None),
        },
        Err(error) => Err(error),
    }
}

/// RFCOMM sockets have no fixed limit on the payload of one write.
pub fn get_max_send_len_impl(_addr: &str) -> (r: Result<Option<usize>, LinuxError>)
    ensures
        r == Ok::<Option<usize>, LinuxError>(None),
{
    Ok(None)
}

/// The state after a callback for the connection to `key` was registered.
pub open spec fn with_connected_callback(st: StateView, key: Seq<char>, callback: u64) -> StateView {
    match address_map::found(st.connections, key) {
        Some(connection) => StateView {
            connections: st.connections.insert(
                key,
                ConnectionView { on_connected_callback: Some(callback), ..connection },
            ),
            ..st
        },
        None => StateView {
            on_connected_callbacks: st.on_connected_callbacks.insert(key, callback),
            ..st
        },
    }
}

/// Registers a callback for the connection to a device; says whether the device is connected,
/// so that the callback is due at once.
pub fn on_connected_impl(st: &mut GlobalState, addr: &str, callback: u64) -> (r: Result<
    bool,
    LinuxError,
>)
    requires
        old(st).wf(),
    ensures
        final(st).wf(),
        match r {
            Ok(due) => address::canonical(addr@) matches Ok(key) && due == old(
                st,
            )@.connections.contains_key(key) && final(st)@ == with_connected_callback(
                old(st)@,
                key,
                callback,
            ),
            Err(error) => address::refuses(error, addr@) && final(st)@ == old(st)@,
        },
{
    match address::normalize_addr(addr) {
        Ok((key, _)) => match st.connections.remove(key.as_str()) {
            Some(mut connection) => {
                connection.on_connected_callback = Some(callback);
                st.connections.insert(key, connection);
                proof {
                    let ghost_key = address::canonical(addr@)->Ok_0;
                    let before = old(st)@.connections;
                    assert(before.remove(ghost_key).insert(ghost_key, connection@)
                        =~= before.insert(ghost_key, connection@));
                }
                Ok(true)
            },
            None => {
                assert(st@.connections =~= old(st)@.connections);
                st.on_connected_callbacks.insert(key, callback);
                Ok(false)
            },
        },
        Err(error) => Err(error),
    }
}

/// The state after a data listener for `key` was set.
pub open spec fn with_data_listener(st: StateView, key: Seq<char>, callback: u64) -> StateView {
    match address_map::found(st.connections, key) {
        Some(connection) => StateView {
            connections: st.connections.insert(
                key,
                ConnectionView { data_listener_callback: Some(callback), ..connection },
            ),
            ..st
        },
        None => StateView {
            data_listener_callbacks: st.data_listener_callbacks.insert(key, callback),
            ..st
        },
    }
}

/// Sets the listener for data from a device.
pub fn set_data_listener_impl(st: &mut GlobalState, addr: &str, callback: u64) -> (r: Result<
    (),
    LinuxError,
>)
    requires
        old(st).wf(),
    ensures
        final(st).wf(),
        match r {
            Ok(_) => address::canonical(addr@) matches Ok(key) && final(st)@ == with_data_listener(
                old(st)@,
                key,
                callback,
            ),
            Err(error) => address::refuses(error, addr@) && final(st)@ == old(st)@,
        },
{
    match address::normalize_addr(addr) {
        Ok((key, _)) => match st.connections.remove(key.as_str()) {
            Some(mut connection) => {
                connection.data_listener_callback = Some(callback);
                st.connections.insert(key, connection);
                proof {
                    let ghost_key = address::canonical(addr@)->Ok_0;
                    let before = old(st)@.connections;
                    assert(before.remove(ghost_key).insert(ghost_key, connection@)
                        =~= before.insert(ghost_key, connection@));
                }
                Ok(())
            },
            None => {
                assert(st@.connections =~= old(st)@.connections);
                st.data_listener_callbacks.insert(key, callback);
                Ok(())
            },
        },
        Err(error) => Err(error),
    }
}

/// The stream to write to for a device.
pub fn send_impl(st: &GlobalState, addr: &str) -> (r: Result<u64, LinuxError>)
    ensures
        match address::canonical(addr@) {
            Ok(key) => match address_map::found(st@.connections, key) {
                Some(connection) => r == Ok::<u64, LinuxError>(connection.socket_stream),
                None => r == Err::<u64, LinuxError>(LinuxError::NotConnected),
            },
            Err(_) => r matches Err(error) && address::refuses(error, addr@),
        },
{
    match address::normalize_addr(addr) {
        Ok((key, _)) => match st.connections.get(key.as_str()) {
            Some(connection) => Ok(connection.socket_stream),
            None => Err(LinuxError::NotConnected),
        },
        Err(error) => Err(error),
    }
}

/// The state without the connection to `key` and without what was registered for it.
pub open spec fn without_device(st: StateView, key: Seq<char>) -> StateView {
    StateView {
        connections: st.connections.remove(key),
        on_connected_callbacks: st.on_connected_callbacks.remove(key),
        data_listener_callbacks: st.data_listener_callbacks.remove(key),
        ..st
    }
}

/// Ends the connection to a device and forgets its callbacks; returns what has to be stopped.
pub fn disconnect_impl(st: &mut GlobalState, addr: &str) -> (r: Result<
    Option<StoppedConnection>,
    LinuxError,
>)
    requires
        old(st).wf(),
    ensures
        final(st).wf(),
        match r {
            Ok(gone) => address::canonical(addr@) matches Ok(key) && gone == stopped_if_any(
                address_map::found(old(st)@.connections, key),
            ) && final(st)@ == without_device(old(st)@, key),
            Err(error) => address::refuses(error, addr@) && final(st)@ == old(st)@,
        },
{
    match address::normalize_addr(addr) {
        Ok((key, _)) => {
            let _ = st.on_connected_callbacks.remove(key.as_str());
            let _ = st.data_listener_callbacks.remove(key.as_str());
            match st.connections.remove(key.as_str()) {
                Some(connection) => Ok(Some(stop_connection(connection))),
                None => Ok(None),
            }
        },
        Err(error) => Err(error),
    }
}

/// The addresses `keys` name every entry of `map` once, and `parts` are what has to be stopped
/// for each of them.
pub open spec fn stops_each_once(
    map: Map<Seq<char>, ConnectionView>,
    keys: Seq<Seq<char>>,
    parts: Seq<StoppedConnection>,
) -> bool {
    &&& keys.len() == parts.len()
    &&& keys.no_duplicates()
    &&& forall|key: Seq<char>| map.contains_key(key) <==> keys.contains(key)
    &&& forall|i: int| 0 <= i < keys.len() ==> #[trigger] parts[i] == stopped(map[keys[i]])
}

/// Ends every connection and forgets every callback; returns what has to be stopped, each
/// connection once, in no particular order.
pub fn disconnect_all_impl(st: &mut GlobalState) -> (r: Vec<StoppedConnection>)
    requires
        old(st).wf(),
    ensures
        final(st).wf(),
        final(st)@ == (StateView {
            connections: Map::empty(),
            on_connected_callbacks: Map::empty(),
            data_listener_callbacks: Map::empty(),
            ..old(st)@
        }),
        exists|keys: Seq<Seq<char>>| stops_each_once(old(st)@.connections, keys, r@),
{
    st.on_connected_callbacks.clear();
    st.data_listener_callbacks.clear();
    let ghost map = old(st)@.connections;
    let mut entries: Vec<(String, DeviceConnection)> = st.connections.drain();
    let ghost all = entries@;
    let ghost keys = Seq::new(all.len(), |i: int| all[i].0@);
    proof {
        assert forall|key: Seq<char>| map.contains_key(key) <==> keys.contains(key) by {
            if map.contains_key(key) {
                assert(address_map::present(all, key));
                let i = choose|i: int| 0 <= i < all.len() && all[i].0@ == key;
                assert(keys[i] == key);
            }
            if keys.contains(key) {
                let i = keys.index_of(key);
                assert(map.contains_key(all[i].0@));
            }
        }
    }
    let mut r: Vec<StoppedConnection> = Vec::new();
    let ghost mut done = Seq::<Seq<char>>::empty();
    while entries.len() > 0
        invariant
            entries@ == all.take(entries@.len() as int),
            entries@.len() <= all.len(),
            keys == Seq::new(all.len(), |i: int| all[i].0@),
            done == keys.skip(entries@.len() as int).reverse(),
            r@.len() == done.len(),
            forall|i: int|
                0 <= i < all.len() ==> map.contains_key((#[trigger] all[i]).0@) && map[all[i].0@]
                    == all[i].1@,
            forall|i: int| 0 <= i < done.len() ==> #[trigger] r@[i] == stopped(map[done[i]]),
        decreases entries@.len(),
    {
        let ghost n = entries@.len() - 1;
        match entries.pop() {
            Some((key, connection)) => {
                assert(all[n].0 == key && all[n].1 == connection);
                r.push(stop_connection(connection));
                proof {
                    assert(keys.skip(n).reverse() =~= done.push(keys[n]));
                    done = done.push(keys[n]);
                    assert(entries@ =~= all.take(n));
                }
            },
            None => {},
        }
    }
    proof {
        assert(done =~= keys.reverse());
        assert(keys.no_duplicates());
        assert forall|key: Seq<char>| map.contains_key(key) <==> done.contains(key) by {
            if keys.contains(key) {
                let i = keys.index_of(key);
                assert(done[keys.len() - 1 - i] == key);
            }
            if done.contains(key) {
                let i = done.index_of(key);
                assert(keys[keys.len() - 1 - i] == key);
            }
        }
        assert(stops_each_once(map, done, r@));
    }
    r
}

} // verus!
