//! Reading what a connected device sends.
use vstd::prelude::*;

use crate::address_map;
use crate::linux::address;
use crate::linux::error::LinuxError;
use crate::linux::state;
use crate::linux::state::{ConnectionView, GlobalState, StateView};
use crate::numbers;

verus! {

broadcast use {address_map::lemma_put_back, address_map::lemma_remove_absent};

/// How many bytes one read takes at most.
pub const READ_BUFFER_LEN: usize = 1024;

/// What the reader of a connection needs.
#[derive(Debug, PartialEq, Eq)]
pub struct ReaderStart {
    /// The canonical address of the device.
    pub address: String,
    pub socket_stream: u64,
    /// The flag that ends the reader; it tells this reader from every other one.
    pub stop_flag: u64,
    pub listener: u64,
}

/// Whether the connection to a reader's device is the one that the reader was started for: it was
/// not replaced.
pub open spec fn is_reader_of(reader: ReaderStart, st: StateView) -> bool {
    address_map::found(st.connections, reader.address@) matches Some(connection)
        && connection.socket_stream == reader.socket_stream
}

/// Whether a reader of the connection to its device has not returned.
pub open spec fn still_reads(reader: ReaderStart, st: StateView) -> bool {
    is_reader_of(reader, st) && st.connections[reader.address@].readers.contains(
        reader.stop_flag,
    )
}

/// The state with `connection` in place of what was known of `key`.
pub open spec fn with_connection(
    st: StateView,
    key: Seq<char>,
    connection: ConnectionView,
) -> StateView {
    StateView { connections: st.connections.insert(key, connection), ..st }
}

/// Prepares to read from a device, with `stop_flag` to end the reader. Nothing is to be done
/// where a reader runs already.
pub fn start_subscription_impl(st: &mut GlobalState, addr: &str, stop_flag: u64) -> (r: Result<
    Option<ReaderStart>,
    LinuxError,
>)
    requires
        old(st).wf(),
    ensures
        final(st).wf(),
        match address::canonical(addr@) {
            Err(_) => r matches Err(error) && address::refuses(error, addr@) && final(st)@ == old(
                st,
            )@,
            Ok(key) => match address_map::found(old(st)@.connections, key) {
                None => r matches Err(error) && error is NotConnected && final(st)@ == old(st)@,
                Some(connection) => if connection.read_thread is Some {
                    r matches Ok(start) && start is None && final(st)@ == old(st)@
                } else {
                    match connection.data_listener_callback {
                        None => r matches Err(error) && error is ListenerNotSet && final(st)@
                            == old(st)@,
                        Some(listener) => {
                            &&& r matches Ok(Some(start))
                            &&& start.address@ == key
                            &&& start.socket_stream == connection.socket_stream
                            &&& start.stop_flag == stop_flag
                            &&& start.listener == listener
                            &&& final(st)@ == with_connection(
                                old(st)@,
                                key,
                                ConnectionView {
                                    read_stop: Some(stop_flag),
                                    readers: connection.readers.push(stop_flag),
                                    ..connection
                                },
                            )
                        },
                    }
                },
            },
        },
{
    let key: String = match address::normalize_addr(addr) {
        Ok((key, _)) => key,
        Err(error) => {
            return Err(error);
        },
    };
    let ghost before = st@.connections;
    let listener: u64 = match st.connections.get(key.as_str()) {
        Some(connection) => {
            if connection.read_thread.is_some() {
                return Ok(None);
            }
            match connection.data_listener_callback {
                Some(listener) => listener,
                None => {
                    return Err(LinuxError::ListenerNotSet);
                },
            }
        },
        None => {
            return Err(LinuxError::NotConnected);
        },
    };
    match st.connections.remove(key.as_str()) {
        Some(mut connection) => {
            connection.read_stop = Some(stop_flag);
            connection.readers.push(stop_flag);
            let socket_stream: u64 = connection.socket_stream;
            let address: String = key.clone();
            st.connections.insert(key, connection);
            assert(before.remove(key@).insert(key@, connection@) =~= before.insert(
                key@,
                connection@,
            ));
            Ok(Some(ReaderStart { address, socket_stream, stop_flag, listener }))
        },
        None => Err(LinuxError::NotConnected),
    }
}

/// The state when the task of a reader was recorded: where the reader has returned already, or
/// its connection was replaced, there is nothing to record.
pub open spec fn recorded(st: StateView, reader: ReaderStart, thread: u64) -> StateView {
    if still_reads(reader, st) {
        with_connection(
            st,
            reader.address@,
            ConnectionView { read_thread: Some(thread), ..st.connections[reader.address@] },
        )
    } else {
        st
    }
}

/// Records the task of a reader that was started, while the reader runs and reads from the
/// connection that it was started for; says whether it was recorded. Fails where there is no
/// connection to the device by then, and the task is to be aborted.
pub fn finish_subscription(st: &mut GlobalState, reader: &ReaderStart, thread: u64) -> (r: Result<
    bool,
    LinuxError,
>)
    requires
        old(st).wf(),
    ensures
        final(st).wf(),
        final(st)@ == recorded(old(st)@, *reader, thread),
        r == (if old(st)@.connections.contains_key(reader.address@) {
            Ok::<bool, LinuxError>(still_reads(*reader, old(st)@))
        } else {
            Err(LinuxError::ConnectionWasClosed)
        }),
{
    let address: &str = reader.address.as_str();
    let own: bool = match st.connections.get(address) {
        Some(connection) => connection.socket_stream == reader.socket_stream && numbers::holds(
            &connection.readers,
            reader.stop_flag,
        ),
        None => {
            return Err(LinuxError::ConnectionWasClosed);
        },
    };
    if own {
        match st.connections.remove(address) {
            Some(mut connection) => {
                connection.read_thread = Some(thread);
                st.connections.insert(address.to_owned(), connection);
            },
            None => {},
        }
    }
    Ok(own)
}

/// What a reader gets from its stream.
pub enum ReadEvent {
    /// Nothing in time.
    Idle,
    /// Bytes; none where the device closed the connection.
    Received(Vec<u8>),
    /// An error.
    Failed(String),
}

/// What a reader does with it.
pub struct ReadAction {
    /// What the listener is told.
    pub report: Option<Result<Vec<u8>, String>>,
    /// Whether the reader returns.
    pub finished: bool,
}

/// Takes what a reader got; `stop_requested` says whether its flag is raised by now.
pub fn reader_step(event: ReadEvent, stop_requested: bool) -> (r: ReadAction)
    ensures
        match event {
            ReadEvent::Idle => r.report is None && r.finished == stop_requested,
            ReadEvent::Received(data) => if data@.len() == 0 {
                r.report matches Some(Err(reason)) && reason@ == "Connection closed"@ && r.finished
            } else {
                r.report matches Some(Ok(bytes)) && bytes@ == data@ && r.finished == stop_requested
            },
            ReadEvent::Failed(error) => r.report matches Some(Err(reason)) && reason@ == error@
                && r.finished,
        },
{
    match event {
        ReadEvent::Idle => ReadAction { report: None, finished: stop_requested },
        ReadEvent::Received(data) => if data.len() == 0 {
            ReadAction { report: Some(Err("Connection closed".to_owned())), finished: true }
        } else {
            ReadAction { report: Some(Ok(data)), finished: stop_requested }
        },
        ReadEvent::Failed(reason) => ReadAction { report: Some(Err(reason)), finished: true },
    }
}

/// The state after a reader returned: only the connection that it was started for is touched,
/// which is left without a recorded reader.
pub open spec fn after_reader(st: StateView, reader: ReaderStart) -> StateView {
    if is_reader_of(reader, st) {
        with_connection(
            st,
            reader.address@,
            ConnectionView {
                read_thread: None,
                read_stop: None,
                readers: numbers::others(
                    st.connections[reader.address@].readers,
                    reader.stop_flag,
                ),
                ..st.connections[reader.address@]
            },
        )
    } else {
        st
    }
}

/// Takes the news that a reader returned, so that a later subscription can start another;
/// gives back the task that was recorded for the connection.
pub fn reader_finished(st: &mut GlobalState, reader: &ReaderStart) -> (r: Option<u64>)
    requires
        old(st).wf(),
    ensures
        final(st).wf(),
        final(st)@ == after_reader(old(st)@, *reader),
        r == (if is_reader_of(*reader, old(st)@) {
            old(st)@.connections[reader.address@].read_thread
        } else {
            None
        }),
{
    let address: &str = reader.address.as_str();
    let own: bool = match st.connections.get(address) {
        Some(connection) => connection.socket_stream == reader.socket_stream,
        None => false,
    };
    if !own {
        return None;
    }
    match st.connections.remove(address) {
        Some(mut connection) => {
            let thread: Option<u64> = connection.read_thread;
            connection.read_thread = None;
            connection.read_stop = None;
            connection.readers = numbers::without(&connection.readers, reader.stop_flag);
            st.connections.insert(address.to_owned(), connection);
            thread
        },
        None => None,
    }
}

/// The reader of an earlier connection touches its replacement neither when it is recorded nor
/// when it returns.
pub proof fn law_old_reader_leaves_replacement_alone(
    st: StateView,
    reader: ReaderStart,
    thread: u64,
)
    requires
        st.connections.contains_key(reader.address@),
        st.connections[reader.address@].socket_stream != reader.socket_stream,
    ensures
        recorded(st, reader, thread) == st,
        after_reader(st, reader) == st,
{
}

/// A reader that was recorded and has returned leaves its connection open to a later
/// subscription, in whichever order the two came.
pub proof fn law_finished_reader_frees_the_connection(
    st: StateView,
    reader: ReaderStart,
    thread: u64,
)
    requires
        still_reads(reader, st),
    ensures
        after_reader(recorded(st, reader, thread), reader) == after_reader(st, reader),
        recorded(after_reader(st, reader), reader, thread) == after_reader(st, reader),
        ({
            let before = st.connections[reader.address@];
            let after = after_reader(st, reader).connections;
            &&& after.contains_key(reader.address@)
            &&& after[reader.address@] == (ConnectionView {
                read_thread: None,
                read_stop: None,
                readers: numbers::others(before.readers, reader.stop_flag),
                ..before
            })
        }),
{
    numbers::lemma_others(st.connections[reader.address@].readers, reader.stop_flag);
    assert(after_reader(recorded(st, reader, thread), reader).connections
        =~= after_reader(st, reader).connections);
}

/// Nothing is recorded for a connection all of whose readers have returned: a completed reader
/// does not prevent a later subscription.
pub proof fn law_completed_readers_do_not_prevent_a_subscription(st: StateView, key: Seq<char>)
    requires
        state::well_formed(st),
        st.connections.contains_key(key),
        st.connections[key].readers.len() == 0,
    ensures
        st.connections[key].read_thread is None,
        st.connections[key].read_stop is None,
{
}

} // verus!
