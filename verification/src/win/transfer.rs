//! Reading from and writing to the connection.
use vstd::prelude::*;

use crate::bytes;
use crate::text;
use crate::win::error::WinError;
use crate::win::state;
use crate::win::state::{
    ConnectedThreadHandles, DisconnectedConnection, GlobalState, StateView,
};

verus! {

/// How many bytes one read takes at most.
pub const READ_BUFFER_LEN: usize = 1024;

/// How long the reader rests when there is nothing to read, in milliseconds.
pub const READ_RETRY_MS: u64 = 10;

/// There is nothing to read now.
pub const WSAEWOULDBLOCK: i32 = 10035;

/// The time for a call has passed.
pub const WSAETIMEDOUT: i32 = 10060;

/// What the reader of a connection needs.
#[derive(Debug, PartialEq, Eq, Clone, Copy)]
pub struct ReaderStart {
    pub socket: u64,
    pub stop_flag: u64,
    pub connection_id: u64,
}

/// Prepares to read from the connection; nothing is to be done where a reader runs already.
pub fn start_subscription_impl(st: &GlobalState) -> (r: Result<Option<ReaderStart>, WinError>)
    ensures
        r == (match st@.connection_handles {
            Some(handles) => if handles.read_thread is None {
                Ok::<Option<ReaderStart>, WinError>(
                    Some(
                        ReaderStart {
                            socket: handles.socket,
                            stop_flag: handles.stop_flag,
                            connection_id: handles.connection_id,
                        },
                    ),
                )
            } else {
                Ok(None)
            },
            None => Err(WinError::CannotSubscribe),
        }),
{
    match st.connection_handles {
        Some(handles) => if handles.read_thread.is_none() {
            Ok(
                Some(
                    ReaderStart {
                        socket: handles.socket,
                        stop_flag: handles.stop_flag,
                        connection_id: handles.connection_id,
                    },
                ),
            )
        } else {
            Ok(None)
        },
        None => Err(WinError::CannotSubscribe),
    }
}

/// Whether the connection is still the one that a reader was made for.
pub open spec fn is_reader_of(reader: ReaderStart, st: StateView) -> bool {
    st.connection_handles matches Some(handles) && handles.socket == reader.socket
        && handles.connection_id == reader.connection_id
}

/// Whether a reader that was made can be recorded: its connection has no reader yet.
pub open spec fn can_record(reader: ReaderStart, st: StateView) -> bool {
    is_reader_of(reader, st) && st.connection_handles->0.read_thread is None
}

/// Records the thread of a reader that was made; where the connection has changed meanwhile,
/// the answer is no: the reader's flag is to be raised, its socket shut down, and its thread
/// waited for.
pub fn finish_subscription(st: &mut GlobalState, reader: &ReaderStart, thread: u64) -> (r: bool)
    requires
        old(st).wf(),
    ensures
        final(st).wf(),
        r == can_record(*reader, old(st)@),
        final(st)@ == (if can_record(*reader, old(st)@) {
            StateView {
                connection_handles: Some(
                    ConnectedThreadHandles {
                        read_thread: Some(thread),
                        ..old(st)@.connection_handles->0
                    },
                ),
                ..old(st)@
            }
        } else {
            old(st)@
        }),
{
    match st.connection_handles {
        Some(handles) => if handles.socket == reader.socket && handles.connection_id
            == reader.connection_id && handles.read_thread.is_none() {
            st.connection_handles = Some(
                ConnectedThreadHandles {
                    socket: handles.socket,
                    read_thread: Some(thread),
                    stop_flag: handles.stop_flag,
                    socket_close_lock: handles.socket_close_lock,
                    connection_id: handles.connection_id,
                },
            );
            true
        } else {
            false
        },
        None => false,
    }
}

/// What a reader gets from its socket.
pub enum ReadEvent {
    /// Bytes.
    Received(Vec<u8>),
    /// The end of what the other side sends.
    Closed,
    /// An error code.
    Failed(i32),
}

/// What a reader got from its socket: `count` is what the call returned, `buffer` what it filled,
/// and the error code counts where `count` is below zero.
pub fn read_event(buffer: &[u8], count: i32, code: i32) -> (r: ReadEvent)
    requires
        count <= buffer@.len(),
    ensures
        if count > 0 {
            r matches ReadEvent::Received(data) && data@ == buffer@.take(count as int)
        } else if count == 0 {
            r is Closed
        } else {
            r == ReadEvent::Failed(code)
        },
{
    if count > 0 {
        ReadEvent::Received(bytes::copy_of_first(buffer, count as usize))
    } else if count == 0 {
        ReadEvent::Closed
    } else {
        ReadEvent::Failed(code)
    }
}

/// What a reader does.
pub enum ReadAction {
    /// Tell the listener of these bytes, and read on.
    Deliver(Vec<u8>),
    /// Rest for [`READ_RETRY_MS`], and read on.
    Rest,
    /// Tell the listener of this error, and return.
    Fail(String),
    /// Return.
    Stop,
}

/// What a reader does with what it got; `stopped` says whether its flag is raised by now. A
/// connection that was closed here is no error.
pub fn reader_step(event: ReadEvent, stopped: bool) -> (r: ReadAction)
    ensures
        match event {
            ReadEvent::Received(data) => r == ReadAction::Deliver(data),
            ReadEvent::Closed => if stopped {
                r is Stop
            } else {
                r matches ReadAction::Fail(reason) && reason@ == "Connection closed by peer"@
            },
            ReadEvent::Failed(code) => if stopped {
                r is Stop
            } else if code == WSAEWOULDBLOCK {
                r is Rest
            } else {
                r matches ReadAction::Fail(reason) && reason@ == "Socket error: "@
                    + text::signed_decimal(code as int)
            },
        },
{
    match event {
        ReadEvent::Received(data) => ReadAction::Deliver(data),
        ReadEvent::Closed => if stopped {
            ReadAction::Stop
        } else {
            ReadAction::Fail("Connection closed by peer".to_owned())
        },
        ReadEvent::Failed(code) => if stopped {
            ReadAction::Stop
        } else if code == WSAEWOULDBLOCK {
            ReadAction::Rest
        } else {
            ReadAction::Fail(
                text::joined("Socket error: ", text::signed_decimal_text(code).as_str()),
            )
        },
    }
}

/// Whether a reader reads again, after its last action if there was one: `stopped` says whether its
/// flag is raised by then.
pub open spec fn reads_on(last: Option<ReadAction>, stopped: bool) -> bool {
    !stopped && (last matches Some(action) ==> action is Deliver || action is Rest)
}

/// Whether a reader reads again, after its last action if there was one. It looks at its flag
/// before each read.
pub fn reads_again(last: &Option<ReadAction>, stopped: bool) -> (r: bool)
    ensures
        r == reads_on(*last, stopped),
{
    match last {
        Some(ReadAction::Deliver(_)) => !stopped,
        Some(ReadAction::Rest) => !stopped,
        Some(_) => false,
        None => !stopped,
    }
}

/// The state when a reader has returned.
pub open spec fn after_reader(st: StateView, reader: ReaderStart) -> StateView {
    if is_reader_of(reader, st) {
        state::disconnected(st)
    } else {
        st
    }
}

/// Ends the connection whose reader has returned; another connection is left alone.
pub fn reader_finished(st: &mut GlobalState, reader: &ReaderStart) -> (r: Option<
    DisconnectedConnection,
>)
    requires
        old(st).wf(),
    ensures
        final(st).wf(),
        final(st)@ == after_reader(old(st)@, *reader),
        r == (if is_reader_of(*reader, old(st)@) {
            state::disconnection(old(st)@.connection_handles)
        } else {
            None
        }),
{
    let own: bool = match st.connection_handles {
        Some(handles) => handles.connection_id == reader.connection_id && handles.socket
            == reader.socket,
        None => false,
    };
    if own {
        state::disconnect_internal(st)
    } else {
        None
    }
}

/// What a send needs.
#[derive(Debug, PartialEq, Eq, Clone, Copy)]
pub struct SendTarget {
    pub socket: u64,
    pub stop_flag: u64,
    pub socket_close_lock: u64,
    pub connection_id: u64,
}

/// What a send needs, if there is a connection.
pub fn send_impl(st: &GlobalState) -> (r: Result<SendTarget, WinError>)
    ensures
        r == (match st@.connection_handles {
            Some(handles) => Ok::<SendTarget, WinError>(
                SendTarget {
                    socket: handles.socket,
                    stop_flag: handles.stop_flag,
                    socket_close_lock: handles.socket_close_lock,
                    connection_id: handles.connection_id,
                },
            ),
            None => Err(WinError::CannotSend),
        }),
{
    match st.connection_handles {
        Some(handles) => Ok(
            SendTarget {
                socket: handles.socket,
                stop_flag: handles.stop_flag,
                socket_close_lock: handles.socket_close_lock,
                connection_id: handles.connection_id,
            },
        ),
        None => Err(WinError::CannotSend),
    }
}

/// Whether bytes may be sent: `stopped` says whether the connection's flag is raised. This is
/// asked before the lock on the socket is taken, and again while it is held.
pub fn check_open(stopped: bool) -> (r: Result<(), WinError>)
    ensures
        r == (if stopped {
            Err::<(), WinError>(WinError::Closing)
        } else {
            Ok(())
        }),
{
    if stopped {
        Err(WinError::Closing)
    } else {
        Ok(())
    }
}

/// What a send does next.
#[derive(Debug, PartialEq, Eq)]
pub enum SendAction {
    /// Send what follows this many bytes.
    SendFrom(usize),
    /// Every byte was sent.
    Done,
    /// The send failed: shut the socket down, so that its reader returns and the connection ends,
    /// and let [`send_failed`] end a connection without a reader.
    TearDown(WinError),
}

/// What a send of so many bytes does when this many were sent.
pub open spec fn send_due(len: int, total_sent: int) -> SendAction {
    if total_sent < len {
        SendAction::SendFrom(total_sent as usize)
    } else {
        SendAction::Done
    }
}

/// What a send of so many bytes does first.
pub fn begin_send(len: usize) -> (r: SendAction)
    ensures
        r == send_due(len as int, 0),
{
    if len > 0 {
        SendAction::SendFrom(0)
    } else {
        SendAction::Done
    }
}

/// Why a send with this error code failed.
pub open spec fn send_error(code: i32) -> WinError {
    if code == WSAETIMEDOUT {
        WinError::SendTimedOut
    } else {
        WinError::SendFailed(code)
    }
}

/// One call of a send: how many bytes it sent, and its error code.
pub struct SendCall {
    pub sent: i32,
    pub code: i32,
}

/// What a send of so many bytes does after one more call.
pub open spec fn after_call(len: int, action: SendAction, call: SendCall) -> SendAction {
    match action {
        SendAction::SendFrom(offset) => if call.sent > 0 {
            send_due(len, offset + call.sent)
        } else {
            SendAction::TearDown(send_error(call.code))
        },
        _ => action,
    }
}

/// What a send of `len` bytes does when `total_sent` of them were sent and one more call sent
/// `sent` bytes; the error code counts where that is not more than zero.
pub fn send_step(len: usize, total_sent: usize, sent: i32, code: i32) -> (r: SendAction)
    ensures
        r == after_call(
            len as int,
            SendAction::SendFrom(total_sent),
            (SendCall { sent, code }),
        ),
{
    if sent > 0 {
        let sent: usize = sent as usize;
        if total_sent < len && sent < len - total_sent {
            SendAction::SendFrom(total_sent + sent)
        } else {
            SendAction::Done
        }
    } else if code == WSAETIMEDOUT {
        SendAction::TearDown(WinError::SendTimedOut)
    } else {
        SendAction::TearDown(WinError::SendFailed(code))
    }
}

/// Whether the connection is still the one that a send was for.
pub open spec fn is_target_of(target: SendTarget, st: StateView) -> bool {
    st.connection_handles matches Some(handles) && handles.socket == target.socket
        && handles.connection_id == target.connection_id
}

/// Whether a failed send has to end the connection itself: no reader will.
pub open spec fn ends_connection(target: SendTarget, st: StateView) -> bool {
    is_target_of(target, st) && st.connection_handles->0.read_thread is None
}

/// The state when a send has failed.
pub open spec fn after_failed_send(st: StateView, target: SendTarget) -> StateView {
    if ends_connection(target, st) {
        state::disconnected(st)
    } else {
        st
    }
}

/// Ends the connection whose send has failed, where it has no reader; where it has one, the
/// reader returns, as the socket was shut down, and ends the connection.
pub fn send_failed(st: &mut GlobalState, target: &SendTarget) -> (r: Option<DisconnectedConnection>)
    requires
        old(st).wf(),
    ensures
        final(st).wf(),
        final(st)@ == after_failed_send(old(st)@, *target),
        r == (if ends_connection(*target, old(st)@) {
            state::disconnection(old(st)@.connection_handles)
        } else {
            None
        }),
{
    let own: bool = match st.connection_handles {
        Some(handles) => handles.socket == target.socket && handles.connection_id
            == target.connection_id && handles.read_thread.is_none(),
        None => false,
    };
    if own {
        state::disconnect_internal(st)
    } else {
        None
    }
}

/// After a failed send its connection ends, and the device is no longer known as connected:
/// at once where there is no reader, and otherwise when the reader has returned.
pub proof fn law_failed_send_ends_the_connection(st: StateView, target: SendTarget)
    requires
        is_target_of(target, st),
    ensures
        ({
            let handles = st.connection_handles->0;
            let after = after_failed_send(st, target);
            let reader = ReaderStart {
                socket: handles.socket,
                stop_flag: handles.stop_flag,
                connection_id: handles.connection_id,
            };
            &&& handles.read_thread is None ==> after == state::disconnected(st)
            &&& handles.read_thread is Some ==> after == st
            &&& after_reader(after, reader) == state::disconnected(st)
            &&& state::disconnected(st).connected_device_info is None
        }),
{
}

/// A failed send leaves a connection alone that was made meanwhile.
pub proof fn law_failed_send_leaves_replacement_alone(st: StateView, target: SendTarget)
    requires
        st.connection_handles matches Some(handles) ==> handles.connection_id
            != target.connection_id,
    ensures
        after_failed_send(st, target) == st,
{
}

/// What a send of so many bytes does after several calls.
pub open spec fn after_calls(len: int, calls: Seq<SendCall>) -> SendAction
    decreases calls.len(),
{
    if calls.len() == 0 {
        send_due(len, 0)
    } else {
        after_call(len, after_calls(len, calls.drop_last()), calls.last())
    }
}

/// The bytes that a send has handed over with several calls.
pub open spec fn sent_by(data: Seq<u8>, calls: Seq<SendCall>) -> Seq<u8>
    decreases calls.len(),
{
    if calls.len() == 0 {
        Seq::empty()
    } else {
        let before = sent_by(data, calls.drop_last());
        match after_calls(data.len() as int, calls.drop_last()) {
            SendAction::SendFrom(offset) => if calls.last().sent <= 0 {
                before
            } else if offset + calls.last().sent <= data.len() {
                before + data.subrange(offset as int, offset + calls.last().sent)
            } else {
                before + data.skip(offset as int)
            },
            _ => before,
        }
    }
}

/// The bytes that a send hands over are always the first ones of the data, in order and none
/// twice; it ends well exactly when all of them were handed over, and after it has ended,
/// well or not, nothing more is sent.
pub proof fn law_sent_bytes_are_the_first_ones(data: Seq<u8>, calls: Seq<SendCall>, next: SendCall)
    requires
        data.len() <= usize::MAX,
    ensures
        match after_calls(data.len() as int, calls) {
            SendAction::SendFrom(offset) => offset < data.len() && sent_by(data, calls)
                == data.take(offset as int),
            SendAction::Done => sent_by(data, calls) == data,
            SendAction::TearDown(_) => sent_by(data, calls).len() < data.len() && sent_by(
                data,
                calls,
            ) == data.take(sent_by(data, calls).len() as int),
        },
        !(after_calls(data.len() as int, calls) is SendFrom) ==> after_calls(
            data.len() as int,
            calls.push(next),
        ) == after_calls(data.len() as int, calls) && sent_by(data, calls.push(next)) == sent_by(
            data,
            calls,
        ),
        after_calls(data.len() as int, calls) is SendFrom && next.sent <= 0 ==> after_calls(
            data.len() as int,
            calls.push(next),
        ) == SendAction::TearDown(send_error(next.code)),
    decreases calls.len(),
{
    assert(calls.push(next).drop_last() =~= calls);
    if calls.len() > 0 {
        let init = calls.drop_last();
        let call = calls.last();
        law_sent_bytes_are_the_first_ones(data, init, call);
        let before = sent_by(data, init);
        match after_calls(data.len() as int, init) {
            SendAction::SendFrom(offset) => {
                if call.sent > 0 {
                    if offset + call.sent <= data.len() {
                        assert(before + data.subrange(offset as int, offset + call.sent)
                            =~= data.take(offset + call.sent));
                        assert(data.take(data.len() as int) =~= data);
                    } else {
                        assert(before + data.skip(offset as int) =~= data);
                    }
                }
            },
            _ => {},
        }
    } else {
        assert(data.take(0) =~= Seq::<u8>::empty());
        if data.len() == 0 {
            assert(data =~= Seq::<u8>::empty());
        }
    }
}

/// The reader of an earlier connection does not end the one that replaced it.
pub proof fn law_old_reader_leaves_replacement_alone(st: StateView, reader: ReaderStart)
    requires
        st.connection_handles matches Some(handles) ==> handles.connection_id
            != reader.connection_id,
    ensures
        after_reader(st, reader) == st,
        !can_record(reader, st),
{
}

} // verus!
