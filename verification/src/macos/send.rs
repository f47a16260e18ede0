//! Sending: a payload is cut into writes of at most one unit of transfer each, a few of which
//! are under way at a time.
use std::sync::Arc;
use vstd::prelude::*;

use crate::address_map;
use crate::bytes;
use crate::macos::address;
use crate::macos::error::MacError;
use crate::macos::retiring;
use crate::macos::session;
use crate::macos::session::DroppedDevice;
use crate::macos::state;
use crate::macos::state::{
    MainThreadState, MainView, PendingRfcommSend, SendView, SessionView, SharedState,
};
use crate::text;

verus! {

broadcast use {
    address_map::lemma_put_back,
    address_map::lemma_remove_absent,
    retiring::lemma_retire_again,
};

/// How many writes are made before other work gets its turn.
pub const WRITES_PER_TURN: usize = 4;

/// How long one turn of writes may take, in milliseconds.
pub const PUMP_BUDGET_MS: u64 = 2;

/// How long to wait for the next turn, in milliseconds.
pub const PUMP_YIELD_MS: u64 = 1;

/// How long to wait before a write is tried again, in milliseconds.
pub const BACKPRESSURE_RETRY_MS: u64 = 10;

/// How long a send may take, in seconds.
pub const SEND_TIMEOUT_SECS: u64 = 45;

/// The device is busy.
pub const RETURN_BUSY: i32 = -536870187;

/// There is no space.
pub const RETURN_NO_SPACE: i32 = -536870181;

/// There is not enough data.
pub const RETURN_UNDERRUN: i32 = -536870169;

/// There is too much data.
pub const RETURN_OVERRUN: i32 = -536870168;

/// Whether a write with this status may be tried again.
pub open spec fn retryable(status: i32) -> bool {
    status == RETURN_BUSY || status == RETURN_NO_SPACE || status == RETURN_UNDERRUN || status
        == RETURN_OVERRUN
}

/// Whether a write with this status may be tried again.
pub fn is_retryable_rfcomm_backpressure(status: i32) -> (r: bool)
    ensures
        r == retryable(status),
{
    status == RETURN_BUSY || status == RETURN_NO_SPACE || status == RETURN_UNDERRUN || status
        == RETURN_OVERRUN
}

/// Whether a turn of writes can be scheduled for a session: there is something to send, and no
/// turn is scheduled yet.
pub open spec fn schedulable(st: MainView, addr: Seq<char>, generation: usize) -> bool {
    &&& session::is_session(st, addr, generation)
    &&& !st.sessions[addr].failed
    &&& !st.sessions[addr].pump_scheduled
    &&& st.sessions[addr].pending_send is Some
}

/// The state after a turn was asked for.
pub open spec fn scheduled(st: MainView, addr: Seq<char>, generation: usize) -> MainView {
    if schedulable(st, addr, generation) {
        session::with_session(
            st,
            addr,
            SessionView { pump_scheduled: true, ..st.sessions[addr] },
        )
    } else {
        st
    }
}

/// Asks for a turn of writes; says whether one is to be scheduled. Requests for the same
/// session are taken together.
pub fn schedule_pump(st: &mut MainThreadState, addr: &str, generation: usize) -> (r: bool)
    requires
        old(st).wf(),
    ensures
        final(st).wf(),
        r == schedulable(old(st)@, addr@, generation),
        final(st)@ == scheduled(old(st)@, addr@, generation),
{
    let due: bool = match st.sessions.get(addr) {
        Some(session) => session.generation == generation && !session.failed
            && !session.pump_scheduled && session.pending_send.is_some(),
        None => false,
    };
    if due {
        match st.sessions.remove(addr) {
            Some(mut session) => {
                session.pump_scheduled = true;
                st.sessions.insert(addr.to_owned(), session);
            },
            None => {},
        }
    }
    due
}

/// The state when a scheduled turn begins.
pub open spec fn turn_begun(st: MainView, addr: Seq<char>, generation: usize) -> MainView {
    if session::is_session(st, addr, generation) {
        session::with_session(
            st,
            addr,
            SessionView { pump_scheduled: false, ..st.sessions[addr] },
        )
    } else {
        st
    }
}

/// Begins a scheduled turn; says whether the session is still the one it was scheduled for.
pub fn begin_turn(st: &mut MainThreadState, addr: &str, generation: usize) -> (r: bool)
    requires
        old(st).wf(),
    ensures
        final(st).wf(),
        r == session::is_session(old(st)@, addr@, generation),
        final(st)@ == turn_begun(old(st)@, addr@, generation),
{
    let due: bool = session::session_matches(st, addr, generation);
    if due {
        match st.sessions.remove(addr) {
            Some(mut session) => {
                session.pump_scheduled = false;
                st.sessions.insert(addr.to_owned(), session);
            },
            None => {},
        }
    }
    due
}

/// Whether a session can make a write now.
pub open spec fn writable(st: MainView, addr: Seq<char>, generation: usize) -> bool {
    &&& session::is_session(st, addr, generation)
    &&& st.sessions[addr].opened
    &&& !st.sessions[addr].failed
    &&& st.sessions[addr].pending_send matches Some(send)
    &&& send.in_flight < state::MAX_IN_FLIGHT
    &&& send.next_offset != send.payload.len()
}

/// How many bytes the next write of a session holds.
pub open spec fn write_len(session: SessionView, send: SendView) -> int {
    if session.mtu <= send.payload.len() - send.next_offset {
        session.mtu as int
    } else {
        send.payload.len() - send.next_offset
    }
}

/// The state when the next write was taken from a send.
pub open spec fn reserved(st: MainView, addr: Seq<char>) -> MainView {
    let session = st.sessions[addr];
    let send = session.pending_send->0;
    session::with_session(
        st,
        addr,
        SessionView {
            pending_send: Some(
                SendView {
                    next_offset: (send.next_offset + write_len(session, send)) as usize,
                    in_flight: (send.in_flight + 1) as usize,
                    ..send
                },
            ),
            ..session
        },
    )
}

/// A write to make.
#[derive(Debug)]
pub struct WriteRequest {
    pub channel: u64,
    pub payload: Arc<Vec<u8>>,
    pub id: usize,
    pub offset: usize,
    pub len: usize,
}

/// Whether `request` is the next write of `send`.
pub open spec fn requests(request: WriteRequest, session: SessionView, send: SendView) -> bool {
    &&& request.channel == session.channel
    &&& request.payload@ == send.payload
    &&& request.id == send.id
    &&& request.offset == send.next_offset
    &&& request.len == write_len(session, send)
}

/// Whether the send that a write belongs to, where it is still pending, counts the write.
pub open spec fn counted(
    st: MainView,
    addr: Seq<char>,
    generation: usize,
    id: usize,
    offset: usize,
) -> bool {
    session::is_session(st, addr, generation) ==> (st.sessions[addr].pending_send matches Some(send)
        ==> (send.id == id ==> send.in_flight > 0 && offset <= send.payload.len()))
}

/// Takes the next write of a session, if one can be made. It is counted before it is made, so
/// that it may complete at any time.
pub fn reserve_write(st: &mut MainThreadState, addr: &str, generation: usize) -> (r: Option<
    WriteRequest,
>)
    requires
        old(st).wf(),
    ensures
        final(st).wf(),
        if writable(old(st)@, addr@, generation) {
            &&& r matches Some(request)
            &&& requests(
                request,
                old(st)@.sessions[addr@],
                old(st)@.sessions[addr@].pending_send->0,
            )
            &&& 1 <= request.len <= state::MAX_MTU
            &&& request.offset + request.len <= request.payload@.len()
            &&& counted(final(st)@, addr@, generation, request.id, request.offset)
            &&& final(st)@ == reserved(old(st)@, addr@)
        } else {
            r is None && final(st)@ == old(st)@
        },
{
    let ready: bool = match st.sessions.get(addr) {
        Some(session) => session.generation == generation && session.opened && !session.failed
            && (match &session.pending_send {
            Some(send) => send.in_flight < state::MAX_IN_FLIGHT && send.next_offset
                != send.payload.len(),
            None => false,
        }),
        None => false,
    };
    if !ready {
        return None;
    }
    match st.sessions.remove(addr) {
        Some(mut session) => match session.pending_send.take() {
            Some(mut send) => {
                let offset: usize = send.next_offset;
                let rest: usize = send.payload.len() - offset;
                let len: usize = if session.mtu <= rest {
                    session.mtu
                } else {
                    rest
                };
                send.next_offset = offset + len;
                send.in_flight = send.in_flight + 1;
                let request = WriteRequest {
                    channel: session.channel,
                    payload: send.payload.clone(),
                    id: send.id,
                    offset,
                    len,
                };
                session.pending_send = Some(send);
                st.sessions.insert(addr.to_owned(), session);
                Some(request)
            },
            None => None,
        },
        None => None,
    }
}

/// Whether the pending send of a session is the given one.
pub open spec fn sends(st: MainView, addr: Seq<char>, generation: usize, id: usize) -> bool {
    &&& session::is_session(st, addr, generation)
    &&& st.sessions[addr].pending_send matches Some(send)
    &&& send.id == id
}

/// The state with `send` pending in place of what was pending.
pub open spec fn with_send(st: MainView, addr: Seq<char>, send: Option<SendView>) -> MainView {
    session::with_session(st, addr, SessionView { pending_send: send, ..st.sessions[addr] })
}

/// The state when a write was not accepted: the send continues where that write started.
pub open spec fn unreserved(
    st: MainView,
    addr: Seq<char>,
    generation: usize,
    id: usize,
    offset: usize,
) -> MainView {
    if sends(st, addr, generation, id) {
        let send = st.sessions[addr].pending_send->0;
        with_send(
            st,
            addr,
            Some(
                SendView {
                    next_offset: offset,
                    in_flight: (send.in_flight - 1) as usize,
                    ..send
                },
            ),
        )
    } else {
        st
    }
}

/// Takes back a write that was not accepted.
fn unreserve_write(
    st: &mut MainThreadState,
    addr: &str,
    generation: usize,
    id: usize,
    offset: usize,
)
    requires
        old(st).wf(),
        counted(old(st)@, addr@, generation, id, offset),
    ensures
        final(st).wf(),
        final(st)@ == unreserved(old(st)@, addr@, generation, id, offset),
{
    let own: bool = match st.sessions.get(addr) {
        Some(session) => session.generation == generation && (match &session.pending_send {
            Some(send) => send.id == id,
            None => false,
        }),
        None => false,
    };
    if own {
        match st.sessions.remove(addr) {
            Some(mut session) => {
                match session.pending_send.take() {
                    Some(mut send) => {
                        send.next_offset = offset;
                        send.in_flight = send.in_flight - 1;
                        session.pending_send = Some(send);
                    },
                    None => {},
                }
                st.sessions.insert(addr.to_owned(), session);
            },
            None => {},
        }
    }
}

/// Whether the send that a write belongs to, where it is still pending, counts the write.
pub fn write_is_counted(st: &MainThreadState, addr: &str, generation: usize, request: &WriteRequest) -> (r:
    bool)
    ensures
        r == counted(st@, addr@, generation, request.id, request.offset),
{
    match st.sessions.get(addr) {
        Some(session) => if session.generation == generation {
            match &session.pending_send {
                Some(send) => send.id != request.id || (send.in_flight > 0 && request.offset
                    <= send.payload.len()),
                None => true,
            }
        } else {
            true
        },
        None => true,
    }
}

/// The status of a write that is not made at all: a channel whose transmission is paused is busy.
pub fn status_before_write(paused: bool) -> (r: Option<i32>)
    ensures
        r == (if paused {
            Some(RETURN_BUSY)
        } else {
            None
        }),
{
    if paused {
        Some(RETURN_BUSY)
    } else {
        None
    }
}

/// What a turn of writes does next.
pub enum PumpStep {
    /// Make this write.
    Write(WriteRequest),
    /// Return, and begin another turn after so many milliseconds.
    Schedule(u64),
    /// Return; lower this flag, and give up the session for this reason on a later turn.
    FailLater { active: u64, reason: String },
    /// Return.
    Done,
}

/// What a turn does when it has asked for another one.
pub open spec fn yields(step: PumpStep, st: MainView, addr: Seq<char>, generation: usize, delay: u64) -> bool {
    if schedulable(st, addr, generation) {
        step matches PumpStep::Schedule(after) && after == delay
    } else {
        step is Done
    }
}

/// What a turn does when a session failed, and the state then.
pub open spec fn failing(st: MainView, addr: Seq<char>, generation: usize) -> MainView {
    if session::can_fail(st, addr, generation) {
        session::with_session(st, addr, SessionView { failed: true, ..st.sessions[addr] })
    } else {
        st
    }
}

/// Whether a step gives up a session that can still fail, for this reason.
pub open spec fn gives_up(
    step: PumpStep,
    st: MainView,
    addr: Seq<char>,
    generation: usize,
    reason: Seq<char>,
) -> bool {
    if session::can_fail(st, addr, generation) {
        &&& step matches PumpStep::FailLater { active, reason: text }
        &&& active == st.sessions[addr].active
        &&& text@ == reason
    } else {
        step is Done
    }
}

/// Whether a step makes the next write, if one can be made.
pub open spec fn makes_next_write(
    step: PumpStep,
    st: MainView,
    addr: Seq<char>,
    generation: usize,
) -> bool {
    if writable(st, addr, generation) {
        step matches PumpStep::Write(request) && requests(
            request,
            st.sessions[addr],
            st.sessions[addr].pending_send->0,
        ) && 1 <= request.len <= state::MAX_MTU && request.offset + request.len
            <= request.payload@.len()
    } else {
        step is Done
    }
}

/// The state when the next write was taken, if one can be made.
pub open spec fn reserved_if_any(st: MainView, addr: Seq<char>, generation: usize) -> MainView {
    if writable(st, addr, generation) {
        reserved(st, addr)
    } else {
        st
    }
}

/// Begins a turn of writes with the first one, if one can be made.
pub fn pump_pending_rfcomm_send(st: &mut MainThreadState, addr: &str, generation: usize) -> (r:
    PumpStep)
    requires
        old(st).wf(),
    ensures
        final(st).wf(),
        makes_next_write(r, old(st)@, addr@, generation),
        final(st)@ == reserved_if_any(old(st)@, addr@, generation),
        r matches PumpStep::Write(request) ==> counted(
            final(st)@,
            addr@,
            generation,
            request.id,
            request.offset,
        ),
{
    match reserve_write(st, addr, generation) {
        Some(request) => PumpStep::Write(request),
        None => PumpStep::Done,
    }
}

/// The message of a write that failed.
pub open spec fn write_failure(status: i32) -> Seq<char> {
    "RFCOMM writeAsync failed: "@ + text::signed_decimal(status as int)
}

/// Goes on with a turn after a write: `made` writes of this turn were accepted before it. A
/// write that was not accepted is taken back, and tried again later where that may help; an
/// accepted one is followed by the next, unless the turn is over.
pub fn after_write(
    st: &mut MainThreadState,
    addr: &str,
    generation: usize,
    request: &WriteRequest,
    made: usize,
    status: i32,
    budget_spent: bool,
) -> (r: PumpStep)
    requires
        old(st).wf(),
        made < WRITES_PER_TURN,
        status != state::RETURN_SUCCESS ==> counted(
            old(st)@,
            addr@,
            generation,
            request.id,
            request.offset,
        ),
    ensures
        final(st).wf(),
        ({
            let back = unreserved(old(st)@, addr@, generation, request.id, request.offset);
            if status != state::RETURN_SUCCESS && retryable(status) {
                yields(r, back, addr@, generation, BACKPRESSURE_RETRY_MS) && final(st)@
                    == scheduled(back, addr@, generation)
            } else if status != state::RETURN_SUCCESS {
                gives_up(r, back, addr@, generation, write_failure(status)) && final(st)@
                    == failing(back, addr@, generation)
            } else if budget_spent || made + 1 == WRITES_PER_TURN {
                yields(r, old(st)@, addr@, generation, PUMP_YIELD_MS) && final(st)@ == scheduled(
                    old(st)@,
                    addr@,
                    generation,
                )
            } else {
                makes_next_write(r, old(st)@, addr@, generation) && final(st)@ == reserved_if_any(
                    old(st)@,
                    addr@,
                    generation,
                )
            }
        }),
        r matches PumpStep::Write(next) ==> counted(
            final(st)@,
            addr@,
            generation,
            next.id,
            next.offset,
        ),
{
    if status != state::RETURN_SUCCESS {
        unreserve_write(st, addr, generation, request.id, request.offset);
        if is_retryable_rfcomm_backpressure(status) {
            if schedule_pump(st, addr, generation) {
                PumpStep::Schedule(BACKPRESSURE_RETRY_MS)
            } else {
                PumpStep::Done
            }
        } else {
            match session::fail_session_later(st, addr, generation) {
                Some(active) => PumpStep::FailLater {
                    active,
                    reason: text::joined(
                        "RFCOMM writeAsync failed: ",
                        text::signed_decimal_text(status).as_str(),
                    ),
                },
                None => PumpStep::Done,
            }
        }
    } else if budget_spent || made + 1 == WRITES_PER_TURN {
        if schedule_pump(st, addr, generation) {
            PumpStep::Schedule(PUMP_YIELD_MS)
        } else {
            PumpStep::Done
        }
    } else {
        pump_pending_rfcomm_send(st, addr, generation)
    }
}

/// What to do when a write has completed.
pub enum WriteCompletion {
    /// Drop the retiring session of this generation on a later turn.
    ReleaseLater(usize),
    /// Lower this flag, and give up the session for this reason on a later turn.
    FailLater { active: u64, reason: String },
    /// Tell that the send has ended well.
    Completed(u64),
    /// Begin a turn of writes after so many milliseconds.
    Schedule(u64),
    /// Nothing.
    Ignore,
}

/// One write less under way.
pub open spec fn one_less(count: usize) -> usize {
    if count == 0 {
        0
    } else {
        (count - 1) as usize
    }
}

/// A send with one write less under way.
pub open spec fn drained(send: SendView) -> SendView {
    SendView { in_flight: one_less(send.in_flight), ..send }
}

/// The state when a write of the retiring session `generation` has completed.
pub open spec fn retiring_drained(st: MainView, generation: usize, id: usize) -> MainView {
    match retiring::retired(st.retiring, generation) {
        Some(session) => match session.pending_send {
            Some(send) => if send.id == id {
                MainView {
                    retiring: st.retiring.insert(
                        generation,
                        SessionView { pending_send: Some(drained(send)), ..session },
                    ),
                    ..st
                }
            } else {
                st
            },
            None => st,
        },
        None => st,
    }
}

/// Whether the last write of the retiring session `generation` has completed.
pub open spec fn last_of_retiring(st: MainView, generation: usize, id: usize) -> bool {
    &&& retiring::retired(st.retiring, generation) matches Some(session)
    &&& session.pending_send matches Some(send)
    &&& send.id == id
    &&& one_less(send.in_flight) == 0
}

/// Whether a send has ended well with this completion: every byte was written and no write is
/// under way.
pub open spec fn ended_well(session: SessionView, send: SendView, status: i32) -> bool {
    &&& status == state::RETURN_SUCCESS
    &&& !session.failed
    &&& send.next_offset == send.payload.len()
    &&& one_less(send.in_flight) == 0
}

/// The message of a write that completed badly.
pub open spec fn completion_failure(status: i32) -> Seq<char> {
    "RFCOMM async write failed: "@ + text::signed_decimal(status as int)
}

/// Takes the completion of a write. Writes of retiring sessions are counted down too, and so
/// are writes that failed, so that buffers are dropped once no write uses them.
pub fn handle_write_complete(
    st: &mut MainThreadState,
    addr: &str,
    generation: usize,
    id: usize,
    status: i32,
) -> (r: WriteCompletion)
    requires
        old(st).wf(),
    ensures
        final(st).wf(),
        if old(st)@.retiring.contains_key(generation) {
            &&& final(st)@ == retiring_drained(old(st)@, generation, id)
            &&& if last_of_retiring(old(st)@, generation, id) {
                r matches WriteCompletion::ReleaseLater(gone) && gone == generation
            } else {
                r is Ignore
            }
        } else if !sends(old(st)@, addr@, generation, id) {
            r is Ignore && final(st)@ == old(st)@
        } else {
            let session = old(st)@.sessions[addr@];
            let send = session.pending_send->0;
            let less = with_send(old(st)@, addr@, Some(drained(send)));
            if session.failed {
                r is Ignore && final(st)@ == less
            } else if status != state::RETURN_SUCCESS {
                &&& r matches WriteCompletion::FailLater { active, reason }
                &&& active == session.active
                &&& reason@ == completion_failure(status)
                &&& final(st)@ == failing(less, addr@, generation)
            } else if ended_well(session, send, status) {
                &&& r matches WriteCompletion::Completed(completion)
                &&& completion == send.completion
                &&& final(st)@ == with_send(old(st)@, addr@, None)
            } else {
                &&& if schedulable(less, addr@, generation) {
                    r matches WriteCompletion::Schedule(delay) && delay == PUMP_YIELD_MS
                } else {
                    r is Ignore
                }
                &&& final(st)@ == scheduled(less, addr@, generation)
            }
        },
{
    match st.retiring.remove(generation) {
        Some(mut retired) => {
            let mut finished: bool = false;
            match retired.pending_send.take() {
                Some(mut send) => {
                    if send.id == id {
                        if send.in_flight > 0 {
                            send.in_flight = send.in_flight - 1;
                        }
                        finished = send.in_flight == 0;
                    }
                    retired.pending_send = Some(send);
                },
                None => {},
            }
            st.retiring.insert(retired);
            assert(st@.retiring =~= retiring_drained(old(st)@, generation, id).retiring);
            return if finished {
                WriteCompletion::ReleaseLater(generation)
            } else {
                WriteCompletion::Ignore
            };
        },
        None => {},
    }
    let own: bool = match st.sessions.get(addr) {
        Some(session) => session.generation == generation && (match &session.pending_send {
            Some(send) => send.id == id,
            None => false,
        }),
        None => false,
    };
    if !own {
        return WriteCompletion::Ignore;
    }
    let mut failed: bool = false;
    let mut completed: Option<u64> = None;
    match st.sessions.remove(addr) {
        Some(mut session) => {
            failed = session.failed;
            match session.pending_send.take() {
                Some(mut send) => {
                    if send.in_flight > 0 {
                        send.in_flight = send.in_flight - 1;
                    }
                    if status == state::RETURN_SUCCESS && !failed && send.next_offset
                        == send.payload.len() && send.in_flight == 0 {
                        completed = Some(send.completion);
                    } else {
                        session.pending_send = Some(send);
                    }
                },
                None => {},
            }
            st.sessions.insert(addr.to_owned(), session);
        },
        None => {},
    }
    if failed {
        WriteCompletion::Ignore
    } else if status != state::RETURN_SUCCESS {
        match session::fail_session_later(st, addr, generation) {
            Some(active) => WriteCompletion::FailLater {
                active,
                reason: text::joined(
                    "RFCOMM async write failed: ",
                    text::signed_decimal_text(status).as_str(),
                ),
            },
            None => WriteCompletion::Ignore,
        }
    } else {
        match completed {
            Some(completion) => WriteCompletion::Completed(completion),
            None => if schedule_pump(st, addr, generation) {
                WriteCompletion::Schedule(PUMP_YIELD_MS)
            } else {
                WriteCompletion::Ignore
            },
        }
    }
}

/// Looks at what a caller wants to send: nothing is to be done for no bytes, and a caller on
/// the main run loop would wait for itself. Returns the payload to send, if there is one.
pub fn send_impl(data: &[u8], on_main_loop: bool) -> (r: Result<Option<Arc<Vec<u8>>>, MacError>)
    ensures
        if data@.len() == 0 {
            r == Ok::<Option<Arc<Vec<u8>>>, MacError>(None)
        } else if on_main_loop {
            r == Err::<Option<Arc<Vec<u8>>>, MacError>(MacError::SendOnMainLoop)
        } else {
            r matches Ok(Some(payload)) && payload@ == data@
        },
{
    if data.len() == 0 {
        return Ok(None);
    }
    if on_main_loop {
        return Err(MacError::SendOnMainLoop);
    }
    Ok(Some(Arc::new(bytes::copy_of_all(data))))
}

/// A send that was accepted.
#[derive(Debug, PartialEq, Eq)]
pub struct AcceptedSend {
    pub generation: usize,
    pub id: usize,
}

/// Whether a device can take bytes at all.
pub open spec fn connected(st: MainView, addr: Seq<char>) -> bool {
    &&& st.sessions.contains_key(addr)
    &&& st.sessions[addr].opened
    &&& !st.sessions[addr].failed
}

/// The send of a payload of which nothing was written yet.
pub open spec fn fresh_send(id: usize, payload: Seq<u8>, completion: u64) -> SendView {
    SendView { id, payload, next_offset: 0, in_flight: 0, completion }
}

/// The state with the number for a send given out.
pub open spec fn numbered(st: MainView) -> MainView {
    MainView { next_id: state::id_after(st.next_id), ..st }
}

/// Accepts a payload for a device, which can have one send at a time. The first turn of writes
/// is due at once.
pub fn begin_send(
    st: &mut MainThreadState,
    addr: &str,
    payload: Arc<Vec<u8>>,
    completion: u64,
) -> (r: Result<AcceptedSend, MacError>)
    requires
        old(st).wf(),
    ensures
        final(st).wf(),
        ({
            let key = address::normalized(addr@);
            let st0 = numbered(old(st)@);
            let id = st0.next_id;
            if !connected(st0, key) {
                r == Err::<AcceptedSend, MacError>(MacError::NotConnected) && final(st)@ == st0
            } else if st0.sessions[key].pending_send is Some {
                r == Err::<AcceptedSend, MacError>(MacError::SendInProgress) && final(st)@ == st0
            } else {
                r == Ok::<AcceptedSend, MacError>(
                    AcceptedSend { generation: st0.sessions[key].generation, id },
                ) && final(st)@ == with_send(
                    st0,
                    key,
                    Some(fresh_send(id, payload@, completion)),
                )
            }
        }),
{
    let key: String = address::normalize_addr_from_macos(addr);
    let id: usize = state::next_id(st);
    let (open, busy): (bool, bool) = match st.sessions.get(key.as_str()) {
        Some(session) => (session.opened && !session.failed, session.pending_send.is_some()),
        None => (false, false),
    };
    if !open {
        return Err(MacError::NotConnected);
    }
    if busy {
        return Err(MacError::SendInProgress);
    }
    match st.sessions.remove(key.as_str()) {
        Some(mut session) => {
            let generation: usize = session.generation;
            assert(payload.len() <= usize::MAX);
            session.pending_send = Some(
                PendingRfcommSend { id, payload, next_offset: 0, in_flight: 0, completion },
            );
            st.sessions.insert(key, session);
            Ok(AcceptedSend { generation, id })
        },
        None => Err(MacError::NotConnected),
    }
}

/// The message of a send that did not end in time; `error` says why waiting ended.
pub open spec fn timeout_message(error: Seq<char>) -> Seq<char> {
    "RFCOMM async send did not complete within "@ + (text::decimal(SEND_TIMEOUT_SECS as nat)
        + ("s: "@ + error))
}

/// The message of a send that did not end in time.
pub fn timeout_text(error: &str) -> (r: String)
    ensures
        r@ == timeout_message(error@),
{
    text::joined(
        "RFCOMM async send did not complete within ",
        text::joined(
            text::decimal_text(SEND_TIMEOUT_SECS).as_str(),
            text::joined("s: ", error).as_str(),
        ).as_str(),
    )
}

/// Gives up a device whose send did not end in time: what was delivered is not known, so the
/// stream of bytes is not used again. A send that has ended meanwhile changes nothing.
pub fn send_timed_out(
    st: &mut MainThreadState,
    shared: &mut SharedState,
    addr: &str,
    send: &AcceptedSend,
    reason: String,
) -> (r: Option<DroppedDevice>)
    requires
        old(st).wf(),
    ensures
        final(st).wf(),
        ({
            let key = address::normalized(addr@);
            if sends(old(st)@, key, send.generation, send.id) {
                &&& r matches Some(gone)
                &&& session::ends_if_any(
                    gone.closed,
                    Some(old(st)@.sessions[key]),
                    reason@,
                    false,
                )
                &&& session::tells(gone.told, old(shared)@, key, Some(reason@))
                &&& final(st)@ == session::dropped(old(st)@, key)
                &&& final(shared)@ == session::cleared(old(shared)@, key)
            } else {
                r is None && final(st)@ == old(st)@ && final(shared)@ == old(shared)@
            }
        }),
{
    let key: String = address::normalize_addr_from_macos(addr);
    let current: bool = match st.sessions.get(key.as_str()) {
        Some(session) => session.generation == send.generation && (match &session.pending_send {
            Some(pending) => pending.id == send.id,
            None => false,
        }),
        None => false,
    };
    if current {
        Some(session::fail_connection(st, shared, key.as_str(), reason))
    } else {
        None
    }
}

/// How many bytes one write to a device may hold, while it is connected.
pub fn get_max_send_len_impl(st: &MainThreadState, addr: &str) -> (r: Result<
    Option<usize>,
    MacError,
>)
    ensures
        r == Ok::<Option<usize>, MacError>(
            if connected(st@, address::normalized(addr@)) {
                Some(st@.sessions[address::normalized(addr@)].mtu)
            } else {
                None
            },
        ),
{
    let key: String = address::normalize_addr_from_macos(addr);
    match st.sessions.get(key.as_str()) {
        Some(session) => if session.opened && !session.failed {
            Ok(Some(session.mtu))
        } else {
            Ok(None)
        },
        None => Ok(None),
    }
}

/// The pieces in which the rest of a send is written.
pub open spec fn pieces(payload: Seq<u8>, mtu: int, offset: int) -> Seq<Seq<u8>>
    decreases payload.len() - offset,
{
    if mtu < 1 || offset < 0 || payload.len() <= offset {
        Seq::empty()
    } else {
        let len = if mtu <= payload.len() - offset {
            mtu
        } else {
            payload.len() - offset
        };
        seq![payload.subrange(offset, offset + len)] + pieces(payload, mtu, offset + len)
    }
}

/// Some pieces, one after the other.
pub open spec fn all_of(parts: Seq<Seq<u8>>) -> Seq<u8>
    decreases parts.len(),
{
    if parts.len() == 0 {
        Seq::empty()
    } else {
        parts[0] + all_of(parts.skip(1))
    }
}

/// The pieces of a send make up what is left of its payload, in order, and each holds at least
/// one byte and no more than one unit of transfer.
pub proof fn law_pieces_make_up_the_payload(payload: Seq<u8>, mtu: int, offset: int)
    requires
        1 <= mtu,
        0 <= offset <= payload.len(),
    ensures
        all_of(pieces(payload, mtu, offset)) == payload.skip(offset),
        forall|i: int|
            0 <= i < pieces(payload, mtu, offset).len() ==> 1 <= (#[trigger] pieces(
                payload,
                mtu,
                offset,
            )[i]).len() <= mtu,
    decreases payload.len() - offset,
{
    if offset < payload.len() {
        let len = if mtu <= payload.len() - offset {
            mtu
        } else {
            payload.len() - offset
        };
        law_pieces_make_up_the_payload(payload, mtu, offset + len);
        let rest = pieces(payload, mtu, offset + len);
        assert(pieces(payload, mtu, offset).skip(1) =~= rest);
        assert(payload.subrange(offset, offset + len) + payload.skip(offset + len)
            =~= payload.skip(offset));
        assert forall|i: int| 0 <= i < pieces(payload, mtu, offset).len() implies 1 <= (
        #[trigger] pieces(payload, mtu, offset)[i]).len() <= mtu by {
            if i > 0 {
                assert(pieces(payload, mtu, offset)[i] == rest[i - 1]);
            }
        }
    } else {
        assert(payload.skip(offset) =~= Seq::<u8>::empty());
    }
}

/// A write that is taken is the next piece of the send, and leaves the pieces after it.
pub proof fn law_writes_follow_the_pieces(st: MainView, addr: Seq<char>, generation: usize)
    requires
        state::well_formed(st),
        writable(st, addr, generation),
    ensures
        ({
            let session = st.sessions[addr];
            let send = session.pending_send->0;
            let len = write_len(session, send);
            let left = pieces(send.payload, session.mtu as int, send.next_offset as int);
            let next = reserved(st, addr).sessions[addr].pending_send->0;
            &&& left[0] == send.payload.subrange(
                send.next_offset as int,
                send.next_offset + len,
            )
            &&& pieces(next.payload, session.mtu as int, next.next_offset as int) == left.skip(1)
        }),
{
    let session = st.sessions[addr];
    let send = session.pending_send->0;
    let len = write_len(session, send);
    let left = pieces(send.payload, session.mtu as int, send.next_offset as int);
    assert(left.skip(1) =~= pieces(send.payload, session.mtu as int, send.next_offset + len));
}

/// Taking a write back leaves the state as it was before the write was taken.
pub proof fn law_rejected_write_changes_nothing(st: MainView, addr: Seq<char>, generation: usize)
    requires
        state::well_formed(st),
        writable(st, addr, generation),
    ensures
        ({
            let send = st.sessions[addr].pending_send->0;
            unreserved(reserved(st, addr), addr, generation, send.id, send.next_offset) == st
        }),
{
    let send = st.sessions[addr].pending_send->0;
    let back = unreserved(reserved(st, addr), addr, generation, send.id, send.next_offset);
    assert(back.sessions[addr] == st.sessions[addr]);
    assert(back.sessions =~= st.sessions);
}

/// What belongs to a session that was replaced or has ended leaves the state alone: no turn is
/// scheduled or begun, no write is taken or taken back, and nothing fails.
pub proof fn law_stale_events_change_nothing(
    st: MainView,
    addr: Seq<char>,
    generation: usize,
    id: usize,
    offset: usize,
)
    requires
        !session::is_session(st, addr, generation),
    ensures
        scheduled(st, addr, generation) == st,
        turn_begun(st, addr, generation) == st,
        reserved_if_any(st, addr, generation) == st,
        unreserved(st, addr, generation, id, offset) == st,
        failing(st, addr, generation) == st,
        !sends(st, addr, generation, id),
{
}

/// Whether a send that is pending has not ended: bytes are left to write, or writes are under
/// way.
pub open spec fn unfinished(st: MainView, addr: Seq<char>) -> bool {
    st.sessions.contains_key(addr) && !st.sessions[addr].failed ==> (
    st.sessions[addr].pending_send matches Some(send) ==> send.in_flight > 0 || send.next_offset
        < send.payload.len())
}

/// Whether something will come that goes on with a send that is pending: a write is under way,
/// or a turn is scheduled.
pub open spec fn awaited(st: MainView, addr: Seq<char>) -> bool {
    st.sessions.contains_key(addr) && !st.sessions[addr].failed ==> (
    st.sessions[addr].pending_send matches Some(send) ==> send.in_flight > 0
        || st.sessions[addr].pump_scheduled)
}

/// A send is never forgotten. However a turn of writes ends, a write is under way or another
/// turn is scheduled, unless the session has failed; and so it is when a write has completed
/// and the send has not ended.
pub proof fn law_send_is_never_forgotten(
    st: MainView,
    addr: Seq<char>,
    generation: usize,
    id: usize,
    offset: usize,
)
    requires
        state::well_formed(st),
        session::is_session(st, addr, generation),
        unfinished(st, addr),
    ensures
        !writable(st, addr, generation) ==> awaited(st, addr),
        awaited(scheduled(st, addr, generation), addr),
        awaited(failing(st, addr, generation), addr),
        awaited(
            scheduled(unreserved(st, addr, generation, id, offset), addr, generation),
            addr,
        ),
        awaited(failing(unreserved(st, addr, generation, id, offset), addr, generation), addr),
        sends(st, addr, generation, id) ==> ({
            let session = st.sessions[addr];
            let send = session.pending_send->0;
            let less = with_send(st, addr, Some(drained(send)));
            &&& session.failed ==> awaited(less, addr)
            &&& awaited(failing(less, addr, generation), addr)
            &&& awaited(scheduled(less, addr, generation), addr)
            &&& awaited(with_send(st, addr, None), addr)
        }),
{
}

/// A send that is pending has not ended: what begins, continues or takes back a write keeps it
/// so, and so does the completion of a write that does not end the send.
pub proof fn law_pending_send_is_unfinished(
    st: MainView,
    addr: Seq<char>,
    generation: usize,
    id: usize,
    payload: Seq<u8>,
    completion: u64,
    offset: usize,
    status: i32,
)
    requires
        state::well_formed(st),
        session::is_session(st, addr, generation),
        unfinished(st, addr),
        payload.len() > 0,
    ensures
        unfinished(with_send(st, addr, Some(fresh_send(id, payload, completion))), addr),
        unfinished(scheduled(st, addr, generation), addr),
        unfinished(turn_begun(st, addr, generation), addr),
        unfinished(reserved_if_any(st, addr, generation), addr),
        unfinished(failing(st, addr, generation), addr),
        sends(st, addr, generation, id) && offset < st.sessions[addr].pending_send->0.payload.len()
            ==> unfinished(unreserved(st, addr, generation, id, offset), addr),
        sends(st, addr, generation, id) ==> ({
            let session = st.sessions[addr];
            let send = session.pending_send->0;
            let less = with_send(st, addr, Some(drained(send)));
            status == state::RETURN_SUCCESS && !ended_well(session, send, status) ==> unfinished(
                scheduled(less, addr, generation),
                addr,
            )
        }),
        unfinished(with_send(st, addr, None), addr),
{
}

} // verus!
