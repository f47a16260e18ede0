//! The order in which things are done.
use vstd::prelude::*;

use crate::win::connect::MadeConnection;
use crate::win::scan::{StackCleanup, StoppedScan};
use crate::win::state::{DisconnectedConnection, SocketClose};

verus! {

/// One step of what is left to do.
#[derive(Debug, PartialEq, Eq)]
pub enum Step {
    /// Set this event.
    SetEvent(u64),
    /// Have a thread of its own wait for this thread, and tell with
    /// [`crate::win::scan::scan_thread_reaped`].
    Reap(u64),
    /// Wait until this thread of a scan has returned.
    WaitFor(u64),
    /// Raise this flag.
    RaiseFlag(u64),
    /// Shut this socket down in both directions.
    ShutDown(u64),
    /// Go on with [`crate::win::state::finish_disconnect`].
    Close(DisconnectedConnection),
    /// Wait for this reader.
    Join(u64),
    /// Close this socket while this lock is held.
    CloseSocket { lock: u64, socket: u64, connection_id: u64 },
    /// Stop WinSock.
    StopWinsock,
    /// Call this callback.
    Call(u64),
}

/// An event that is set, if there is one.
pub open spec fn event_set(event: Option<u64>) -> Seq<Step> {
    match event {
        Some(event) => seq![Step::SetEvent(event)],
        None => Seq::empty(),
    }
}

/// A thread that is reaped, if there is one.
pub open spec fn reaped(thread: Option<u64>) -> Seq<Step> {
    match thread {
        Some(thread) => seq![Step::Reap(thread)],
        None => Seq::empty(),
    }
}

/// A connection that is closed, if there is one.
pub open spec fn closed(disconnected: Option<DisconnectedConnection>) -> Seq<Step> {
    match disconnected {
        Some(disconnected) => seq![Step::Close(disconnected)],
        None => Seq::empty(),
    }
}

/// How a scan is stopped: its thread is told, then left to be reaped, and then, where the caller
/// waits, every thread is waited for.
pub open spec fn scan_steps(stopped: StoppedScan) -> Seq<Step> {
    event_set(stopped.stop_event) + reaped(stopped.reap) + stopped.wait_for@.map_values(
        |thread: u64| Step::WaitFor(thread),
    )
}

/// What is done at once for a connection that ended, so that its reader returns.
pub open spec fn stop_steps(disconnected: DisconnectedConnection) -> Seq<Step> {
    seq![Step::RaiseFlag(disconnected.stop_flag), Step::ShutDown(disconnected.socket)]
}

/// How a socket is closed: its reader is waited for before.
pub open spec fn close_steps(close: SocketClose) -> Seq<Step> {
    (match close.join {
        Some(reader) => seq![Step::Join(reader)],
        None => Seq::empty(),
    }) + seq![
        Step::CloseSocket {
            lock: close.lock,
            socket: close.socket,
            connection_id: close.connection_id,
        },
    ]
}

/// How the backend shuts down: the scan is stopped, then the connection is closed, and WinSock is
/// stopped last.
pub open spec fn cleanup_steps(cleanup: StackCleanup) -> Seq<Step> {
    event_set(cleanup.stop_event) + reaped(cleanup.reap) + closed(cleanup.disconnected) + (
    if cleanup.stop_winsock {
        seq![Step::StopWinsock]
    } else {
        Seq::empty()
    })
}

/// What follows a connection that was made: the one that it replaces is closed before the
/// callback is called.
pub open spec fn made_steps(made: MadeConnection) -> Seq<Step> {
    closed(made.displaced) + (match made.callback {
        Some(callback) => seq![Step::Call(callback)],
        None => Seq::empty(),
    })
}

fn add_event(steps: &mut Vec<Step>, event: Option<u64>)
    ensures
        final(steps)@ == old(steps)@ + event_set(event),
{
    match event {
        Some(event) => {
            steps.push(Step::SetEvent(event));
        },
        None => {},
    }
    assert(steps@ =~= old(steps)@ + event_set(event));
}

fn add_reap(steps: &mut Vec<Step>, thread: Option<u64>)
    ensures
        final(steps)@ == old(steps)@ + reaped(thread),
{
    match thread {
        Some(thread) => {
            steps.push(Step::Reap(thread));
        },
        None => {},
    }
    assert(steps@ =~= old(steps)@ + reaped(thread));
}

fn add_close(steps: &mut Vec<Step>, disconnected: Option<DisconnectedConnection>)
    ensures
        final(steps)@ == old(steps)@ + closed(disconnected),
{
    match disconnected {
        Some(gone) => {
            steps.push(Step::Close(gone));
        },
        None => {},
    }
    assert(steps@ =~= old(steps)@ + closed(disconnected));
}

impl StoppedScan {
    /// How the scan is stopped.
    pub fn steps(&self) -> (r: Vec<Step>)
        ensures
            r@ == scan_steps(*self),
    {
        let mut steps: Vec<Step> = Vec::new();
        add_event(&mut steps, self.stop_event);
        add_reap(&mut steps, self.reap);
        let ghost start = event_set(self.stop_event) + reaped(self.reap);
        let ghost wait = |thread: u64| Step::WaitFor(thread);
        let mut i: usize = 0;
        assert(steps@ =~= start + self.wait_for@.take(0).map_values(wait));
        while i < self.wait_for.len()
            invariant
                i <= self.wait_for@.len(),
                wait == (|thread: u64| Step::WaitFor(thread)),
                steps@ == start + self.wait_for@.take(i as int).map_values(wait),
            decreases self.wait_for@.len() - i,
        {
            steps.push(Step::WaitFor(self.wait_for[i]));
            assert(steps@ =~= start + self.wait_for@.take(i + 1).map_values(wait));
            i = i + 1;
        }
        assert(self.wait_for@.take(i as int) =~= self.wait_for@);
        assert(steps@ =~= scan_steps(*self));
        steps
    }
}

impl DisconnectedConnection {
    /// What is done at once, so that the reader of the connection returns.
    pub fn stop_steps(&self) -> (r: Vec<Step>)
        ensures
            r@ == stop_steps(*self),
    {
        let mut steps: Vec<Step> = Vec::new();
        steps.push(Step::RaiseFlag(self.stop_flag));
        steps.push(Step::ShutDown(self.socket));
        assert(steps@ =~= stop_steps(*self));
        steps
    }
}

impl SocketClose {
    /// How the socket is closed.
    pub fn steps(&self) -> (r: Vec<Step>)
        ensures
            r@ == close_steps(*self),
    {
        let mut steps: Vec<Step> = Vec::new();
        match self.join {
            Some(reader) => {
                steps.push(Step::Join(reader));
            },
            None => {},
        }
        steps.push(
            Step::CloseSocket {
                lock: self.lock,
                socket: self.socket,
                connection_id: self.connection_id,
            },
        );
        assert(steps@ =~= close_steps(*self));
        steps
    }
}

impl StackCleanup {
    /// How the backend shuts down.
    pub fn steps(self) -> (r: Vec<Step>)
        ensures
            r@ == cleanup_steps(self),
    {
        let mut steps: Vec<Step> = Vec::new();
        add_event(&mut steps, self.stop_event);
        add_reap(&mut steps, self.reap);
        add_close(&mut steps, self.disconnected);
        if self.stop_winsock {
            steps.push(Step::StopWinsock);
        }
        assert(steps@ =~= cleanup_steps(self));
        steps
    }
}

impl MadeConnection {
    /// What follows the connection.
    pub fn steps(self) -> (r: Vec<Step>)
        ensures
            r@ == made_steps(self),
    {
        let mut steps: Vec<Step> = Vec::new();
        add_close(&mut steps, self.displaced);
        match self.callback {
            Some(callback) => {
                steps.push(Step::Call(callback));
            },
            None => {},
        }
        assert(steps@ =~= made_steps(self));
        steps
    }
}

/// WinSock is stopped after everything else, the socket's close among it.
pub proof fn law_winsock_is_stopped_last(cleanup: StackCleanup)
    ensures
        forall|i: int|
            0 <= i < cleanup_steps(cleanup).len() && (#[trigger] cleanup_steps(cleanup)[i])
                is StopWinsock ==> i == cleanup_steps(cleanup).len() - 1,
        cleanup.stop_winsock ==> cleanup_steps(cleanup).last() is StopWinsock,
        cleanup.disconnected matches Some(gone) ==> cleanup_steps(cleanup).contains(
            Step::Close(gone),
        ),
{
    match cleanup.disconnected {
        Some(gone) => {
            let i = (event_set(cleanup.stop_event) + reaped(cleanup.reap)).len() as int;
            assert(cleanup_steps(cleanup)[i] == Step::Close(gone));
        },
        None => {},
    }
}

} // verus!
