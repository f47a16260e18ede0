//! The order in which things are stopped.
use vstd::prelude::*;

use crate::linux::connect::ConnectStart;
use crate::linux::scan::ScanHandles;
use crate::linux::state::StoppedConnection;
use crate::linux::teardown::Teardown;

verus! {

/// One step of stopping something.
#[derive(Debug, PartialEq, Eq, Clone, Copy)]
pub enum StopStep {
    /// Raise this flag.
    RaiseFlag(u64),
    /// Abort the task with this number.
    AbortTask(u64),
    /// Drop this stream, which closes the RFCOMM connection.
    DropStream(u64),
}

/// A flag that is raised, if there is one.
pub open spec fn raised(flag: Option<u64>) -> Seq<StopStep> {
    match flag {
        Some(flag) => seq![StopStep::RaiseFlag(flag)],
        None => Seq::empty(),
    }
}

/// A task that is aborted, if there is one.
pub open spec fn aborted(task: Option<u64>) -> Seq<StopStep> {
    match task {
        Some(task) => seq![StopStep::AbortTask(task)],
        None => Seq::empty(),
    }
}

/// How a scan is stopped: its flag is raised before its task is aborted.
pub open spec fn scan_steps(scan: ScanHandles) -> Seq<StopStep> {
    raised(scan.stop) + aborted(scan.thread)
}

/// How a connection is stopped: first its reader, by its flag and then by its task, and then the
/// connection itself.
pub open spec fn connection_steps(connection: StoppedConnection) -> Seq<StopStep> {
    raised(connection.read_stop) + aborted(connection.read_thread) + seq![
        StopStep::DropStream(connection.socket_stream),
    ]
}

/// How several connections are stopped, one after the other.
pub open spec fn all_connection_steps(connections: Seq<StoppedConnection>) -> Seq<StopStep>
    decreases connections.len(),
{
    if connections.len() == 0 {
        Seq::empty()
    } else {
        all_connection_steps(connections.drop_last()) + connection_steps(connections.last())
    }
}

/// How everything is stopped: every connection, and then the scan.
pub open spec fn teardown_steps(end: Teardown) -> Seq<StopStep> {
    all_connection_steps(end.connections@) + scan_steps(end.scan)
}

/// What is stopped before a connection is made: the scan, and then an earlier connection to the
/// same device.
pub open spec fn connect_steps(start: ConnectStart) -> Seq<StopStep> {
    scan_steps(start.scan) + (match start.begun {
        Ok(begun) => match begun.replaced {
            Some(replaced) => connection_steps(replaced),
            None => Seq::empty(),
        },
        Err(_) => Seq::empty(),
    })
}

fn add_flag(steps: &mut Vec<StopStep>, flag: Option<u64>)
    ensures
        final(steps)@ == old(steps)@ + raised(flag),
{
    match flag {
        Some(flag) => {
            steps.push(StopStep::RaiseFlag(flag));
        },
        None => {},
    }
    assert(steps@ =~= old(steps)@ + raised(flag));
}

fn add_task(steps: &mut Vec<StopStep>, task: Option<u64>)
    ensures
        final(steps)@ == old(steps)@ + aborted(task),
{
    match task {
        Some(task) => {
            steps.push(StopStep::AbortTask(task));
        },
        None => {},
    }
    assert(steps@ =~= old(steps)@ + aborted(task));
}

fn add_connection(steps: &mut Vec<StopStep>, connection: &StoppedConnection)
    ensures
        final(steps)@ == old(steps)@ + connection_steps(*connection),
{
    add_flag(steps, connection.read_stop);
    add_task(steps, connection.read_thread);
    steps.push(StopStep::DropStream(connection.socket_stream));
    assert(steps@ =~= old(steps)@ + connection_steps(*connection));
}

fn add_scan(steps: &mut Vec<StopStep>, scan: &ScanHandles)
    ensures
        final(steps)@ == old(steps)@ + scan_steps(*scan),
{
    add_flag(steps, scan.stop);
    add_task(steps, scan.thread);
    assert(steps@ =~= old(steps)@ + scan_steps(*scan));
}

impl ScanHandles {
    /// How the scan is stopped.
    pub fn steps(&self) -> (r: Vec<StopStep>)
        ensures
            r@ == scan_steps(*self),
    {
        let mut steps: Vec<StopStep> = Vec::new();
        add_scan(&mut steps, self);
        assert(steps@ =~= scan_steps(*self));
        steps
    }
}

impl StoppedConnection {
    /// How the connection is stopped.
    pub fn steps(&self) -> (r: Vec<StopStep>)
        ensures
            r@ == connection_steps(*self),
    {
        let mut steps: Vec<StopStep> = Vec::new();
        add_connection(&mut steps, self);
        assert(steps@ =~= connection_steps(*self));
        steps
    }
}

impl Teardown {
    /// How everything is stopped.
    pub fn steps(&self) -> (r: Vec<StopStep>)
        ensures
            r@ == teardown_steps(*self),
    {
        let mut steps: Vec<StopStep> = Vec::new();
        let ghost all = self.connections@;
        let mut i: usize = 0;
        assert(all.take(0) =~= Seq::<StoppedConnection>::empty());
        while i < self.connections.len()
            invariant
                i <= self.connections@.len(),
                all == self.connections@,
                steps@ == all_connection_steps(all.take(i as int)),
            decreases self.connections@.len() - i,
        {
            add_connection(&mut steps, &self.connections[i]);
            assert(all.take(i + 1).drop_last() =~= all.take(i as int));
            i = i + 1;
        }
        assert(all.take(i as int) =~= all);
        add_scan(&mut steps, &self.scan);
        steps
    }
}

impl ConnectStart {
    /// What is stopped before the connection is made.
    pub fn steps(&self) -> (r: Vec<StopStep>)
        ensures
            r@ == connect_steps(*self),
    {
        let mut steps: Vec<StopStep> = Vec::new();
        add_scan(&mut steps, &self.scan);
        match &self.begun {
            Ok(begun) => match &begun.replaced {
                Some(replaced) => {
                    add_connection(&mut steps, replaced);
                },
                None => {},
            },
            Err(_) => {},
        }
        assert(steps@ =~= connect_steps(*self));
        steps
    }
}

/// A connection is closed only after its reader was told to return, and the scan is stopped only
/// after every connection.
pub proof fn law_streams_are_dropped_last(connection: StoppedConnection, end: Teardown)
    ensures
        connection_steps(connection).last() == StopStep::DropStream(connection.socket_stream),
        forall|i: int|
            0 <= i < connection_steps(connection).len() - 1 ==> !((#[trigger] connection_steps(
                connection,
            )[i]) is DropStream),
        all_connection_steps(end.connections@).is_prefix_of(teardown_steps(end)),
        forall|i: int|
            all_connection_steps(end.connections@).len() <= i < teardown_steps(end).len() ==> !((
            #[trigger] teardown_steps(end)[i]) is DropStream),
{
}

} // verus!
