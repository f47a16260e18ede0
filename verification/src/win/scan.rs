//! Scanning for devices: a thread asks for devices, cycle after cycle, until it is stopped.
use vstd::prelude::*;

use crate::mac_address;
use crate::models;
use crate::models::{DeviceView, SPPDevice};
use crate::numbers;
use crate::win::address;
use crate::win::state;
use crate::win::state::{DisconnectedConnection, GlobalState, StateView};

verus! {

/// How long the thread rests between two cycles, in milliseconds.
pub const INQUIRY_CYCLE_PAUSE_MS: u32 = 3000;

/// How long one inquiry takes, in units of 1.28 seconds.
pub const INQUIRY_TIMEOUT_MULTIPLIER: u8 = 3;

/// Whether a scan runs or its thread was not taken care of yet.
pub open spec fn scan_present(st: StateView) -> bool {
    st.is_scanning || st.scan_thread is Some
}

/// The threads of scans that have not returned, as far as is known: those of stopped scans, then
/// the one of the scan that runs.
pub open spec fn threads_of(st: StateView) -> Seq<u64> {
    match st.scan_thread {
        Some(thread) => st.reaping.push(thread),
        None => st.reaping,
    }
}

/// The state without a running scan.
pub open spec fn scan_ended(st: StateView) -> StateView {
    if scan_present(st) {
        StateView {
            scan_stop_event: None,
            scan_thread: None,
            is_scanning: false,
            scan_generation: state::following(st.scan_generation),
            ..st
        }
    } else {
        st
    }
}

/// The state when the scan was stopped: its thread is remembered until it has returned.
pub open spec fn scan_stopped(st: StateView) -> StateView {
    StateView { reaping: threads_of(st), ..scan_ended(st) }
}

/// What is left to do for a scan that was stopped; `steps` gives the order.
#[derive(Debug, PartialEq, Eq)]
pub struct StoppedScan {
    /// The event to set.
    pub stop_event: Option<u64>,
    /// The thread that a thread of its own is to wait for, and to tell of with
    /// [`scan_thread_reaped`].
    pub reap: Option<u64>,
    /// The threads whose return the caller waits for.
    pub wait_for: Vec<u64>,
}

/// Whether this is what is left to do for a scan that was stopped: where the caller waits, it
/// waits for every thread that has not returned.
pub open spec fn stops(stopped: StoppedScan, st: StateView, wait: bool) -> bool {
    &&& stopped.stop_event == (if scan_present(st) {
        st.scan_stop_event
    } else {
        None
    })
    &&& stopped.reap == st.scan_thread
    &&& stopped.wait_for@ == (if wait {
        threads_of(st)
    } else {
        Seq::empty()
    })
}

/// Stops the scan; `wait` says whether the caller waits until every thread has returned.
pub fn stop_scan_inner(st: &mut GlobalState, wait: bool) -> (r: StoppedScan)
    requires
        old(st).wf(),
    ensures
        final(st).wf(),
        final(st)@ == scan_stopped(old(st)@),
        stops(r, old(st)@, wait),
{
    let reap: Option<u64> = st.scan_thread;
    let mut stop_event: Option<u64> = None;
    if st.is_scanning || st.scan_thread.is_some() {
        stop_event = st.scan_stop_event;
        st.scan_stop_event = None;
        st.scan_thread = None;
        st.is_scanning = false;
        st.scan_generation = state::number_after(st.scan_generation);
    }
    match reap {
        Some(thread) => {
            st.reaping.push(thread);
        },
        None => {},
    }
    let wait_for: Vec<u64> = if wait {
        st.reaping.clone()
    } else {
        Vec::new()
    };
    assert(wait ==> wait_for@ =~= st.reaping@);
    StoppedScan { stop_event, reap, wait_for }
}

/// Stops the scan. An inquiry takes seconds and cannot be interrupted, so its thread is not
/// waited for.
pub fn stop_scan_impl(st: &mut GlobalState) -> (r: StoppedScan)
    requires
        old(st).wf(),
    ensures
        final(st).wf(),
        final(st)@ == scan_stopped(old(st)@),
        stops(r, old(st)@, false),
{
    stop_scan_inner(st, false)
}

/// Stops the scan and has the caller wait for its thread and for those of earlier scans: an
/// inquiry would disturb a connection.
pub fn stop_scan_and_wait(st: &mut GlobalState) -> (r: StoppedScan)
    requires
        old(st).wf(),
    ensures
        final(st).wf(),
        final(st)@ == scan_stopped(old(st)@),
        stops(r, old(st)@, true),
{
    stop_scan_inner(st, true)
}

/// Takes the news that the thread of a stopped scan has returned.
pub fn scan_thread_reaped(st: &mut GlobalState, thread: u64)
    requires
        old(st).wf(),
    ensures
        final(st).wf(),
        final(st)@ == (StateView { reaping: numbers::others(old(st)@.reaping, thread), ..old(st)@ }),
{
    st.reaping = numbers::without(&st.reaping, thread);
}

/// The state with no device found yet.
pub open spec fn scan_prepared(st: StateView) -> StateView {
    StateView { scanned_devices: Seq::empty(), ..st }
}

/// Prepares a scan, once WinSock is started and an earlier scan was stopped; says whether an
/// event and a thread are to be made for it. Where a scan runs meanwhile, that one goes on.
pub fn start_scan_impl(st: &mut GlobalState) -> (r: bool)
    requires
        old(st).wf(),
    ensures
        final(st).wf(),
        r == !old(st)@.is_scanning,
        final(st)@ == (if old(st)@.is_scanning {
            old(st)@
        } else {
            scan_prepared(old(st)@)
        }),
{
    if st.is_scanning {
        return false;
    }
    st.scanned_devices.clear();
    true
}

/// The state when a scan with this event and this thread runs.
pub open spec fn scan_running(st: StateView, stop_event: u64, thread: u64) -> StateView {
    StateView {
        scan_stop_event: Some(stop_event),
        is_scanning: true,
        scan_generation: state::following(st.scan_generation),
        scan_thread: Some(thread),
        reaping: threads_of(st),
        ..st
    }
}

/// A scan that was begun.
#[derive(Debug, PartialEq, Eq, Clone, Copy)]
pub struct BegunScan {
    /// The generation under which its thread reports.
    pub generation: u64,
    /// The thread of an earlier scan that was not taken care of yet; it is to be waited for on a
    /// thread of its own, which tells with [`scan_thread_reaped`].
    pub reap: Option<u64>,
}

/// Records the event and the thread of a scan.
pub fn scan_begun(st: &mut GlobalState, stop_event: u64, thread: u64) -> (r: BegunScan)
    requires
        old(st).wf(),
    ensures
        final(st).wf(),
        r.generation == final(st)@.scan_generation,
        r.reap == old(st)@.scan_thread,
        final(st)@ == scan_running(old(st)@, stop_event, thread),
{
    let reap: Option<u64> = st.scan_thread;
    match reap {
        Some(earlier) => {
            st.reaping.push(earlier);
        },
        None => {},
    }
    st.scan_stop_event = Some(stop_event);
    st.is_scanning = true;
    st.scan_generation = state::number_after(st.scan_generation);
    st.scan_thread = Some(thread);
    BegunScan { generation: st.scan_generation, reap }
}

/// What the thread of a scan does.
#[derive(Debug, PartialEq, Eq, Clone, Copy)]
pub enum ScanStep {
    /// Look whether the stop event is set, before a cycle.
    CheckBeforeCycle,
    /// Ask for the first device; one that is found is remembered.
    FindFirst,
    /// Look whether the stop event is set, before the next device.
    CheckBeforeNext,
    /// Ask for the next device; one that is found is remembered.
    FindNext,
    /// Wait for the stop event, for [`INQUIRY_CYCLE_PAUSE_MS`] at most.
    Pause,
    /// Return.
    Finished,
}

/// What the thread of a scan does after a step: `answer` says whether the stop event is set, or
/// whether a device was found.
pub open spec fn step_after(step: ScanStep, answer: bool) -> ScanStep {
    match step {
        ScanStep::CheckBeforeCycle => if answer {
            ScanStep::Finished
        } else {
            ScanStep::FindFirst
        },
        ScanStep::FindFirst => if answer {
            ScanStep::CheckBeforeNext
        } else {
            ScanStep::Pause
        },
        ScanStep::CheckBeforeNext => if answer {
            ScanStep::Finished
        } else {
            ScanStep::FindNext
        },
        ScanStep::FindNext => if answer {
            ScanStep::CheckBeforeNext
        } else {
            ScanStep::Pause
        },
        ScanStep::Pause => if answer {
            ScanStep::Finished
        } else {
            ScanStep::CheckBeforeCycle
        },
        ScanStep::Finished => ScanStep::Finished,
    }
}

/// What the thread of a scan does after a step.
pub fn next_scan_step(step: ScanStep, answer: bool) -> (r: ScanStep)
    ensures
        r == step_after(step, answer),
{
    match step {
        ScanStep::CheckBeforeCycle => if answer {
            ScanStep::Finished
        } else {
            ScanStep::FindFirst
        },
        ScanStep::FindFirst => if answer {
            ScanStep::CheckBeforeNext
        } else {
            ScanStep::Pause
        },
        ScanStep::CheckBeforeNext => if answer {
            ScanStep::Finished
        } else {
            ScanStep::FindNext
        },
        ScanStep::FindNext => if answer {
            ScanStep::CheckBeforeNext
        } else {
            ScanStep::Pause
        },
        ScanStep::Pause => if answer {
            ScanStep::Finished
        } else {
            ScanStep::CheckBeforeCycle
        },
        ScanStep::Finished => ScanStep::Finished,
    }
}

/// The device that a scan has found.
pub open spec fn found_device(name: Seq<u16>, addr: u64) -> DeviceView {
    DeviceView {
        name: Some(address::utf16_text(address::before_zero(name))),
        address: mac_address::mac_text(address::address_bytes(addr)),
    }
}

/// The state when the scan of this generation has found a device.
pub open spec fn device_added(st: StateView, device: DeviceView, generation: u64) -> StateView {
    if st.scan_generation == generation {
        StateView { scanned_devices: models::with_device(st.scanned_devices, device), ..st }
    } else {
        st
    }
}

/// Takes a device that a scan has found. A device that is known already stays as it is, and
/// what an earlier scan finds is dropped.
pub fn remember_scanned_device(st: &mut GlobalState, name: &[u16], addr: u64, generation: u64)
    requires
        old(st).wf(),
    ensures
        final(st).wf(),
        final(st)@ == device_added(old(st)@, found_device(name@, addr), generation),
{
    let device = SPPDevice {
        name: Some(address::string_from_utf16_char_array(name)),
        address: address::bth_addr_to_string(addr),
    };
    if st.scan_generation == generation {
        let _ = st.scanned_devices.remember(device);
    }
}

/// The state when the thread of the scan of this generation has returned.
pub open spec fn thread_returned(st: StateView, generation: u64) -> StateView {
    if st.scan_generation == generation {
        StateView { is_scanning: false, ..st }
    } else {
        st
    }
}

/// Takes the news that the thread of a scan has returned.
pub fn scan_finished(st: &mut GlobalState, generation: u64)
    requires
        old(st).wf(),
    ensures
        final(st).wf(),
        final(st)@ == thread_returned(old(st)@, generation),
{
    if st.scan_generation == generation {
        st.is_scanning = false;
    }
}

/// The devices that the scan has found so far.
pub fn get_scanned_devices_impl(st: &GlobalState) -> (r: Vec<SPPDevice>)
    ensures
        models::devices_of(r@) == st@.scanned_devices,
        models::one_per_address(st@.scanned_devices),
{
    st.scanned_devices.snapshot()
}

/// What is left to do when the backend shuts down; `steps` gives the order.
#[derive(Debug, PartialEq, Eq)]
pub struct StackCleanup {
    /// The event to set.
    pub stop_event: Option<u64>,
    /// The thread of the scan; it does not use WinSock, so it is waited for elsewhere.
    pub reap: Option<u64>,
    pub disconnected: Option<DisconnectedConnection>,
    /// Whether WinSock is to be stopped.
    pub stop_winsock: bool,
}

/// Stops the scan, ends the connection and stops WinSock.
pub fn bluetooth_stack_cleanup(st: &mut GlobalState) -> (r: StackCleanup)
    requires
        old(st).wf(),
    ensures
        final(st).wf(),
        r.stop_event == (if scan_present(old(st)@) {
            old(st)@.scan_stop_event
        } else {
            None
        }),
        r.reap == old(st)@.scan_thread,
        r.disconnected == state::disconnection(old(st)@.connection_handles),
        r.stop_winsock == old(st)@.wsa_initialized,
        final(st)@ == (StateView {
            wsa_initialized: false,
            ..state::disconnected(scan_stopped(old(st)@))
        }),
{
    let stopped: StoppedScan = stop_scan_inner(st, false);
    let disconnected: Option<DisconnectedConnection> = state::disconnect_internal(st);
    let stop_winsock: bool = st.wsa_initialized;
    st.wsa_initialized = false;
    StackCleanup {
        stop_event: stopped.stop_event,
        reap: stopped.reap,
        disconnected,
        stop_winsock,
    }
}

/// Gives up everything that the backend holds.
pub fn cleanup_bluetooth_resources(st: &mut GlobalState) -> (r: StackCleanup)
    requires
        old(st).wf(),
    ensures
        final(st).wf(),
        r.stop_event == (if scan_present(old(st)@) {
            old(st)@.scan_stop_event
        } else {
            None
        }),
        r.reap == old(st)@.scan_thread,
        r.disconnected == state::disconnection(old(st)@.connection_handles),
        r.stop_winsock == old(st)@.wsa_initialized,
        final(st)@ == (StateView {
            wsa_initialized: false,
            ..state::disconnected(scan_stopped(old(st)@))
        }),
{
    bluetooth_stack_cleanup(st)
}

/// Once a scan was stopped, what its thread reports changes nothing: neither a device that it
/// finds nor its return.
pub proof fn law_stopped_scan_changes_nothing(st: StateView, device: DeviceView)
    requires
        scan_present(st),
    ensures
        device_added(scan_stopped(st), device, st.scan_generation) == scan_stopped(st),
        thread_returned(scan_stopped(st), st.scan_generation) == scan_stopped(st),
{
}

/// To start a scan is to restart it: after the stop that goes before it, no scan runs, so that the
/// scan is always prepared, and it begins with an empty list under a number of its own.
pub proof fn law_starting_a_scan_restarts_it(st: StateView, stop_event: u64, thread: u64)
    requires
        state::well_formed(st),
    ensures
        !scan_stopped(st).is_scanning,
        ({
            let after = scan_running(scan_prepared(scan_stopped(st)), stop_event, thread);
            &&& after.is_scanning
            &&& after.scanned_devices == Seq::<DeviceView>::empty()
            &&& after.scan_stop_event == Some(stop_event)
            &&& after.scan_thread == Some(thread)
            &&& after.scan_generation != st.scan_generation
            &&& after.scan_generation != scan_stopped(st).scan_generation
            &&& threads_of(after) == threads_of(st).push(thread)
        }),
{
}

/// The thread of an earlier scan cannot end the scan that follows it, nor add to its devices.
pub proof fn law_earlier_scan_leaves_the_next_alone(
    st: StateView,
    stop_event: u64,
    thread: u64,
    device: DeviceView,
)
    ensures
        device_added(
            scan_running(st, stop_event, thread),
            device,
            st.scan_generation,
        ) == scan_running(st, stop_event, thread),
        thread_returned(scan_running(st, stop_event, thread), st.scan_generation) == scan_running(
            st,
            stop_event,
            thread,
        ),
{
}

/// The thread of a scan returns as soon as it sees the stop event, wherever it looks for it, and
/// does not return otherwise.
pub proof fn law_scan_ends_when_told(step: ScanStep, answer: bool)
    requires
        !(step is Finished),
    ensures
        step_after(step, answer) is Finished <==> answer && (step is CheckBeforeCycle
            || step is CheckBeforeNext || step is Pause),
{
}

/// What may happen to scans and their threads.
pub enum ScanChange {
    /// A scan with this event and this thread was begun.
    Begun(u64, u64),
    /// The scan was stopped.
    Stopped,
    /// The thread of the scan of this generation said that it ends.
    Ending(u64),
    /// This thread of a stopped scan has returned.
    Returned(u64),
}

/// The state after one change.
pub open spec fn after_change(st: StateView, change: ScanChange) -> StateView {
    match change {
        ScanChange::Begun(stop_event, thread) => scan_running(st, stop_event, thread),
        ScanChange::Stopped => scan_stopped(st),
        ScanChange::Ending(generation) => thread_returned(st, generation),
        ScanChange::Returned(thread) => StateView { reaping: numbers::others(st.reaping, thread), ..st },
    }
}

/// The state after several changes.
pub open spec fn after_changes(st: StateView, changes: Seq<ScanChange>) -> StateView
    decreases changes.len(),
{
    if changes.len() == 0 {
        st
    } else {
        after_change(after_changes(st, changes.drop_last()), changes.last())
    }
}

/// The threads that were begun and have not returned.
pub open spec fn unreturned(changes: Seq<ScanChange>) -> Set<u64>
    decreases changes.len(),
{
    if changes.len() == 0 {
        Set::empty()
    } else {
        let before = unreturned(changes.drop_last());
        match changes.last() {
            ScanChange::Begun(_, thread) => before.insert(thread),
            ScanChange::Returned(thread) => before.remove(thread),
            _ => before,
        }
    }
}

/// Every thread that was begun is known until it has returned.
pub proof fn law_threads_are_known_until_they_return(st: StateView, changes: Seq<ScanChange>)
    ensures
        forall|thread: u64| #[trigger]
            unreturned(changes).contains(thread) ==> threads_of(
                after_changes(st, changes),
            ).contains(thread),
    decreases changes.len(),
{
    if changes.len() > 0 {
        let before = after_changes(st, changes.drop_last());
        law_threads_are_known_until_they_return(st, changes.drop_last());
        match before.scan_thread {
            Some(thread) => numbers::lemma_pushed(before.reaping, thread),
            None => {},
        }
        match changes.last() {
            ScanChange::Begun(_, thread) => numbers::lemma_pushed(threads_of(before), thread),
            ScanChange::Returned(thread) => {
                numbers::lemma_others(before.reaping, thread);
                match before.scan_thread {
                    Some(current) => numbers::lemma_pushed(numbers::others(before.reaping, thread), current),
                    None => {},
                }
            },
            _ => {},
        }
        let after = after_changes(st, changes);
        assert forall|thread: u64| #[trigger] unreturned(changes).contains(thread) implies
            threads_of(after).contains(thread) by {
            let then = unreturned(changes.drop_last()).contains(thread);
            assert(then ==> threads_of(before).contains(thread));
            match changes.last() {
                ScanChange::Begun(_, new) => {
                    assert(threads_of(after) == threads_of(before).push(new));
                },
                ScanChange::Stopped => {
                    assert(threads_of(after) == threads_of(before));
                },
                ScanChange::Ending(_) => {
                    assert(threads_of(after) == threads_of(before));
                },
                ScanChange::Returned(_) => {},
            }
        }
    }
}

/// However scans were begun and stopped, a stop that waits waits for every thread that was begun
/// and has not returned, and no scan runs after it. Neither that stop nor another one forgets
/// such a thread, so that everyone who waits waits for it.
pub proof fn law_waiting_stop_waits_for_every_thread(
    st: StateView,
    changes: Seq<ScanChange>,
    stopped: StoppedScan,
)
    requires
        stops(stopped, after_changes(st, changes), true),
    ensures
        forall|thread: u64| #[trigger]
            unreturned(changes).contains(thread) ==> stopped.wait_for@.contains(thread),
        ({
            let after = scan_stopped(after_changes(st, changes));
            !scan_present(after) && threads_of(after) == stopped.wait_for@
        }),
{
    law_threads_are_known_until_they_return(st, changes);
}

} // verus!
