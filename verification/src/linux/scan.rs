//! Looking for devices.
use vstd::prelude::*;

use crate::linux::address;
use crate::linux::error::LinuxError;
use crate::linux::state::{GlobalState, StateView};
use crate::mac_address;
use crate::models;
use crate::models::{DeviceView, SPPDevice};
use crate::text;

verus! {

/// The flag and the task of a scan.
#[derive(Debug, PartialEq, Eq)]
pub struct ScanHandles {
    pub stop: Option<u64>,
    pub thread: Option<u64>,
}

/// The flag and the task of the scan that the state knows of.
pub open spec fn scan_of(st: StateView) -> ScanHandles {
    ScanHandles { stop: st.scan_stop, thread: st.scan_thread }
}

/// The state without a scan.
pub open spec fn without_scan(st: StateView) -> StateView {
    StateView { scan_stop: None, scan_thread: None, ..st }
}

/// Ends the scan, if there is one; returns the flag to raise and the task to abort.
pub fn stop_scan_impl(st: &mut GlobalState) -> (r: ScanHandles)
    requires
        old(st).wf(),
    ensures
        final(st).wf(),
        r == scan_of(old(st)@),
        final(st)@ == without_scan(old(st)@),
{
    let stop: Option<u64> = st.scan_stop.take();
    let thread: Option<u64> = st.scan_thread.take();
    ScanHandles { stop, thread }
}

/// The state at the start of a scan: nothing found yet.
pub open spec fn with_scan(st: StateView, stop_flag: u64, thread: u64) -> StateView {
    StateView {
        scanned_devices: Seq::empty(),
        scan_stop: Some(stop_flag),
        scan_thread: Some(thread),
        ..st
    }
}

/// Starts a scan in place of any earlier one; returns what ends the earlier one.
pub fn start_scan_impl(st: &mut GlobalState, stop_flag: u64, thread: u64) -> (r: ScanHandles)
    requires
        old(st).wf(),
    ensures
        final(st).wf(),
        r == scan_of(old(st)@),
        final(st)@ == with_scan(old(st)@, stop_flag, thread),
{
    let earlier = stop_scan_impl(st);
    st.scanned_devices.clear();
    st.scan_stop = Some(stop_flag);
    st.scan_thread = Some(thread);
    earlier
}

/// The devices found so far, each address once.
pub fn get_scanned_devices_impl(st: &GlobalState) -> (r: Result<Vec<SPPDevice>, LinuxError>)
    ensures
        r matches Ok(devices) && models::devices_of(devices@) == st@.scanned_devices
            && models::one_per_address(st@.scanned_devices),
{
    Ok(st.scanned_devices.snapshot())
}

/// What the scan task reports.
pub enum ScanEvent {
    /// The task runs.
    Started,
    /// Whether the adapter could be powered on.
    Powered(bool),
    /// Whether discovery could be started.
    Discovering(bool),
    /// A moment passed without an event.
    Tick,
    /// A device came into range; whether it could be opened, and its name if it has one.
    DeviceAdded { address: [u8; 6], opened: bool, name: Option<String> },
    /// A device went out of range.
    DeviceRemoved { address: [u8; 6] },
    /// Another change at the adapter.
    Other,
    /// Discovery ended by itself.
    Ended,
}

/// What the scan task does next.
#[derive(Debug, PartialEq, Eq, Clone, Copy)]
pub enum ScanAction {
    /// Power on the adapter with this number.
    PowerOn(u64),
    /// Start discovery.
    Discover,
    /// Wait for an event, or for a moment to pass.
    AwaitEvent,
    /// Return.
    Exit,
}

/// The devices known after an event.
pub open spec fn devices_after(devices: Seq<DeviceView>, event: ScanEvent) -> Seq<DeviceView> {
    match event {
        ScanEvent::DeviceAdded { address, opened, name } => if opened {
            models::with_device(
                devices,
                DeviceView { name: text::text_of(name), address: mac_address::mac_text(address@) },
            )
        } else {
            devices
        },
        ScanEvent::DeviceRemoved { address } => models::without_address(
            devices,
            mac_address::mac_text(address@),
        ),
        _ => devices,
    }
}

/// Whether discovery goes on after an event, unless it is to stop.
pub open spec fn discovery_continues(event: ScanEvent) -> bool {
    !(event is Ended)
}

/// What the task does after an event, and the state then. A task that never came to discover
/// leaves the scan's handles as they are; one that did clears them when it returns.
pub open spec fn after_scan_event(
    st: StateView,
    event: ScanEvent,
    stop_requested: bool,
) -> (StateView, ScanAction) {
    match event {
        ScanEvent::Started => match st.adapter {
            Some(adapter) => (st, ScanAction::PowerOn(adapter)),
            None => (st, ScanAction::Exit),
        },
        ScanEvent::Powered(false) | ScanEvent::Discovering(false) => (st, ScanAction::Exit),
        ScanEvent::Powered(true) => (st, ScanAction::Discover),
        _ => {
            let seen = StateView {
                scanned_devices: devices_after(st.scanned_devices, event),
                ..st
            };
            if stop_requested || !discovery_continues(event) {
                (without_scan(seen), ScanAction::Exit)
            } else {
                (seen, ScanAction::AwaitEvent)
            }
        },
    }
}

/// Takes one event of the scan task; `stop_requested` says whether its flag is raised by now.
pub fn scan_step(st: &mut GlobalState, event: ScanEvent, stop_requested: bool) -> (r: ScanAction)
    requires
        old(st).wf(),
    ensures
        final(st).wf(),
        (final(st)@, r) == after_scan_event(old(st)@, event, stop_requested),
{
    let goes_on: bool = match event {
        ScanEvent::Started => {
            return match st.adapter {
                Some(adapter) => ScanAction::PowerOn(adapter),
                None => ScanAction::Exit,
            };
        },
        ScanEvent::Powered(powered) => {
            return if powered {
                ScanAction::Discover
            } else {
                ScanAction::Exit
            };
        },
        ScanEvent::Discovering(started) => {
            if !started {
                return ScanAction::Exit;
            }
            true
        },
        ScanEvent::DeviceAdded { address, opened, name } => {
            if opened {
                let device = SPPDevice { name, address: address::address_text(address) };
                let _ = st.scanned_devices.remember(device);
            }
            true
        },
        ScanEvent::DeviceRemoved { address } => {
            let gone = address::address_text(address);
            st.scanned_devices.forget(gone.as_str());
            true
        },
        ScanEvent::Tick => true,
        ScanEvent::Other => true,
        ScanEvent::Ended => false,
    };
    if stop_requested || !goes_on {
        st.scan_thread = None;
        st.scan_stop = None;
        ScanAction::Exit
    } else {
        ScanAction::AwaitEvent
    }
}

/// A scan task never touches connections or callbacks.
pub proof fn law_scan_leaves_connections_alone(
    st: StateView,
    event: ScanEvent,
    stop_requested: bool,
)
    ensures
        after_scan_event(st, event, stop_requested).0.connections == st.connections,
        after_scan_event(st, event, stop_requested).0.on_connected_callbacks
            == st.on_connected_callbacks,
        after_scan_event(st, event, stop_requested).0.data_listener_callbacks
            == st.data_listener_callbacks,
        after_scan_event(st, event, stop_requested).0.adapter == st.adapter,
{
}

/// A device that went out of range is no longer listed, and the others stay.
pub proof fn law_removed_device_is_gone(st: StateView, address: [u8; 6], stop_requested: bool)
    requires
        models::one_per_address(st.scanned_devices),
    ensures
        ({
            let event = ScanEvent::DeviceRemoved { address };
            let devices = after_scan_event(st, event, stop_requested).0.scanned_devices;
            &&& models::one_per_address(devices)
            &&& !models::listed(devices, mac_address::mac_text(address@))
            &&& forall|other: Seq<char>|
                other != mac_address::mac_text(address@) ==> models::listed(devices, other)
                    == models::listed(st.scanned_devices, other)
        }),
{
    models::lemma_without_address(st.scanned_devices, mac_address::mac_text(address@));
}

} // verus!
