//! Scanning for devices: one inquiry after another, until the scan is stopped.
use vstd::prelude::*;

use crate::macos::address;
use crate::macos::error::MacError;
use crate::macos::state;
use crate::macos::state::{MainThreadState, MainView, PendingView, SharedState, SharedView};
use crate::models;
use crate::models::{DeviceView, SPPDevice};
use crate::text;

verus! {

/// Whether an inquiry is the one that runs now.
pub open spec fn is_current(st: MainView, inquiry: u64) -> bool {
    st.inquiry == Some(inquiry)
}

/// Whether an inquiry is the one that runs now.
pub fn is_current_inquiry(st: &MainThreadState, inquiry: u64) -> (r: bool)
    ensures
        r == is_current(st@, inquiry),
{
    match st.inquiry {
        Some(current) => current == inquiry,
        None => false,
    }
}

/// Whether an inquiry has to be created: none runs.
pub fn start_inquiry(st: &MainThreadState) -> (r: bool)
    ensures
        r == (st@.inquiry is None),
{
    st.inquiry.is_none()
}

/// Takes the inquiry that was created, if one was; it is to be started.
pub fn inquiry_created(st: &mut MainThreadState, inquiry: Option<u64>) -> (r: Result<u64, MacError>)
    requires
        old(st).wf(),
    ensures
        final(st).wf(),
        match inquiry {
            Some(inquiry) => r == Ok::<u64, MacError>(inquiry) && final(st)@ == (MainView {
                inquiry: Some(inquiry),
                ..old(st)@
            }),
            None => r == Err::<u64, MacError>(MacError::InquiryNotCreated) && final(st)@
                == old(st)@,
        },
{
    match inquiry {
        Some(inquiry) => {
            st.inquiry = Some(inquiry);
            Ok(inquiry)
        },
        None => Err(MacError::InquiryNotCreated),
    }
}

/// The state without `inquiry`, if that is the one that runs.
pub open spec fn inquiry_dropped(st: MainView, inquiry: u64) -> MainView {
    if is_current(st, inquiry) {
        MainView { inquiry: None, ..st }
    } else {
        st
    }
}

/// Takes the status with which an inquiry was started.
pub fn inquiry_started(st: &mut MainThreadState, inquiry: u64, status: i32) -> (r: Result<
    (),
    MacError,
>)
    requires
        old(st).wf(),
    ensures
        final(st).wf(),
        if status == state::RETURN_SUCCESS {
            r == Ok::<(), MacError>(()) && final(st)@ == old(st)@
        } else {
            r == Err::<(), MacError>(MacError::ScanNotStarted(status)) && final(st)@
                == inquiry_dropped(old(st)@, inquiry)
        },
{
    if status != state::RETURN_SUCCESS {
        if is_current_inquiry(st, inquiry) {
            st.inquiry = None;
        }
        return Err(MacError::ScanNotStarted(status));
    }
    Ok(())
}

/// The state when no scan runs.
pub open spec fn scan_stopped(st: MainView) -> MainView {
    MainView { inquiry: None, ..st }
}

/// The shared state when no scan runs.
pub open spec fn scan_stopped_shared(shared: SharedView) -> SharedView {
    SharedView { scan_loop_running: false, ..shared }
}

/// Stops a scan; returns the inquiry to stop, if one runs.
pub fn stop_scan_impl(st: &mut MainThreadState, shared: &mut SharedState) -> (r: Option<u64>)
    requires
        old(st).wf(),
    ensures
        final(st).wf(),
        r == old(st)@.inquiry,
        final(st)@ == scan_stopped(old(st)@),
        final(shared)@ == scan_stopped_shared(old(shared)@),
{
    shared.scan_loop_running = false;
    let current: Option<u64> = st.inquiry;
    st.inquiry = None;
    current
}

/// What is left to do to begin a scan; `steps` gives the order.
#[derive(Debug, PartialEq, Eq)]
pub struct ScanStart {
    /// The inquiry of an earlier scan, which is to be stopped.
    pub stopped: Option<u64>,
    /// The delegate for the inquiry that is to be started.
    pub begun: Result<u64, MacError>,
}

/// The delegate for inquiries: the one that there is, or else a new one.
pub open spec fn inquiry_delegate(st: MainView, new_delegate: u64) -> u64 {
    match st.delegate {
        Some(delegate) => delegate,
        None => new_delegate,
    }
}

/// Begins a scan, with no device found yet. While devices are being connected, no scan is
/// begun, as it would disturb them.
pub fn start_scan_impl(st: &mut MainThreadState, shared: &mut SharedState, new_delegate: u64) -> (r:
    ScanStart)
    requires
        old(st).wf(),
    ensures
        final(st).wf(),
        r.stopped == old(st)@.inquiry,
        if old(st)@.connections != Map::<Seq<char>, PendingView>::empty() {
            &&& r.begun == Err::<u64, MacError>(MacError::ScanWhileConnecting)
            &&& final(st)@ == scan_stopped(old(st)@)
            &&& final(shared)@ == scan_stopped_shared(old(shared)@)
        } else {
            let delegate = inquiry_delegate(old(st)@, new_delegate);
            &&& r.begun == Ok::<u64, MacError>(delegate)
            &&& final(st)@ == (MainView { inquiry: None, delegate: Some(delegate), ..old(st)@ })
            &&& final(shared)@ == (SharedView {
                scanned_devices: Seq::<DeviceView>::empty(),
                scan_loop_running: true,
                ..old(shared)@
            })
        },
{
    let stopped: Option<u64> = stop_scan_impl(st, shared);
    if !st.connections.is_empty() {
        return ScanStart { stopped, begun: Err(MacError::ScanWhileConnecting) };
    }
    let delegate: u64 = match st.delegate {
        Some(delegate) => delegate,
        None => new_delegate,
    };
    st.delegate = Some(delegate);
    shared.scanned_devices.clear();
    shared.scan_loop_running = true;
    ScanStart { stopped, begun: Ok(delegate) }
}

/// Takes the news that the inquiry of a scan could not be started.
pub fn scan_not_started(shared: &mut SharedState)
    ensures
        final(shared)@ == scan_stopped_shared(old(shared)@),
{
    shared.scan_loop_running = false;
}

/// The raw address of a device that was found; one without an address has an empty one.
pub open spec fn raw_address(raw: Option<Seq<char>>) -> Seq<char> {
    match raw {
        Some(raw) => raw,
        None => Seq::empty(),
    }
}

/// The shared state when an inquiry has found a device.
pub open spec fn device_added(
    st: MainView,
    shared: SharedView,
    inquiry: u64,
    device: DeviceView,
) -> SharedView {
    if is_current(st, inquiry) {
        SharedView {
            scanned_devices: models::with_device(shared.scanned_devices, device),
            ..shared
        }
    } else {
        shared
    }
}

/// Takes a device that an inquiry has found. A device that is known already stays as it is, and
/// what an earlier inquiry finds is not listed.
pub fn device_found(
    st: &MainThreadState,
    shared: &mut SharedState,
    inquiry: u64,
    raw_addr: Option<String>,
    name: Option<String>,
)
    ensures
        final(shared)@ == device_added(
            st@,
            old(shared)@,
            inquiry,
            (DeviceView {
                name: text::text_of(name),
                address: address::normalized(raw_address(text::text_of(raw_addr))),
            }),
        ),
{
    if !is_current_inquiry(st, inquiry) {
        return;
    }
    let raw: String = match raw_addr {
        Some(raw) => raw,
        None => String::new(),
    };
    assert(raw@ =~= raw_address(text::text_of(raw_addr)));
    let address: String = address::normalize_addr_from_macos(raw.as_str());
    let _ = shared.scanned_devices.remember(SPPDevice { name, address });
}

/// Whether another inquiry follows one that has ended.
pub open spec fn goes_on(shared: SharedView, error: i32, aborted: bool) -> bool {
    shared.scan_loop_running && !aborted && error == state::RETURN_SUCCESS
}

/// Takes the end of an inquiry; says whether another one is to be started on a later turn. The
/// end of an inquiry that was stopped earlier changes nothing.
pub fn inquiry_complete(
    st: &mut MainThreadState,
    shared: &mut SharedState,
    inquiry: u64,
    error: i32,
    aborted: bool,
) -> (r: bool)
    requires
        old(st).wf(),
    ensures
        final(st).wf(),
        r == (is_current(old(st)@, inquiry) && goes_on(old(shared)@, error, aborted)),
        final(st)@ == inquiry_dropped(old(st)@, inquiry),
        final(shared)@ == (if is_current(old(st)@, inquiry) && !goes_on(
            old(shared)@,
            error,
            aborted,
        ) {
            scan_stopped_shared(old(shared)@)
        } else {
            old(shared)@
        }),
{
    if !is_current_inquiry(st, inquiry) {
        return false;
    }
    st.inquiry = None;
    if shared.scan_loop_running && !aborted && error == state::RETURN_SUCCESS {
        true
    } else {
        shared.scan_loop_running = false;
        false
    }
}

/// The delegate for the next inquiry of a scan, if the scan was not stopped meanwhile.
pub fn restart_delegate(st: &MainThreadState, shared: &SharedState) -> (r: Option<u64>)
    ensures
        r == (if shared@.scan_loop_running {
            st@.delegate
        } else {
            None
        }),
{
    if shared.scan_loop_running {
        st.delegate
    } else {
        None
    }
}

/// The devices that the scan has found so far.
pub fn get_scanned_devices_impl(shared: &SharedState) -> (r: Vec<SPPDevice>)
    ensures
        models::devices_of(r@) == shared@.scanned_devices,
        models::one_per_address(shared@.scanned_devices),
{
    shared.scanned_devices.snapshot()
}

/// Stopping a scan cuts its inquiry off: neither what it finds nor its end changes anything.
pub proof fn law_stopped_inquiry_changes_nothing(
    st: MainView,
    shared: SharedView,
    inquiry: u64,
    device: DeviceView,
)
    ensures
        device_added(scan_stopped(st), shared, inquiry, device) == shared,
        inquiry_dropped(scan_stopped(st), inquiry) == scan_stopped(st),
{
}

/// A device that the running inquiry finds is listed, and what was listed stays listed.
pub proof fn law_found_device_is_listed(
    st: MainView,
    shared: SharedView,
    inquiry: u64,
    device: DeviceView,
)
    requires
        is_current(st, inquiry),
    ensures
        ({
            let after = device_added(st, shared, inquiry, device).scanned_devices;
            &&& models::listed(after, device.address)
            &&& shared.scanned_devices.is_prefix_of(after)
        }),
{
    let before = shared.scanned_devices;
    let after = device_added(st, shared, inquiry, device).scanned_devices;
    if !models::listed(before, device.address) {
        assert(after[before.len() as int].address == device.address);
    }
}

} // verus!
