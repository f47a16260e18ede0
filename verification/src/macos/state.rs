//! The state of the IOBluetooth backend.
//!
//! Native objects, flags, channels and callbacks live outside of the state; it holds a number
//! for each. Payloads are held by the state itself, so that they live as long as their session.
use std::collections::VecDeque;
use std::sync::Arc;
use vstd::prelude::*;

use crate::address_map::AddressMap;
use crate::macos::queue::AddressQueue;
use crate::macos::retiring::RetiringSessions;
use crate::models::{DeviceList, DeviceView, SPPDevice};
use crate::text;

verus! {

/// The status of a native call that succeeded.
pub const RETURN_SUCCESS: i32 = 0;

/// How many writes of one send may be under way at a time.
pub const MAX_IN_FLIGHT: usize = 8;

/// The largest unit of transfer.
pub const MAX_MTU: usize = 65535;

/// The highest RFCOMM channel.
pub const HIGHEST_CHANNEL: u8 = 30;

/// A send that has not ended.
pub struct PendingRfcommSend {
    pub id: usize,
    pub payload: Arc<Vec<u8>>,
    /// Where the next write starts.
    pub next_offset: usize,
    /// How many writes are under way.
    pub in_flight: usize,
    /// Whom to tell when the send has ended.
    pub completion: u64,
}

/// What a [`PendingRfcommSend`] holds.
pub struct SendView {
    pub id: usize,
    pub payload: Seq<u8>,
    pub next_offset: usize,
    pub in_flight: usize,
    pub completion: u64,
}

impl View for PendingRfcommSend {
    type V = SendView;

    open spec fn view(&self) -> SendView {
        SendView {
            id: self.id,
            payload: self.payload@,
            next_offset: self.next_offset,
            in_flight: self.in_flight,
            completion: self.completion,
        }
    }
}

/// What an optional send holds.
pub open spec fn send_of(send: Option<PendingRfcommSend>) -> Option<SendView> {
    match send {
        Some(send) => Some(send@),
        None => None,
    }
}

/// One RFCOMM channel to a device, from the request to open it on.
pub struct RfcommSession {
    /// The address that the channel's delegate was made for.
    pub addr: String,
    /// Tells this session from every other one.
    pub generation: usize,
    pub channel: u64,
    /// The delegate; IOBluetooth does not retain it.
    pub delegate: u64,
    /// A flag that is raised while the session is live.
    pub active: u64,
    pub opened: bool,
    pub failed: bool,
    pub mtu: usize,
    pub pump_scheduled: bool,
    pub pending_send: Option<PendingRfcommSend>,
}

/// What an [`RfcommSession`] holds.
pub struct SessionView {
    pub addr: Seq<char>,
    pub generation: usize,
    pub channel: u64,
    pub delegate: u64,
    pub active: u64,
    pub opened: bool,
    pub failed: bool,
    pub mtu: usize,
    pub pump_scheduled: bool,
    pub pending_send: Option<SendView>,
}

impl View for RfcommSession {
    type V = SessionView;

    open spec fn view(&self) -> SessionView {
        SessionView {
            addr: self.addr@,
            generation: self.generation,
            channel: self.channel,
            delegate: self.delegate,
            active: self.active,
            opened: self.opened,
            failed: self.failed,
            mtu: self.mtu,
            pump_scheduled: self.pump_scheduled,
            pending_send: send_of(self.pending_send),
        }
    }
}

/// A device that is being connected.
pub struct PendingConnection {
    pub generation: usize,
    pub device: u64,
    pub info: SPPDevice,
    /// The channels that are left to try.
    pub channels: VecDeque<u8>,
    pub last_error: String,
    pub sdp_resolved: bool,
}

/// What a [`PendingConnection`] holds.
pub struct PendingView {
    pub generation: usize,
    pub device: u64,
    pub info: DeviceView,
    pub channels: Seq<u8>,
    pub last_error: Seq<char>,
    pub sdp_resolved: bool,
}

impl View for PendingConnection {
    type V = PendingView;

    open spec fn view(&self) -> PendingView {
        PendingView {
            generation: self.generation,
            device: self.device,
            info: self.info@,
            channels: self.channels@,
            last_error: self.last_error@,
            sdp_resolved: self.sdp_resolved,
        }
    }
}

/// What belongs to the main run loop.
pub struct MainThreadState {
    pub inquiry: Option<u64>,
    pub delegate: Option<u64>,
    pub sessions: AddressMap<RfcommSession>,
    /// A failed native close must not free buffers that writes still use.
    pub retiring: RetiringSessions,
    pub connections: AddressMap<PendingConnection>,
    pub connect_queue: AddressQueue,
    /// Establishing connections is serialized, established connections and sends are not.
    pub connecting: Option<String>,
    pub next_id: usize,
}

/// What a [`MainThreadState`] holds.
#[verifier::ext_equal]
pub struct MainView {
    pub inquiry: Option<u64>,
    pub delegate: Option<u64>,
    pub sessions: Map<Seq<char>, SessionView>,
    pub retiring: Map<usize, SessionView>,
    pub connections: Map<Seq<char>, PendingView>,
    pub connect_queue: Seq<Seq<char>>,
    pub connecting: Option<Seq<char>>,
    pub next_id: usize,
}

impl View for MainThreadState {
    type V = MainView;

    open spec fn view(&self) -> MainView {
        MainView {
            inquiry: self.inquiry,
            delegate: self.delegate,
            sessions: self.sessions@,
            retiring: self.retiring@,
            connections: self.connections@,
            connect_queue: self.connect_queue@,
            connecting: text::text_of(self.connecting),
            next_id: self.next_id,
        }
    }
}

/// A send stays within its payload and within the limit on writes under way.
pub open spec fn send_ok(send: SendView) -> bool {
    &&& send.next_offset <= send.payload.len() <= usize::MAX
    &&& send.in_flight <= MAX_IN_FLIGHT
}

/// A session moves at least one byte at a time, and sends only once it is open.
pub open spec fn session_ok(session: SessionView) -> bool {
    &&& 1 <= session.mtu <= MAX_MTU
    &&& session.pending_send matches Some(send) ==> send_ok(send) && session.opened
}

/// What holds of the state at all times: a live session is filed under the address that its
/// delegate was made for, a retiring one under its generation, and the device whose turn it is
/// to connect is one that is being connected.
pub open spec fn well_formed(st: MainView) -> bool {
    &&& forall|addr: Seq<char>| #[trigger]
        st.sessions.contains_key(addr) ==> st.sessions[addr].addr == addr && session_ok(
            st.sessions[addr],
        )
    &&& forall|generation: usize| #[trigger]
        st.retiring.contains_key(generation) ==> st.retiring[generation].generation == generation
            && session_ok(st.retiring[generation])
    &&& st.connecting matches Some(addr) ==> st.connections.contains_key(addr)
}

impl MainThreadState {
    /// Whether what holds at all times holds now.
    pub open spec fn wf(&self) -> bool {
        well_formed(self@)
    }

    /// The state before anything was scanned or connected.
    pub fn new() -> (r: Self)
        ensures
            r.wf(),
            r@ == (MainView {
                inquiry: None,
                delegate: None,
                sessions: Map::empty(),
                retiring: Map::empty(),
                connections: Map::empty(),
                connect_queue: Seq::empty(),
                connecting: None,
                next_id: 0,
            }),
    {
        MainThreadState {
            inquiry: None,
            delegate: None,
            sessions: AddressMap::new(),
            retiring: RetiringSessions::new(),
            connections: AddressMap::new(),
            connect_queue: AddressQueue::new(),
            connecting: None,
            next_id: 0,
        }
    }
}

/// The number after `id`; zero is never given out.
pub open spec fn id_after(id: usize) -> usize {
    if id == usize::MAX {
        1
    } else {
        (id + 1) as usize
    }
}

/// Gives out a number for a session or a send.
pub fn next_id(st: &mut MainThreadState) -> (r: usize)
    requires
        old(st).wf(),
    ensures
        final(st).wf(),
        r == id_after(old(st)@.next_id),
        r != 0,
        r != old(st)@.next_id,
        final(st)@ == (MainView { next_id: r, ..old(st)@ }),
{
    st.next_id = if st.next_id == usize::MAX {
        1
    } else {
        st.next_id + 1
    };
    st.next_id
}

/// What every thread may read.
pub struct SharedState {
    pub scanned_devices: DeviceList,
    pub scan_loop_running: bool,
    pub connected_device_info: AddressMap<SPPDevice>,
    pub on_connected_callbacks: AddressMap<u64>,
    /// Each device's listener runs on its own worker, in order.
    pub data_listeners: AddressMap<u64>,
}

/// What a [`SharedState`] holds.
#[verifier::ext_equal]
pub struct SharedView {
    pub scanned_devices: Seq<DeviceView>,
    pub scan_loop_running: bool,
    pub connected_device_info: Map<Seq<char>, DeviceView>,
    pub on_connected_callbacks: Map<Seq<char>, u64>,
    pub data_listeners: Map<Seq<char>, u64>,
}

impl View for SharedState {
    type V = SharedView;

    open spec fn view(&self) -> SharedView {
        SharedView {
            scanned_devices: self.scanned_devices@,
            scan_loop_running: self.scan_loop_running,
            connected_device_info: self.connected_device_info@,
            on_connected_callbacks: self.on_connected_callbacks@,
            data_listeners: self.data_listeners@,
        }
    }
}

impl SharedState {
    /// The state before anything was scanned or connected.
    pub fn new() -> (r: Self)
        ensures
            r@ == (SharedView {
                scanned_devices: Seq::empty(),
                scan_loop_running: false,
                connected_device_info: Map::empty(),
                on_connected_callbacks: Map::empty(),
                data_listeners: Map::empty(),
            }),
    {
        SharedState {
            scanned_devices: DeviceList::new(),
            scan_loop_running: false,
            connected_device_info: AddressMap::new(),
            on_connected_callbacks: AddressMap::new(),
            data_listeners: AddressMap::new(),
        }
    }
}

} // verus!
