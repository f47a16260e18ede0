//! Making a connection: by service first, then by channel number.
use vstd::prelude::*;

use crate::address_map;
use crate::channels;
use crate::linux::address;
use crate::linux::error::LinuxError;
use crate::linux::scan;
use crate::linux::scan::ScanHandles;
use crate::linux::state;
use crate::linux::state::{ConnectionView, DeviceConnection, GlobalState, StateView, StoppedConnection};
use crate::mac_address;
use crate::models::{DeviceView, SPPDevice};
use crate::text;

verus! {

/// The identifier of the serial port service.
pub const SPP_SERVICE_UUID: &'static str = "00001101-0000-1000-8000-00805f9b34fb";

/// How long one connection attempt may take, in seconds.
pub const CONNECT_TIMEOUT_SECS: u64 = 10;

/// The highest channel number that is tried.
pub const HIGHEST_CHANNEL: u8 = 255;

/// The channels to try, in order.
pub fn normalized_fallback_channels(fallback_channels: &[u8]) -> (r: Vec<u8>)
    ensures
        r@ == channels::fallback_order(fallback_channels@, HIGHEST_CHANNEL),
{
    channels::normalized(fallback_channels, HIGHEST_CHANNEL)
}

/// One way to reach the device.
#[derive(Debug, PartialEq, Eq, Clone, Copy)]
pub enum Attempt {
    /// Ask for the serial port service.
    Service,
    /// Connect to this channel.
    Channel(u8),
}

/// All attempts, in the order in which they are made.
pub open spec fn attempts(channels: Seq<u8>) -> Seq<Attempt> {
    seq![Attempt::Service] + channels.map_values(|channel: u8| Attempt::Channel(channel))
}

/// How an attempt ended.
pub enum AttemptResult {
    /// With a stream.
    Connected(u64),
    /// With an error.
    Failed(String),
    /// Without an answer in time.
    TimedOut,
}

/// The failure that an attempt ended with, if it failed.
pub open spec fn failure_of(attempt: Attempt, result: AttemptResult) -> Option<Seq<char>> {
    match result {
        AttemptResult::Connected(_) => None,
        AttemptResult::Failed(reason) => Some(reason@),
        AttemptResult::TimedOut => Some(timeout_text(attempt)),
    }
}

/// The failure of an attempt without an answer in time.
pub open spec fn timeout_text(attempt: Attempt) -> Seq<char> {
    match attempt {
        Attempt::Service => "Timeout connecting through SPP Service UUID"@,
        Attempt::Channel(channel) => "Timeout connecting on channel "@ + text::decimal(
            channel as nat,
        ),
    }
}

/// What to do next for a connection.
pub enum ConnectAction {
    /// Make this attempt.
    Try(Attempt),
    /// The device is connected through this stream.
    Connected(u64),
    /// No attempt is left.
    GiveUp(LinuxError),
}

/// The attempts to reach one device.
pub struct ConnectSequence {
    channels: Vec<u8>,
    /// How many channels have failed, once the service has.
    failed: Option<usize>,
    last_error: Option<String>,
}

/// What a [`ConnectSequence`] holds.
pub struct SequenceView {
    pub channels: Seq<u8>,
    /// How many attempts have failed.
    pub failures: nat,
    pub last_error: Option<Seq<char>>,
}

impl View for ConnectSequence {
    type V = SequenceView;

    closed spec fn view(&self) -> SequenceView {
        SequenceView {
            channels: self.channels@,
            failures: match self.failed {
                Some(channels) => 1 + channels as nat,
                None => 0,
            },
            last_error: text::text_of(self.last_error),
        }
    }
}

/// What a sequence does next.
pub enum ActionView {
    Try(Attempt),
    Connected(u64),
    GiveUp(Option<Seq<char>>),
}

/// Whether an action is the given one.
pub open spec fn acts_as(action: ConnectAction, wanted: ActionView) -> bool {
    match (action, wanted) {
        (ConnectAction::Try(attempt), ActionView::Try(due)) => attempt == due,
        (ConnectAction::Connected(stream), ActionView::Connected(made)) => stream == made,
        (
            ConnectAction::GiveUp(LinuxError::ConnectFailed(last)),
            ActionView::GiveUp(failure),
        ) => text::text_of(last) == failure,
        _ => false,
    }
}

/// What a sequence does when no answer is outstanding.
pub open spec fn due(sequence: SequenceView) -> ActionView {
    if sequence.failures < attempts(sequence.channels).len() {
        ActionView::Try(attempts(sequence.channels)[sequence.failures as int])
    } else {
        ActionView::GiveUp(sequence.last_error)
    }
}

/// The sequence after one result, and what it does next.
pub open spec fn after_result(sequence: SequenceView, result: AttemptResult) -> (
    SequenceView,
    ActionView,
) {
    if sequence.failures >= attempts(sequence.channels).len() {
        (sequence, due(sequence))
    } else {
        let attempt = attempts(sequence.channels)[sequence.failures as int];
        match result {
            AttemptResult::Connected(stream) => (sequence, ActionView::Connected(stream)),
            _ => {
                let next = SequenceView {
                    failures: sequence.failures + 1,
                    last_error: failure_of(attempt, result),
                    ..sequence
                };
                (next, due(next))
            },
        }
    }
}

impl ConnectSequence {
    /// The sequence before its first attempt.
    pub fn new(channels: Vec<u8>) -> (r: Self)
        ensures
            r@ == (SequenceView { channels: channels@, failures: 0, last_error: None }),
    {
        ConnectSequence { channels, failed: None, last_error: None }
    }

    /// The attempt that is due, if any is left.
    fn current(&self) -> (r: Option<Attempt>)
        ensures
            match r {
                Some(attempt) => self@.failures < attempts(self@.channels).len() && attempt
                    == attempts(self@.channels)[self@.failures as int],
                None => self@.failures >= attempts(self@.channels).len(),
            },
    {
        match self.failed {
            None => Some(Attempt::Service),
            Some(channels) => if channels < self.channels.len() {
                Some(Attempt::Channel(self.channels[channels]))
            } else {
                None
            },
        }
    }

    /// What to do next.
    pub fn next_action(&self) -> (r: ConnectAction)
        ensures
            acts_as(r, due(self@)),
    {
        match self.current() {
            Some(attempt) => ConnectAction::Try(attempt),
            None => ConnectAction::GiveUp(
                LinuxError::ConnectFailed(text::copy_of(&self.last_error)),
            ),
        }
    }

    /// Takes the result of the attempt that was due.
    pub fn advance(&mut self, result: AttemptResult) -> (r: ConnectAction)
        ensures
            final(self)@ == after_result(old(self)@, result).0,
            acts_as(r, after_result(old(self)@, result).1),
    {
        let attempt: Attempt = match self.current() {
            Some(attempt) => attempt,
            None => {
                return self.next_action();
            },
        };
        assert(self.failed matches Some(channels) ==> channels < self.channels.len());
        let failure: String = match result {
            AttemptResult::Connected(stream) => {
                return ConnectAction::Connected(stream);
            },
            AttemptResult::Failed(reason) => reason,
            AttemptResult::TimedOut => match attempt {
                Attempt::Service => "Timeout connecting through SPP Service UUID".to_owned(),
                Attempt::Channel(channel) => text::joined(
                    "Timeout connecting on channel ",
                    text::decimal_text(channel as u64).as_str(),
                ),
            },
        };
        self.last_error = Some(failure);
        self.failed = match self.failed {
            Some(channels) => Some(channels + 1),
            None => Some(0),
        };
        self.next_action()
    }
}

/// The sequence after several results, and what it does then.
pub open spec fn after_results(sequence: SequenceView, results: Seq<AttemptResult>) -> (
    SequenceView,
    ActionView,
)
    decreases results.len(),
{
    if results.len() == 0 {
        (sequence, due(sequence))
    } else {
        after_result(after_results(sequence, results.drop_last()).0, results.last())
    }
}

/// A connection is made with the first attempt that succeeds: while attempts fail, the next
/// one is due, and none is made twice.
pub proof fn law_first_success_connects(
    channels: Seq<u8>,
    failures: Seq<AttemptResult>,
    stream: u64,
)
    requires
        failures.len() < attempts(channels).len(),
        forall|i: int| 0 <= i < failures.len() ==> !(#[trigger] failures[i] is Connected),
    ensures
        ({
            let start = SequenceView { channels, failures: 0, last_error: None };
            &&& after_results(start, failures).1 == ActionView::Try(
                attempts(channels)[failures.len() as int],
            )
            &&& after_results(start, failures.push(AttemptResult::Connected(stream))).1
                == ActionView::Connected(stream)
        }),
{
    lemma_failures_count(channels, failures);
    let more = failures.push(AttemptResult::Connected(stream));
    assert(more.drop_last() =~= failures);
}

/// A connection is given up only when every attempt has failed, with the last failure.
pub proof fn law_gives_up_after_every_attempt(channels: Seq<u8>, failures: Seq<AttemptResult>)
    requires
        failures.len() == attempts(channels).len(),
        forall|i: int| 0 <= i < failures.len() ==> !(#[trigger] failures[i] is Connected),
    ensures
        ({
            let start = SequenceView { channels, failures: 0, last_error: None };
            after_results(start, failures).1 == ActionView::GiveUp(
                failure_of(attempts(channels).last(), failures.last()),
            )
        }),
{
    lemma_failures_count(channels, failures);
    lemma_failures_count(channels, failures.drop_last());
}

proof fn lemma_failures_count(channels: Seq<u8>, failures: Seq<AttemptResult>)
    requires
        failures.len() <= attempts(channels).len(),
        forall|i: int| 0 <= i < failures.len() ==> !(#[trigger] failures[i] is Connected),
    ensures
        ({
            let start = SequenceView { channels, failures: 0, last_error: None };
            let end = after_results(start, failures);
            &&& end.0.channels == channels
            &&& end.0.failures == failures.len()
            &&& end.1 == due(end.0)
            &&& failures.len() > 0 ==> end.0.last_error == failure_of(
                attempts(channels)[failures.len() - 1],
                failures.last(),
            )
        }),
    decreases failures.len(),
{
    if failures.len() > 0 {
        let init = failures.drop_last();
        assert forall|i: int| 0 <= i < init.len() implies !(#[trigger] init[i] is Connected) by {
            assert(init[i] == failures[i]);
        }
        lemma_failures_count(channels, init);
        assert(!(failures[failures.len() - 1] is Connected));
    }
}

/// What happened while asking for the service.
pub enum ServiceEvent {
    /// The service identifier cannot be read.
    InvalidUuid(String),
    /// There is no session with the Bluetooth daemon.
    SessionFailed(String),
    /// There is no adapter.
    AdapterFailed(String),
    /// The device cannot be opened.
    DeviceFailed(String),
    /// The profile cannot be registered.
    RegistrationFailed(String),
    /// A device offers a connection.
    Requested([u8; 6]),
    /// The offer was accepted with this stream.
    Accepted(u64),
    /// The offer could not be accepted.
    AcceptFailed(String),
    /// There will be no more offers.
    ProfileClosed,
    /// The request to connect returned.
    ConnectReturned,
    /// The request to connect failed.
    ConnectFailed(String),
    /// The time is up.
    TimedOut,
}

/// What to do while asking for the service.
pub enum ServiceAction {
    /// Accept the offer.
    Accept,
    /// Reject the offer and wait for the next.
    Reject,
    /// The attempt has ended.
    Done(AttemptResult),
}

/// The failure that an event ends the attempt with, if it does.
pub open spec fn service_failure(target: Seq<u8>, event: ServiceEvent) -> Option<Seq<char>> {
    match event {
        ServiceEvent::InvalidUuid(reason) => Some("Invalid SPP UUID: "@ + reason@),
        ServiceEvent::SessionFailed(reason) => Some("Failed to create bluer session: "@ + reason@),
        ServiceEvent::AdapterFailed(reason) => Some("Failed to get default adapter: "@ + reason@),
        ServiceEvent::DeviceFailed(reason) => Some(
            "Failed to open device "@ + mac_address::mac_text(target) + ": "@ + reason@,
        ),
        ServiceEvent::RegistrationFailed(reason) => Some(
            "Failed to register SPP profile: "@ + reason@,
        ),
        ServiceEvent::AcceptFailed(reason) => Some("Failed to accept SPP profile fd: "@ + reason@),
        ServiceEvent::ProfileClosed => Some("SPP profile closed before receiving an RFCOMM fd"@),
        ServiceEvent::ConnectReturned => Some(
            "BlueZ ConnectProfile completed without providing an RFCOMM fd"@,
        ),
        ServiceEvent::ConnectFailed(reason) => Some("BlueZ ConnectProfile failed: "@ + reason@),
        _ => None,
    }
}

/// Whether two addresses have the same bytes.
fn same_address(a: &[u8; 6], b: &[u8; 6]) -> (r: bool)
    ensures
        r == (a@ == b@),
{
    let mut i: usize = 0;
    while i < 6
        invariant
            i <= 6,
            forall|j: int| 0 <= j < i ==> a@[j] == b@[j],
        decreases 6 - i,
    {
        if a[i] != b[i] {
            assert(a@[i as int] != b@[i as int]);
            return false;
        }
        i = i + 1;
    }
    assert(a@ =~= b@);
    true
}

/// Takes one event while asking the device `target` for the service: only an offer of that
/// device is accepted, and the attempt ends with its stream, with the first failure, or when
/// the time is up.
pub fn connect_spp_uuid(target: [u8; 6], event: ServiceEvent) -> (r: ServiceAction)
    ensures
        match event {
            ServiceEvent::Requested(device) => if device@ == target@ {
                r is Accept
            } else {
                r is Reject
            },
            ServiceEvent::Accepted(stream) => r matches ServiceAction::Done(
                AttemptResult::Connected(made),
            ) && made == stream,
            ServiceEvent::TimedOut => r matches ServiceAction::Done(AttemptResult::TimedOut),
            _ => r matches ServiceAction::Done(AttemptResult::Failed(reason)) && service_failure(
                target@,
                event,
            ) == Some(reason@),
        },
{
    let reason: String = match event {
        ServiceEvent::Requested(device) => {
            return if same_address(&device, &target) {
                ServiceAction::Accept
            } else {
                ServiceAction::Reject
            };
        },
        ServiceEvent::Accepted(stream) => {
            return ServiceAction::Done(AttemptResult::Connected(stream));
        },
        ServiceEvent::TimedOut => {
            return ServiceAction::Done(AttemptResult::TimedOut);
        },
        ServiceEvent::InvalidUuid(reason) => text::joined("Invalid SPP UUID: ", reason.as_str()),
        ServiceEvent::SessionFailed(reason) => text::joined(
            "Failed to create bluer session: ",
            reason.as_str(),
        ),
        ServiceEvent::AdapterFailed(reason) => text::joined(
            "Failed to get default adapter: ",
            reason.as_str(),
        ),
        ServiceEvent::DeviceFailed(reason) => {
            let mut out: String = text::joined(
                "Failed to open device ",
                address::address_text(target).as_str(),
            );
            out.append(": ");
            out.append(reason.as_str());
            out
        },
        ServiceEvent::RegistrationFailed(reason) => text::joined(
            "Failed to register SPP profile: ",
            reason.as_str(),
        ),
        ServiceEvent::AcceptFailed(reason) => text::joined(
            "Failed to accept SPP profile fd: ",
            reason.as_str(),
        ),
        ServiceEvent::ProfileClosed => {
            "SPP profile closed before receiving an RFCOMM fd".to_owned()
        },
        ServiceEvent::ConnectReturned => {
            "BlueZ ConnectProfile completed without providing an RFCOMM fd".to_owned()
        },
        ServiceEvent::ConnectFailed(reason) => text::joined(
            "BlueZ ConnectProfile failed: ",
            reason.as_str(),
        ),
    };
    ServiceAction::Done(AttemptResult::Failed(reason))
}

/// A connection that is being made.
pub struct ConnectBegun {
    /// The canonical address of the device.
    pub address: String,
    pub bytes: [u8; 6],
    /// What ends an earlier connection to the same device.
    pub replaced: Option<StoppedConnection>,
    pub sequence: ConnectSequence,
}

/// What a connection request starts with.
pub struct ConnectStart {
    /// What ends the scan.
    pub scan: ScanHandles,
    pub begun: Result<ConnectBegun, LinuxError>,
}

/// The state when a connection to `key` is being made.
pub open spec fn while_connecting(st: StateView, key: Seq<char>) -> StateView {
    StateView { connections: st.connections.remove(key), ..scan::without_scan(st) }
}

/// Begins to connect to a device: ends the scan and any earlier connection to that device, and
/// keeps the callbacks that were registered for the coming connection.
pub fn connect_impl(st: &mut GlobalState, addr_str: &str, fallback_channels: &[u8]) -> (r:
    ConnectStart)
    requires
        old(st).wf(),
    ensures
        final(st).wf(),
        r.scan == scan::scan_of(old(st)@),
        match r.begun {
            Ok(begun) => {
                &&& address::canonical(addr_str@) == Ok::<Seq<char>, Seq<char>>(begun.address@)
                &&& address::address_bytes(addr_str@) == Ok::<Seq<u8>, Seq<char>>(begun.bytes@)
                &&& begun.replaced == state::stopped_if_any(
                    address_map::found(old(st)@.connections, begun.address@),
                )
                &&& begun.sequence@ == (SequenceView {
                    channels: channels::fallback_order(fallback_channels@, HIGHEST_CHANNEL),
                    failures: 0,
                    last_error: None,
                })
                &&& final(st)@ == while_connecting(old(st)@, begun.address@)
            },
            Err(error) => address::refuses(error, addr_str@) && final(st)@ == scan::without_scan(
                old(st)@,
            ),
        },
{
    let scan = scan::stop_scan_impl(st);
    match address::normalize_addr(addr_str) {
        Ok((key, bytes)) => {
            let replaced: Option<StoppedConnection> = match st.connections.remove(key.as_str()) {
                Some(connection) => Some(state::stop_connection(connection)),
                None => None,
            };
            let channels: Vec<u8> = normalized_fallback_channels(fallback_channels);
            ConnectStart {
                scan,
                begun: Ok(
                    ConnectBegun {
                        address: key,
                        bytes,
                        replaced,
                        sequence: ConnectSequence::new(channels),
                    },
                ),
            }
        },
        Err(error) => ConnectStart { scan, begun: Err(error) },
    }
}

/// A fresh connection: it takes over the callbacks that wait for it.
pub open spec fn fresh_connection(
    st: StateView,
    key: Seq<char>,
    stream: u64,
    name: Option<Seq<char>>,
) -> ConnectionView {
    ConnectionView {
        socket_stream: stream,
        read_stop: None,
        read_thread: None,
        readers: Seq::empty(),
        connected_device_info: DeviceView { name, address: key },
        on_connected_callback: address_map::found(st.on_connected_callbacks, key),
        data_listener_callback: address_map::found(st.data_listener_callbacks, key),
    }
}

/// The state once the device is connected.
pub open spec fn when_connected(
    st: StateView,
    key: Seq<char>,
    stream: u64,
    name: Option<Seq<char>>,
) -> StateView {
    StateView {
        connections: st.connections.insert(key, fresh_connection(st, key, stream, name)),
        on_connected_callbacks: st.on_connected_callbacks.remove(key),
        data_listener_callbacks: st.data_listener_callbacks.remove(key),
        ..st
    }
}

/// A connection that was recorded.
#[derive(Debug, PartialEq, Eq)]
pub struct ConnectFinished {
    /// What belonged to a connection that was made to the device meanwhile: it is let go, and
    /// its reader is not told.
    pub displaced: Option<StoppedConnection>,
    /// The callback that waits for the connection.
    pub callback: Option<u64>,
}

/// Records a connection that was made, in place of one that was made meanwhile.
pub fn finish_connect(
    st: &mut GlobalState,
    address: String,
    stream: u64,
    name: Option<String>,
) -> (r: ConnectFinished)
    requires
        old(st).wf(),
    ensures
        final(st).wf(),
        r.displaced == state::stopped_if_any(
            address_map::found(old(st)@.connections, address@),
        ),
        r.callback == address_map::found(old(st)@.on_connected_callbacks, address@),
        final(st)@ == when_connected(old(st)@, address@, stream, text::text_of(name)),
{
    let callback: Option<u64> = st.on_connected_callbacks.remove(address.as_str());
    let listener: Option<u64> = st.data_listener_callbacks.remove(address.as_str());
    let displaced: Option<StoppedConnection> = match st.connections.remove(address.as_str()) {
        Some(connection) => Some(state::stop_connection(connection)),
        None => None,
    };
    let connection = DeviceConnection {
        socket_stream: stream,
        read_stop: None,
        read_thread: None,
        readers: Vec::new(),
        connected_device_info: SPPDevice { name, address: address.clone() },
        on_connected_callback: callback,
        data_listener_callback: listener,
    };
    st.connections.insert(address, connection);
    assert(st@.connections =~= when_connected(
        old(st)@,
        address@,
        stream,
        text::text_of(name),
    ).connections);
    ConnectFinished { displaced, callback }
}

/// Connecting to one device does not affect any other.
pub proof fn law_connecting_leaves_others_alone(
    st: StateView,
    key: Seq<char>,
    stream: u64,
    name: Option<Seq<char>>,
)
    ensures
        ({
            let during = while_connecting(st, key);
            let after = when_connected(during, key, stream, name);
            &&& address_map::same_elsewhere(during.connections, st.connections, key)
            &&& address_map::same_elsewhere(after.connections, st.connections, key)
            &&& address_map::same_elsewhere(
                after.on_connected_callbacks,
                st.on_connected_callbacks,
                key,
            )
            &&& address_map::same_elsewhere(
                after.data_listener_callbacks,
                st.data_listener_callbacks,
                key,
            )
        }),
{
}

/// Callbacks registered before a connection exists belong to it once it is made.
pub proof fn law_early_callbacks_reach_the_connection(
    st: StateView,
    key: Seq<char>,
    callback: u64,
    listener: u64,
    stream: u64,
    name: Option<Seq<char>>,
)
    requires
        !st.connections.contains_key(key),
    ensures
        ({
            let waiting = state::with_data_listener(
                state::with_connected_callback(st, key, callback),
                key,
                listener,
            );
            let after = when_connected(while_connecting(waiting, key), key, stream, name);
            &&& after.connections.contains_key(key)
            &&& after.connections[key].on_connected_callback == Some(callback)
            &&& after.connections[key].data_listener_callback == Some(listener)
            &&& after.connections[key].connected_device_info == (DeviceView { name, address: key })
        }),
{
}

/// A disconnect leaves nothing of the device and everything of the others.
pub proof fn law_disconnect_forgets_the_device(st: StateView, key: Seq<char>)
    ensures
        ({
            let after = state::without_device(st, key);
            &&& !after.connections.contains_key(key)
            &&& !after.on_connected_callbacks.contains_key(key)
            &&& !after.data_listener_callbacks.contains_key(key)
            &&& address_map::same_elsewhere(after.connections, st.connections, key)
            &&& address_map::same_elsewhere(
                after.on_connected_callbacks,
                st.on_connected_callbacks,
                key,
            )
            &&& address_map::same_elsewhere(
                after.data_listener_callbacks,
                st.data_listener_callbacks,
                key,
            )
        }),
{
}

} // verus!
