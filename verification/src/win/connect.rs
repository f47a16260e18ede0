//! Making a connection: by service, three times, then by channel number; with pairing where the
//! device asks for it.
use vstd::prelude::*;

use crate::channels;
use crate::models::{DeviceView, SPPDevice};
use crate::text;
use crate::win::address;
use crate::win::error::{AttemptError, WinError};
use crate::win::state;
use crate::win::state::{
    ConnectedThreadHandles, DisconnectedConnection, GlobalState, StateView,
};

verus! {

/// The identifier of the serial port service.
pub const SPP_SERVICE_CLASS_UUID: u128 = 0x00001101_0000_1000_8000_00805F9B34FB;

/// How many times the service is asked for.
pub const UUID_ATTEMPTS: usize = 3;

/// How long to wait after the first failure, in milliseconds; after the second twice as long.
pub const UUID_RETRY_MS: u64 = 250;

/// The port that stands for whatever port the service has.
pub const PORT_ANY: u32 = 0;

/// The RFCOMM protocol.
pub const BTHPROTO_RFCOMM: i32 = 3;

/// The highest channel number that is tried.
pub const HIGHEST_CHANNEL: u8 = 255;

/// Access was denied: the device wants to be paired.
pub const WSAEACCES: i32 = 10013;

/// The call succeeded.
pub const ERROR_SUCCESS: u32 = 0;

/// The device is paired already.
pub const ERROR_NO_MORE_ITEMS: u32 = 259;

/// How long to wait after pairing, in milliseconds.
pub const PAIRING_SETTLE_MS: u64 = 500;

/// The channels to try, in order.
pub fn normalized_fallback_channels(fallback_channels: &[u8]) -> (r: Vec<u8>)
    ensures
        r@ == channels::fallback_order(fallback_channels@, HIGHEST_CHANNEL),
{
    channels::normalized(fallback_channels, HIGHEST_CHANNEL)
}

/// What a socket connects to.
#[derive(Debug, PartialEq, Eq, Clone, Copy)]
pub struct SocketAddress {
    pub device: u64,
    pub service: u128,
    pub port: u32,
}

/// What a socket connects to: the service on whatever port it has, or else the channel.
pub open spec fn socket_address(device: u64, service: Option<u128>, channel: Option<u32>) -> Result<
    SocketAddress,
    AttemptError,
> {
    match (service, channel) {
        (Some(service), _) => Ok(SocketAddress { device, service, port: PORT_ANY }),
        (None, Some(channel)) => Ok(SocketAddress { device, service: 0, port: channel }),
        (None, None) => Err(AttemptError::NoTarget),
    }
}

/// What a socket connects to; the socket is to be made next.
pub fn attempt_connect(device_addr: u64, service_guid: Option<u128>, port_channel: Option<u32>) -> (r:
    Result<SocketAddress, AttemptError>)
    ensures
        r == socket_address(device_addr, service_guid, port_channel),
{
    match service_guid {
        Some(service) => Ok(SocketAddress { device: device_addr, service, port: PORT_ANY }),
        None => match port_channel {
            Some(port) => Ok(SocketAddress { device: device_addr, service: 0, port }),
            None => Err(AttemptError::NoTarget),
        },
    }
}

/// What the socket of an attempt connects to.
pub fn target_of(device_addr: u64, attempt: Attempt) -> (r: Result<SocketAddress, AttemptError>)
    ensures
        r == (match attempt {
            Attempt::Service => socket_address(device_addr, Some(SPP_SERVICE_CLASS_UUID), None),
            Attempt::Channel(channel) => socket_address(device_addr, None, Some(channel as u32)),
        }),
{
    match attempt {
        Attempt::Service => attempt_connect(device_addr, Some(SPP_SERVICE_CLASS_UUID), None),
        Attempt::Channel(channel) => attempt_connect(device_addr, None, Some(channel as u32)),
    }
}

/// What came of a step of an attempt.
pub enum AttemptEvent {
    /// The call for a socket failed, with this message.
    SocketCallFailed(String),
    /// The socket is not valid; this is the error code.
    InvalidSocket(i32),
    /// There is a socket.
    SocketMade(u64),
    /// The socket was connected, with this result; the error code counts where it is not zero.
    ConnectReturned { socket: u64, result: i32, code: i32 },
}

/// What an attempt does next.
pub enum AttemptAction {
    /// Connect this socket.
    Connect(u64),
    /// The attempt succeeded: limit the time that a send may block, and hand the socket on.
    Ready(u64),
    /// The attempt failed; a socket that there is has to be closed.
    Fail { close: Option<u64>, error: AttemptError },
}

/// What an attempt does next.
pub fn attempt_step(target: &SocketAddress, event: AttemptEvent) -> (r: AttemptAction)
    ensures
        match event {
            AttemptEvent::SocketCallFailed(reason) => r == (AttemptAction::Fail {
                close: None,
                error: AttemptError::SocketCall(reason),
            }),
            AttemptEvent::InvalidSocket(code) => r == (AttemptAction::Fail {
                close: None,
                error: AttemptError::NoSocket(code),
            }),
            AttemptEvent::SocketMade(socket) => r == AttemptAction::Connect(socket),
            AttemptEvent::ConnectReturned { socket, result, code } => if result == 0 {
                r == AttemptAction::Ready(socket)
            } else {
                r == (AttemptAction::Fail {
                    close: Some(socket),
                    error: AttemptError::NotConnected {
                        service: target.service,
                        port: target.port,
                        code,
                    },
                })
            },
        },
{
    match event {
        AttemptEvent::SocketCallFailed(reason) => AttemptAction::Fail {
            close: None,
            error: AttemptError::SocketCall(reason),
        },
        AttemptEvent::InvalidSocket(code) => AttemptAction::Fail {
            close: None,
            error: AttemptError::NoSocket(code),
        },
        AttemptEvent::SocketMade(socket) => AttemptAction::Connect(socket),
        AttemptEvent::ConnectReturned { socket, result, code } => if result == 0 {
            AttemptAction::Ready(socket)
        } else {
            AttemptAction::Fail {
                close: Some(socket),
                error: AttemptError::NotConnected {
                    service: target.service,
                    port: target.port,
                    code,
                },
            }
        },
    }
}

/// Whether a failure means that the device wants to be paired.
pub open spec fn wants_pairing(error: AttemptError) -> bool {
    error matches AttemptError::NotConnected { code, .. } && code == WSAEACCES
}

/// How a sequence of attempts failed.
#[derive(Debug, PartialEq, Eq)]
pub struct ConnectSequenceFailure {
    /// Whether the device wants to be paired.
    pub auth_required: bool,
    pub last_error: Option<AttemptError>,
}

impl ConnectSequenceFailure {
    /// No attempt has failed yet.
    pub fn new() -> (r: Self)
        ensures
            r == (ConnectSequenceFailure { auth_required: false, last_error: None }),
    {
        ConnectSequenceFailure { auth_required: false, last_error: None }
    }

    /// Takes the failure of an attempt.
    pub fn note(&mut self, error: AttemptError)
        ensures
            *final(self) == noted(*old(self), error),
    {
        match &error {
            AttemptError::NotConnected { code, .. } => {
                if *code == WSAEACCES {
                    self.auth_required = true;
                }
            },
            _ => {},
        }
        self.last_error = Some(error);
    }
}

/// The failure of a sequence after one more attempt has failed.
pub open spec fn noted(failure: ConnectSequenceFailure, error: AttemptError) -> ConnectSequenceFailure {
    ConnectSequenceFailure {
        auth_required: failure.auth_required || wants_pairing(error),
        last_error: Some(error),
    }
}

/// One way to reach the device.
#[derive(Debug, PartialEq, Eq, Clone, Copy)]
pub enum Attempt {
    /// Ask for the serial port service.
    Service,
    /// Connect to this channel.
    Channel(u8),
}

/// All attempts, in the order in which they are made.
pub open spec fn attempts(channels: Seq<u8>) -> Seq<Attempt> {
    seq![Attempt::Service, Attempt::Service, Attempt::Service] + channels.map_values(
        |channel: u8| Attempt::Channel(channel),
    )
}

/// How long to wait before the attempt that follows so many failures.
pub open spec fn pause_before(failures: nat) -> u64 {
    if 0 < failures < UUID_ATTEMPTS {
        (UUID_RETRY_MS * failures) as u64
    } else {
        0
    }
}

/// What a sequence of attempts does next.
pub enum SequenceAction {
    /// Wait, then make this attempt.
    Try { pause_ms: u64, attempt: Attempt },
    /// The device is connected through this socket.
    Connected(u64),
    /// No attempt is left.
    GiveUp(ConnectSequenceFailure),
}

/// The attempts to reach one device.
pub struct ConnectSequence {
    channels: Vec<u8>,
    /// How many times the service has failed.
    service_failures: usize,
    /// How many channels have failed.
    channel_failures: usize,
    failure: ConnectSequenceFailure,
}

/// What a [`ConnectSequence`] holds.
pub struct SequenceView {
    pub channels: Seq<u8>,
    /// How many attempts have failed.
    pub failures: nat,
    pub failure: ConnectSequenceFailure,
}

impl View for ConnectSequence {
    type V = SequenceView;

    closed spec fn view(&self) -> SequenceView {
        SequenceView {
            channels: self.channels@,
            failures: (self.service_failures + self.channel_failures) as nat,
            failure: self.failure,
        }
    }
}

/// A sequence before its first attempt.
pub open spec fn fresh_sequence(channels: Seq<u8>) -> SequenceView {
    SequenceView {
        channels,
        failures: 0,
        failure: ConnectSequenceFailure { auth_required: false, last_error: None },
    }
}

/// What a sequence does when no answer is outstanding.
pub open spec fn due(sequence: SequenceView) -> SequenceAction {
    if sequence.failures < attempts(sequence.channels).len() {
        SequenceAction::Try {
            pause_ms: pause_before(sequence.failures),
            attempt: attempts(sequence.channels)[sequence.failures as int],
        }
    } else {
        SequenceAction::GiveUp(sequence.failure)
    }
}

/// The sequence after one attempt has failed.
pub open spec fn after_failure(sequence: SequenceView, error: AttemptError) -> SequenceView {
    SequenceView {
        failures: sequence.failures + 1,
        failure: noted(sequence.failure, error),
        ..sequence
    }
}

impl ConnectSequence {
    #[verifier::type_invariant]
    spec fn well_formed(self) -> bool {
        &&& self.service_failures <= UUID_ATTEMPTS
        &&& self.channel_failures <= self.channels.len()
        &&& self.channel_failures > 0 ==> self.service_failures == UUID_ATTEMPTS
    }

    /// The sequence before its first attempt.
    pub fn new(channels: Vec<u8>) -> (r: Self)
        ensures
            r@ == fresh_sequence(channels@),
    {
        ConnectSequence {
            channels,
            service_failures: 0,
            channel_failures: 0,
            failure: ConnectSequenceFailure::new(),
        }
    }

    /// The attempt that is due, if one is left.
    pub fn next_attempt(&self) -> (r: Option<(u64, Attempt)>)
        ensures
            match r {
                Some((pause_ms, attempt)) => due(self@) == (SequenceAction::Try {
                    pause_ms,
                    attempt,
                }),
                None => due(self@) is GiveUp,
            },
    {
        proof {
            use_type_invariant(self);
        }
        if self.service_failures < UUID_ATTEMPTS {
            let pause_ms: u64 = UUID_RETRY_MS * (self.service_failures as u64);
            Some((pause_ms, Attempt::Service))
        } else if self.channel_failures < self.channels.len() {
            Some((0, Attempt::Channel(self.channels[self.channel_failures])))
        } else {
            None
        }
    }

    /// Takes the result of the attempt that was due.
    pub fn try_connect_sequence(self, result: Result<u64, AttemptError>) -> (r: (
        Option<Self>,
        SequenceAction,
    ))
        ensures
            if due(self@) is Try {
                match result {
                    Ok(socket) => r.0 is None && r.1 == SequenceAction::Connected(socket),
                    Err(error) => {
                        let next = after_failure(self@, error);
                        &&& r.1 == due(next)
                        &&& if due(next) is Try {
                            r.0 matches Some(sequence) && sequence@ == next
                        } else {
                            r.0 is None
                        }
                    },
                }
            } else {
                r.0 is None && r.1 == due(self@)
            },
    {
        proof {
            use_type_invariant(&self);
        }
        if self.next_attempt().is_none() {
            return (None, SequenceAction::GiveUp(self.failure));
        }
        let error: AttemptError = match result {
            Ok(socket) => {
                return (None, SequenceAction::Connected(socket));
            },
            Err(error) => error,
        };
        let mut failure: ConnectSequenceFailure = self.failure;
        failure.note(error);
        let (service_failures, channel_failures): (usize, usize) = if self.service_failures
            < UUID_ATTEMPTS {
            (self.service_failures + 1, self.channel_failures)
        } else {
            (self.service_failures, self.channel_failures + 1)
        };
        let sequence = ConnectSequence {
            channels: self.channels,
            service_failures,
            channel_failures,
            failure,
        };
        match sequence.next_attempt() {
            Some((pause_ms, attempt)) => (
                Some(sequence),
                SequenceAction::Try { pause_ms, attempt },
            ),
            None => (None, SequenceAction::GiveUp(sequence.failure)),
        }
    }
}

/// A sequence after several attempts have failed.
pub open spec fn after_failures(channels: Seq<u8>, errors: Seq<AttemptError>) -> SequenceView
    decreases errors.len(),
{
    if errors.len() == 0 {
        fresh_sequence(channels)
    } else {
        after_failure(after_failures(channels, errors.drop_last()), errors.last())
    }
}

proof fn lemma_after_failures(channels: Seq<u8>, errors: Seq<AttemptError>)
    ensures
        ({
            let sequence = after_failures(channels, errors);
            &&& sequence.channels == channels
            &&& sequence.failures == errors.len()
            &&& sequence.failure.auth_required == exists|i: int|
                0 <= i < errors.len() && wants_pairing(#[trigger] errors[i])
            &&& sequence.failure.last_error == (if errors.len() == 0 {
                None
            } else {
                Some(errors.last())
            })
        }),
    decreases errors.len(),
{
    if errors.len() > 0 {
        let init = errors.drop_last();
        lemma_after_failures(channels, init);
        if after_failures(channels, errors).failure.auth_required {
            if wants_pairing(errors.last()) {
                assert(wants_pairing(errors[errors.len() - 1]));
            } else {
                let i = choose|i: int| 0 <= i < init.len() && wants_pairing(#[trigger] init[i]);
                assert(wants_pairing(errors[i]));
            }
        }
        if exists|i: int| 0 <= i < errors.len() && wants_pairing(#[trigger] errors[i]) {
            let i = choose|i: int| 0 <= i < errors.len() && wants_pairing(#[trigger] errors[i]);
            if i < init.len() {
                assert(wants_pairing(init[i]));
            }
        }
    }
}

/// The service is asked for three times before any channel is tried, and then each channel is
/// tried once, in order; the sequence is given up when all of that has failed, and not before.
pub proof fn law_order_of_attempts(channels: Seq<u8>, errors: Seq<AttemptError>)
    requires
        errors.len() <= attempts(channels).len(),
    ensures
        ({
            let action = due(after_failures(channels, errors));
            let n = errors.len() as int;
            if n < UUID_ATTEMPTS {
                action == (SequenceAction::Try {
                    pause_ms: (UUID_RETRY_MS * n) as u64,
                    attempt: Attempt::Service,
                })
            } else if n < UUID_ATTEMPTS + channels.len() {
                action == (SequenceAction::Try {
                    pause_ms: 0,
                    attempt: Attempt::Channel(channels[n - UUID_ATTEMPTS]),
                })
            } else {
                action matches SequenceAction::GiveUp(failure) && failure.last_error == Some(
                    errors.last(),
                )
            }
        }),
{
    lemma_after_failures(channels, errors);
}

/// Pairing is asked for exactly when some attempt was denied access.
pub proof fn law_pairing_is_wanted_when_access_was_denied(
    channels: Seq<u8>,
    errors: Seq<AttemptError>,
)
    ensures
        after_failures(channels, errors).failure.auth_required <==> exists|i: int|
            0 <= i < errors.len() && wants_pairing(#[trigger] errors[i]),
{
    lemma_after_failures(channels, errors);
}

/// How a request to connect begins, once WinSock is started and the scan was stopped.
#[derive(Debug, PartialEq, Eq)]
pub enum ConnectStart {
    /// The device is connected already.
    AlreadyConnected,
    /// Whatever was connected has to be closed first; then the device is looked for, if its
    /// address can be read, and a sequence with these channels begins.
    Begin {
        disconnected: Option<DisconnectedConnection>,
        target: Result<u64, WinError>,
        channels: Vec<u8>,
    },
}

/// Whether the device at this address is the one that is connected.
pub open spec fn is_connected_to(st: StateView, addr: Seq<char>) -> bool {
    st.connected_device_info matches Some(device) && device.address == addr
}

/// Whether `start` is how a request to connect to `addr` begins.
pub open spec fn begins(
    start: ConnectStart,
    st: StateView,
    addr: Seq<char>,
    fallback_channels: Seq<u8>,
) -> bool {
    if is_connected_to(st, addr) {
        start is AlreadyConnected
    } else {
        &&& start matches ConnectStart::Begin { disconnected, target, channels }
        &&& disconnected == state::disconnection(st.connection_handles)
        &&& match target {
            Ok(number) => address::is_address(addr) && number == address::address_of(addr),
            Err(error) => !address::is_address(addr) && address::refuses(error, addr),
        }
        &&& channels@ == channels::fallback_order(fallback_channels, HIGHEST_CHANNEL)
    }
}

/// The state when a request to connect to `addr` has begun.
pub open spec fn begun(st: StateView, addr: Seq<char>) -> StateView {
    if is_connected_to(st, addr) {
        st
    } else {
        state::disconnected(st)
    }
}

/// Begins to connect to a device: another device that is connected is disconnected, and the
/// address is read.
pub fn connect_impl_with_fallback_channels(
    st: &mut GlobalState,
    addr_str: &str,
    fallback_channels: &[u8],
) -> (r: ConnectStart)
    requires
        old(st).wf(),
    ensures
        final(st).wf(),
        final(st)@ == begun(old(st)@, addr_str@),
        begins(r, old(st)@, addr_str@, fallback_channels@),
{
    let channels: Vec<u8> = normalized_fallback_channels(fallback_channels);
    let same: bool = match &st.connected_device_info {
        Some(device) => text::same_text(device.address.as_str(), addr_str),
        None => false,
    };
    if same {
        return ConnectStart::AlreadyConnected;
    }
    let disconnected: Option<DisconnectedConnection> = state::disconnect_internal(st);
    ConnectStart::Begin { disconnected, target: address::string_to_bth_addr(addr_str), channels }
}

/// Begins to connect to a device with the channels that are tried where a caller names none.
pub fn connect_impl(st: &mut GlobalState, addr_str: &str) -> (r: ConnectStart)
    requires
        old(st).wf(),
    ensures
        final(st).wf(),
        final(st)@ == begun(old(st)@, addr_str@),
        begins(r, old(st)@, addr_str@, seq![5u8, 1u8]),
{
    let fallback_channels: [u8; 2] = [5, 1];
    assert(fallback_channels@ =~= seq![5u8, 1u8]);
    connect_impl_with_fallback_channels(st, addr_str, fallback_channels.as_slice())
}

/// What follows the end of a sequence of attempts.
pub enum AfterSequence {
    /// The device is connected through this socket.
    Connected(u64),
    /// Pair with the device and begin the sequence again; first remove a bond that the device no
    /// longer accepts.
    Pair { remove_bond: bool },
    /// The device cannot be connected.
    GiveUp(WinError),
}

/// Whether pairing follows the end of a sequence: the device wants to be paired, and pairing was
/// not tried yet.
pub open spec fn pairs_after(paired: bool, outcome: Result<u64, ConnectSequenceFailure>) -> bool {
    outcome matches Err(failure) && failure.auth_required && !paired
}

/// The sequences of attempts that one request to connect makes.
pub struct ConnectRounds {
    paired: bool,
}

impl View for ConnectRounds {
    type V = bool;

    /// Whether pairing was tried.
    closed spec fn view(&self) -> bool {
        self.paired
    }
}

impl ConnectRounds {
    /// No sequence has ended yet.
    pub fn new() -> (r: Self)
        ensures
            !r@,
    {
        ConnectRounds { paired: false }
    }

    /// What follows the end of a sequence of attempts to connect to the device at `addr`:
    /// `authenticated` says whether the system holds a bond with the device. A device that
    /// wants to be paired is paired with, once.
    pub fn after_sequence(
        &mut self,
        addr: &str,
        outcome: Result<u64, ConnectSequenceFailure>,
        authenticated: bool,
    ) -> (r: AfterSequence)
        ensures
            final(self)@ == (old(self)@ || pairs_after(old(self)@, outcome)),
            match outcome {
                Ok(socket) => r == AfterSequence::Connected(socket),
                Err(failure) => if pairs_after(old(self)@, outcome) {
                    r == (AfterSequence::Pair { remove_bond: authenticated })
                } else {
                    r matches AfterSequence::GiveUp(WinError::ConnectFailed(to, last)) && to@
                        == addr@ && last == failure.last_error
                },
            },
    {
        match outcome {
            Ok(socket) => AfterSequence::Connected(socket),
            Err(failure) => if failure.auth_required && !self.paired {
                self.paired = true;
                AfterSequence::Pair { remove_bond: authenticated }
            } else {
                AfterSequence::GiveUp(
                    WinError::ConnectFailed(addr.to_owned(), failure.last_error),
                )
            },
        }
    }
}

/// Whether pairing was tried after several sequences.
pub open spec fn paired_after(outcomes: Seq<Result<u64, ConnectSequenceFailure>>) -> bool
    decreases outcomes.len(),
{
    outcomes.len() > 0 && {
        let before = paired_after(outcomes.drop_last());
        before || pairs_after(before, outcomes.last())
    }
}

/// How many times several sequences were followed by pairing.
pub open spec fn pairings(outcomes: Seq<Result<u64, ConnectSequenceFailure>>) -> nat
    decreases outcomes.len(),
{
    if outcomes.len() == 0 {
        0
    } else {
        let init = outcomes.drop_last();
        pairings(init) + (if pairs_after(paired_after(init), outcomes.last()) {
            1nat
        } else {
            0nat
        })
    }
}

/// However its sequences end, one request to connect pairs with the device at most once.
pub proof fn law_pairs_at_most_once(outcomes: Seq<Result<u64, ConnectSequenceFailure>>)
    ensures
        pairings(outcomes) == (if paired_after(outcomes) {
            1nat
        } else {
            0nat
        }),
        pairings(outcomes) <= 1,
    decreases outcomes.len(),
{
    if outcomes.len() > 0 {
        law_pairs_at_most_once(outcomes.drop_last());
    }
}

/// The state when a connection to the device at `addr` was made.
pub open spec fn connection_made(
    st: StateView,
    addr: Seq<char>,
    name: Seq<char>,
    socket: u64,
    stop_flag: u64,
    socket_close_lock: u64,
) -> StateView {
    StateView {
        next_connection_id: next_connection_id(st.next_connection_id),
        connection_handles: Some(
            ConnectedThreadHandles {
                socket,
                read_thread: None,
                stop_flag,
                socket_close_lock,
                connection_id: st.next_connection_id,
            },
        ),
        connected_device_info: Some(DeviceView { name: Some(name), address: addr }),
        ..st
    }
}

/// The number of the connection after the one with this number; zero is never given out.
pub open spec fn next_connection_id(id: u64) -> u64 {
    if id == u64::MAX {
        1
    } else {
        (id + 1) as u64
    }
}

/// What is left to do when a connection was made; `steps` gives the order.
#[derive(Debug, PartialEq, Eq)]
pub struct MadeConnection {
    /// A connection that was made meanwhile, and is replaced.
    pub displaced: Option<DisconnectedConnection>,
    /// The callback to call.
    pub callback: Option<u64>,
}

/// Records a connection that was made.
pub fn finish_connect(
    st: &mut GlobalState,
    addr_str: &str,
    name: &[u16],
    socket: u64,
    stop_flag: u64,
    socket_close_lock: u64,
) -> (r: MadeConnection)
    requires
        old(st).wf(),
    ensures
        final(st).wf(),
        r.displaced == state::disconnection(old(st)@.connection_handles),
        r.callback == old(st)@.on_connected_callback,
        final(st)@ == connection_made(
            old(st)@,
            addr_str@,
            address::utf16_text(address::before_zero(name@)),
            socket,
            stop_flag,
            socket_close_lock,
        ),
{
    let displaced: Option<DisconnectedConnection> = state::disconnect_internal(st);
    let connection_id: u64 = st.next_connection_id;
    st.next_connection_id = if connection_id == u64::MAX {
        1
    } else {
        connection_id + 1
    };
    st.connection_handles = Some(
        ConnectedThreadHandles {
            socket,
            read_thread: None,
            stop_flag,
            socket_close_lock,
            connection_id,
        },
    );
    st.connected_device_info = Some(
        SPPDevice {
            name: Some(address::string_from_utf16_char_array(name)),
            address: addr_str.to_owned(),
        },
    );
    MadeConnection { displaced, callback: st.on_connected_callback }
}

/// Two connections that follow each other have different numbers, and none has the number zero.
pub proof fn law_connections_differ(
    st: StateView,
    addr: Seq<char>,
    name: Seq<char>,
    socket: u64,
    stop_flag: u64,
    socket_close_lock: u64,
)
    requires
        state::well_formed(st),
    ensures
        ({
            let after = connection_made(st, addr, name, socket, stop_flag, socket_close_lock);
            &&& state::well_formed(after)
            &&& after.connection_handles matches Some(handles)
            &&& handles.connection_id != 0
            &&& after.next_connection_id != handles.connection_id
        }),
{
}

/// A device that was connected is known as connected until the connection ends.
pub proof fn law_connected_device_is_known(
    st: StateView,
    addr: Seq<char>,
    name: Seq<char>,
    socket: u64,
    stop_flag: u64,
    socket_close_lock: u64,
)
    ensures
        is_connected_to(connection_made(st, addr, name, socket, stop_flag, socket_close_lock), addr),
        !is_connected_to(state::disconnected(st), addr),
{
}

} // verus!
