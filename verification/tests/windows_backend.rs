use btclassic_spp::models::SPPDevice;
use btclassic_spp::win::address::{
    bth_addr_to_string, string_from_utf16_char_array, string_to_bth_addr,
};
use btclassic_spp::win::connect;
use btclassic_spp::win::connect::{
    AfterSequence, Attempt, AttemptAction, AttemptEvent, ConnectRounds, ConnectSequence,
    ConnectSequenceFailure, ConnectStart, SequenceAction, SocketAddress,
};
use btclassic_spp::win::error::{AttemptError, WinError};
use btclassic_spp::win::pairing;
use btclassic_spp::win::pairing::{AuthAnswer, AuthDecision, AuthRequest, AuthResponse};
use btclassic_spp::win::scan;
use btclassic_spp::win::scan::{ScanStep, StoppedScan};
use btclassic_spp::win::state;
use btclassic_spp::win::state::{DisconnectedConnection, GlobalState, SocketClose};
use btclassic_spp::win::steps::Step;
use btclassic_spp::win::transfer;
use btclassic_spp::win::transfer::{ReadAction, ReadEvent, ReaderStart, SendAction, SendTarget};

const ADDR: &str = "AA:BB:CC:DD:EE:01";
const NUMBER: u64 = 0xAABBCCDDEE01;

fn utf16(text: &str) -> Vec<u16> {
    text.encode_utf16().collect()
}

fn make_connection(st: &mut GlobalState, socket: u64) {
    connect::finish_connect(st, ADDR, &utf16("watch\0rest"), socket, socket + 1, socket + 2);
}

fn denied() -> AttemptError {
    AttemptError::NotConnected { service: 0, port: 5, code: 10013 }
}

#[test]
fn windows_addresses_are_read_and_written() {
    assert_eq!(bth_addr_to_string(NUMBER), ADDR);
    assert_eq!(bth_addr_to_string(0xFFFF_0000_0000_0001), "00:00:00:00:00:01");
    assert_eq!(string_to_bth_addr(ADDR), Ok(NUMBER));
    assert_eq!(string_to_bth_addr(&bth_addr_to_string(NUMBER | 0xFFFF << 48)), Ok(NUMBER));
    assert_eq!(string_to_bth_addr("aa:bb:cc:dd:ee:1"), Ok(NUMBER));
    assert_eq!(string_to_bth_addr("FF:FF:FF:FF:FF:FF"), Ok(0xFFFF_FFFF_FFFF));
    assert_eq!(string_to_bth_addr(&bth_addr_to_string(0x0102_0304_0506)), Ok(0x0102_0304_0506));
    assert_eq!(
        string_to_bth_addr("AA:BB"),
        Err(WinError::InvalidAddress("AA:BB".to_string()))
    );
    assert_eq!(
        string_to_bth_addr("xx:BB:CC:yy:EE:01"),
        Err(WinError::InvalidHexByte("yy".to_string()))
    );
}

#[test]
fn windows_names_end_at_the_first_zero() {
    assert_eq!(string_from_utf16_char_array(&utf16("watch\0rest")), "watch");
    assert_eq!(string_from_utf16_char_array(&utf16("whole")), "whole");
    assert_eq!(string_from_utf16_char_array(&[]), "");
    assert_eq!(string_from_utf16_char_array(&utf16("ä😀")), "ä😀");
    assert_eq!(string_from_utf16_char_array(&[0xD83D, 0x41]), "\u{FFFD}A");
    assert_eq!(string_from_utf16_char_array(&[0xDE00, 0xD83D]), "\u{FFFD}\u{FFFD}");
}

#[test]
fn windows_error_messages() {
    assert_eq!(
        WinError::InvalidAddress("A".to_string()).text(),
        "Invalid Bluetooth address format: A"
    );
    assert_eq!(
        WinError::InvalidHexByte("zz".to_string()).text(),
        "Invalid hex byte in address: zz"
    );
    assert_eq!(WinError::InvalidEvent.text(), "CreateEventW returned an invalid handle");
    assert_eq!(WinError::WinsockNotStarted(10091).text(), "WSAStartup failed with error: 10091");
    assert_eq!(
        WinError::ConnectFailed("A".to_string(), None).text(),
        "SPP Service UUID and fallback RFCOMM channels failed for A: None"
    );
    assert_eq!(
        WinError::ConnectFailed("A".to_string(), Some(denied())).text(),
        "SPP Service UUID and fallback RFCOMM channels failed for A: Some(Connection failed for \
         service 00000000000000000000000000000000/port 5\n\nCaused by:\n    connect failed with \
         Win32 error 10013)"
    );
    assert_eq!(
        WinError::PairingFailed("A".to_string(), 1460).text(),
        "BluetoothAuthenticateDeviceEx failed for A: 1460"
    );
    assert_eq!(WinError::CannotSubscribe.text(), "Not connected. Cannot start subscription.");
    assert_eq!(WinError::CannotSend.text(), "Not connected. Cannot send data.");
    assert_eq!(WinError::Closing.text(), "Connection is closing. Cannot send data.");
    assert_eq!(
        WinError::SendTimedOut.text(),
        "send timed out after 20000ms; connection torn down"
    );
    assert_eq!(
        WinError::SendFailed(10054).text(),
        "send failed with error 10054; connection torn down"
    );
    assert_eq!(
        AttemptError::NoTarget.text(),
        "Either service_guid or port_channel must be specified for connect attempt"
    );
    assert_eq!(AttemptError::SocketCall("x".to_string()).text(), "x");
    assert_eq!(AttemptError::NoSocket(10022).text(), "Failed to create socket: 10022");
}

#[test]
fn windows_starts_winsock_once() {
    let mut st = GlobalState::new();
    assert!(state::init_winsock_if_needed(&st));
    assert_eq!(state::winsock_started(&mut st, 5), Err(WinError::WinsockNotStarted(5)));
    assert!(state::init_winsock_if_needed(&st));
    assert_eq!(state::winsock_started(&mut st, 0), Ok(()));
    assert!(!state::init_winsock_if_needed(&st));
    assert!(scan::cleanup_bluetooth_resources(&mut st).stop_winsock);
    assert!(!scan::bluetooth_stack_cleanup(&mut st).stop_winsock);
}

#[test]
fn windows_scan_drops_what_an_earlier_one_finds() {
    let mut st = GlobalState::new();
    assert!(scan::start_scan_impl(&mut st));
    let first = scan::scan_begun(&mut st, 1, 2).generation;
    scan::remember_scanned_device(&mut st, &utf16("a"), NUMBER, first);
    scan::remember_scanned_device(&mut st, &utf16("b"), NUMBER, first);
    assert!(!scan::start_scan_impl(&mut st));
    assert_eq!(
        scan::get_scanned_devices_impl(&st),
        vec![SPPDevice { name: Some("a".to_string()), address: ADDR.to_string() }]
    );
    assert_eq!(
        scan::stop_scan_impl(&mut st),
        StoppedScan { stop_event: Some(1), reap: Some(2), wait_for: vec![] }
    );
    assert!(scan::start_scan_impl(&mut st));
    let second = scan::scan_begun(&mut st, 3, 4).generation;
    assert_ne!(first, second);
    scan::remember_scanned_device(&mut st, &utf16("a"), NUMBER, first);
    assert_eq!(scan::get_scanned_devices_impl(&st), vec![]);
    scan::scan_finished(&mut st, first);
    assert!(st.is_scanning);
    scan::scan_finished(&mut st, second);
    assert!(!st.is_scanning);
    assert_eq!(
        scan::stop_scan_and_wait(&mut st),
        StoppedScan { stop_event: Some(3), reap: Some(4), wait_for: vec![2, 4] }
    );
}

#[test]
fn windows_waiting_stop_waits_for_every_scan_thread() {
    let nothing = || StoppedScan { stop_event: None, reap: None, wait_for: vec![] };
    let mut st = GlobalState::new();
    assert_eq!(scan::stop_scan_and_wait(&mut st), nothing());
    scan::scan_begun(&mut st, 1, 2);
    assert_eq!(scan::stop_scan_impl(&mut st).reap, Some(2));
    // Its thread has not returned yet, so everyone who waits waits for it.
    for _ in 0..2 {
        assert_eq!(
            scan::stop_scan_and_wait(&mut st),
            StoppedScan { stop_event: None, reap: None, wait_for: vec![2] }
        );
    }
    scan::scan_thread_reaped(&mut st, 2);
    assert_eq!(scan::stop_scan_and_wait(&mut st), nothing());
    // A scan that ended by itself is begun again before its thread was taken care of.
    let earlier = scan::scan_begun(&mut st, 3, 4);
    assert_eq!(earlier.reap, None);
    scan::scan_finished(&mut st, earlier.generation);
    assert!(scan::start_scan_impl(&mut st));
    assert_eq!(scan::scan_begun(&mut st, 5, 6).reap, Some(4));
    assert_eq!(scan::bluetooth_stack_cleanup(&mut st).reap, Some(6));
    scan::scan_thread_reaped(&mut st, 9);
    assert_eq!(scan::stop_scan_and_wait(&mut st).wait_for, vec![4, 6]);
    scan::scan_thread_reaped(&mut st, 4);
    assert_eq!(scan::stop_scan_and_wait(&mut st).wait_for, vec![6]);
}

#[test]
fn windows_scan_thread_goes_round_until_stopped() {
    for (step, answer, next) in [
        (ScanStep::CheckBeforeCycle, true, ScanStep::Finished),
        (ScanStep::CheckBeforeCycle, false, ScanStep::FindFirst),
        (ScanStep::FindFirst, true, ScanStep::CheckBeforeNext),
        (ScanStep::FindFirst, false, ScanStep::Pause),
        (ScanStep::CheckBeforeNext, true, ScanStep::Finished),
        (ScanStep::CheckBeforeNext, false, ScanStep::FindNext),
        (ScanStep::FindNext, true, ScanStep::CheckBeforeNext),
        (ScanStep::FindNext, false, ScanStep::Pause),
        (ScanStep::Pause, true, ScanStep::Finished),
        (ScanStep::Pause, false, ScanStep::CheckBeforeCycle),
        (ScanStep::Finished, false, ScanStep::Finished),
    ] {
        assert_eq!(scan::next_scan_step(step, answer), next);
    }
}

#[test]
fn windows_generations_and_numbers_wrap() {
    assert_eq!(state::number_after(7), 8);
    assert_eq!(state::number_after(u64::MAX), 0);
    let mut st = GlobalState::new();
    st.next_connection_id = u64::MAX;
    make_connection(&mut st, 10);
    assert_eq!(st.next_connection_id, 1);
    assert_eq!(st.connection_handles.map(|h| h.connection_id), Some(u64::MAX));
}

#[test]
fn windows_attempt_goes_to_the_service_or_the_channel() {
    assert_eq!(
        connect::attempt_connect(NUMBER, Some(7), Some(5)),
        Ok(SocketAddress { device: NUMBER, service: 7, port: 0 })
    );
    assert_eq!(
        connect::target_of(NUMBER, Attempt::Channel(5)),
        Ok(SocketAddress { device: NUMBER, service: 0, port: 5 })
    );
    assert_eq!(
        connect::target_of(NUMBER, Attempt::Service),
        Ok(SocketAddress {
            device: NUMBER,
            service: 0x00001101_0000_1000_8000_00805F9B34FB,
            port: 0
        })
    );
    assert_eq!(connect::attempt_connect(NUMBER, None, None), Err(AttemptError::NoTarget));
}

#[test]
fn windows_attempt_closes_a_socket_that_did_not_connect() {
    let target = SocketAddress { device: NUMBER, service: 0, port: 5 };
    assert!(matches!(
        connect::attempt_step(&target, AttemptEvent::SocketMade(9)),
        AttemptAction::Connect(9)
    ));
    assert!(matches!(
        connect::attempt_step(
            &target,
            AttemptEvent::ConnectReturned { socket: 9, result: 0, code: 0 }
        ),
        AttemptAction::Ready(9)
    ));
    match connect::attempt_step(
        &target,
        AttemptEvent::ConnectReturned { socket: 9, result: -1, code: 10013 },
    ) {
        AttemptAction::Fail { close, error } => {
            assert_eq!(close, Some(9));
            assert_eq!(error, denied());
        }
        _ => panic!("the attempt succeeded"),
    }
    for (event, wanted) in [
        (
            AttemptEvent::SocketCallFailed("x".to_string()),
            AttemptError::SocketCall("x".to_string()),
        ),
        (AttemptEvent::InvalidSocket(3), AttemptError::NoSocket(3)),
    ] {
        match connect::attempt_step(&target, event) {
            AttemptAction::Fail { close, error } => {
                assert_eq!(close, None);
                assert_eq!(error, wanted);
            }
            _ => panic!("the attempt succeeded"),
        }
    }
}

#[test]
fn windows_asks_for_the_service_three_times_then_for_channels() {
    let mut sequence = ConnectSequence::new(connect::normalized_fallback_channels(&[9, 0, 9, 200]));
    let mut seen = Vec::new();
    let failure = loop {
        seen.push(sequence.next_attempt().unwrap_or_else(|| panic!("nothing is due")));
        let error = if seen.len() == 2 { denied() } else { AttemptError::NoSocket(seen.len() as i32) };
        match sequence.try_connect_sequence(Err(error)) {
            (Some(next), SequenceAction::Try { pause_ms, attempt }) => {
                assert_eq!(next.next_attempt(), Some((pause_ms, attempt)));
                sequence = next;
            }
            (None, SequenceAction::GiveUp(failure)) => break failure,
            _ => panic!("the device was connected"),
        }
    };
    assert_eq!(
        seen,
        vec![
            (0, Attempt::Service),
            (250, Attempt::Service),
            (500, Attempt::Service),
            (0, Attempt::Channel(9)),
            (0, Attempt::Channel(200)),
        ]
    );
    assert!(failure.auth_required);
    assert_eq!(failure.last_error, Some(AttemptError::NoSocket(5)));
}

#[test]
fn windows_first_success_ends_the_sequence() {
    let sequence = ConnectSequence::new(vec![5]);
    match sequence.try_connect_sequence(Ok(40)) {
        (None, SequenceAction::Connected(40)) => {}
        _ => panic!("the sequence goes on"),
    }
}

#[test]
fn windows_failures_are_noted() {
    let mut failure = ConnectSequenceFailure::new();
    failure.note(AttemptError::NotConnected { service: 0, port: 5, code: 10060 });
    assert!(!failure.auth_required);
    failure.note(denied());
    failure.note(AttemptError::NoSocket(1));
    assert!(failure.auth_required);
    assert_eq!(failure.last_error, Some(AttemptError::NoSocket(1)));
}

#[test]
fn windows_pairs_once_when_access_was_denied() {
    let failed = |auth_required: bool| {
        Err(ConnectSequenceFailure { auth_required, last_error: Some(denied()) })
    };
    let given_up = |after: AfterSequence| match after {
        AfterSequence::GiveUp(error) => {
            assert_eq!(error, WinError::ConnectFailed(ADDR.to_string(), Some(denied())));
        }
        _ => panic!("the device is not given up"),
    };
    let mut rounds = ConnectRounds::new();
    assert!(matches!(
        rounds.after_sequence(ADDR, Ok(40), true),
        AfterSequence::Connected(40)
    ));
    assert!(matches!(
        rounds.after_sequence(ADDR, failed(true), true),
        AfterSequence::Pair { remove_bond: true }
    ));
    given_up(rounds.after_sequence(ADDR, failed(true), true));
    given_up(rounds.after_sequence(ADDR, failed(true), false));
    assert!(matches!(
        rounds.after_sequence(ADDR, Ok(41), true),
        AfterSequence::Connected(41)
    ));
    let mut rounds = ConnectRounds::new();
    given_up(rounds.after_sequence(ADDR, failed(false), true));
    assert!(matches!(
        rounds.after_sequence(ADDR, failed(true), false),
        AfterSequence::Pair { remove_bond: false }
    ));
    given_up(rounds.after_sequence(ADDR, failed(true), false));
}

#[test]
fn windows_pairing_requests_are_answered() {
    for (method, response) in [
        (3, AuthResponse::Numeric(1234)),
        (5, AuthResponse::Passkey(5678)),
        (1, AuthResponse::Pin(b"0000".to_vec())),
        (2, AuthResponse::Consent),
    ] {
        let request =
            AuthRequest { address: NUMBER, method, numeric_value: 1234, passkey: 5678 };
        assert_eq!(
            pairing::auto_accept_auth_callback(Some(request)),
            AuthDecision {
                answer: Some(AuthAnswer { address: NUMBER, method, negative: 0, response }),
                handled: true
            }
        );
    }
    assert_eq!(
        pairing::auto_accept_auth_callback(None),
        AuthDecision { answer: None, handled: false }
    );
}

#[test]
fn windows_device_is_read_again_after_pairing() {
    assert!(pairing::pair_device_headless(ADDR, 0, 0).reads_device_again());
    assert!(pairing::pair_device_headless(ADDR, 87, 259).reads_device_again());
    assert!(!pairing::pair_device_headless(ADDR, 0, 1460).reads_device_again());
}

#[test]
fn windows_starting_a_scan_restarts_it() {
    let mut st = GlobalState::new();
    let first = scan::scan_begun(&mut st, 1, 2).generation;
    scan::remember_scanned_device(&mut st, &utf16("a"), NUMBER, first);
    scan::stop_scan_impl(&mut st);
    assert!(scan::start_scan_impl(&mut st));
    let second = scan::scan_begun(&mut st, 3, 4).generation;
    assert_ne!(first, second);
    assert!(st.is_scanning);
    assert_eq!(scan::get_scanned_devices_impl(&st), vec![]);
}

#[test]
fn windows_reader_looks_at_its_flag_before_each_read() {
    assert!(transfer::reads_again(&None, false));
    assert!(!transfer::reads_again(&None, true));
    for (action, again) in [
        (ReadAction::Deliver(vec![1]), true),
        (ReadAction::Rest, true),
        (ReadAction::Fail("x".to_string()), false),
        (ReadAction::Stop, false),
    ] {
        let last = Some(action);
        assert_eq!(transfer::reads_again(&last, false), again);
        assert!(!transfer::reads_again(&last, true));
    }
}

#[test]
fn windows_things_are_done_in_order() {
    let stopped = StoppedScan { stop_event: Some(1), reap: Some(2), wait_for: vec![9, 2] };
    assert_eq!(
        stopped.steps(),
        vec![Step::SetEvent(1), Step::Reap(2), Step::WaitFor(9), Step::WaitFor(2)]
    );
    let gone = || DisconnectedConnection {
        socket: 1,
        stop_flag: 2,
        read_thread: Some(3),
        socket_close_lock: 4,
        connection_id: 5,
    };
    assert_eq!(gone().stop_steps(), vec![Step::RaiseFlag(2), Step::ShutDown(1)]);
    let closed = Step::CloseSocket { lock: 4, socket: 1, connection_id: 5 };
    let close = state::close_disconnected_socket(gone(), false);
    assert_eq!(close.steps(), vec![Step::Join(3), closed]);
    let mut st = GlobalState::new();
    assert_eq!(state::winsock_started(&mut st, 0), Ok(()));
    assert!(!state::on_connected_impl(&mut st, 70));
    make_connection(&mut st, 10);
    let made = connect::finish_connect(&mut st, ADDR, &[], 20, 21, 22);
    let steps = made.steps();
    assert!(matches!(&steps[0], Step::Close(gone) if gone.socket == 10));
    assert_eq!(steps[1..], [Step::Call(70)]);
    scan::scan_begun(&mut st, 1, 2);
    let steps = scan::bluetooth_stack_cleanup(&mut st).steps();
    assert_eq!(steps[..2], [Step::SetEvent(1), Step::Reap(2)]);
    assert!(matches!(&steps[2], Step::Close(gone) if gone.socket == 20));
    assert_eq!(steps[3..], [Step::StopWinsock]);
    assert!(scan::bluetooth_stack_cleanup(&mut st).steps().is_empty());
}

#[test]
fn windows_pairing_ends() {
    let end = pairing::pair_device_headless(ADDR, 0, 0);
    assert_eq!((end.unregister, end.result), (true, Ok(())));
    let end = pairing::pair_device_headless(ADDR, 87, 259);
    assert_eq!((end.unregister, end.result), (false, Ok(())));
    let end = pairing::pair_device_headless(ADDR, 0, 1460);
    assert_eq!(
        (end.unregister, end.result),
        (true, Err(WinError::PairingFailed(ADDR.to_string(), 1460)))
    );
}

#[test]
fn windows_connecting_disconnects_another_device() {
    let mut st = GlobalState::new();
    make_connection(&mut st, 10);
    assert_eq!(connect::connect_impl(&mut st, ADDR), ConnectStart::AlreadyConnected);
    match connect::connect_impl_with_fallback_channels(&mut st, "1:2:3:4:5:6", &[8]) {
        ConnectStart::Begin { disconnected, target, channels } => {
            assert_eq!(
                disconnected,
                Some(DisconnectedConnection {
                    socket: 10,
                    stop_flag: 11,
                    read_thread: None,
                    socket_close_lock: 12,
                    connection_id: 1
                })
            );
            assert_eq!(target, Ok(0x0102_0304_0506));
            assert_eq!(channels, vec![8]);
        }
        _ => panic!("the device is connected"),
    }
    assert!(state::get_connected_device_info_impl(&st).is_none());
    match connect::connect_impl(&mut st, "nonsense") {
        ConnectStart::Begin { disconnected, target, channels } => {
            assert_eq!(disconnected, None);
            assert_eq!(target, Err(WinError::InvalidAddress("nonsense".to_string())));
            assert_eq!(channels, vec![5, 1]);
        }
        _ => panic!("the device is connected"),
    }
}

#[test]
fn windows_connection_is_recorded_and_replaced() {
    let mut st = GlobalState::new();
    assert!(!state::on_connected_impl(&mut st, 70));
    let made = connect::finish_connect(&mut st, ADDR, &utf16("watch"), 10, 11, 12);
    assert_eq!((made.displaced, made.callback), (None, Some(70)));
    assert_eq!(
        state::get_connected_device_info_impl(&st),
        Some(SPPDevice { name: Some("watch".to_string()), address: ADDR.to_string() })
    );
    assert!(state::on_connected_impl(&mut st, 71));
    let made = connect::finish_connect(&mut st, ADDR, &[], 20, 21, 22);
    assert!(made.displaced.is_some_and(|d| d.connection_id == 1 && d.socket == 10));
    assert_eq!(st.connection_handles.map(|h| h.connection_id), Some(2));
    assert_eq!(state::get_max_send_len_impl(), Ok(None));
    let gone = state::disconnect_impl(&mut st);
    assert_eq!(
        state::finish_disconnect(gone, false),
        Some(SocketClose { join: None, lock: 22, socket: 20, connection_id: 2 })
    );
    assert_eq!(state::disconnect_impl(&mut st), None);
    assert_eq!(state::finish_disconnect(None, false), None);
}

#[test]
fn windows_reader_does_not_wait_for_itself() {
    let gone = || DisconnectedConnection {
        socket: 1,
        stop_flag: 2,
        read_thread: Some(3),
        socket_close_lock: 4,
        connection_id: 5,
    };
    assert_eq!(state::close_disconnected_socket(gone(), false).join, Some(3));
    assert_eq!(state::close_disconnected_socket(gone(), true).join, None);
}

#[test]
fn windows_subscription_has_one_reader() {
    let mut st = GlobalState::new();
    assert_eq!(transfer::start_subscription_impl(&st), Err(WinError::CannotSubscribe));
    make_connection(&mut st, 10);
    let reader = match transfer::start_subscription_impl(&st) {
        Ok(Some(reader)) => reader,
        _ => panic!("no reader is started"),
    };
    assert_eq!(reader, ReaderStart { socket: 10, stop_flag: 11, connection_id: 1 });
    assert!(transfer::finish_subscription(&mut st, &reader, 30));
    assert!(!transfer::finish_subscription(&mut st, &reader, 31));
    assert_eq!(transfer::start_subscription_impl(&st), Ok(None));
    make_connection(&mut st, 10);
    assert!(!transfer::finish_subscription(&mut st, &reader, 32));
    assert_eq!(transfer::reader_finished(&mut st, &reader), None);
    let reader = ReaderStart { socket: 10, stop_flag: 11, connection_id: 2 };
    assert!(transfer::reader_finished(&mut st, &reader).is_some_and(|d| d.connection_id == 2));
    assert!(state::get_connected_device_info_impl(&st).is_none());
}

#[test]
fn windows_reader_reports_and_returns() {
    assert!(matches!(
        transfer::read_event(&[1, 2, 3], 2, 0),
        ReadEvent::Received(data) if data == vec![1, 2]
    ));
    assert!(matches!(transfer::read_event(&[1], 0, 0), ReadEvent::Closed));
    assert!(matches!(transfer::read_event(&[1], -1, 9), ReadEvent::Failed(9)));
    assert!(matches!(
        transfer::reader_step(ReadEvent::Received(vec![1]), true),
        ReadAction::Deliver(data) if data == vec![1]
    ));
    assert!(matches!(transfer::reader_step(ReadEvent::Closed, true), ReadAction::Stop));
    assert!(matches!(
        transfer::reader_step(ReadEvent::Closed, false),
        ReadAction::Fail(reason) if reason == "Connection closed by peer"
    ));
    assert!(matches!(transfer::reader_step(ReadEvent::Failed(10054), true), ReadAction::Stop));
    assert!(matches!(transfer::reader_step(ReadEvent::Failed(10035), false), ReadAction::Rest));
    assert!(matches!(
        transfer::reader_step(ReadEvent::Failed(10054), false),
        ReadAction::Fail(reason) if reason == "Socket error: 10054"
    ));
}

#[test]
fn windows_send_goes_on_until_all_was_sent() {
    let mut st = GlobalState::new();
    assert_eq!(transfer::send_impl(&st), Err(WinError::CannotSend));
    make_connection(&mut st, 10);
    assert_eq!(
        transfer::send_impl(&st),
        Ok(SendTarget { socket: 10, stop_flag: 11, socket_close_lock: 12, connection_id: 1 })
    );
    assert_eq!(transfer::check_open(true), Err(WinError::Closing));
    assert_eq!(transfer::check_open(false), Ok(()));
    assert_eq!(transfer::begin_send(0), SendAction::Done);
    assert_eq!(transfer::begin_send(5), SendAction::SendFrom(0));
    assert_eq!(transfer::send_step(5, 0, 3, 0), SendAction::SendFrom(3));
    assert_eq!(transfer::send_step(5, 3, 2, 0), SendAction::Done);
    assert_eq!(
        transfer::send_step(5, 3, -1, 10060),
        SendAction::TearDown(WinError::SendTimedOut)
    );
    assert_eq!(
        transfer::send_step(5, 3, 0, 10054),
        SendAction::TearDown(WinError::SendFailed(10054))
    );
}

#[test]
fn windows_failed_send_ends_a_connection_without_a_reader() {
    let mut st = GlobalState::new();
    make_connection(&mut st, 10);
    let target = transfer::send_impl(&st).unwrap_or_else(|e| panic!("{}", e.text()));
    assert_eq!(
        transfer::send_failed(&mut st, &target),
        Some(DisconnectedConnection {
            socket: 10,
            stop_flag: 11,
            read_thread: None,
            socket_close_lock: 12,
            connection_id: 1
        })
    );
    assert!(state::get_connected_device_info_impl(&st).is_none());
    assert_eq!(transfer::send_impl(&st), Err(WinError::CannotSend));
    assert_eq!(transfer::send_failed(&mut st, &target), None);
    // A connection that was made meanwhile stays, even with the same socket.
    make_connection(&mut st, 10);
    assert_eq!(transfer::send_failed(&mut st, &target), None);
    assert!(state::get_connected_device_info_impl(&st).is_some());
}

#[test]
fn windows_failed_send_leaves_the_end_to_the_reader() {
    let mut st = GlobalState::new();
    make_connection(&mut st, 10);
    let reader = ReaderStart { socket: 10, stop_flag: 11, connection_id: 1 };
    assert!(transfer::finish_subscription(&mut st, &reader, 30));
    let target = transfer::send_impl(&st).unwrap_or_else(|e| panic!("{}", e.text()));
    assert_eq!(transfer::send_failed(&mut st, &target), None);
    assert!(state::get_connected_device_info_impl(&st).is_some());
    assert!(transfer::reader_finished(&mut st, &reader).is_some_and(|d| d.read_thread == Some(30)));
    assert!(state::get_connected_device_info_impl(&st).is_none());
}

#[test]
fn windows_sent_bytes_are_the_first_ones() {
    let data = [1u8, 2, 3, 4, 5];
    for (results, wanted) in [
        (vec![3, 2], Ok(())),
        (vec![5], Ok(())),
        (vec![9], Ok(())),
        (vec![1, 2, -1, 2], Err((WinError::SendTimedOut, 3))),
        (vec![0, 5], Err((WinError::SendTimedOut, 0))),
    ] {
        let mut handed_over = Vec::new();
        let mut results = results.into_iter();
        let mut action = transfer::begin_send(data.len());
        let end = loop {
            match action {
                SendAction::SendFrom(offset) => {
                    let sent: i32 = results.next().unwrap_or_else(|| panic!("too many calls"));
                    if sent > 0 {
                        let stop = data.len().min(offset + sent as usize);
                        handed_over.extend_from_slice(&data[offset..stop]);
                    }
                    action = transfer::send_step(data.len(), offset, sent, 10060);
                }
                SendAction::Done => break Ok(()),
                SendAction::TearDown(error) => break Err((error, handed_over.len())),
            }
        };
        assert_eq!(end, wanted);
        assert_eq!(handed_over, data[..handed_over.len()]);
        assert_eq!(end.is_ok(), handed_over.len() == data.len());
    }
}

#[test]
fn windows_listener_is_the_last_one_set() {
    let mut st = GlobalState::new();
    assert_eq!(state::notify_data_listener(&st), None);
    state::set_data_listener_impl(&mut st, 1);
    state::set_data_listener_impl(&mut st, 2);
    assert_eq!(state::notify_data_listener(&st), Some(2));
}
