use btclassic_spp::linux::address::normalize_addr;
use btclassic_spp::linux::connect::{
    connect_impl, connect_spp_uuid, finish_connect, normalized_fallback_channels, Attempt,
    AttemptResult, ConnectAction, ConnectFinished, ConnectSequence, ServiceAction, ServiceEvent, SPP_SERVICE_UUID,
};
use btclassic_spp::linux::error::LinuxError;
use btclassic_spp::linux::scan::{
    get_scanned_devices_impl, scan_step, start_scan_impl, stop_scan_impl, ScanAction, ScanEvent,
};
use btclassic_spp::linux::state::{
    disconnect_all_impl, disconnect_impl, get_connected_device_info_impl, get_max_send_len_impl,
    on_connected_impl, send_impl, set_data_listener_impl, GlobalState, StoppedConnection,
};
use btclassic_spp::linux::scan::ScanHandles;
use btclassic_spp::linux::subscription::{
    finish_subscription, reader_finished, reader_step, start_subscription_impl, ReadEvent,
    ReaderStart,
};
use btclassic_spp::linux::steps::StopStep;
use btclassic_spp::linux::teardown;
use btclassic_spp::linux::uuid::service_uuid;
use btclassic_spp::models::SPPDevice;

const ADDR: &str = "aa:bb:cc:dd:ee:0f";
const KEY: &str = "AA:BB:CC:DD:EE:0F";
const BYTES: [u8; 6] = [0xAA, 0xBB, 0xCC, 0xDD, 0xEE, 0x0F];

fn connected(st: &mut GlobalState, addr: &str, stream: u64) {
    let begun = connect_impl(st, addr, &[]).begun.unwrap_or_else(|e| panic!("{}", e.text()));
    finish_connect(st, begun.address, stream, Some("watch".to_string()));
}

fn subscribed(st: &mut GlobalState, flag: u64) -> ReaderStart {
    match start_subscription_impl(st, ADDR, flag) {
        Ok(Some(start)) => start,
        _ => panic!("no reader was started"),
    }
}

#[test]
fn linux_addresses_are_read_and_written_canonically() {
    assert_eq!(normalize_addr(ADDR), Ok((KEY.to_string(), BYTES)));
    assert_eq!(normalize_addr(KEY), Ok((KEY.to_string(), BYTES)));
    assert_eq!(normalize_addr("1:2:3:4:5:6"), Ok(("01:02:03:04:05:06".to_string(), [1, 2, 3, 4, 5, 6])));
    let refused = normalize_addr("aa:bb:cc:dd:ee");
    assert_eq!(
        refused,
        Err(LinuxError::InvalidAddress("invalid Bluetooth address: aa:bb:cc:dd:ee".to_string()))
    );
    let refused = normalize_addr("aa:xx:cc:yy:ee:ff").err().map(|e| e.text());
    assert_eq!(
        refused,
        Some("Invalid address format: invalid Bluetooth address: xx".to_string())
    );
}

#[test]
fn linux_channels_default_to_five_and_one() {
    assert_eq!(normalized_fallback_channels(&[]), vec![5, 1]);
    assert_eq!(normalized_fallback_channels(&[0]), vec![5, 1]);
    assert_eq!(normalized_fallback_channels(&[200, 3, 200]), vec![200, 3]);
    assert_eq!(normalized_fallback_channels(&[200, 3, 200, 3]), vec![200, 3]);
}

#[test]
fn linux_error_messages() {
    assert_eq!(LinuxError::NotConnected.text(), "Not connected");
    assert_eq!(LinuxError::ListenerNotSet.text(), "Data listener not set");
    assert_eq!(LinuxError::ConnectionWasClosed.text(), "Connection was closed");
    assert_eq!(
        LinuxError::ConnectFailed(None).text(),
        "Failed to connect through SPP UUID or fallback channels: None"
    );
    assert_eq!(
        LinuxError::ConnectFailed(Some("refused".to_string())).text(),
        "Failed to connect through SPP UUID or fallback channels: Some(refused)"
    );
}

#[test]
fn linux_attempts_follow_each_other_until_one_succeeds() {
    let mut sequence = ConnectSequence::new(vec![5, 1]);
    assert!(matches!(sequence.next_action(), ConnectAction::Try(Attempt::Service)));
    assert!(matches!(
        sequence.advance(AttemptResult::TimedOut),
        ConnectAction::Try(Attempt::Channel(5))
    ));
    assert!(matches!(
        sequence.advance(AttemptResult::Failed("busy".to_string())),
        ConnectAction::Try(Attempt::Channel(1))
    ));
    assert!(matches!(
        sequence.advance(AttemptResult::Connected(9)),
        ConnectAction::Connected(9)
    ));
}

#[test]
fn linux_gives_up_with_the_last_failure() {
    let mut sequence = ConnectSequence::new(vec![7]);
    sequence.advance(AttemptResult::Failed("no service".to_string()));
    match sequence.advance(AttemptResult::TimedOut) {
        ConnectAction::GiveUp(error) => assert_eq!(
            error,
            LinuxError::ConnectFailed(Some("Timeout connecting on channel 7".to_string()))
        ),
        _ => panic!("an attempt was left"),
    }
    match sequence.next_action() {
        ConnectAction::GiveUp(_) => {}
        _ => panic!("an attempt was left"),
    }
    let mut only_service = ConnectSequence::new(vec![]);
    match only_service.advance(AttemptResult::TimedOut) {
        ConnectAction::GiveUp(error) => assert_eq!(
            error,
            LinuxError::ConnectFailed(Some(
                "Timeout connecting through SPP Service UUID".to_string()
            ))
        ),
        _ => panic!("an attempt was left"),
    }
}

fn service_failure(event: ServiceEvent) -> String {
    match connect_spp_uuid(BYTES, event) {
        ServiceAction::Done(AttemptResult::Failed(reason)) => reason,
        _ => panic!("the attempt did not fail"),
    }
}

#[test]
fn linux_service_accepts_the_wanted_device_only() {
    assert!(matches!(
        connect_spp_uuid(BYTES, ServiceEvent::Requested(BYTES)),
        ServiceAction::Accept
    ));
    assert!(matches!(
        connect_spp_uuid(BYTES, ServiceEvent::Requested([0; 6])),
        ServiceAction::Reject
    ));
    assert!(matches!(
        connect_spp_uuid(BYTES, ServiceEvent::Accepted(4)),
        ServiceAction::Done(AttemptResult::Connected(4))
    ));
    assert!(matches!(
        connect_spp_uuid(BYTES, ServiceEvent::TimedOut),
        ServiceAction::Done(AttemptResult::TimedOut)
    ));
}

#[test]
fn linux_service_failures_are_named() {
    let x = || "x".to_string();
    assert_eq!(service_failure(ServiceEvent::InvalidUuid(x())), "Invalid SPP UUID: x");
    assert_eq!(
        service_failure(ServiceEvent::SessionFailed(x())),
        "Failed to create bluer session: x"
    );
    assert_eq!(
        service_failure(ServiceEvent::AdapterFailed(x())),
        "Failed to get default adapter: x"
    );
    assert_eq!(
        service_failure(ServiceEvent::DeviceFailed(x())),
        "Failed to open device AA:BB:CC:DD:EE:0F: x"
    );
    assert_eq!(
        service_failure(ServiceEvent::RegistrationFailed(x())),
        "Failed to register SPP profile: x"
    );
    assert_eq!(
        service_failure(ServiceEvent::AcceptFailed(x())),
        "Failed to accept SPP profile fd: x"
    );
    assert_eq!(
        service_failure(ServiceEvent::ProfileClosed),
        "SPP profile closed before receiving an RFCOMM fd"
    );
    assert_eq!(
        service_failure(ServiceEvent::ConnectReturned),
        "BlueZ ConnectProfile completed without providing an RFCOMM fd"
    );
    assert_eq!(
        service_failure(ServiceEvent::ConnectFailed(x())),
        "BlueZ ConnectProfile failed: x"
    );
}

#[test]
fn linux_connecting_keeps_other_connections_and_early_callbacks() {
    let mut st = GlobalState::new(None);
    connected(&mut st, "1:1:1:1:1:1", 10);
    assert_eq!(on_connected_impl(&mut st, ADDR, 21), Ok(false));
    assert_eq!(set_data_listener_impl(&mut st, ADDR, 22), Ok(()));
    let begun = match connect_impl(&mut st, ADDR, &[9]).begun {
        Ok(begun) => begun,
        Err(error) => panic!("{}", error.text()),
    };
    assert_eq!(begun.address, KEY);
    assert_eq!(begun.bytes, BYTES);
    assert_eq!(begun.replaced, None);
    assert_eq!(
        finish_connect(&mut st, begun.address, 11, None),
        ConnectFinished { displaced: None, callback: Some(21) }
    );
    assert_eq!(send_impl(&st, "01:01:01:01:01:01"), Ok(10));
    assert_eq!(send_impl(&st, KEY), Ok(11));
    assert_eq!(
        get_connected_device_info_impl(&st, ADDR),
        Ok(Some(SPPDevice { name: None, address: KEY.to_string() }))
    );
    match start_subscription_impl(&mut st, ADDR, 30) {
        Ok(Some(start)) => {
            assert_eq!(start.listener, 22);
            assert_eq!(start.socket_stream, 11);
        }
        _ => panic!("no reader was started"),
    }
}

#[test]
fn linux_reconnecting_replaces_the_connection() {
    let mut st = GlobalState::new(None);
    connected(&mut st, ADDR, 10);
    match connect_impl(&mut st, KEY, &[]).begun {
        Ok(begun) => assert_eq!(
            begun.replaced,
            Some(StoppedConnection { read_stop: None, read_thread: None, socket_stream: 10 })
        ),
        Err(error) => panic!("{}", error.text()),
    }
    assert_eq!(send_impl(&st, ADDR), Err(LinuxError::NotConnected));
}

#[test]
fn linux_refuses_unreadable_addresses_everywhere() {
    let mut st = GlobalState::new(Some(1));
    start_scan_impl(&mut st, 3, 4);
    let start = connect_impl(&mut st, "nonsense", &[]);
    assert_eq!(start.scan.stop, Some(3));
    assert_eq!(start.scan.thread, Some(4));
    assert!(start.begun.is_err());
    assert!(send_impl(&st, "nonsense").is_err());
    assert!(on_connected_impl(&mut st, "nonsense", 1).is_err());
    assert!(set_data_listener_impl(&mut st, "nonsense", 1).is_err());
    assert!(start_subscription_impl(&mut st, "nonsense", 1).is_err());
    assert!(disconnect_impl(&mut st, "nonsense").is_err());
    assert!(get_connected_device_info_impl(&st, "nonsense").is_err());
    assert_eq!(get_max_send_len_impl("nonsense"), Ok(None));
}

#[test]
fn linux_callback_is_due_at_once_for_a_connected_device() {
    let mut st = GlobalState::new(None);
    connected(&mut st, ADDR, 10);
    assert_eq!(on_connected_impl(&mut st, ADDR, 5), Ok(true));
}

#[test]
fn linux_disconnect_forgets_the_device_and_its_callbacks() {
    let mut st = GlobalState::new(None);
    connected(&mut st, ADDR, 10);
    connected(&mut st, "1:1:1:1:1:1", 11);
    assert_eq!(
        disconnect_impl(&mut st, ADDR),
        Ok(Some(StoppedConnection { read_stop: None, read_thread: None, socket_stream: 10 }))
    );
    assert_eq!(disconnect_impl(&mut st, ADDR), Ok(None));
    assert_eq!(get_connected_device_info_impl(&st, ADDR), Ok(None));
    assert_eq!(send_impl(&st, "1:1:1:1:1:1"), Ok(11));
    assert_eq!(on_connected_impl(&mut st, ADDR, 5), Ok(false));
    disconnect_impl(&mut st, ADDR).unwrap_or_else(|e| panic!("{}", e.text()));
    let begun = connect_impl(&mut st, ADDR, &[]).begun.unwrap_or_else(|e| panic!("{}", e.text()));
    assert_eq!(finish_connect(&mut st, begun.address, 12, None).callback, None);
}

#[test]
fn linux_disconnect_all_stops_every_connection_once() {
    let mut st = GlobalState::new(None);
    connected(&mut st, ADDR, 10);
    connected(&mut st, "1:1:1:1:1:1", 11);
    let mut streams: Vec<u64> =
        disconnect_all_impl(&mut st).iter().map(|c| c.socket_stream).collect();
    streams.sort();
    assert_eq!(streams, vec![10, 11]);
    assert!(disconnect_all_impl(&mut st).is_empty());
}

#[test]
fn linux_subscription_needs_a_connection_and_a_listener() {
    let mut st = GlobalState::new(None);
    assert_eq!(
        start_subscription_impl(&mut st, ADDR, 1).err(),
        Some(LinuxError::NotConnected)
    );
    connected(&mut st, ADDR, 10);
    assert_eq!(
        start_subscription_impl(&mut st, ADDR, 1).err(),
        Some(LinuxError::ListenerNotSet)
    );
    assert_eq!(set_data_listener_impl(&mut st, ADDR, 7), Ok(()));
    let start = subscribed(&mut st, 1);
    assert_eq!(
        start,
        ReaderStart { address: KEY.to_string(), socket_stream: 10, stop_flag: 1, listener: 7 }
    );
    assert_eq!(finish_subscription(&mut st, &start, 2), Ok(true));
    assert!(matches!(start_subscription_impl(&mut st, ADDR, 3), Ok(None)));
    assert_eq!(
        disconnect_impl(&mut st, ADDR),
        Ok(Some(StoppedConnection {
            read_stop: Some(1),
            read_thread: Some(2),
            socket_stream: 10
        }))
    );
    assert_eq!(finish_subscription(&mut st, &start, 2), Err(LinuxError::ConnectionWasClosed));
}

#[test]
fn linux_teardown_ends_connections_and_the_scan() {
    let mut st = GlobalState::new(Some(1));
    connected(&mut st, ADDR, 10);
    connected(&mut st, "1:1:1:1:1:1", 11);
    start_scan_impl(&mut st, 20, 21);
    assert_eq!(set_data_listener_impl(&mut st, "2:2:2:2:2:2", 7), Ok(()));
    let end = teardown::disconnect_all(&mut st);
    let mut streams: Vec<u64> = end.connections.iter().map(|c| c.socket_stream).collect();
    streams.sort();
    assert_eq!(streams, vec![10, 11]);
    assert_eq!(end.scan, ScanHandles { stop: Some(20), thread: Some(21) });
    assert!(st.connections.is_empty() && st.data_listener_callbacks.is_empty());
    let again = teardown::disconnect_all(&mut st);
    assert!(again.connections.is_empty());
    assert_eq!(again.scan, ScanHandles { stop: None, thread: None });
}

#[test]
fn linux_reader_that_ends_before_it_is_recorded_frees_the_connection() {
    let mut st = GlobalState::new(None);
    connected(&mut st, ADDR, 10);
    assert_eq!(set_data_listener_impl(&mut st, ADDR, 7), Ok(()));
    let start = subscribed(&mut st, 1);
    assert_eq!(reader_finished(&mut st, &start), None);
    assert_eq!(finish_subscription(&mut st, &start, 2), Ok(false));
    let later = subscribed(&mut st, 3);
    assert_eq!(finish_subscription(&mut st, &later, 4), Ok(true));
    // The earlier reader can no longer be recorded.
    assert_eq!(finish_subscription(&mut st, &start, 2), Ok(false));
    assert!(matches!(start_subscription_impl(&mut st, ADDR, 5), Ok(None)));
    assert_eq!(reader_finished(&mut st, &later), Some(4));
    subscribed(&mut st, 5);
}

#[test]
fn linux_two_readers_of_one_stream_share_the_record() {
    let mut st = GlobalState::new(None);
    connected(&mut st, ADDR, 10);
    assert_eq!(set_data_listener_impl(&mut st, ADDR, 7), Ok(()));
    // Both are started before either is recorded.
    let first = subscribed(&mut st, 1);
    let second = subscribed(&mut st, 3);
    assert_eq!(finish_subscription(&mut st, &second, 4), Ok(true));
    assert_eq!(finish_subscription(&mut st, &first, 2), Ok(true));
    assert!(matches!(start_subscription_impl(&mut st, ADDR, 5), Ok(None)));
    // The return of either one clears the record.
    assert_eq!(reader_finished(&mut st, &first), Some(2));
    assert_eq!(finish_subscription(&mut st, &first, 2), Ok(false));
    assert_eq!(finish_subscription(&mut st, &second, 4), Ok(true));
    assert_eq!(reader_finished(&mut st, &second), Some(4));
    assert_eq!(finish_subscription(&mut st, &second, 4), Ok(false));
    subscribed(&mut st, 5);
}

#[test]
fn linux_connection_that_was_made_meanwhile_is_let_go() {
    let mut st = GlobalState::new(None);
    let begun = match connect_impl(&mut st, ADDR, &[]).begun {
        Ok(begun) => begun,
        Err(error) => panic!("{}", error.text()),
    };
    connected(&mut st, ADDR, 10);
    assert_eq!(set_data_listener_impl(&mut st, ADDR, 7), Ok(()));
    let start = subscribed(&mut st, 1);
    assert_eq!(finish_subscription(&mut st, &start, 2), Ok(true));
    assert_eq!(
        finish_connect(&mut st, begun.address, 11, None).displaced,
        Some(StoppedConnection {
            read_stop: Some(1),
            read_thread: Some(2),
            socket_stream: 10
        })
    );
    assert_eq!(send_impl(&st, ADDR), Ok(11));
    assert_eq!(reader_finished(&mut st, &start), None);
}

#[test]
fn linux_things_are_stopped_in_order() {
    let connection = |stream: u64| StoppedConnection {
        read_stop: Some(1),
        read_thread: Some(2),
        socket_stream: stream,
    };
    assert_eq!(
        connection(3).steps(),
        vec![StopStep::RaiseFlag(1), StopStep::AbortTask(2), StopStep::DropStream(3)]
    );
    assert_eq!(
        StoppedConnection { read_stop: None, read_thread: None, socket_stream: 3 }.steps(),
        vec![StopStep::DropStream(3)]
    );
    let scan = ScanHandles { stop: Some(8), thread: Some(9) };
    assert_eq!(scan.steps(), vec![StopStep::RaiseFlag(8), StopStep::AbortTask(9)]);
    let end = teardown::Teardown { connections: vec![connection(3), connection(4)], scan };
    assert_eq!(
        end.steps(),
        vec![
            StopStep::RaiseFlag(1),
            StopStep::AbortTask(2),
            StopStep::DropStream(3),
            StopStep::RaiseFlag(1),
            StopStep::AbortTask(2),
            StopStep::DropStream(4),
            StopStep::RaiseFlag(8),
            StopStep::AbortTask(9),
        ]
    );
    let mut st = GlobalState::new(Some(1));
    connected(&mut st, ADDR, 10);
    start_scan_impl(&mut st, 20, 21);
    assert_eq!(
        connect_impl(&mut st, ADDR, &[]).steps(),
        vec![StopStep::RaiseFlag(20), StopStep::AbortTask(21), StopStep::DropStream(10)]
    );
    start_scan_impl(&mut st, 22, 23);
    assert_eq!(
        connect_impl(&mut st, "nonsense", &[]).steps(),
        vec![StopStep::RaiseFlag(22), StopStep::AbortTask(23)]
    );
}

#[test]
fn linux_reader_is_not_recorded_for_a_replaced_connection() {
    let mut st = GlobalState::new(None);
    connected(&mut st, ADDR, 10);
    assert_eq!(set_data_listener_impl(&mut st, ADDR, 7), Ok(()));
    let start = subscribed(&mut st, 1);
    connected(&mut st, ADDR, 11);
    assert_eq!(finish_subscription(&mut st, &start, 2), Ok(false));
    assert_eq!(set_data_listener_impl(&mut st, ADDR, 8), Ok(()));
    let later = subscribed(&mut st, 3);
    assert_eq!(later.socket_stream, 11);
    assert_eq!(finish_subscription(&mut st, &later, 4), Ok(true));
}

#[test]
fn linux_old_reader_leaves_the_replacement_alone() {
    let mut st = GlobalState::new(None);
    connected(&mut st, ADDR, 11);
    assert_eq!(set_data_listener_impl(&mut st, ADDR, 7), Ok(()));
    let start = subscribed(&mut st, 1);
    assert_eq!(finish_subscription(&mut st, &start, 2), Ok(true));
    let old = ReaderStart {
        address: KEY.to_string(),
        socket_stream: 10,
        stop_flag: 1,
        listener: 7,
    };
    assert_eq!(reader_finished(&mut st, &old), None);
    assert!(matches!(start_subscription_impl(&mut st, ADDR, 3), Ok(None)));
    assert_eq!(reader_finished(&mut st, &start), Some(2));
    subscribed(&mut st, 3);
}

#[test]
fn linux_reader_reports_and_returns() {
    let idle = reader_step(ReadEvent::Idle, false);
    assert_eq!((idle.report, idle.finished), (None, false));
    let stopped = reader_step(ReadEvent::Idle, true);
    assert_eq!((stopped.report, stopped.finished), (None, true));
    let data = reader_step(ReadEvent::Received(vec![1, 2]), false);
    assert_eq!((data.report, data.finished), (Some(Ok(vec![1, 2])), false));
    let closed = reader_step(ReadEvent::Received(vec![]), false);
    assert_eq!(
        (closed.report, closed.finished),
        (Some(Err("Connection closed".to_string())), true)
    );
    let failed = reader_step(ReadEvent::Failed("reset".to_string()), false);
    assert_eq!((failed.report, failed.finished), (Some(Err("reset".to_string())), true));
}

#[test]
fn linux_scan_lists_devices_until_it_ends() {
    let mut st = GlobalState::new(Some(8));
    let earlier = start_scan_impl(&mut st, 1, 2);
    assert_eq!((earlier.stop, earlier.thread), (None, None));
    assert_eq!(scan_step(&mut st, ScanEvent::Started, false), ScanAction::PowerOn(8));
    assert_eq!(scan_step(&mut st, ScanEvent::Powered(true), false), ScanAction::Discover);
    assert_eq!(scan_step(&mut st, ScanEvent::Discovering(true), false), ScanAction::AwaitEvent);
    let added = |opened: bool, name: &str| ScanEvent::DeviceAdded {
        address: BYTES,
        opened,
        name: Some(name.to_string()),
    };
    assert_eq!(scan_step(&mut st, added(false, "a"), false), ScanAction::AwaitEvent);
    assert_eq!(get_scanned_devices_impl(&st), Ok(vec![]));
    scan_step(&mut st, added(true, "b"), false);
    scan_step(&mut st, added(true, "c"), false);
    assert_eq!(
        get_scanned_devices_impl(&st),
        Ok(vec![SPPDevice { name: Some("b".to_string()), address: KEY.to_string() }])
    );
    scan_step(&mut st, ScanEvent::Tick, false);
    scan_step(&mut st, ScanEvent::Other, false);
    scan_step(&mut st, ScanEvent::DeviceRemoved { address: BYTES }, false);
    assert_eq!(get_scanned_devices_impl(&st), Ok(vec![]));
    assert_eq!(scan_step(&mut st, ScanEvent::Ended, false), ScanAction::Exit);
    let handles = stop_scan_impl(&mut st);
    assert_eq!((handles.stop, handles.thread), (None, None));
}

#[test]
fn linux_scan_stops_when_told_and_needs_an_adapter() {
    let mut st = GlobalState::new(None);
    start_scan_impl(&mut st, 1, 2);
    assert_eq!(scan_step(&mut st, ScanEvent::Started, false), ScanAction::Exit);
    assert_eq!(scan_step(&mut st, ScanEvent::Powered(false), false), ScanAction::Exit);
    assert_eq!(scan_step(&mut st, ScanEvent::Discovering(false), false), ScanAction::Exit);
    assert_eq!(scan_step(&mut st, ScanEvent::Tick, true), ScanAction::Exit);
    let again = start_scan_impl(&mut st, 3, 4);
    assert_eq!((again.stop, again.thread), (None, None));
    let handles = stop_scan_impl(&mut st);
    assert_eq!((handles.stop, handles.thread), (Some(3), Some(4)));
}

#[test]
fn linux_scan_leaves_connections_alone() {
    let mut st = GlobalState::new(Some(8));
    connected(&mut st, ADDR, 10);
    start_scan_impl(&mut st, 1, 2);
    for event in [
        ScanEvent::Started,
        ScanEvent::Powered(true),
        ScanEvent::Discovering(true),
        ScanEvent::DeviceRemoved { address: BYTES },
        ScanEvent::Ended,
    ] {
        scan_step(&mut st, event, false);
        assert_eq!(send_impl(&st, ADDR), Ok(10));
    }
}

#[test]
fn linux_service_identifier_is_read() {
    let bytes = match service_uuid(SPP_SERVICE_UUID) {
        Ok(bytes) => bytes,
        Err(_) => panic!("the identifier cannot be read"),
    };
    assert_eq!(u128::from_be_bytes(bytes), 0x00001101_0000_1000_8000_00805F9B34FB);
    match service_uuid("00001101-0000") {
        Err(ServiceEvent::InvalidUuid(reason)) => {
            assert_eq!(
                service_failure(ServiceEvent::InvalidUuid(reason.clone())),
                format!("Invalid SPP UUID: {}", reason)
            );
            assert!(!reason.is_empty());
        }
        _ => panic!("the identifier was read"),
    }
}
