use btclassic_spp::macos::address::{addr_to_macos_format, normalize_addr_from_macos};
use btclassic_spp::macos::audio_guard;
use btclassic_spp::macos::audio_guard::{DeviceFacts, GuardAction, GuardState};
use btclassic_spp::macos::connection;
use btclassic_spp::macos::connection::{
    ChannelAction, ChannelEnd, NextChannel, Retry, CloseOutcome, ConnectedNotice, OpenOutcome, RetryOutcome, SdpAction, SdpEvent,
};
use btclassic_spp::macos::error::MacError;
use btclassic_spp::macos::requests;
use btclassic_spp::macos::requests::{
    Arrival, ConnectRequest, ConnectStart, Delivery, NativeDevice,
};
use btclassic_spp::macos::scan;
use btclassic_spp::macos::send;
use btclassic_spp::macos::send::{AcceptedSend, PumpStep, WriteCompletion, WriteRequest};
use btclassic_spp::macos::session;
use btclassic_spp::macos::session::{ClosedSession, DroppedDevice, FailedSend, ListenerError};
use btclassic_spp::macos::state::{next_id, MainThreadState, SharedState};
use btclassic_spp::macos::steps;
use btclassic_spp::macos::steps::Step;
use btclassic_spp::models::SPPDevice;
use std::sync::Arc;

const ADDR: &str = "AA:BB:CC:DD:EE:01";
const OTHER: &str = "AA:BB:CC:DD:EE:02";

fn request(st: &mut MainThreadState, shared: &mut SharedState, addr: &str) -> ConnectRequest {
    match requests::connect_impl(st, shared, addr, &[3, 4]) {
        Ok(ConnectStart::LookUp(request)) => request,
        _ => panic!("no device is looked up"),
    }
}

fn accept(st: &mut MainThreadState, shared: &mut SharedState, addr: &str, device: u64) {
    let request = request(st, shared, addr);
    let found = NativeDevice { device, name: Some("watch".to_string()) };
    assert_eq!(requests::finish_connect(st, request, Some(found)), Ok(true));
}

/// Takes the turn and asks for the next channel; returns the session's generation.
fn opening(st: &mut MainThreadState, shared: &mut SharedState, addr: &str) -> usize {
    let next = connection::start_next_connection(st);
    assert!(next.is_some_and(|n| n.addr == addr));
    match connection::try_next_channel(st, shared, addr).action {
        ChannelAction::Open { generation, .. } => {
            connection::channel_requested(st, addr, generation, 50, 51, 52);
            generation
        }
        _ => panic!("no channel is opened"),
    }
}

fn open_device(st: &mut MainThreadState, shared: &mut SharedState, mtu: usize) -> usize {
    accept(st, shared, ADDR, 9);
    let generation = opening(st, shared, ADDR);
    let outcome = connection::handle_open_complete(st, shared, ADDR, generation, 0, mtu);
    assert!(matches!(outcome, OpenOutcome::Opened(Some(_))));
    generation
}

fn begin(st: &mut MainThreadState, payload: Vec<u8>) -> AcceptedSend {
    send::begin_send(st, ADDR, Arc::new(payload), 77).unwrap_or_else(|e| panic!("{}", e.text()))
}

fn write_of(step: PumpStep) -> WriteRequest {
    match step {
        PumpStep::Write(request) => request,
        _ => panic!("no write is made"),
    }
}

#[test]
fn macos_addresses_have_two_forms() {
    assert_eq!(normalize_addr_from_macos("aa-bb-cc-dd-ee-01"), ADDR);
    assert_eq!(normalize_addr_from_macos(ADDR), ADDR);
    assert_eq!(addr_to_macos_format("aa:bb:cc:dd:ee:01"), "AA-BB-CC-DD-EE-01");
    assert_eq!(normalize_addr_from_macos(&addr_to_macos_format(ADDR)), ADDR);
    assert_eq!(normalize_addr_from_macos("straße-ä"), "STRASSE:Ä");
}

#[test]
fn macos_error_messages() {
    assert_eq!(MacError::InquiryNotCreated.text(), "Failed to create Bluetooth inquiry");
    assert_eq!(MacError::ScanNotStarted(-3).text(), "Failed to start scan, error code: -3");
    assert_eq!(
        MacError::ScanWhileConnecting.text(),
        "Cannot start Bluetooth inquiry while connecting"
    );
    assert_eq!(
        MacError::StillClosing("A".to_string()).text(),
        "Previous RFCOMM session is still closing for A"
    );
    assert_eq!(MacError::DeviceNotFound("A".to_string()).text(), "Device not found for A");
    assert_eq!(
        MacError::SendOnMainLoop.text(),
        "Synchronous RFCOMM send cannot wait on the main run loop"
    );
    assert_eq!(MacError::NotConnected.text(), "Device not connected, cannot send data");
    assert_eq!(MacError::SendInProgress.text(), "RFCOMM send already in progress");
}

#[test]
fn macos_numbers_are_never_zero() {
    let mut st = MainThreadState::new();
    assert_eq!(next_id(&mut st), 1);
    assert_eq!(next_id(&mut st), 2);
    st.next_id = usize::MAX;
    assert_eq!(next_id(&mut st), 1);
}

#[test]
fn macos_channels_are_limited() {
    let channels = requests::normalized_fallback_channels(&[31, 30, 30, 0, 2]);
    assert_eq!(channels.into_iter().collect::<Vec<u8>>(), vec![30, 2]);
    let channels = requests::normalized_fallback_channels(&[]);
    assert_eq!(channels.into_iter().collect::<Vec<u8>>(), vec![5, 1]);
}

#[test]
fn macos_request_is_looked_up_once() {
    let (mut st, mut shared) = (MainThreadState::new(), SharedState::new());
    let first = request(&mut st, &mut shared, "aa-bb-cc-dd-ee-01");
    assert_eq!(first.addr, ADDR);
    assert_eq!(first.api_addr, "AA-BB-CC-DD-EE-01");
    assert_eq!(first.stopped, None);
    assert_eq!(
        requests::finish_connect(&mut st, first, None),
        Err(MacError::DeviceNotFound(ADDR.to_string()))
    );
    accept(&mut st, &mut shared, ADDR, 9);
    assert!(matches!(
        requests::connect_impl(&mut st, &mut shared, ADDR, &[]),
        Ok(ConnectStart::Known)
    ));
    assert!(requests::get_connected_device_info_impl(&shared, ADDR).is_none());
}

#[test]
fn macos_device_connects_and_is_published() {
    let (mut st, mut shared) = (MainThreadState::new(), SharedState::new());
    requests::on_connected_impl(&mut shared, "aa-bb-cc-dd-ee-01", 5);
    accept(&mut st, &mut shared, ADDR, 9);
    let next = match connection::start_next_connection(&mut st) {
        Some(next) => next,
        None => panic!("nobody has the turn"),
    };
    assert_eq!((next.device, next.sdp_resolved), (9, false));
    assert_eq!(next.name, Some("watch".to_string()));
    assert_eq!(connection::device_to_poll(&st, ADDR, next.generation), Some(9));
    assert_eq!(connection::device_to_poll(&st, ADDR, next.generation + 1), None);
    assert!(connection::finish_sdp(&mut st, ADDR, next.generation, Some(4)));
    assert!(!connection::finish_sdp(&mut st, ADDR, next.generation + 1, Some(7)));
    let tried = connection::try_next_channel(&mut st, &mut shared, ADDR);
    assert_eq!(tried.closed, None);
    let generation = match tried.action {
        ChannelAction::Open { device, channel, generation } => {
            assert_eq!((device, channel), (9, 4));
            generation
        }
        _ => panic!("no channel is opened"),
    };
    connection::channel_requested(&mut st, ADDR, generation, 50, 51, 52);
    assert_eq!(send::get_max_send_len_impl(&st, ADDR), Ok(None));
    assert_eq!(
        connection::handle_open_complete(&mut st, &mut shared, ADDR, generation, 0, 70000),
        OpenOutcome::Opened(Some(ConnectedNotice { active: 52, callback: Some(5) }))
    );
    assert_eq!(
        connection::handle_open_complete(&mut st, &mut shared, ADDR, generation, 0, 10),
        OpenOutcome::Ignored
    );
    assert_eq!(send::get_max_send_len_impl(&st, ADDR), Ok(Some(65535)));
    assert_eq!(
        requests::get_connected_device_info_impl(&shared, ADDR),
        Some(SPPDevice { name: Some("watch".to_string()), address: ADDR.to_string() })
    );
    assert!(connection::start_next_connection(&mut st).is_none());
}

#[test]
fn macos_unit_of_transfer_is_at_least_one() {
    let (mut st, mut shared) = (MainThreadState::new(), SharedState::new());
    open_device(&mut st, &mut shared, 0);
    assert_eq!(send::get_max_send_len_impl(&st, ADDR), Ok(Some(1)));
}

#[test]
fn macos_one_device_connects_at_a_time() {
    let (mut st, mut shared) = (MainThreadState::new(), SharedState::new());
    accept(&mut st, &mut shared, ADDR, 9);
    accept(&mut st, &mut shared, OTHER, 10);
    let generation = opening(&mut st, &mut shared, ADDR);
    assert!(connection::start_next_connection(&mut st).is_none());
    let retry = match connection::handle_open_complete(
        &mut st, &mut shared, ADDR, generation, -9, 0,
    ) {
        OpenOutcome::Retried(retry) => retry,
        _ => panic!("the attempt did not fail"),
    };
    assert_eq!(retry.outcome, RetryOutcome::Queued);
    assert_eq!(
        retry.closed,
        Some(ClosedSession {
            generation,
            channel: 50,
            active: 52,
            failed_send: None,
            close_channel: true
        })
    );
    assert_eq!(session::finish_close(&mut st, generation, 0), Some(50));
    assert!(connection::start_next_connection(&mut st).is_some_and(|n| n.addr == OTHER));
}

#[test]
fn macos_every_channel_is_tried_and_the_device_given_up() {
    let (mut st, mut shared) = (MainThreadState::new(), SharedState::new());
    requests::set_data_listener_impl(&mut shared, ADDR, 6);
    accept(&mut st, &mut shared, ADDR, 9);
    let first = opening(&mut st, &mut shared, ADDR);
    let retry = connection::open_timed_out(&mut st, &mut shared, ADDR, first, 3);
    assert!(retry.is_some_and(|r| r.outcome == RetryOutcome::Queued));
    session::finish_close(&mut st, first, 0);
    assert!(connection::open_timed_out(&mut st, &mut shared, ADDR, first, 3).is_none());
    let second = opening(&mut st, &mut shared, ADDR);
    let retry = match connection::open_timed_out(&mut st, &mut shared, ADDR, second, 4) {
        Some(retry) => retry,
        None => panic!("the channel opened"),
    };
    match retry.outcome {
        RetryOutcome::GivenUp(gone) => {
            assert_eq!(gone.closed, None);
            assert_eq!(
                gone.told,
                Some(ListenerError {
                    listener: 6,
                    error: "All RFCOMM channel attempts failed: Channel 4 open timed out"
                        .to_string()
                })
            );
        }
        _ => panic!("a channel is left"),
    }
    assert!(connection::start_next_connection(&mut st).is_none());
}

#[test]
fn macos_rejected_channel_counts_for_its_connection_only() {
    let (mut st, mut shared) = (MainThreadState::new(), SharedState::new());
    accept(&mut st, &mut shared, ADDR, 9);
    assert!(connection::start_next_connection(&mut st).is_some());
    connection::try_next_channel(&mut st, &mut shared, ADDR);
    let then = connection::connection_generation(&st, ADDR);
    assert!(then.is_some());
    assert!(connection::channel_rejected(&mut st, &mut shared, ADDR, None, 3, -1).is_none());
    let retry = connection::channel_rejected(&mut st, &mut shared, ADDR, then, 3, -1);
    assert!(retry.is_some_and(|r| r.outcome == RetryOutcome::Queued));
    assert_eq!(requests::disconnect_impl(&mut st, &mut shared, ADDR), None);
    assert!(connection::channel_rejected(&mut st, &mut shared, ADDR, then, 3, -1).is_none());
    assert_eq!(connection::connection_generation(&st, ADDR), None);
}

#[test]
fn macos_last_rejection_is_the_reason() {
    let (mut st, mut shared) = (MainThreadState::new(), SharedState::new());
    requests::set_data_listener_impl(&mut shared, ADDR, 6);
    accept(&mut st, &mut shared, ADDR, 9);
    for channel in [3u8, 4u8] {
        assert!(connection::start_next_connection(&mut st).is_some());
        connection::try_next_channel(&mut st, &mut shared, ADDR);
        let then = connection::connection_generation(&st, ADDR);
        let retry =
            connection::channel_rejected(&mut st, &mut shared, ADDR, then, channel, -536870208);
        match retry.map(|r| r.outcome) {
            Some(RetryOutcome::Queued) => assert_eq!(channel, 3),
            Some(RetryOutcome::GivenUp(gone)) => {
                assert_eq!(channel, 4);
                assert_eq!(
                    gone.told.map(|t| t.error),
                    Some(
                        "All RFCOMM channel attempts failed: Channel 4 rejected (-536870208)"
                            .to_string()
                    )
                );
            }
            _ => panic!("the attempt is not known"),
        }
    }
}

#[test]
fn macos_service_query_is_polled_thirty_times() {
    assert_eq!(connection::cached_spp_channel(None), None);
    assert_eq!(connection::cached_spp_channel(Some((0, 30))), Some(30));
    assert_eq!(connection::cached_spp_channel(Some((0, 31))), None);
    assert_eq!(connection::cached_spp_channel(Some((0, 0))), None);
    assert_eq!(connection::cached_spp_channel(Some((-1, 3))), None);
    assert_eq!(
        connection::poll_sdp(SdpEvent::Turn { resolved: true }),
        SdpAction::TryChannel
    );
    assert_eq!(connection::poll_sdp(SdpEvent::Turn { resolved: false }), SdpAction::LookUp);
    assert_eq!(connection::poll_sdp(SdpEvent::Known(Some(3))), SdpAction::Finish(Some(3)));
    assert_eq!(connection::poll_sdp(SdpEvent::Known(None)), SdpAction::Query);
    assert_eq!(connection::poll_sdp(SdpEvent::QueryStarted(-1)), SdpAction::Finish(None));
    assert_eq!(connection::poll_sdp(SdpEvent::QueryStarted(0)), SdpAction::Poll { attempt: 0 });
    assert_eq!(
        connection::poll_sdp(SdpEvent::Polled { attempt: 28, channel: None }),
        SdpAction::Poll { attempt: 29 }
    );
    assert_eq!(
        connection::poll_sdp(SdpEvent::Polled { attempt: 29, channel: None }),
        SdpAction::Finish(None)
    );
    assert_eq!(
        connection::poll_sdp(SdpEvent::Polled { attempt: 2, channel: Some(8) }),
        SdpAction::Finish(Some(8))
    );
}

#[test]
fn macos_closed_channel_disconnects_the_device() {
    let (mut st, mut shared) = (MainThreadState::new(), SharedState::new());
    requests::set_data_listener_impl(&mut shared, ADDR, 6);
    let generation = open_device(&mut st, &mut shared, 100);
    let stale = connection::channel_closed(&mut st, &mut shared, ADDR, generation + 5);
    assert_eq!(stale.outcome, CloseOutcome::Ignored);
    begin(&mut st, vec![1, 2, 3]);
    let end = connection::channel_closed(&mut st, &mut shared, ADDR, generation);
    assert_eq!(end.released, None);
    match end.outcome {
        CloseOutcome::Disconnected(closed, told) => {
            assert!(!closed.close_channel);
            assert_eq!(
                closed.failed_send,
                Some(FailedSend { completion: 77, reason: "RFCOMM channel closed".to_string() })
            );
            assert_eq!(
                told,
                Some(ListenerError { listener: 6, error: "Connection closed".to_string() })
            );
        }
        _ => panic!("the device is connected"),
    }
    assert_eq!(session::finish_close(&mut st, generation, 0), Some(50));
    assert!(requests::get_connected_device_info_impl(&shared, ADDR).is_none());
}

#[test]
fn macos_channel_closed_while_opening_is_tried_again() {
    let (mut st, mut shared) = (MainThreadState::new(), SharedState::new());
    accept(&mut st, &mut shared, ADDR, 9);
    let generation = opening(&mut st, &mut shared, ADDR);
    match connection::channel_closed(&mut st, &mut shared, ADDR, generation).outcome {
        CloseOutcome::Retried(closed, retry) => {
            assert!(!closed.close_channel);
            assert_eq!(retry.closed, None);
            assert_eq!(retry.outcome, RetryOutcome::Queued);
        }
        _ => panic!("the attempt is not known"),
    }
}

#[test]
fn macos_connecting_waits_for_the_old_session() {
    let (mut st, mut shared) = (MainThreadState::new(), SharedState::new());
    let generation = open_device(&mut st, &mut shared, 2);
    let sent = begin(&mut st, vec![1, 2, 3]);
    write_of(send::pump_pending_rfcomm_send(&mut st, ADDR, generation));
    let closed = match requests::disconnect_impl(&mut st, &mut shared, ADDR) {
        Some(closed) => closed,
        None => panic!("there is no session"),
    };
    assert_eq!(
        closed.failed_send,
        Some(FailedSend {
            completion: 77,
            reason: "Connection disconnected during RFCOMM send".to_string()
        })
    );
    assert_eq!(session::finish_close(&mut st, generation, -1), None);
    assert!(matches!(
        requests::connect_impl(&mut st, &mut shared, ADDR, &[]),
        Err(MacError::StillClosing(addr)) if addr == ADDR
    ));
    assert!(matches!(
        send::handle_write_complete(&mut st, ADDR, generation, sent.id + 1, 0),
        WriteCompletion::Ignore
    ));
    assert!(matches!(
        send::handle_write_complete(&mut st, ADDR, generation, sent.id, 0),
        WriteCompletion::ReleaseLater(gone) if gone == generation
    ));
    assert_eq!(session::release_retiring_session(&mut st, generation), Some(50));
    assert_eq!(session::release_retiring_session(&mut st, generation), None);
    accept(&mut st, &mut shared, ADDR, 9);
}

#[test]
fn macos_failed_close_without_writes_drops_the_session() {
    let (mut st, mut shared) = (MainThreadState::new(), SharedState::new());
    let generation = open_device(&mut st, &mut shared, 2);
    requests::disconnect_impl(&mut st, &mut shared, ADDR);
    assert_eq!(session::finish_close(&mut st, generation, -1), Some(50));
}

#[test]
fn macos_send_is_cut_into_writes() {
    let (mut st, mut shared) = (MainThreadState::new(), SharedState::new());
    let generation = open_device(&mut st, &mut shared, 2);
    let sent = begin(&mut st, vec![1, 2, 3, 4, 5]);
    assert_eq!(sent.generation, generation);
    let first = write_of(send::pump_pending_rfcomm_send(&mut st, ADDR, generation));
    assert_eq!((first.channel, first.id, first.offset, first.len), (50, sent.id, 0, 2));
    assert_eq!(*first.payload, vec![1, 2, 3, 4, 5]);
    let second = write_of(send::after_write(&mut st, ADDR, generation, &first, 0, 0, false));
    assert_eq!((second.offset, second.len), (2, 2));
    let third = write_of(send::after_write(&mut st, ADDR, generation, &second, 1, 0, false));
    assert_eq!((third.offset, third.len), (4, 1));
    assert!(matches!(
        send::after_write(&mut st, ADDR, generation, &third, 2, 0, false),
        PumpStep::Done
    ));
    assert!(matches!(
        send::handle_write_complete(&mut st, ADDR, generation, sent.id, 0),
        WriteCompletion::Schedule(1)
    ));
    assert!(matches!(
        send::handle_write_complete(&mut st, ADDR, generation, sent.id, 0),
        WriteCompletion::Ignore
    ));
    assert!(matches!(
        send::handle_write_complete(&mut st, ADDR, generation, sent.id, 0),
        WriteCompletion::Completed(77)
    ));
    assert!(matches!(
        send::handle_write_complete(&mut st, ADDR, generation, sent.id, 0),
        WriteCompletion::Ignore
    ));
}

#[test]
fn macos_write_may_complete_before_its_call_returns() {
    let (mut st, mut shared) = (MainThreadState::new(), SharedState::new());
    let generation = open_device(&mut st, &mut shared, 2);
    let sent = begin(&mut st, vec![1, 2, 3]);
    let first = write_of(send::pump_pending_rfcomm_send(&mut st, ADDR, generation));
    assert!(matches!(
        send::handle_write_complete(&mut st, ADDR, generation, sent.id, 0),
        WriteCompletion::Schedule(1)
    ));
    let second = write_of(send::after_write(&mut st, ADDR, generation, &first, 0, 0, false));
    assert_eq!((second.offset, second.len), (2, 1));
    assert!(matches!(
        send::handle_write_complete(&mut st, ADDR, generation, sent.id, 0),
        WriteCompletion::Completed(77)
    ));
    assert!(matches!(
        send::after_write(&mut st, ADDR, generation, &second, 1, 0, false),
        PumpStep::Done
    ));
}

#[test]
fn macos_turn_ends_after_four_writes_or_when_its_time_is_up() {
    let (mut st, mut shared) = (MainThreadState::new(), SharedState::new());
    let generation = open_device(&mut st, &mut shared, 1);
    begin(&mut st, vec![0; 20]);
    let mut request = write_of(send::pump_pending_rfcomm_send(&mut st, ADDR, generation));
    for made in 0..3 {
        request = write_of(send::after_write(&mut st, ADDR, generation, &request, made, 0, false));
    }
    assert!(matches!(
        send::after_write(&mut st, ADDR, generation, &request, 3, 0, false),
        PumpStep::Schedule(1)
    ));
    assert!(!send::schedule_pump(&mut st, ADDR, generation));
    assert!(send::begin_turn(&mut st, ADDR, generation));
    let request = write_of(send::pump_pending_rfcomm_send(&mut st, ADDR, generation));
    assert!(matches!(
        send::after_write(&mut st, ADDR, generation, &request, 0, 0, true),
        PumpStep::Schedule(1)
    ));
    assert!(!send::begin_turn(&mut st, ADDR, generation + 1));
}

#[test]
fn macos_eight_writes_are_under_way_at_most() {
    let (mut st, mut shared) = (MainThreadState::new(), SharedState::new());
    let generation = open_device(&mut st, &mut shared, 1);
    begin(&mut st, vec![0; 20]);
    for _ in 0..8 {
        write_of(send::pump_pending_rfcomm_send(&mut st, ADDR, generation));
    }
    assert!(matches!(
        send::pump_pending_rfcomm_send(&mut st, ADDR, generation),
        PumpStep::Done
    ));
}

#[test]
fn macos_busy_write_is_tried_again_from_the_same_place() {
    let (mut st, mut shared) = (MainThreadState::new(), SharedState::new());
    let generation = open_device(&mut st, &mut shared, 4);
    begin(&mut st, vec![0; 6]);
    for status in [
        send::RETURN_BUSY,
        send::RETURN_NO_SPACE,
        send::RETURN_UNDERRUN,
        send::RETURN_OVERRUN,
    ] {
        assert!(send::is_retryable_rfcomm_backpressure(status));
        let request = write_of(send::pump_pending_rfcomm_send(&mut st, ADDR, generation));
        assert_eq!(request.offset, 0);
        assert!(send::write_is_counted(&st, ADDR, generation, &request));
        assert!(matches!(
            send::after_write(&mut st, ADDR, generation, &request, 0, status, false),
            PumpStep::Schedule(10)
        ));
        assert!(!send::write_is_counted(&st, ADDR, generation, &request));
        assert!(send::begin_turn(&mut st, ADDR, generation));
    }
    assert!(!send::is_retryable_rfcomm_backpressure(0));
    assert_eq!(send::RETURN_BUSY, 0xE00002D5u32 as i32);
    assert_eq!(send::RETURN_NO_SPACE, 0xE00002DBu32 as i32);
    assert_eq!(send::RETURN_UNDERRUN, 0xE00002E7u32 as i32);
    assert_eq!(send::RETURN_OVERRUN, 0xE00002E8u32 as i32);
}

#[test]
fn macos_failed_write_gives_up_the_session_once() {
    let (mut st, mut shared) = (MainThreadState::new(), SharedState::new());
    requests::set_data_listener_impl(&mut shared, ADDR, 6);
    let generation = open_device(&mut st, &mut shared, 4);
    let sent = begin(&mut st, vec![0; 6]);
    let request = write_of(send::pump_pending_rfcomm_send(&mut st, ADDR, generation));
    let reason = match send::after_write(&mut st, ADDR, generation, &request, 0, -7, false) {
        PumpStep::FailLater { active, reason } => {
            assert_eq!(active, 52);
            reason
        }
        _ => panic!("the write did not fail"),
    };
    assert_eq!(reason, "RFCOMM writeAsync failed: -7");
    assert_eq!(session::fail_session_later(&mut st, ADDR, generation), None);
    assert!(matches!(
        send::handle_write_complete(&mut st, ADDR, generation, sent.id, -7),
        WriteCompletion::Ignore
    ));
    assert_eq!(send::get_max_send_len_impl(&st, ADDR), Ok(None));
    assert!(session::fail_session(&mut st, &mut shared, ADDR, generation + 1, "x".to_string())
        .is_none());
    let gone = match session::fail_session(&mut st, &mut shared, ADDR, generation, reason) {
        Some(gone) => gone,
        None => panic!("the session was replaced"),
    };
    assert_eq!(
        gone.told,
        Some(ListenerError { listener: 6, error: "RFCOMM writeAsync failed: -7".to_string() })
    );
    assert!(gone.closed.is_some_and(|c| c.close_channel && c.failed_send.is_some()));
}

#[test]
fn macos_write_that_completes_badly_gives_up_the_session() {
    let (mut st, mut shared) = (MainThreadState::new(), SharedState::new());
    let generation = open_device(&mut st, &mut shared, 4);
    let sent = begin(&mut st, vec![0; 6]);
    write_of(send::pump_pending_rfcomm_send(&mut st, ADDR, generation));
    match send::handle_write_complete(&mut st, ADDR, generation, sent.id, 5) {
        WriteCompletion::FailLater { active, reason } => {
            assert_eq!(active, 52);
            assert_eq!(reason, "RFCOMM async write failed: 5");
        }
        _ => panic!("the write did not fail"),
    }
}

#[test]
fn macos_send_is_refused_without_an_open_session_or_with_another_send() {
    let (mut st, mut shared) = (MainThreadState::new(), SharedState::new());
    assert_eq!(send::send_impl(&[], true), Ok(None));
    assert_eq!(send::send_impl(&[1], true), Err(MacError::SendOnMainLoop));
    assert_eq!(send::send_impl(&[1, 2], false), Ok(Some(Arc::new(vec![1, 2]))));
    assert_eq!(
        send::begin_send(&mut st, ADDR, Arc::new(vec![1]), 7),
        Err(MacError::NotConnected)
    );
    open_device(&mut st, &mut shared, 4);
    begin(&mut st, vec![1]);
    assert_eq!(
        send::begin_send(&mut st, "aa-bb-cc-dd-ee-01", Arc::new(vec![1]), 7),
        Err(MacError::SendInProgress)
    );
}

#[test]
fn macos_send_that_takes_too_long_gives_up_the_device() {
    let (mut st, mut shared) = (MainThreadState::new(), SharedState::new());
    open_device(&mut st, &mut shared, 4);
    let sent = begin(&mut st, vec![1]);
    let reason = send::timeout_text("timed out waiting on channel");
    assert_eq!(
        reason,
        "RFCOMM async send did not complete within 45s: timed out waiting on channel"
    );
    let other = AcceptedSend { generation: sent.generation, id: sent.id + 1 };
    assert!(send::send_timed_out(&mut st, &mut shared, ADDR, &other, reason.clone()).is_none());
    let gone = send::send_timed_out(&mut st, &mut shared, ADDR, &sent, reason.clone());
    assert!(gone.is_some_and(|g| g.closed.is_some_and(|c| c.failed_send
        == Some(FailedSend { completion: 77, reason }))));
    assert!(requests::get_connected_device_info_impl(&shared, ADDR).is_none());
}

#[test]
fn macos_stale_events_change_nothing() {
    let (mut st, mut shared) = (MainThreadState::new(), SharedState::new());
    let generation = open_device(&mut st, &mut shared, 4);
    let sent = begin(&mut st, vec![1]);
    let stale = generation + 100;
    assert!(!session::session_matches(&st, ADDR, stale));
    assert!(!send::schedule_pump(&mut st, ADDR, stale));
    assert!(send::reserve_write(&mut st, ADDR, stale).is_none());
    assert!(matches!(
        send::handle_write_complete(&mut st, ADDR, stale, sent.id, -1),
        WriteCompletion::Ignore
    ));
    assert_eq!(session::fail_session_later(&mut st, ADDR, stale), None);
    assert!(send::reserve_write(&mut st, ADDR, generation).is_some());
}

#[test]
fn macos_data_reaches_the_listener_of_a_live_session() {
    let (mut st, mut shared) = (MainThreadState::new(), SharedState::new());
    accept(&mut st, &mut shared, ADDR, 9);
    let generation = opening(&mut st, &mut shared, ADDR);
    assert_eq!(requests::data_arrived(&st, ADDR, generation, 3), Arrival::Later);
    assert_eq!(requests::data_arrived(&st, ADDR, generation, 0), Arrival::Ignored);
    connection::handle_open_complete(&mut st, &mut shared, ADDR, generation, 0, 9);
    assert_eq!(requests::data_arrived(&st, ADDR, generation, 3), Arrival::Now);
    assert_eq!(requests::deliver_data(&st, &shared, ADDR, generation), None);
    requests::set_data_listener_impl(&mut shared, ADDR, 6);
    assert_eq!(
        requests::deliver_data(&st, &shared, ADDR, generation),
        Some(Delivery { active: 52, listener: 6 })
    );
    assert_eq!(requests::deliver_data(&st, &shared, ADDR, generation + 1), None);
    session::fail_session_later(&mut st, ADDR, generation);
    assert_eq!(requests::deliver_data(&st, &shared, ADDR, generation), None);
    assert_eq!(requests::worker_name("aa-bb-cc-dd-ee-01"), "rfcomm-rx-AA:BB:CC:DD:EE:01");
    assert_eq!(requests::start_subscription_impl(ADDR), Ok(()));
}

#[test]
fn macos_listener_ends_after_an_error() {
    let step = requests::listener_step(Some(true), false);
    assert!(step.call && !step.stop);
    let step = requests::listener_step(Some(false), false);
    assert!(!step.call && !step.stop);
    let step = requests::listener_step(None, true);
    assert!(step.call && step.stop);
}

#[test]
fn macos_listener_hears_events_in_order() {
    let events = [
        (Some(true), Ok(1)),
        (Some(false), Ok(2)),
        (Some(true), Ok(3)),
        (Some(false), Err("of an ended session")),
        (Some(true), Ok(4)),
        (None, Err("closed")),
        (Some(true), Ok(5)),
    ];
    let mut heard: Vec<Result<u8, &str>> = Vec::new();
    for (active, data) in events {
        let step = requests::listener_step(active, data.is_err());
        if step.call {
            heard.push(data);
        }
        if step.stop {
            break;
        }
    }
    assert_eq!(heard, vec![Ok(1), Ok(3), Ok(4), Err("closed")]);
}

fn ended_session(close_channel: bool) -> ClosedSession {
    ClosedSession {
        generation: 1,
        channel: 2,
        active: 3,
        failed_send: Some(FailedSend { completion: 4, reason: "x".to_string() }),
        close_channel,
    }
}

fn ending_steps(close_channel: bool) -> Vec<Step> {
    vec![
        Step::LowerFlag(3),
        Step::FailSend(FailedSend { completion: 4, reason: "x".to_string() }),
        if close_channel {
            Step::CloseChannel { channel: 2, generation: 1 }
        } else {
            Step::FinishClose { generation: 1 }
        },
    ]
}

fn told() -> Option<ListenerError> {
    Some(ListenerError { listener: 5, error: "x".to_string() })
}

fn with_rest(mut steps: Vec<Step>, rest: Vec<Step>) -> Vec<Step> {
    steps.extend(rest);
    steps
}

#[test]
fn macos_things_are_done_in_order() {
    let tell = || Step::Tell(ListenerError { listener: 5, error: "x".to_string() });
    assert_eq!(ended_session(true).steps(), ending_steps(true));
    assert_eq!(ended_session(false).steps(), ending_steps(false));
    let gone = |closed: Option<ClosedSession>| DroppedDevice { closed, told: told() };
    assert_eq!(
        gone(Some(ended_session(true))).steps(),
        with_rest(ending_steps(true), vec![Step::StopAudioGuard, tell(), Step::NextTurn])
    );
    let retry = |outcome: RetryOutcome| Retry { closed: Some(ended_session(true)), outcome };
    assert_eq!(retry(RetryOutcome::NotConnecting).steps(), ending_steps(true));
    assert_eq!(
        retry(RetryOutcome::Queued).steps(),
        with_rest(ending_steps(true), vec![Step::NextTurn])
    );
    assert_eq!(
        retry(RetryOutcome::GivenUp(gone(None))).steps(),
        with_rest(ending_steps(true), vec![Step::StopAudioGuard, tell(), Step::NextTurn])
    );
    let action = ChannelAction::Open { device: 6, channel: 7, generation: 8 };
    assert_eq!(
        NextChannel { closed: Some(ended_session(true)), action }.steps(),
        with_rest(
            ending_steps(true),
            vec![Step::Open { device: 6, channel: 7, generation: 8 }]
        )
    );
    assert_eq!(NextChannel { closed: None, action: ChannelAction::Nothing }.steps(), vec![]);
    let outcome = CloseOutcome::Disconnected(ended_session(false), told());
    assert_eq!(
        ChannelEnd { released: Some(9), outcome }.steps(),
        with_rest(
            with_rest(vec![Step::Release(9)], ending_steps(false)),
            vec![Step::StopAudioGuard, tell()]
        )
    );
    let outcome = CloseOutcome::Retried(ended_session(false), retry(RetryOutcome::Queued));
    assert_eq!(
        ChannelEnd { released: None, outcome }.steps(),
        with_rest(
            with_rest(ending_steps(false), ending_steps(true)),
            vec![Step::NextTurn]
        )
    );
    assert_eq!(
        steps::after_disconnect(Some(ended_session(true))),
        with_rest(ending_steps(true), vec![Step::StopAudioGuard, Step::NextTurn])
    );
    assert_eq!(
        steps::after_disconnect_all(vec![ended_session(true), ended_session(false)]),
        with_rest(
            with_rest(ending_steps(true), ending_steps(false)),
            vec![Step::StopEveryAudioGuard]
        )
    );
    let end = requests::Shutdown { inquiry: Some(1), closed: vec![ended_session(true)] };
    assert_eq!(
        end.steps(),
        with_rest(
            with_rest(vec![Step::StopInquiry(1)], ending_steps(true)),
            vec![Step::StopEveryAudioGuard]
        )
    );
    let start = scan::ScanStart { stopped: Some(1), begun: Ok(2) };
    assert_eq!(start.steps(), vec![Step::StopInquiry(1), Step::StartInquiry(2)]);
    let start = scan::ScanStart { stopped: Some(1), begun: Err(MacError::ScanWhileConnecting) };
    assert_eq!(start.steps(), vec![Step::StopInquiry(1)]);
}

#[test]
fn macos_native_answers_are_judged() {
    assert_eq!(send::status_before_write(true), Some(send::RETURN_BUSY));
    assert_eq!(send::status_before_write(false), None);
    assert!(connection::channel_opening(0, true));
    assert!(!connection::channel_opening(0, false));
    assert!(!connection::channel_opening(-1, true));
}

#[test]
fn macos_shutdown_ends_everything() {
    let (mut st, mut shared) = (MainThreadState::new(), SharedState::new());
    let generation = open_device(&mut st, &mut shared, 4);
    begin(&mut st, vec![1]);
    accept(&mut st, &mut shared, OTHER, 10);
    let end = requests::cleanup_bluetooth_resources(&mut st, &mut shared);
    assert_eq!(end.inquiry, None);
    assert_eq!(end.closed.len(), 1);
    assert_eq!(end.closed[0].generation, generation);
    assert_eq!(
        end.closed[0].failed_send,
        Some(FailedSend { completion: 77, reason: "Bluetooth shutdown".to_string() })
    );
    assert!(connection::start_next_connection(&mut st).is_none());
    assert!(requests::get_connected_device_info_impl(&shared, ADDR).is_none());
    assert!(requests::disconnect_all_impl(&mut st, &mut shared).is_empty());
}

#[test]
fn macos_scan_runs_one_inquiry_after_another() {
    let (mut st, mut shared) = (MainThreadState::new(), SharedState::new());
    let start = scan::start_scan_impl(&mut st, &mut shared, 30);
    assert_eq!((start.stopped, start.begun), (None, Ok(30)));
    assert!(scan::start_inquiry(&st));
    assert_eq!(scan::inquiry_created(&mut st, Some(31)), Ok(31));
    assert!(!scan::start_inquiry(&st));
    assert_eq!(scan::inquiry_started(&mut st, 31, 0), Ok(()));
    assert!(scan::is_current_inquiry(&st, 31));
    let found = |raw: &str| Some(raw.to_string());
    scan::device_found(&st, &mut shared, 31, found("aa-bb-cc-dd-ee-01"), found("a"));
    scan::device_found(&st, &mut shared, 31, found(ADDR), found("b"));
    scan::device_found(&st, &mut shared, 99, found(OTHER), None);
    scan::device_found(&st, &mut shared, 31, None, None);
    assert_eq!(
        scan::get_scanned_devices_impl(&shared),
        vec![
            SPPDevice { name: Some("a".to_string()), address: ADDR.to_string() },
            SPPDevice { name: None, address: String::new() }
        ]
    );
    assert!(!scan::inquiry_complete(&mut st, &mut shared, 99, 0, false));
    assert!(scan::inquiry_complete(&mut st, &mut shared, 31, 0, false));
    assert_eq!(scan::restart_delegate(&st, &shared), Some(30));
    assert_eq!(scan::inquiry_created(&mut st, Some(32)), Ok(32));
    assert!(!scan::inquiry_complete(&mut st, &mut shared, 32, 0, true));
    assert_eq!(scan::restart_delegate(&st, &shared), None);
}

#[test]
fn macos_scan_that_cannot_start_is_an_error() {
    let (mut st, mut shared) = (MainThreadState::new(), SharedState::new());
    assert_eq!(scan::start_scan_impl(&mut st, &mut shared, 30).begun, Ok(30));
    assert_eq!(scan::inquiry_created(&mut st, None), Err(MacError::InquiryNotCreated));
    assert_eq!(scan::inquiry_created(&mut st, Some(31)), Ok(31));
    assert_eq!(scan::inquiry_started(&mut st, 31, -4), Err(MacError::ScanNotStarted(-4)));
    assert!(!scan::is_current_inquiry(&st, 31));
    scan::scan_not_started(&mut shared);
    assert_eq!(scan::restart_delegate(&st, &shared), None);
}

#[test]
fn macos_scan_and_connecting_exclude_each_other() {
    let (mut st, mut shared) = (MainThreadState::new(), SharedState::new());
    assert_eq!(scan::start_scan_impl(&mut st, &mut shared, 30).begun, Ok(30));
    assert_eq!(scan::inquiry_created(&mut st, Some(31)), Ok(31));
    assert_eq!(request(&mut st, &mut shared, ADDR).stopped, Some(31));
    assert!(!scan::is_current_inquiry(&st, 31));
    accept(&mut st, &mut shared, ADDR, 9);
    let start = scan::start_scan_impl(&mut st, &mut shared, 40);
    assert_eq!(start.begun, Err(MacError::ScanWhileConnecting));
    assert_eq!(scan::stop_scan_impl(&mut st, &mut shared), None);
}

fn facts(transport: u32, uid: Option<&str>, name: Option<&str>) -> DeviceFacts {
    DeviceFacts {
        transport,
        uid: uid.map(|u| u.to_string()),
        name: name.map(|n| n.to_string()),
    }
}

#[test]
fn audio_codes_are_four_characters() {
    assert_eq!(audio_guard::fourcc(b"dOut"), audio_guard::PROP_DEFAULT_OUTPUT_DEVICE);
    assert_eq!(audio_guard::fourcc(b"uid "), audio_guard::PROP_DEVICE_UID);
    assert_eq!(audio_guard::fourcc(b"tran"), audio_guard::PROP_TRANSPORT_TYPE);
    assert_eq!(audio_guard::fourcc(b"lnam"), audio_guard::PROP_OBJECT_NAME);
    assert_eq!(audio_guard::fourcc(b"glob"), audio_guard::SCOPE_GLOBAL);
    assert_eq!(audio_guard::fourcc(b"blue"), audio_guard::TRANSPORT_BLUETOOTH);
    assert_eq!(audio_guard::fourcc(b"blea"), audio_guard::TRANSPORT_BLUETOOTH_LE);
    assert_eq!(audio_guard::fourcc(&[255, 255, 255, 255]), u32::MAX);
    let address = audio_guard::prop_addr(7);
    assert_eq!(
        (address.selector, address.scope, address.element),
        (7, audio_guard::SCOPE_GLOBAL, 0)
    );
    assert_eq!(audio_guard::read_value(0, 9), 9);
    assert_eq!(audio_guard::read_value(-1, 9), 0);
}

#[test]
fn audio_watch_is_told_by_address_or_name() {
    let hex = audio_guard::normalize_hex("aa:bb-Cc dd_ee.01 xyz");
    assert_eq!(hex, "AABBCCDDEE01");
    let name = Some("Watch".to_string());
    let blue = audio_guard::TRANSPORT_BLUETOOTH;
    let le = audio_guard::TRANSPORT_BLUETOOTH_LE;
    let by_uid = facts(blue, Some("aa-bb-cc-dd-ee-01:output"), None);
    assert!(audio_guard::is_watch_device(5, &by_uid, &hex, &None));
    assert!(!audio_guard::is_watch_device(0, &by_uid, &hex, &None));
    assert!(!audio_guard::is_watch_device(5, &by_uid, "", &None));
    assert!(!audio_guard::is_watch_device(5, &by_uid, "AABBCCDDEE02", &None));
    let by_name = facts(le, None, Some("Watch"));
    assert!(audio_guard::is_watch_device(5, &by_name, &hex, &name));
    assert!(!audio_guard::is_watch_device(5, &by_name, &hex, &Some("watch".to_string())));
    assert!(!audio_guard::is_watch_device(5, &facts(le, None, Some("")), &hex, &Some(String::new())));
    let built_in = facts(1, Some("AABBCCDDEE01"), Some("Watch"));
    assert!(!audio_guard::is_watch_device(5, &built_in, &hex, &name));
}

#[test]
fn audio_guard_restores_the_output() {
    let blue = audio_guard::TRANSPORT_BLUETOOTH;
    let watch = facts(blue, Some("AA-BB-CC-DD-EE-01"), None);
    let phones = facts(blue, Some("11-22-33-44-55-66"), None);
    let mut guard = GuardState::new();
    assert_eq!(
        audio_guard::default_output_changed(&guard, 8, &watch, &phones),
        GuardAction::Nothing
    );
    assert!(audio_guard::start(&mut guard, ADDR, None, 7, &phones));
    assert!(!audio_guard::start(&mut guard, ADDR, None, 8, &watch));
    assert_eq!(guard.preferred, 7);
    assert_eq!(
        audio_guard::default_output_changed(&guard, 8, &watch, &phones),
        GuardAction::Restore(7)
    );
    assert_eq!(
        audio_guard::default_output_changed(&guard, 9, &phones, &phones),
        GuardAction::Nothing
    );
    assert_eq!(
        audio_guard::default_output_changed(&guard, 8, &watch, &watch),
        GuardAction::NoTarget
    );
    assert_eq!(
        audio_guard::default_output_changed(&guard, 7, &watch, &watch),
        GuardAction::NoTarget
    );
}

#[test]
fn audio_guard_stops_for_its_own_watch() {
    let none = facts(0, None, None);
    let mut guard = GuardState::new();
    audio_guard::start(&mut guard, ADDR, Some("w".to_string()), 7, &none);
    assert!(!audio_guard::stop_for(&mut guard, OTHER));
    assert!(guard.active);
    assert!(audio_guard::stop_for(&mut guard, "aa-bb-cc-dd-ee-01"));
    assert!(!guard.active);
    assert_eq!((guard.watch_mac_hex.as_str(), guard.preferred), ("", 0));
    assert!(!audio_guard::stop_all(&mut guard));
    audio_guard::start(&mut guard, ADDR, None, 7, &none);
    audio_guard::listener_registered(&mut guard, -1);
    assert!(!guard.active);
    assert!(audio_guard::start(&mut guard, ADDR, None, 7, &none));
    audio_guard::listener_registered(&mut guard, 0);
    assert!(audio_guard::stop(&mut guard));
}

#[test]
fn macos_generations_are_not_used_again() {
    let (mut st, mut shared) = (MainThreadState::new(), SharedState::new());
    let mut last = 0;
    for _ in 0..3 {
        let generation = open_device(&mut st, &mut shared, 4);
        assert!(generation > last);
        last = generation;
        requests::disconnect_impl(&mut st, &mut shared, ADDR);
        session::finish_close(&mut st, generation, 0);
        assert!(!session::session_matches(&st, ADDR, generation));
    }
}
