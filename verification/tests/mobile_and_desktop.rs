use btclassic_spp::desktop;
use btclassic_spp::mobile::{
    data_message, decoded_message, max_send_len, Argument, BtclassicSpp, DataMessage,
};
use btclassic_spp::models::{ConnectArg, GetMaxSendLenResult, SPPDevice};

fn message(ret: &str, err: Option<&str>) -> DataMessage {
    DataMessage { ret: ret.to_string(), err: err.map(|e| e.to_string()) }
}

#[test]
fn plain_commands_have_their_names() {
    let plugin = BtclassicSpp;
    for (invocation, name) in [
        (plugin.start_scan(), "startScan"),
        (plugin.stop_scan(), "stopScan"),
        (plugin.start_ble_scan(), "startBleScan"),
        (plugin.stop_ble_scan(), "stopBleScan"),
        (plugin.get_scanned_devices(), "getScannedDevices"),
        (plugin.get_ble_scanned_devices(), "getBleScannedDevices"),
    ] {
        assert_eq!(invocation.command, name);
        assert_eq!(invocation.argument, Argument::Nothing);
    }
}

#[test]
fn commands_for_a_device_carry_its_address() {
    let plugin = BtclassicSpp;
    for (invocation, name) in [
        (plugin.disconnect("A"), "disconnect"),
        (plugin.disconnect_ble("A"), "disconnectBle"),
        (plugin.start_subscription("A"), "startSubscription"),
        (plugin.start_ble_subscription("A"), "startBleSubscription"),
        (plugin.get_connected_device_info("A"), "getConnectedDeviceInfo"),
        (plugin.get_max_send_len("A"), "getMaxSendLen"),
        (plugin.get_ble_max_send_len("A"), "getBleMaxSendLen"),
    ] {
        assert_eq!(invocation.command, name);
        assert_eq!(invocation.argument, Argument::Address { addr: "A".to_string() });
    }
    for (invocation, name) in [
        (plugin.on_connected("A"), "onConnected"),
        (plugin.set_data_listener("A"), "setDataListener"),
    ] {
        assert_eq!(invocation.command, name);
        assert_eq!(invocation.argument, Argument::AddressChannel { addr: "A".to_string() });
    }
}

#[test]
fn connect_commands_carry_the_request() {
    let plugin = BtclassicSpp;
    let invocation = plugin.connect("A", true, &[3, 0]);
    assert_eq!(invocation.command, "connect");
    assert_eq!(
        invocation.argument,
        Argument::Connect(ConnectArg {
            addr: "A".to_string(),
            remove_bond: true,
            fallback_channels: vec![3, 0],
        })
    );
    let invocation = plugin.connect_ble("B");
    assert_eq!(invocation.command, "connectBle");
    assert_eq!(
        invocation.argument,
        Argument::Connect(ConnectArg {
            addr: "B".to_string(),
            remove_bond: false,
            fallback_channels: vec![],
        })
    );
}

#[test]
fn sent_bytes_are_encoded() {
    let plugin = BtclassicSpp;
    let invocation = plugin.send("A", b"hello world~");
    assert_eq!(invocation.command, "send");
    assert_eq!(
        invocation.argument,
        Argument::AddressSend { addr: "A".to_string(), b64data: "aGVsbG8gd29ybGR+".to_string() }
    );
    let invocation = plugin.send_ble("A", &[0xFF]);
    assert_eq!(invocation.command, "sendBle");
    assert_eq!(
        invocation.argument,
        Argument::AddressSend { addr: "A".to_string(), b64data: "/w==".to_string() }
    );
}

#[test]
fn sent_bytes_arrive_unchanged() {
    let plugin = BtclassicSpp;
    for data in [vec![], vec![0], vec![1, 2], vec![0, 255, 128, 7, 9]] {
        match plugin.send("A", &data).argument {
            Argument::AddressSend { b64data, .. } => {
                assert_eq!(data_message(Ok(message(&b64data, None))), Ok(data));
            }
            _ => panic!("nothing was sent"),
        }
    }
}

#[test]
fn a_report_that_cannot_be_read_is_an_error() {
    assert_eq!(
        data_message(Err("bad".to_string())),
        Err("Deserialize error from mobile: bad".to_string())
    );
    assert_eq!(data_message(Ok(message("AAAA", Some("gone")))), Err("gone".to_string()));
    assert_eq!(
        data_message(Ok(message("AA!A", None))),
        Err("Base64 decode error from mobile: Invalid symbol 33, offset 2.".to_string())
    );
    assert_eq!(
        decoded_message(Err("x".to_string())),
        Err("Base64 decode error from mobile: x".to_string())
    );
    assert_eq!(decoded_message(Ok(vec![4])), Ok(vec![4]));
}

#[test]
fn the_longest_write_is_what_the_plugin_says() {
    assert_eq!(max_send_len(GetMaxSendLenResult { ret: Some(20) }), Some(20));
    assert_eq!(max_send_len(GetMaxSendLenResult { ret: None }), None);
}

#[test]
fn desktop_answers() {
    let plugin = desktop::BtclassicSpp;
    let device = || SPPDevice { name: None, address: "A".to_string() };
    assert_eq!(plugin.get_scanned_devices(vec![device()]).ret, vec![device()]);
    assert!(plugin.connect(true).ret);
    assert!(!plugin.connect(false).ret);
    assert_eq!(plugin.get_connected_device_info("A", Some(device())), Ok(device()));
    assert_eq!(
        plugin.get_connected_device_info("A", None),
        Err("No device connected for A".to_string())
    );
}
