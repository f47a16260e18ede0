[package]
name = "btclassic_spp"
version = "0.1.0"
edition = "2021"
publish = false

[dependencies]
anyhow = "1"
base64 = "=0.22.1"
bluer = { version = "=0.17.4", features = ["bluetoothd", "rfcomm"] }
dbus = { version = "=0.9.12", features = ["vendored"] }
dispatch = "0.2"
futures-util = "0.3"
log = "0.4"
objc2 = "0.6"
objc2-core-foundation = "0.3"
objc2-foundation = "0.3"
objc2-io-bluetooth = "0.3"
objc2-io-kit = "0.3"
once_cell = "1"
serde = { version = "1", features = ["derive"] }
serde_json = "1"
thiserror = "2"
tokio = { version = "1", features = ["rt-multi-thread", "sync", "time", "io-util", "macros"] }
windows = { version = "0.61", features = ["Win32_Devices_Bluetooth", "Win32_Foundation", "Win32_Networking_WinSock", "Win32_Security", "Win32_System_Threading"] }
