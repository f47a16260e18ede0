//! Bluetooth classic serial-port connections.
pub mod address_map;
pub mod bytes;
pub mod channels;
pub mod desktop;
pub mod linux;
pub mod mac_address;
pub mod macos;
pub mod mobile;
pub mod models;
pub mod numbers;
pub mod text;
pub mod win;
