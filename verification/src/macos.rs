//! Connections through IOBluetooth, any number of devices at a time.
pub mod address;
pub mod audio_guard;
pub mod connection;
pub mod error;
pub mod laws;
pub mod outcomes;
pub mod queue;
pub mod requests;
pub mod retiring;
pub mod scan;
pub mod send;
pub mod session;
pub mod state;
pub mod steps;
