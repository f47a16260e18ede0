//! Connections through BlueZ, any number of devices at a time.
pub mod address;
pub mod connect;
pub mod error;
pub mod outcomes;
pub mod scan;
pub mod state;
pub mod steps;
pub mod subscription;
pub mod teardown;
pub mod uuid;
