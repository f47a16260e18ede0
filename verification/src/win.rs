//! The WinSock backend: one connection at a time.
pub mod address;
pub mod connect;
pub mod error;
pub mod outcomes;
pub mod pairing;
pub mod scan;
pub mod state;
pub mod steps;
pub mod transfer;
