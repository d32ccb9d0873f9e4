//! Torn-read-safe acquisition of live telemetry from a shared memory region
//! that a simulator overwrites continuously.
//!
//! The library decides; the caller maps the region, waits on the producer's
//! signal and copies bytes out of the live view.

pub mod header;
pub mod text;
pub mod var_header;
pub mod region;
pub mod session_info;
pub mod client;
pub mod assetto_corsa;
pub mod connect;
