//! The relay: telemetry from the driver's PC to a public server, and viewer
//! commands the other way.

pub mod envelope;
pub mod room;
pub mod uplink;
