//! The protocol between the bridge and its dashboards.

pub mod messages;
