//! The WebSocket server: viewers, their commands and their limits.

pub mod client;
pub mod server;
