//! Decision logic of a sim-racing pit wall.

pub mod broadcaster;
pub mod config;
pub mod http_server;
pub mod ieee;
pub mod lifecycle;
pub mod paths;
pub mod polling;
pub mod post_race;
pub mod protocol;
pub mod race_engineer;
pub mod relay;
pub mod rounding;
pub mod telemetry;
pub mod text;
pub mod version;
pub mod websocket;
