//! The race engineer: its voices and what clients may ask of it.

pub mod api;
pub mod voice_manager;
