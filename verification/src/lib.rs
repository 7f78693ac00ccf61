//! A cyclic timer of named work and rest sessions, with the message types by
//! which a server hands it to short-lived clients.

pub mod time;
pub mod clock;
pub mod codec;
pub mod config;
pub mod format;
pub mod pomodoro_clock;
pub mod server;
pub mod socket;
