//! Relay of a game client's champion-select events: decoding of event frames,
//! resolution of player names and the requests that forward both to a collector.

pub mod decimal;
pub mod endpoint;
pub mod error;
pub mod json;
pub mod names;
pub mod relay;
pub mod session;
