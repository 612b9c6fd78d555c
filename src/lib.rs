//! Speedrun timing for Pizza Tower: locating game fields in memory by
//! signature, tracking their values between ticks, and deriving timer
//! commands from them.

pub mod pair;
pub mod scanner;
pub mod resolve;
pub mod rooms;
pub mod snapshot;
pub mod engine;
pub mod text;
