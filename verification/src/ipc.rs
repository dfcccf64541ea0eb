//! The daemon's IPC protocol.

pub mod protocol;
