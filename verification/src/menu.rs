//! The floating menu: its state machine and the key bindings that drive it.

pub mod key_parse;
pub mod state;
