//! Tiling window manager core: layout computation, virtual desktops, the
//! floating menu state machine, and the tiling engine's decision logic.

pub mod model;
pub mod seq_facts;
pub mod tiling;
pub mod menu;
pub mod text;
pub mod config;
pub mod gnome;
pub mod ipc;
