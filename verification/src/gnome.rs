//! The data exchanged with the GNOME Shell extension.

pub mod dbus_proxy;
pub mod event;
