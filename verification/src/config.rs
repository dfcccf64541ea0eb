//! Daemon configuration.

pub mod schema;

pub use schema::{config_location, ConfigError, ConfigLocation, StackScreenPosition, TilerConfig};
