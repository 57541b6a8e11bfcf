//! Configuration: providers and settings.
pub mod providers;
pub mod settings;

pub use providers::Provider;
pub use settings::{Config, ConfigError};
