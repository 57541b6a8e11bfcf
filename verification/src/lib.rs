//! A command-line client for S3-compatible object storage: configuration,
//! request signing, listing and naming logic, with their contracts.
pub mod cli;
pub mod commands;
pub mod config;
pub mod models;
pub mod storage;
pub mod text;

pub use cli::{Cli, Commands, ConfigCommands};
pub use commands::{CmdResult, CommandError};
pub use config::{Config, ConfigError, Provider};
pub use models::{Duration, FileEntry, FileMetadata, ListResult, Pagination, SortField, SortOrder, Timestamp};
pub use storage::s3::S3Target;
pub use storage::StorageError;
pub mod laws;
