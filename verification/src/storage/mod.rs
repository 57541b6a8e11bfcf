//! Talking to S3-compatible storage: errors, request signing and the
//! interpretation of responses.
pub mod error;
pub mod s3;
pub mod urlencoding;

pub use error::StorageError;
