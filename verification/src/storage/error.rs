//! Errors of storage operations.
use vstd::prelude::*;

use crate::text::{owned, push_str};

verus! {

/// Why a storage operation failed.
#[derive(Debug)]
pub enum StorageError {
    NotFound(String),
    PermissionDenied(String),
    NetworkError(String),
    InvalidInput(String),
    IoError(String),
    ProviderError(String),
}

/// The message shown for a storage error.
pub open spec fn storage_error_message(e: StorageError) -> Seq<char> {
    match e {
        StorageError::NotFound(s) => "Object not found: "@ + s@,
        StorageError::PermissionDenied(s) => "Permission denied: "@ + s@,
        StorageError::NetworkError(s) => "Network error: "@ + s@,
        StorageError::InvalidInput(s) => "Invalid input: "@ + s@,
        StorageError::IoError(s) => "IO error: "@ + s@,
        StorageError::ProviderError(s) => "Provider error: "@ + s@,
    }
}

impl StorageError {
    /// The message shown for this error.
    pub fn message(&self) -> (r: String)
        ensures
            r@ == storage_error_message(*self),
    {
        let (prefix, detail) = match self {
            StorageError::NotFound(s) => ("Object not found: ", s),
            StorageError::PermissionDenied(s) => ("Permission denied: ", s),
            StorageError::NetworkError(s) => ("Network error: ", s),
            StorageError::InvalidInput(s) => ("Invalid input: ", s),
            StorageError::IoError(s) => ("IO error: ", s),
            StorageError::ProviderError(s) => ("Provider error: ", s),
        };
        let mut r = owned(prefix);
        push_str(&mut r, detail.as_str());
        r
    }
}

} // verus!
