//! The command line: the sub-commands and their arguments.
use vstd::prelude::*;

verus! {

/// A parsed command line.
#[derive(Debug)]
pub struct Cli {
    pub command: Commands,
}

/// The sub-commands and their arguments.
#[derive(Debug)]
pub enum Commands {
    /// Upload a file (`-` or none for standard input).
    Push {
        file: Option<String>,
        public: bool,
        expires: Option<String>,
        content_type: Option<String>,
    },
    /// Download a file.
    Pull { id: String, output: Option<String>, force: bool },
    /// List stored files.
    Ls { pattern: Option<String>, long: bool, limit: usize },
    /// Remove a file.
    Rm { id: String },
    /// Make a presigned link to a file.
    Share { id: String, expires: String, download: bool, copy: bool },
    /// Show a file's metadata.
    Info { id: String },
    /// Copy a file within the bucket.
    Copy { source: String, dest: String },
    /// Move a file within the bucket.
    Move { source: String, dest: String },
    /// Write a file to standard output.
    Cat { id: String },
    /// Manage the configuration.
    Config { command: ConfigCommands },
}

/// The configuration sub-commands (`get`, `set`, `list`, `init`).
#[derive(Debug)]
pub enum ConfigCommands {
    Get { key: String },
    SetValue { key: String, value: String },
    List,
    Init,
}

impl Commands {
    /// Whether the command works on the bucket, and so needs a configuration
    /// settled before it runs; only the configuration commands do not.
    pub fn needs_config(&self) -> (r: bool)
        ensures
            r == !(self is Config),
    {
        match self {
            Commands::Config { .. } => false,
            _ => true,
        }
    }
}

} // verus!
