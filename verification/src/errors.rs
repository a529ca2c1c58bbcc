//! The error kinds the library surfaces to its callers.

use vstd::prelude::*;

verus! {

/// Why a registry or backup-engine operation failed.
#[derive(Debug)]
pub enum GgError {
    /// An unknown game name, or a missing backup file.
    NotFound { what: String },
    /// A record collides with a differently-named record on root or save
    /// location.
    DuplicateEntity { name: String },
    /// An unreadable or unparsable registry or configuration file.
    ConfigError { path: String },
    /// A filesystem operation failed.
    IOError { path: String },
    /// Archive creation or extraction failed; the detail names the offending
    /// path or the underlying failure.
    ArchiveError { detail: String },
    /// A configured external command exited with a non-success status or
    /// failed to launch.
    HookError { description: String, exit_code: i32 },
    /// No game name was given and no record matches the current directory.
    CouldNotInfer { current_dir: String },
}

} // verus!
