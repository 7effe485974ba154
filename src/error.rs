//! The failures of vault operations.
use vstd::prelude::*;

verus! {

/// Why a vault operation failed; each carries the offending pattern or path.
#[derive(Debug)]
pub enum VaultError {
    /// The note to read or delete does not exist.
    NotFound { path: String },
    /// A search pattern is not a valid regular expression.
    InvalidPattern { pattern: String },
    /// A note could not be read.
    ReadFailed { path: String },
    /// An ancestor directory (or the trash directory) could not be created.
    CreateDirFailed { path: String },
    /// The temporary file of a write could not be written.
    TempWriteFailed { path: String },
    /// A rename (of a temporary file, or into the trash) failed.
    RenameFailed { path: String },
    /// A note could not be removed.
    RemoveFailed { path: String },
}

} // verus!
