//! Error type of the library.

use vstd::prelude::*;

verus! {

/// Errors that the library reports.
///
/// Paths are carried as strings.
#[derive(Debug, Clone, PartialEq, Eq)]
pub enum UeToolError {
    IoError(String),
    PakError(String),
    UtocError(String),
    CompressionError(String),
    EncryptionError(String),
    FileNotFound(String),
    InvalidFormat(String),
    MissingFile(String),
    InvalidAesKey(String),
    DeserializationError(String),
    SerializationError(String),
    JsonError(String),
    PermissionDenied(String),
    OutOfMemory,
    Internal(String),
    ExternalTool(String),
    InvalidArgument(String),
    Timeout,
    Cancelled,
    Other(String),
}

/// Result type of the library.
pub type Result<T> = core::result::Result<T, UeToolError>;

impl UeToolError {
    /// An I/O error carrying `msg`.
    pub fn io_error(msg: String) -> (r: Self)
        ensures
            r matches UeToolError::IoError(m) && m@ == msg@,
    {
        UeToolError::IoError(msg)
    }

    /// A "file not found" error for `path`.
    pub fn file_not_found(path: String) -> (r: Self)
        ensures
            r matches UeToolError::FileNotFound(p) && p@ == path@,
    {
        UeToolError::FileNotFound(path)
    }

    /// An "invalid format" error carrying `msg`.
    pub fn invalid_format(msg: String) -> (r: Self)
        ensures
            r matches UeToolError::InvalidFormat(m) && m@ == msg@,
    {
        UeToolError::InvalidFormat(msg)
    }

    /// A "missing required file" error for `path`.
    pub fn missing_file(path: String) -> (r: Self)
        ensures
            r matches UeToolError::MissingFile(p) && p@ == path@,
    {
        UeToolError::MissingFile(path)
    }

    /// An "invalid AES key" error carrying `msg`.
    pub fn invalid_aes_key(msg: String) -> (r: Self)
        ensures
            r matches UeToolError::InvalidAesKey(m) && m@ == msg@,
    {
        UeToolError::InvalidAesKey(msg)
    }

    /// An "invalid argument" error carrying `msg`.
    pub fn invalid_argument(msg: String) -> (r: Self)
        ensures
            r matches UeToolError::InvalidArgument(m) && m@ == msg@,
    {
        UeToolError::InvalidArgument(msg)
    }
}

} // verus!
