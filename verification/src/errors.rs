//! Error taxonomy of the library.
//!
//! `AppError` classifies failures reported to the hosting layer, and
//! `ChannelError` covers the real-time channel operations: handshake
//! failures, operations attempted while offline, and lookups of unknown
//! channel identifiers.

use vstd::prelude::*;

verus! {

/// Application-level error with a classified kind and a free-form message.
#[derive(Debug)]
pub enum AppError {
    NetworkError { message: String },
    DatabaseError { message: String },
    AuthError { message: String },
    ValidationError { message: String },
    FileError { message: String },
    PermissionError { message: String },
    UnknownError { message: String },
}

/// The stable identifier of an [`AppError`] kind.
pub open spec fn spec_error_code(e: &AppError) -> Seq<char> {
    match e {
        AppError::NetworkError { .. } => "NETWORK_ERROR"@,
        AppError::DatabaseError { .. } => "DATABASE_ERROR"@,
        AppError::AuthError { .. } => "AUTH_ERROR"@,
        AppError::ValidationError { .. } => "VALIDATION_ERROR"@,
        AppError::FileError { .. } => "FILE_ERROR"@,
        AppError::PermissionError { .. } => "PERMISSION_ERROR"@,
        AppError::UnknownError { .. } => "UNKNOWN_ERROR"@,
    }
}

impl AppError {
    pub fn network_error(message: String) -> (r: AppError)
        ensures
            r matches AppError::NetworkError { message: m } && m@ == message@,
    {
        AppError::NetworkError { message }
    }

    pub fn database_error(message: String) -> (r: AppError)
        ensures
            r matches AppError::DatabaseError { message: m } && m@ == message@,
    {
        AppError::DatabaseError { message }
    }

    pub fn auth_error(message: String) -> (r: AppError)
        ensures
            r matches AppError::AuthError { message: m } && m@ == message@,
    {
        AppError::AuthError { message }
    }

    pub fn validation_error(message: String) -> (r: AppError)
        ensures
            r matches AppError::ValidationError { message: m } && m@ == message@,
    {
        AppError::ValidationError { message }
    }

    pub fn file_error(message: String) -> (r: AppError)
        ensures
            r matches AppError::FileError { message: m } && m@ == message@,
    {
        AppError::FileError { message }
    }

    pub fn permission_error(message: String) -> (r: AppError)
        ensures
            r matches AppError::PermissionError { message: m } && m@ == message@,
    {
        AppError::PermissionError { message }
    }

    pub fn unknown_error(message: String) -> (r: AppError)
        ensures
            r matches AppError::UnknownError { message: m } && m@ == message@,
    {
        AppError::UnknownError { message }
    }

    /// Only transport failures are worth retrying.
    pub fn is_retryable(&self) -> (r: bool)
        ensures
            r == (self is NetworkError),
    {
        match self {
            AppError::NetworkError { .. } => true,
            _ => false,
        }
    }

    pub fn error_code(&self) -> (r: &'static str)
        ensures
            r@ == spec_error_code(self),
    {
        match self {
            AppError::NetworkError { .. } => "NETWORK_ERROR",
            AppError::DatabaseError { .. } => "DATABASE_ERROR",
            AppError::AuthError { .. } => "AUTH_ERROR",
            AppError::ValidationError { .. } => "VALIDATION_ERROR",
            AppError::FileError { .. } => "FILE_ERROR",
            AppError::PermissionError { .. } => "PERMISSION_ERROR",
            AppError::UnknownError { .. } => "UNKNOWN_ERROR",
        }
    }
}

/// Failures of channel operations, surfaced synchronously to callers.
#[derive(Debug)]
pub enum ChannelError {
    /// Handshake or transport failure, with the transport's message.
    ConnectionError { message: String },
    /// The operation needs a live session; for sends the message was
    /// queued rather than lost.
    NotConnected,
    /// No channel is registered under the given identifier.
    ChannelNotFound { id: String },
}

impl ChannelError {
    pub fn is_not_connected(&self) -> (r: bool)
        ensures
            r == (self is NotConnected),
    {
        match self {
            ChannelError::NotConnected => true,
            _ => false,
        }
    }

    pub fn is_not_found(&self) -> (r: bool)
        ensures
            r == (self is ChannelNotFound),
    {
        match self {
            ChannelError::ChannelNotFound { .. } => true,
            _ => false,
        }
    }

    pub fn is_connection_error(&self) -> (r: bool)
        ensures
            r == (self is ConnectionError),
    {
        match self {
            ChannelError::ConnectionError { .. } => true,
            _ => false,
        }
    }
}

} // verus!
