//! Error taxonomy of the service core.
//!
//! Store-level and serialization failures arrive from the boundary already
//! reduced to plain message strings; validation and not-found errors are
//! raised by the core itself.

use vstd::prelude::*;

verus! {

use vstd::string::StringExecFns;

/// All failures a caller of the core can observe.
#[derive(Debug)]
pub enum AppError {
    /// The underlying store failed (connection, transaction, constraint).
    Database { message: String },
    /// The request body could not be decoded.
    Serialization { message: String },
    /// The input was rejected before any store interaction.
    Validation { message: String },
    /// A single-record lookup or delete targeted a record that is not there.
    NotFound { resource: String },
}

impl AppError {
    /// The HTTP status code this error maps to.
    pub open spec fn spec_status(self) -> u16 {
        match self {
            AppError::Database { .. } => 500,
            AppError::Serialization { .. } => 400,
            AppError::Validation { .. } => 400,
            AppError::NotFound { .. } => 404,
        }
    }

    /// The user-visible message this error maps to: internal detail is
    /// never passed through for store failures.
    pub open spec fn spec_message(self) -> Seq<char> {
        match self {
            AppError::Database { .. } => "Internal server error"@,
            AppError::Serialization { .. } => "Invalid JSON format"@,
            AppError::Validation { message } => message@,
            AppError::NotFound { resource } => resource@ + " not found"@,
        }
    }

    /// Decide the outward-facing response: a status code and a message.
    pub fn status_and_message(&self) -> (r: (u16, String))
        ensures
            r.0 == self.spec_status(),
            r.1@ == self.spec_message(),
    {
        match self {
            AppError::Database { .. } => (500, String::from_str("Internal server error")),
            AppError::Serialization { .. } => (400, String::from_str("Invalid JSON format")),
            AppError::Validation { message } => (400, message.clone()),
            AppError::NotFound { resource } => (404, resource.clone().concat(" not found")),
        }
    }
}

} // verus!
