//! The error type of every fallible operation of the library.

use vstd::prelude::*;

use crate::text::concat;

verus! {

/// Errors of the core system. Each kind carries the text of its cause.
#[derive(Debug, Clone)]
pub enum AgentError {
    Io(String),
    Serialization(String),
    TomlParsing(String),
    Configuration(String),
    Template(String),
    Storage(String),
    Platform(String),
    InvalidPath(String),
    FileNotFound(String),
    PermissionDenied(String),
    Cancelled,
    Internal(String),
}

/// The human-readable text of an error: its kind's label, then its cause.
pub open spec fn error_text(e: AgentError) -> Seq<char> {
    match e {
        AgentError::Io(m) => "I/O error: "@ + m@,
        AgentError::Serialization(m) => "Serialization error: "@ + m@,
        AgentError::TomlParsing(m) => "TOML parsing error: "@ + m@,
        AgentError::Configuration(m) => "Configuration error: "@ + m@,
        AgentError::Template(m) => "Template error: "@ + m@,
        AgentError::Storage(m) => "Storage error: "@ + m@,
        AgentError::Platform(m) => "Platform detection error: "@ + m@,
        AgentError::InvalidPath(m) => "Invalid path: "@ + m@,
        AgentError::FileNotFound(m) => "File not found: "@ + m@,
        AgentError::PermissionDenied(m) => "Permission denied: "@ + m@,
        AgentError::Cancelled => "Operation cancelled"@,
        AgentError::Internal(m) => "Internal error: "@ + m@,
    }
}

impl AgentError {
    /// A configuration error.
    pub fn config(msg: String) -> (r: Self)
        ensures
            r == AgentError::Configuration(msg),
    {
        AgentError::Configuration(msg)
    }

    /// A template error.
    pub fn template(msg: String) -> (r: Self)
        ensures
            r == AgentError::Template(msg),
    {
        AgentError::Template(msg)
    }

    /// A storage error.
    pub fn storage(msg: String) -> (r: Self)
        ensures
            r == AgentError::Storage(msg),
    {
        AgentError::Storage(msg)
    }

    /// A platform error.
    pub fn platform(msg: String) -> (r: Self)
        ensures
            r == AgentError::Platform(msg),
    {
        AgentError::Platform(msg)
    }

    /// An internal error.
    pub fn internal(msg: String) -> (r: Self)
        ensures
            r == AgentError::Internal(msg),
    {
        AgentError::Internal(msg)
    }

    /// The error's text, as it is shown to a user.
    pub fn to_string(&self) -> (r: String)
        ensures
            r@ == error_text(*self),
    {
        match self {
            AgentError::Io(m) => concat("I/O error: ", m.as_str()),
            AgentError::Serialization(m) => concat("Serialization error: ", m.as_str()),
            AgentError::TomlParsing(m) => concat("TOML parsing error: ", m.as_str()),
            AgentError::Configuration(m) => concat("Configuration error: ", m.as_str()),
            AgentError::Template(m) => concat("Template error: ", m.as_str()),
            AgentError::Storage(m) => concat("Storage error: ", m.as_str()),
            AgentError::Platform(m) => concat("Platform detection error: ", m.as_str()),
            AgentError::InvalidPath(m) => concat("Invalid path: ", m.as_str()),
            AgentError::FileNotFound(m) => concat("File not found: ", m.as_str()),
            AgentError::PermissionDenied(m) => concat("Permission denied: ", m.as_str()),
            AgentError::Cancelled => String::from_str("Operation cancelled"),
            AgentError::Internal(m) => concat("Internal error: ", m.as_str()),
        }
    }
}

} // verus!
