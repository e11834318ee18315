//! Core engine for managing AI-agent prompt workspaces: durable storage
//! decisions for a root directory (atomic writes, backups, trash) and a
//! registry of prompt templates rendered through handlebars.

pub mod config;
pub mod defaults;
pub mod error;
pub mod laws;
pub mod paths;
pub mod platform;
pub mod storage;
pub mod template;
pub mod text;

use vstd::prelude::*;

use crate::error::AgentError;

verus! {

/// Initialise the core system. Nothing in it can fail: platform detection
/// always yields a platform, so this reports success.
pub fn init() -> (r: Result<(), AgentError>)
    ensures
        r is Ok,
{
    Ok(())
}

} // verus!
