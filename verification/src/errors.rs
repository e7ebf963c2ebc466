//! Structured errors for the command surface.
//!
//! Every internal failure that crosses the command boundary is one of these
//! variants, so callers can tell a storage failure apart from a feature that
//! is not implemented yet. The embedding application flattens them to
//! user-facing strings.

use vstd::prelude::*;

verus! {

/// Error returned by the store and the command surface.
#[derive(Debug, Clone)]
pub enum CommandError {
    /// The underlying database rejected a statement or the connection failed.
    /// The payload is the engine's own description of the failure.
    Storage(String),
    /// The command is a placeholder with no real implementation behind it.
    NotImplemented,
}

impl CommandError {
    /// User-facing description of the error.
    pub fn message(&self) -> (msg: String)
        ensures
            self is Storage ==> msg@ == self->Storage_0@,
            self is NotImplemented ==> msg@ == "not implemented"@,
    {
        match self {
            CommandError::Storage(s) => s.clone(),
            CommandError::NotImplemented => String::from_str("not implemented"),
        }
    }
}

} // verus!
