//! Failures of the HTTP server.

use vstd::prelude::*;

verus! {

/// Why the server stopped.
#[derive(Clone, Copy, Debug, PartialEq, Eq, Structural)]
pub enum EngineError {
    Serve,
    Certificate,
}

impl EngineError {
    /// The text reported for the failure.
    pub fn message(&self) -> (m: &'static str)
        ensures
            *self == EngineError::Serve ==> m@ == "error starting server"@,
            *self == EngineError::Certificate ==> m@ == "error loading certificate"@,
    {
        match self {
            EngineError::Serve => "error starting server",
            EngineError::Certificate => "error loading certificate",
        }
    }
}

} // verus!
