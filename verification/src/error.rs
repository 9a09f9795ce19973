//! The tagged error type shared by the engine's fallible operations.

use vstd::prelude::*;

verus! {

/// Why an engine operation failed.
///
/// `InvalidContext` is raised only while constructing a calculator from
/// configuration values; `CalculationError` means the astronomical results
/// for a date could not be turned into a well-ordered local schedule;
/// `CacheCorruption` marks a stored time string that does not parse back;
/// `Storage` wraps a failure of the backing SQLite store.
#[derive(Clone, Copy, Debug, PartialEq, Eq, Structural)]
pub enum EngineError {
    InvalidContext,
    CalculationError,
    CacheCorruption,
    Storage,
}

impl EngineError {
    /// A short human-readable label for the error kind.
    pub fn message(&self) -> (r: &'static str)
        ensures
            r@ == self.spec_message(),
    {
        match self {
            EngineError::InvalidContext => "invalid location, method, madhab or offset",
            EngineError::CalculationError => "prayer time calculation failed",
            EngineError::CacheCorruption => "cached prayer times are corrupt",
            EngineError::Storage => "prayer time store is unavailable",
        }
    }

    pub open spec fn spec_message(&self) -> Seq<char> {
        match self {
            EngineError::InvalidContext => "invalid location, method, madhab or offset"@,
            EngineError::CalculationError => "prayer time calculation failed"@,
            EngineError::CacheCorruption => "cached prayer times are corrupt"@,
            EngineError::Storage => "prayer time store is unavailable"@,
        }
    }
}

} // verus!
