//! Errors of the engine's life cycle.

use vstd::prelude::*;

verus! {

#[derive(Debug, Clone)]
pub enum EngineError {
    /// An operation was asked for in a state of the engine that does not allow it.
    StateError,
    /// The windowing backend reported a failure.
    SdlError(String),
}

} // verus!
