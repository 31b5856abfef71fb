use vstd::prelude::*;

verus! {

/// Failures surfaced by the engine.
///
/// A failed lookup is reported to the caller; a store failure is reported as
/// an I/O failure. Neither ever aborts the process.
#[derive(Clone, Copy, Debug, PartialEq, Eq, Structural)]
pub enum EngineError {
    /// A value that a command expected to find in the history was absent.
    NotFound,
    /// The persistent favorite store could not be opened or refused the
    /// operation.
    Io,
}

} // verus!
