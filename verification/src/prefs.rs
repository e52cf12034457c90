//! The persisted user-preference document.
//!
//! The front end stores one small document with a single flag. A missing or
//! malformed document is never an error: both fall back to the defaults. The
//! caller does the reading and parsing and reports what it got, if anything.

use vstd::prelude::*;

verus! {

/// The user-preference document: one flag controlling a UI memory behavior.
#[derive(Clone, Copy, Debug, PartialEq, Eq, Structural)]
pub struct UiState {
    pub crosshair_memory: bool,
}

impl Default for UiState {
    /// The defaults: every flag off.
    fn default() -> (r: UiState)
        ensures
            !r.crosshair_memory,
    {
        UiState { crosshair_memory: false }
    }
}

/// Resolve a load attempt: a document that was read and parsed is taken as
/// it is; a missing or malformed one yields the defaults, never an error.
pub fn ui_state_or_default(parsed: Option<UiState>) -> (r: UiState)
    ensures
        parsed matches Some(s) ==> r == s,
        parsed is None ==> !r.crosshair_memory,
{
    match parsed {
        Some(s) => s,
        None => UiState::default(),
    }
}

} // verus!
