//! The ways the application can fail.

use vstd::prelude::*;

verus! {

/// What went wrong.
#[derive(Debug, Clone, Copy, PartialEq, Eq, Structural)]
pub enum Errors {
    /// The application could not run to its end.
    AppError,
    /// The user interface could not run to its end.
    UiError,
    /// The data could not be saved.
    WriteError,
    /// The data could not be loaded.
    LoadError,
}

} // verus!
