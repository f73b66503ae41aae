//! The bridge's error taxonomy.
//!
//! Marshaling and registration errors are value-level results surfaced to
//! the direct caller. A blocking callback failure is fatal to the enclosing
//! build phase and carries diagnostic context: which registration name and
//! which entity failed. An async rejection affects only the awaiting task.

use vstd::prelude::*;

verus! {

/// Every failure the bridge itself can report.
#[derive(Debug, PartialEq, Eq)]
pub enum BridgeError {
    /// A host value of a kind with no native counterpart (a host function)
    /// was handed to the marshaler.
    MarshalUnsupportedKind,
    /// A registration used a name already taken in the same scope.
    RegistrationConflict { name: String },
    /// A handle was used after the generation of its target slot changed.
    StaleHandle,
    /// A blocking host callback raised an unrecoverable error; the build
    /// phase aborts with the registration name and entity that failed.
    CallbackFailure { decorator: String, entity: String },
    /// An async host computation settled as a failure; only the one
    /// awaiting operation is affected.
    CallbackRejection { message: String },
}

} // verus!
