//! The errors of the runtime.
use vstd::prelude::*;

use crate::types::error::TypesystemError;

verus! {

/// An error of the runtime.
#[derive(Debug, PartialEq, Eq)]
pub enum RuntimeError {
    /// Something that an engine does not support.
    Unimplemented { what: String },
    /// A failure of the type system.
    TypesystemError { source: TypesystemError },
}

} // verus!
