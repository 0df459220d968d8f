//! Errors of serialization.

use vstd::prelude::*;

verus! {

/// Why a serialization failed.
#[derive(Debug)]
pub enum RsonSerError {
    /// Writing the text failed.
    Io(String),
    /// The value refused to be serialized.
    Serde(String),
}

/// The result of a serialization step.
pub type RsonSerResult<T> = Result<T, RsonSerError>;

} // verus!
