//! Errors of deserialization.

use vstd::prelude::*;

verus! {

/// Why a deserialization failed.
#[derive(Debug)]
pub enum RsonDeError {
    /// The document holds no statement.
    NoStatements,
    /// The document does not end in an expression.
    ReturnExprNotFound,
    /// The document's expressions do not fit together.
    Parse(String),
    /// A literal could not be read.
    Syn(String),
    /// The value does not have the shape the type asks for.
    Serde(String),
    /// No variable of that name is defined.
    VarNotFound(String),
}

/// The kinds of [`RsonDeError`], without their messages.
#[derive(Debug)]
pub enum DeErrorKind {
    NoStatements,
    ReturnExprNotFound,
    Parse,
    Syn,
    Serde,
    VarNotFound,
}

impl RsonDeError {
    /// The kind of the error.
    pub open spec fn kind(&self) -> DeErrorKind {
        match *self {
            RsonDeError::NoStatements => DeErrorKind::NoStatements,
            RsonDeError::ReturnExprNotFound => DeErrorKind::ReturnExprNotFound,
            RsonDeError::Parse(_) => DeErrorKind::Parse,
            RsonDeError::Syn(_) => DeErrorKind::Syn,
            RsonDeError::Serde(_) => DeErrorKind::Serde,
            RsonDeError::VarNotFound(_) => DeErrorKind::VarNotFound,
        }
    }
}

/// The result of a deserialization step.
pub type RsonDeResult<T> = Result<T, RsonDeError>;

} // verus!
