use vstd::prelude::*;

verus! {

/// The kinds of failure that relation analysis reports.
#[derive(Debug, Clone, Copy, PartialEq, Eq, Structural)]
pub enum ErrorKind {
    /// Malformed or unsupported syntax (table hints, named table functions, bad name arity).
    SyntaxException,
    /// A construct the analyzer does not implement (LATERAL, `TABLE(...)`).
    UnImplement,
    /// A table function called with an unsupported shape.
    BadArguments,
    /// A database, table or table function that does not exist.
    NotFound,
    /// An analyzer invariant was violated: a bug, not bad input.
    LogicalError,
    /// A column reference that matches no column.
    UnknownColumn,
    /// A column reference that matches more than one column.
    AmbiguousColumn,
    /// Derived tables nested deeper than the configured limit.
    TooDeeplyNested,
}

impl ErrorKind {
    /// Syntax the analyzer rejects, as opposed to missing objects or internal bugs.
    pub open spec fn is_unsupported(self) -> bool {
        self == ErrorKind::SyntaxException || self == ErrorKind::UnImplement
    }
}

/// An error with its kind and a message naming the offending construct.
#[derive(Debug, Clone)]
pub struct ErrorCode {
    pub kind: ErrorKind,
    pub message: String,
}

impl ErrorCode {
    pub fn new(kind: ErrorKind, message: &str) -> (r: ErrorCode)
        ensures
            r.kind == kind,
            r.message@ == message@,
    {
        ErrorCode { kind, message: message.to_owned() }
    }
}

} // verus!
