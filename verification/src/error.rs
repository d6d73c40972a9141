use vstd::prelude::*;

verus! {

/// The closed taxonomy of validation failures. Every failure is terminal for
/// the call that produced it; no retry classification exists.
#[derive(Debug, Copy, Clone, PartialEq, Eq, Structural)]
pub enum ErrorKind {
    /// The raw input could not be decoded into a key-value object.
    DeserializationFailure,
    /// The mandatory `version` field is absent from the input.
    VersionAttributeMissing,
    /// The mandatory `type` field is absent from the input.
    TypeAttributeMissing,
    /// A field has the wrong shape, an attribute value failed its type check,
    /// a declared attribute is missing from the input, a category could not be
    /// resolved, or no entity-kind marker matched.
    InvalidValue,
    /// The input's version does not match the definition's version.
    ValueDefinitionMismatch,
    /// An attribute's declared data-type tag has no registered check.
    ValidationNotRegistered,
}

/// A validation failure: a kind from the closed taxonomy plus a descriptive
/// message.
#[derive(Debug)]
pub struct Error {
    pub kind: ErrorKind,
    pub message: String,
}

impl Error {
    pub fn new(kind: ErrorKind, message: String) -> (e: Error)
        ensures
            e.kind == kind,
            e.message == message,
    {
        Error { kind, message }
    }

    pub fn kind(&self) -> (k: ErrorKind)
        ensures
            k == self.kind,
    {
        self.kind
    }
}

} // verus!
