//! The error kinds that every operation of the library reports.

use vstd::prelude::*;

verus! {

/// The kind of a failure, without its description.
#[derive(Clone, Copy, Debug, PartialEq, Eq, Structural)]
pub enum ErrorKind {
    /// An authentication failure: a tag, a signature or a synthetic IV did not match.
    DecryptError,
    /// The key at hand is not the key that the data names, or a required key is absent.
    InvalidKey,
    /// A key id header is too short or carries a tag that is not known here.
    MalformedHeader,
    /// The key provider's answer lacks what was asked of it.
    RequestError,
    /// A cipher refused to encrypt.
    EncryptError,
    /// A state that the library itself should have made impossible.
    InvariantViolation,
}

/// A failure: its kind and a description for people.
#[derive(Clone, Debug)]
pub enum AlloyError {
    DecryptError { msg: String },
    InvalidKey { msg: String },
    MalformedHeader { msg: String },
    RequestError { msg: String },
    EncryptError { msg: String },
    InvariantViolation { msg: String },
}

impl AlloyError {
    /// The kind of this failure.
    pub open spec fn spec_kind(&self) -> ErrorKind {
        match self {
            AlloyError::DecryptError { .. } => ErrorKind::DecryptError,
            AlloyError::InvalidKey { .. } => ErrorKind::InvalidKey,
            AlloyError::MalformedHeader { .. } => ErrorKind::MalformedHeader,
            AlloyError::RequestError { .. } => ErrorKind::RequestError,
            AlloyError::EncryptError { .. } => ErrorKind::EncryptError,
            AlloyError::InvariantViolation { .. } => ErrorKind::InvariantViolation,
        }
    }

    /// The kind of this failure.
    #[verifier::when_used_as_spec(spec_kind)]
    pub fn kind(&self) -> (k: ErrorKind)
        ensures
            k == self.spec_kind(),
    {
        match self {
            AlloyError::DecryptError { .. } => ErrorKind::DecryptError,
            AlloyError::InvalidKey { .. } => ErrorKind::InvalidKey,
            AlloyError::MalformedHeader { .. } => ErrorKind::MalformedHeader,
            AlloyError::RequestError { .. } => ErrorKind::RequestError,
            AlloyError::EncryptError { .. } => ErrorKind::EncryptError,
            AlloyError::InvariantViolation { .. } => ErrorKind::InvariantViolation,
        }
    }
}

/// Whether a result says what `model` says: on success a value with the
/// modelled view, on failure an error of the modelled kind.
pub open spec fn result_is<T: View>(r: Result<T, AlloyError>, model: Result<T::V, ErrorKind>) -> bool {
    match model {
        Ok(value) => r matches Ok(v) && v@ == value,
        Err(kind) => r matches Err(e) && e.kind() == kind,
    }
}

} // verus!
