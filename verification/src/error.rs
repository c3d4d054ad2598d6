//! The ways an operation is refused.

use vstd::prelude::*;

verus! {

/// Why an operation was refused. A refused operation changes nothing.
#[derive(Clone, Copy, Debug, PartialEq, Eq, Structural)]
pub enum StakeError {
    /// A record already stands at the derived address.
    AlreadyInitialized,
    /// A supplied account does not meet what the operation demands of it.
    ValidationFailed,
    /// The caller is not the owner named in the lock record.
    Unauthorized,
    /// The lock record is in the wrong custody phase for the operation.
    InvalidState,
    /// The token module rejected a delegated call.
    DelegatedCallFailed,
}

impl StakeError {
    /// A short description of the refusal.
    pub fn message(&self) -> (text: String)
        ensures
            text@ == (match *self {
                StakeError::AlreadyInitialized => "a record already stands at the derived address"@,
                StakeError::ValidationFailed => "a supplied account failed validation"@,
                StakeError::Unauthorized => "the caller does not own the lock record"@,
                StakeError::InvalidState => "the lock record is in the wrong custody phase"@,
                StakeError::DelegatedCallFailed => "the token module rejected a delegated call"@,
            }),
    {
        match self {
            StakeError::AlreadyInitialized => "a record already stands at the derived address".to_string(),
            StakeError::ValidationFailed => "a supplied account failed validation".to_string(),
            StakeError::Unauthorized => "the caller does not own the lock record".to_string(),
            StakeError::InvalidState => "the lock record is in the wrong custody phase".to_string(),
            StakeError::DelegatedCallFailed => "the token module rejected a delegated call".to_string(),
        }
    }
}

} // verus!
