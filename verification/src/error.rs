//! The failure kinds that the signer reports.
use vstd::prelude::*;

verus! {

/// Why an operation of the signer failed.
#[derive(Clone, Copy, Debug, PartialEq, Eq, Structural)]
pub enum SignerError {
    /// The backend could not be reached or timed out; worth another try.
    TransientBackend,
    /// The backend refused the request for good.
    PermanentBackend,
    /// The caller passed a value of the wrong shape.
    InvalidInput,
    /// No recovery candidate yields the expected public key.
    Integrity,
}

/// The text that stands for each failure kind.
pub open spec fn message_of(e: SignerError) -> Seq<char> {
    match e {
        SignerError::TransientBackend => "transient backend error"@,
        SignerError::PermanentBackend => "permanent backend error"@,
        SignerError::InvalidInput => "invalid input"@,
        SignerError::Integrity => "integrity error: no recovery id matches the public key"@,
    }
}

impl SignerError {
    /// Only a transient backend failure may be retried.
    pub open spec fn retryable(self) -> bool {
        self == SignerError::TransientBackend
    }

    pub fn is_retryable(&self) -> (b: bool)
        ensures
            b == self.retryable(),
    {
        match self {
            SignerError::TransientBackend => true,
            _ => false,
        }
    }

    /// A human-readable rendering of the failure.
    pub fn message(&self) -> (s: String)
        ensures
            s@ == message_of(*self),
    {
        match self {
            SignerError::TransientBackend => "transient backend error".to_string(),
            SignerError::PermanentBackend => "permanent backend error".to_string(),
            SignerError::InvalidInput => "invalid input".to_string(),
            SignerError::Integrity => "integrity error: no recovery id matches the public key".to_string(),
        }
    }
}

} // verus!
