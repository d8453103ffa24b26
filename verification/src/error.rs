//! Error taxonomy for the evidence pipeline.

use vstd::prelude::*;

verus! {

/// The kinds of failure the pipeline surfaces to its callers.
#[derive(Debug, Clone, PartialEq, Eq)]
pub enum ImmutableEncryptionError {
    Crypto(String),
    Blockchain(String),
    Storage(String),
    Verification(String),
    Config(String),
    Network(String),
    Hardware(String),
    Video(String),
    InvalidSequence(u64),
    HashChainViolation,
    InsufficientConfirmations { chain: String, required: u64, actual: u64 },
    FrameNotFound { frame_id: String },
    QuantumCryptoUnavailable,
    AttestationFailed(String),
    EvidenceTampered { details: String },
    LegalComplianceFailed(String),
    PermissionDenied(String),
    RateLimitExceeded(String),
    ResourceUnavailable(String),
    Internal(String),
}

impl ImmutableEncryptionError {
    pub fn crypto(msg: &str) -> (r: Self)
        ensures
            r matches ImmutableEncryptionError::Crypto(m) && m@ == msg@,
    {
        ImmutableEncryptionError::Crypto(msg.to_owned())
    }

    pub fn blockchain(msg: &str) -> (r: Self)
        ensures
            r matches ImmutableEncryptionError::Blockchain(m) && m@ == msg@,
    {
        ImmutableEncryptionError::Blockchain(msg.to_owned())
    }

    pub fn storage(msg: &str) -> (r: Self)
        ensures
            r matches ImmutableEncryptionError::Storage(m) && m@ == msg@,
    {
        ImmutableEncryptionError::Storage(msg.to_owned())
    }

    pub fn verification(msg: &str) -> (r: Self)
        ensures
            r matches ImmutableEncryptionError::Verification(m) && m@ == msg@,
    {
        ImmutableEncryptionError::Verification(msg.to_owned())
    }

    pub fn config(msg: &str) -> (r: Self)
        ensures
            r matches ImmutableEncryptionError::Config(m) && m@ == msg@,
    {
        ImmutableEncryptionError::Config(msg.to_owned())
    }

    pub fn network(msg: &str) -> (r: Self)
        ensures
            r matches ImmutableEncryptionError::Network(m) && m@ == msg@,
    {
        ImmutableEncryptionError::Network(msg.to_owned())
    }

    pub fn hardware(msg: &str) -> (r: Self)
        ensures
            r matches ImmutableEncryptionError::Hardware(m) && m@ == msg@,
    {
        ImmutableEncryptionError::Hardware(msg.to_owned())
    }

    pub fn video(msg: &str) -> (r: Self)
        ensures
            r matches ImmutableEncryptionError::Video(m) && m@ == msg@,
    {
        ImmutableEncryptionError::Video(msg.to_owned())
    }

    pub fn internal(msg: &str) -> (r: Self)
        ensures
            r matches ImmutableEncryptionError::Internal(m) && m@ == msg@,
    {
        ImmutableEncryptionError::Internal(msg.to_owned())
    }

    /// A human-readable description of the error.
    pub fn message(&self) -> (r: String)
        ensures
            r@ == self.detail(),
    {
        match self {
            ImmutableEncryptionError::Crypto(m) => m.clone(),
            ImmutableEncryptionError::Blockchain(m) => m.clone(),
            ImmutableEncryptionError::Storage(m) => m.clone(),
            ImmutableEncryptionError::Verification(m) => m.clone(),
            ImmutableEncryptionError::Config(m) => m.clone(),
            ImmutableEncryptionError::Network(m) => m.clone(),
            ImmutableEncryptionError::Hardware(m) => m.clone(),
            ImmutableEncryptionError::Video(m) => m.clone(),
            ImmutableEncryptionError::InvalidSequence(_) => String::from_str(
                "invalid frame sequence",
            ),
            ImmutableEncryptionError::HashChainViolation => String::from_str(
                "hash chain integrity violation",
            ),
            ImmutableEncryptionError::InsufficientConfirmations { chain, required: _, actual: _ } => {
                let mut m = String::from_str("insufficient blockchain confirmations on ");
                m.append(chain.as_str());
                m
            },
            ImmutableEncryptionError::FrameNotFound { frame_id } => {
                let mut m = String::from_str("frame not found: ");
                m.append(frame_id.as_str());
                m
            },
            ImmutableEncryptionError::QuantumCryptoUnavailable => String::from_str(
                "quantum cryptography not available",
            ),
            ImmutableEncryptionError::AttestationFailed(m) => m.clone(),
            ImmutableEncryptionError::EvidenceTampered { details } => details.clone(),
            ImmutableEncryptionError::LegalComplianceFailed(m) => m.clone(),
            ImmutableEncryptionError::PermissionDenied(m) => m.clone(),
            ImmutableEncryptionError::RateLimitExceeded(m) => m.clone(),
            ImmutableEncryptionError::ResourceUnavailable(m) => m.clone(),
            ImmutableEncryptionError::Internal(m) => m.clone(),
        }
    }

    /// The detail string carried by any variant.
    pub open spec fn detail(&self) -> Seq<char> {
        match self {
            ImmutableEncryptionError::Crypto(m) => m@,
            ImmutableEncryptionError::Blockchain(m) => m@,
            ImmutableEncryptionError::Storage(m) => m@,
            ImmutableEncryptionError::Verification(m) => m@,
            ImmutableEncryptionError::Config(m) => m@,
            ImmutableEncryptionError::Network(m) => m@,
            ImmutableEncryptionError::Hardware(m) => m@,
            ImmutableEncryptionError::Video(m) => m@,
            ImmutableEncryptionError::InvalidSequence(_) => "invalid frame sequence"@,
            ImmutableEncryptionError::HashChainViolation => "hash chain integrity violation"@,
            ImmutableEncryptionError::InsufficientConfirmations { chain, required: _, actual: _ } =>
                "insufficient blockchain confirmations on "@ + chain@,
            ImmutableEncryptionError::FrameNotFound { frame_id } => "frame not found: "@
                + frame_id@,
            ImmutableEncryptionError::QuantumCryptoUnavailable =>
                "quantum cryptography not available"@,
            ImmutableEncryptionError::AttestationFailed(m) => m@,
            ImmutableEncryptionError::EvidenceTampered { details } => details@,
            ImmutableEncryptionError::LegalComplianceFailed(m) => m@,
            ImmutableEncryptionError::PermissionDenied(m) => m@,
            ImmutableEncryptionError::RateLimitExceeded(m) => m@,
            ImmutableEncryptionError::ResourceUnavailable(m) => m@,
            ImmutableEncryptionError::Internal(m) => m@,
        }
    }
}

} // verus!
