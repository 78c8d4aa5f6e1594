//! Failure vocabulary shared by every component of the pipeline.

use vstd::prelude::*;

verus! {

/// Everything that can go wrong while transforming and attesting.
///
/// Each internal failure maps to exactly one of these kinds and is
/// surfaced to the caller; nothing is retried internally.
#[derive(Clone, Copy, Debug, PartialEq, Eq, Structural)]
pub enum EnclaveError {
    /// The trusted-execution capability is absent or a provider call failed.
    EnclaveUnavailable,
    /// Extraction yielded nothing, or an internal transform invariant broke.
    TransformFailed,
    /// Attestation report generation failed.
    AttestationFailed,
    /// The raw context exceeds the configured byte ceiling.
    InputTooLarge,
    /// The configuration is invalid.
    InvalidConfig,
    /// The request is malformed.
    InvalidInput,
    /// Serialization of a value failed.
    SerializationFailed,
    /// Raw input leaked verbatim into the minimized output.
    BoundaryViolation,
    /// A generic security invariant was violated.
    SecurityInvariant,
}

impl EnclaveError {
    /// A short, stable description of the failure kind.
    pub fn message(&self) -> (r: &'static str)
        ensures
            r@.len() > 0,
    {
        proof {
            reveal_strlit("enclave unavailable");
            reveal_strlit("transformation failed");
            reveal_strlit("attestation failed");
            reveal_strlit("input too large");
            reveal_strlit("invalid configuration");
            reveal_strlit("invalid input");
            reveal_strlit("serialization failed");
            reveal_strlit("boundary violation");
            reveal_strlit("security invariant violated");
        }
        match self {
            EnclaveError::EnclaveUnavailable => "enclave unavailable",
            EnclaveError::TransformFailed => "transformation failed",
            EnclaveError::AttestationFailed => "attestation failed",
            EnclaveError::InputTooLarge => "input too large",
            EnclaveError::InvalidConfig => "invalid configuration",
            EnclaveError::InvalidInput => "invalid input",
            EnclaveError::SerializationFailed => "serialization failed",
            EnclaveError::BoundaryViolation => "boundary violation",
            EnclaveError::SecurityInvariant => "security invariant violated",
        }
    }
}

} // verus!
