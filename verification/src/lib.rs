//! Data-minimization transformation with attestation.
//!
//! The library extracts entities and relations from sensitive raw context,
//! verifies that no raw token leaks into the minimized output, hashes a
//! canonical encoding of the result, and binds that hash together with a
//! session id and a freshness nonce into an attestation report.

use vstd::prelude::*;

pub mod error;
pub mod text;
pub mod types;
pub mod codec;
pub mod sorting;
pub mod hashing;
pub mod transform;
pub mod attestation;
pub mod enclave;

pub use crate::enclave::ProviderMode;
pub use crate::enclave::check_sev_snp_available;
pub use crate::enclave::execute_in_enclave;
pub use crate::enclave::transform;
pub use crate::error::EnclaveError;
pub use crate::types::EnclaveRequest;
pub use crate::types::EnclaveResponse;

verus! {

/// Initializes the runner for the selected provider: checks the
/// capability once and reports the active mode name. Selecting the
/// hardware-backed provider fails while its integration is absent.
pub fn initialize(mode: ProviderMode) -> (r: Result<String, EnclaveError>)
    ensures
        mode == ProviderMode::Simulated ==> (r matches Ok(s) && s@ == "simulator"@),
        mode == ProviderMode::HardwareBacked ==> (r matches Err(e) && e
            == EnclaveError::EnclaveUnavailable),
{
    match mode {
        ProviderMode::Simulated => Ok(String::from_str("simulator")),
        ProviderMode::HardwareBacked => {
            match check_sev_snp_available() {
                Ok(u) => Ok(String::from_str("sev-snp")),
                Err(e) => Err(e),
            }
        },
    }
}

/// The code-identity measurement of the selected provider: the publicly
/// known sentinel for simulated runs; unavailable for the hardware
/// provider while its integration is absent.
pub fn get_measurement(mode: ProviderMode) -> (r: Result<String, EnclaveError>)
    ensures
        mode == ProviderMode::Simulated ==> (r matches Ok(s) && s@
            == crate::attestation::meas_chars() && s@.len() == 96),
        mode == ProviderMode::HardwareBacked ==> (r matches Err(e) && e
            == EnclaveError::AttestationFailed),
{
    match mode {
        ProviderMode::Simulated => Ok(crate::attestation::get_simulator_measurement()),
        ProviderMode::HardwareBacked => crate::attestation::get_current_measurement(),
    }
}

/// Whether the selected provider is usable: always for the simulator,
/// never for the hardware provider while its integration is absent.
pub fn check_availability(mode: ProviderMode) -> (r: bool)
    ensures
        r == (mode == ProviderMode::Simulated),
{
    match mode {
        ProviderMode::Simulated => true,
        ProviderMode::HardwareBacked => check_sev_snp_available().is_ok(),
    }
}

} // verus!
