//! Tests for the execution coordinator: provider selection, the size
//! guard, and end-to-end execution in simulated mode.

use enclave_runner::check_availability;
use enclave_runner::check_sev_snp_available;
use enclave_runner::enclave::ProviderMode;
use enclave_runner::error::EnclaveError;
use enclave_runner::execute_in_enclave;
use enclave_runner::get_measurement;
use enclave_runner::initialize;
use enclave_runner::transform;
use enclave_runner::types::EnclaveRequest;
use enclave_runner::types::MaskingPolicy;

fn request(raw: Vec<String>, session: &str, nonce: &str) -> EnclaveRequest {
    EnclaveRequest {
        raw_context: raw,
        task_hint: Some("Analyze".to_string()),
        policy: MaskingPolicy::default(),
        session_id: session.to_string(),
        nonce: nonce.to_string(),
    }
}

#[test]
fn test_simulator_execution() {
    let req = request(
        vec!["Test data with Alice and Bob".to_string()],
        "test123",
        "nonce456",
    );
    let response = execute_in_enclave(&req, ProviderMode::Simulated).unwrap();
    assert!(!response.transformed_context.entities.is_empty());
    assert!(!response.output_hash.is_empty());
    assert_eq!(response.attestation_report.len(), 1184); // SEV-SNP report size
}

#[test]
fn test_simulator_transform() {
    let req = request(
        vec!["John Doe signed a contract".to_string()],
        "test_session",
        "test_nonce",
    );
    let response = transform(&req, ProviderMode::Simulated).unwrap();
    assert!(!response.transformed_context.entities.is_empty());
    assert!(!response.output_hash.is_empty());
}

#[test]
fn test_transform_deterministic() {
    let req = request(
        vec!["Alice met Bob".to_string()],
        "session",
        "nonce",
    );
    let r1 = transform(&req, ProviderMode::Simulated).unwrap();
    let r2 = transform(&req, ProviderMode::Simulated).unwrap();
    assert_eq!(r1.output_hash, r2.output_hash);
    assert_eq!(r1.attestation_report, r2.attestation_report);
}

#[test]
fn test_input_too_large() {
    // One byte over the default 10 MiB ceiling.
    let big = "a".repeat(10_485_761);
    let req = request(vec![big], "session", "nonce");
    let r = transform(&req, ProviderMode::Simulated);
    assert!(matches!(r, Err(EnclaveError::InputTooLarge)));
}

#[test]
fn test_input_at_ceiling_is_processed() {
    // Exactly at a configured ceiling the size guard lets the request
    // through; one byte over, it rejects.
    let mut req = request(vec!["Alice met Bob".to_string()], "session", "nonce");
    req.policy.max_input_size = 13;
    assert!(transform(&req, ProviderMode::Simulated).is_ok());
    req.policy.max_input_size = 12;
    assert!(matches!(
        transform(&req, ProviderMode::Simulated),
        Err(EnclaveError::InputTooLarge)
    ));
}

#[test]
fn test_response_stats_count_only() {
    let req = request(vec!["Alice met Bob".to_string()], "s", "n");
    let response = transform(&req, ProviderMode::Simulated).unwrap();
    assert_eq!(response.redaction_stats.entity_count, 2);
    assert_eq!(response.redaction_stats.relation_count, 1);
    assert_eq!(response.redaction_stats.identifiers_replaced, 2);
    assert_eq!(response.measurement.len(), 96);
    assert!(response.signature.is_none());
}

#[test]
fn test_initialize_modes() {
    assert_eq!(initialize(ProviderMode::Simulated).unwrap(), "simulator");
    assert!(matches!(
        initialize(ProviderMode::HardwareBacked),
        Err(EnclaveError::EnclaveUnavailable)
    ));
}

#[test]
fn test_availability_modes() {
    assert!(check_availability(ProviderMode::Simulated));
    assert!(!check_availability(ProviderMode::HardwareBacked));
    assert!(matches!(
        check_sev_snp_available(),
        Err(EnclaveError::EnclaveUnavailable)
    ));
}

#[test]
fn test_measurement_modes() {
    let m = get_measurement(ProviderMode::Simulated).unwrap();
    assert!(m.starts_with("simulator_measurement_"));
    assert!(matches!(
        get_measurement(ProviderMode::HardwareBacked),
        Err(EnclaveError::AttestationFailed)
    ));
    assert!(matches!(
        enclave_runner::attestation::get_current_measurement(),
        Err(EnclaveError::AttestationFailed)
    ));
    assert!(matches!(
        enclave_runner::attestation::generate_sev_snp_report("s", "n", "h"),
        Err(EnclaveError::EnclaveUnavailable)
    ));
}

#[test]
fn test_hardware_mode_never_degrades() {
    let req = request(vec!["Alice met Bob".to_string()], "s", "n");
    let r = execute_in_enclave(&req, ProviderMode::HardwareBacked);
    assert!(matches!(r, Err(EnclaveError::EnclaveUnavailable)));
}

#[test]
fn test_default_request() {
    let req = EnclaveRequest::default();
    assert!(req.raw_context.is_empty());
    assert!(req.task_hint.is_none());
    assert_eq!(req.policy.max_input_size, 10 * 1024 * 1024);
    assert_eq!(req.policy.version, "v1");
}
