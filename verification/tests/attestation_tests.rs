//! Tests for attestation report construction and binding.

use sha2::Digest;

use enclave_runner::attestation::create_report_data;
use enclave_runner::attestation::generate_simulator_report;
use enclave_runner::attestation::get_simulator_measurement;

#[test]
fn test_simulator_report_size() {
    let report = generate_simulator_report("session", "nonce", "hash").unwrap();
    assert_eq!(report.len(), 1184);
}

#[test]
fn test_measurement_format() {
    let measurement = get_simulator_measurement();
    assert_eq!(measurement.len(), 96); // 48 bytes in hex
}

#[test]
fn test_report_data_binding() {
    let report_data = create_report_data("session123", "nonce456", "hash789").unwrap();
    assert_eq!(report_data.len(), 64);

    // Same inputs should produce same report data
    let report_data2 = create_report_data("session123", "nonce456", "hash789").unwrap();
    assert_eq!(report_data, report_data2);

    // Different inputs should produce different report data
    let report_data3 = create_report_data("different", "nonce456", "hash789").unwrap();
    assert_ne!(report_data, report_data3);
}

#[test]
fn test_report_binding_session_nonce_hash() {
    let base = generate_simulator_report("s1", "n1", "h1").unwrap();
    let other_session = generate_simulator_report("s2", "n1", "h1").unwrap();
    let other_nonce = generate_simulator_report("s1", "n2", "h1").unwrap();
    let other_hash = generate_simulator_report("s1", "n1", "h2").unwrap();
    let again = generate_simulator_report("s1", "n1", "h1").unwrap();

    assert_ne!(&base[0x50..0x50 + 64], &other_session[0x50..0x50 + 64]);
    assert_ne!(&base[0x50..0x50 + 64], &other_nonce[0x50..0x50 + 64]);
    assert_ne!(&base[0x50..0x50 + 64], &other_hash[0x50..0x50 + 64]);
    assert_eq!(&base[0x50..0x50 + 64], &again[0x50..0x50 + 64]);
}

#[test]
fn test_report_layout() {
    let report = generate_simulator_report("s1", "n1", "h1").unwrap();
    // format version, little endian
    assert_eq!(&report[0..4], &[1u8, 0, 0, 0]);
    // guest policy flags, little endian
    assert_eq!(&report[4..8], &[0u8, 0, 3, 0]);
    // report data is the binding hash, zero padded
    let rd = create_report_data("s1", "n1", "h1").unwrap();
    assert_eq!(&report[0x50..0x50 + 64], rd.as_slice());
    assert_eq!(&rd[32..64], &[0u8; 32]);
    // measurement field holds the first 48 bytes of the sentinel
    let sentinel = get_simulator_measurement();
    assert_eq!(&report[0x170..0x170 + 48], &sentinel.as_bytes()[..48]);
    // signature field is the placeholder byte throughout
    assert!(report[0x2A0..0x2A0 + 512].iter().all(|b| *b == 0xAA));
}

#[test]
fn test_report_data_is_real_binding_hash() {
    // The first 32 bytes of report data are the digest of
    // session || "||" || nonce || "||" || hash.
    let rd = create_report_data("session123", "nonce456", "hash789").unwrap();
    let digest = sha2::Sha256::digest(b"session123||nonce456||hash789");
    assert_eq!(&rd[..32], digest.as_slice());
}
