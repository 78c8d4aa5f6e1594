//! Attestation report construction: the simulated provider builds the
//! full fixed-size report with a real binding hash and clearly marked
//! sentinel measurement and signature; the hardware-backed provider is
//! not yet integrated and fails rather than degrading to simulation.

use vstd::prelude::*;
use vstd::utf8::encode_utf8;
use crate::error::EnclaveError;
use crate::hashing::sha256;
use crate::hashing::sha256_of;
use crate::text::str_chars;
use crate::transform::char_bytes;
use crate::transform::chars_to_bytes;

verus! {

/// The publicly known sentinel measurement of simulated runs: 96
/// characters, never mistakable for a hardware measurement.
pub open spec fn meas_chars() -> Seq<char> {
    "simulator_measurement_00000000000000000000000000000000000000000000000000000000000000000000000000"@
}

/// The fixed sentinel measurement that marks a simulated run.
pub fn get_simulator_measurement() -> (r: String)
    ensures
        r@ == meas_chars(),
        r@.len() == 96,
{
    proof {
        reveal_strlit(
            "simulator_measurement_00000000000000000000000000000000000000000000000000000000000000000000000000",
        );
    }
    String::from_str(
        "simulator_measurement_00000000000000000000000000000000000000000000000000000000000000000000000000",
    )
}

/// A sequence of `n` equal bytes.
pub open spec fn byte_run(b: u8, n: nat) -> Seq<u8> {
    Seq::new(n, |i: int| b)
}

/// The bytes whose hash binds a session to its output:
/// `session || "||" || nonce || "||" || output_hash`, UTF-8 encoded.
pub open spec fn binding_msg(session: Seq<char>, nonce: Seq<char>, output_hash: Seq<char>) -> Seq<
    u8,
> {
    encode_utf8(session) + seq![124u8, 124u8] + encode_utf8(nonce) + seq![124u8, 124u8]
        + encode_utf8(output_hash)
}

/// The 64-byte report-data field: the binding hash, zero padded.
pub open spec fn report_data_view(
    session: Seq<char>,
    nonce: Seq<char>,
    output_hash: Seq<char>,
) -> Seq<u8> {
    sha256_of(binding_msg(session, nonce, output_hash)) + byte_run(0u8, 32)
}

/// Creates the 64-byte report data binding session, nonce, and output
/// hash. Identical arguments always reproduce identical report data.
pub fn create_report_data(session_id: &str, nonce: &str, output_hash: &str) -> (r: Result<
    Vec<u8>,
    EnclaveError,
>)
    ensures
        r is Ok,
        r matches Ok(v) ==> v@ == report_data_view(session_id@, nonce@, output_hash@) && v@.len()
            == 64,
{
    let mut msg: Vec<u8> = Vec::new();
    let mut part = session_id.as_bytes_vec();
    msg.append(&mut part);
    msg.push(124u8);
    msg.push(124u8);
    let mut part = nonce.as_bytes_vec();
    msg.append(&mut part);
    msg.push(124u8);
    msg.push(124u8);
    let mut part = output_hash.as_bytes_vec();
    msg.append(&mut part);
    proof {
        assert(msg@ =~= binding_msg(session_id@, nonce@, output_hash@));
    }
    let mut rd = sha256(&msg);
    let mut i: usize = 0;
    let ghost digest = rd@;
    while i < 32
        invariant
            i <= 32,
            rd@ =~= digest + byte_run(0u8, i as nat),
        decreases 32 - i,
    {
        rd.push(0u8);
        i = i + 1;
        proof {
            assert(rd@ =~= digest + byte_run(0u8, i as nat));
        }
    }
    proof {
        assert(rd@ =~= report_data_view(session_id@, nonce@, output_hash@));
    }
    Ok(rd)
}

/// The full simulated report: version, guest policy, binding hash at its
/// fixed offset, the sentinel measurement, and a constant-byte signature.
pub open spec fn simulator_report_view(
    session: Seq<char>,
    nonce: Seq<char>,
    output_hash: Seq<char>,
) -> Seq<u8> {
    seq![1u8, 0u8, 0u8, 0u8] + seq![0u8, 0u8, 3u8, 0u8] + byte_run(0u8, 72) + report_data_view(
        session,
        nonce,
        output_hash,
    ) + byte_run(0u8, 224) + char_bytes(meas_chars()).take(48) + byte_run(0u8, 256) + byte_run(
        0xAAu8,
        512,
    )
}

/// Appends `n` copies of byte `b`.
fn push_byte_run(v: &mut Vec<u8>, b: u8, n: usize)
    ensures
        final(v)@ == old(v)@ + byte_run(b, n as nat),
{
    let mut i: usize = 0;
    while i < n
        invariant
            i <= n,
            v@ =~= old(v)@ + byte_run(b, i as nat),
        decreases n - i,
    {
        v.push(b);
        i = i + 1;
        proof {
            assert(v@ =~= old(v)@ + byte_run(b, i as nat));
        }
    }
}

/// Generates the simulated attestation report: 1184 bytes with the
/// binding hash of (session, nonce, output hash) in the report-data
/// field, the sentinel measurement, and a placeholder signature.
pub fn generate_simulator_report(session_id: &str, nonce: &str, output_hash: &str) -> (r: Result<
    Vec<u8>,
    EnclaveError,
>)
    ensures
        r is Ok,
        r matches Ok(v) ==> v@ == simulator_report_view(session_id@, nonce@, output_hash@)
            && v@.len() == 1184,
{
    let mut report: Vec<u8> = Vec::new();
    report.push(1u8);
    report.push(0u8);
    report.push(0u8);
    report.push(0u8);
    report.push(0u8);
    report.push(0u8);
    report.push(3u8);
    report.push(0u8);
    push_byte_run(&mut report, 0u8, 72);
    let mut rd = match create_report_data(session_id, nonce, output_hash) {
        Ok(v) => v,
        Err(e) => {
            return Err(e);
        },
    };
    report.append(&mut rd);
    push_byte_run(&mut report, 0u8, 224);
    let measurement = get_simulator_measurement();
    let mc = str_chars(measurement.as_str());
    let mut mb = chars_to_bytes(&mc);
    mb.truncate(48);
    report.append(&mut mb);
    push_byte_run(&mut report, 0u8, 256);
    push_byte_run(&mut report, 0xAAu8, 512);
    proof {
        assert(report@ =~= simulator_report_view(session_id@, nonce@, output_hash@));
        reveal_strlit(
            "simulator_measurement_00000000000000000000000000000000000000000000000000000000000000000000000000",
        );
        assert(report@.len() == 1184);
    }
    Ok(report)
}

/// The current hardware measurement. Hardware-backed attestation is not
/// integrated: the call fails rather than inventing a measurement.
pub fn get_current_measurement() -> (r: Result<String, EnclaveError>)
    ensures
        r == Err::<String, EnclaveError>(EnclaveError::AttestationFailed),
{
    Err(EnclaveError::AttestationFailed)
}

/// A hardware-backed attestation report. The platform integration does
/// not exist yet, so the capability is unavailable: the call fails with
/// that kind rather than degrading to a simulated report.
pub fn generate_sev_snp_report(session_id: &str, nonce: &str, output_hash: &str) -> (r: Result<
    Vec<u8>,
    EnclaveError,
>)
    ensures
        r == Err::<Vec<u8>, EnclaveError>(EnclaveError::EnclaveUnavailable),
{
    Err(EnclaveError::EnclaveUnavailable)
}

} // verus!
