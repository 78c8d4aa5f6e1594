//! The execution coordinator: size validation, provider selection, and
//! the sequencing of transform and attestation into a response. Any
//! failure yields no partial response.

use vstd::prelude::*;
use vstd::utf8::encode_utf8;
use crate::attestation::generate_simulator_report;
use crate::attestation::get_simulator_measurement;
use crate::attestation::meas_chars;
use crate::attestation::simulator_report_view;
use crate::error::EnclaveError;
use crate::transform::compute_output_hash;
use crate::transform::has_entities;
use crate::transform::raw_views;
use crate::transform::spec_output_hash;
use crate::transform::transform_context;
use crate::transform::transform_leaks;
use crate::transform::transformed_view;
use crate::types::EnclaveRequest;
use crate::types::EnclaveResponse;
use crate::types::RedactionStats;

verus! {

/// The attestation capability active for an invocation, selected once
/// at startup and passed in explicitly.
#[derive(Clone, Copy, Debug, PartialEq, Eq, Structural)]
pub enum ProviderMode {
    /// Simulated attestation: real binding hash, sentinel measurement
    /// and signature.
    Simulated,
    /// Hardware-backed attestation through the platform device.
    HardwareBacked,
}

/// Probes the platform for hardware-backed isolation. The integration
/// does not exist yet, so the probe reports the capability as absent
/// rather than silently degrading.
pub fn check_sev_snp_available() -> (r: Result<(), EnclaveError>)
    ensures
        r == Err::<(), EnclaveError>(EnclaveError::EnclaveUnavailable),
{
    Err(EnclaveError::EnclaveUnavailable)
}

/// The byte length of one string, as its length method reports it.
pub open spec fn str_byte_len(s: Seq<char>) -> int {
    (encode_utf8(s).len() as usize) as int
}

/// The total byte length of the raw context strings.
pub open spec fn total_raw_len(rs: Seq<String>) -> int
    decreases rs.len(),
{
    if rs.len() == 0 {
        0
    } else {
        total_raw_len(rs.drop_last()) + str_byte_len(rs.last()@)
    }
}

proof fn lemma_total_raw_len_take_le(rs: Seq<String>, j: int)
    requires
        0 <= j <= rs.len(),
    ensures
        total_raw_len(rs.take(j)) <= total_raw_len(rs),
    decreases rs.len() - j,
{
    if j == rs.len() {
        assert(rs.take(j) =~= rs);
    } else {
        assert(rs.take(j + 1).drop_last() =~= rs.take(j));
        assert(total_raw_len(rs.take(j)) <= total_raw_len(rs.take(j + 1)));
        lemma_total_raw_len_take_le(rs, j + 1);
    }
}

/// Whether the total raw context size is within the ceiling.
fn raw_size_within(raw: &Vec<String>, max: usize) -> (r: bool)
    ensures
        r == (total_raw_len(raw@) <= max),
{
    let mut acc: usize = 0;
    let mut i: usize = 0;
    proof {
        assert(raw@.take(0) =~= Seq::<String>::empty());
    }
    while i < raw.len()
        invariant
            i <= raw@.len(),
            acc <= max,
            acc == total_raw_len(raw@.take(i as int)),
        decreases raw@.len() - i,
    {
        let l = raw[i].as_str().len();
        proof {
            assert(raw@.take(i as int + 1).drop_last() =~= raw@.take(i as int));
            assert(raw@.take(i as int + 1).last() == raw@[i as int]);
        }
        if l > max - acc {
            proof {
                lemma_total_raw_len_take_le(raw@, i as int + 1);
            }
            return false;
        }
        acc = acc + l;
        i = i + 1;
    }
    proof {
        assert(raw@.take(raw@.len() as int) =~= raw@);
    }
    true
}

/// A response of the simulated provider is correct for a request when
/// every field is the one the pipeline specifies for its raw context,
/// session, and nonce.
pub open spec fn simulated_response_ok(
    resp: EnclaveResponse,
    session: Seq<char>,
    nonce: Seq<char>,
    raws: Seq<Seq<char>>,
) -> bool {
    &&& resp.transformed_context@ == transformed_view(raws)
    &&& resp.output_hash@ == spec_output_hash(transformed_view(raws))
    &&& resp.attestation_report@ == simulator_report_view(
        session,
        nonce,
        spec_output_hash(transformed_view(raws)),
    )
    &&& resp.redaction_stats.entity_count as nat == transformed_view(raws).entities.len()
    &&& resp.redaction_stats.relation_count as nat == transformed_view(raws).relations.len()
    &&& resp.redaction_stats.identifiers_replaced as nat == transformed_view(raws).entities.len()
    &&& resp.measurement@ == meas_chars()
    &&& resp.signature is None
}

/// Determinism: any two correct simulated responses for the same raw
/// context, session, and nonce agree on the minimized context, the
/// output hash, and the attestation report. Since a successful
/// `transform` always returns a correct response, repeated calls on an
/// identical request reproduce an identical result.
pub proof fn lemma_transform_deterministic(
    r1: EnclaveResponse,
    r2: EnclaveResponse,
    session: Seq<char>,
    nonce: Seq<char>,
    raws: Seq<Seq<char>>,
)
    requires
        simulated_response_ok(r1, session, nonce, raws),
        simulated_response_ok(r2, session, nonce, raws),
    ensures
        r1.transformed_context@ == r2.transformed_context@,
        r1.output_hash@ == r2.output_hash@,
        r1.attestation_report@ == r2.attestation_report@,
        r1.measurement@ == r2.measurement@,
        r1.redaction_stats == r2.redaction_stats,
{
}

/// Runs the whole simulated pipeline: transform, hash, report, stats.
fn execute_in_simulator(request: &EnclaveRequest) -> (r: Result<EnclaveResponse, EnclaveError>)
    ensures
        match r {
            Ok(resp) => has_entities(raw_views(request.raw_context@)) && !transform_leaks(
                raw_views(request.raw_context@),
            ) && simulated_response_ok(
                resp,
                request.session_id@,
                request.nonce@,
                raw_views(request.raw_context@),
            ),
            Err(e) => (e == EnclaveError::TransformFailed && !has_entities(
                raw_views(request.raw_context@),
            )) || (e == EnclaveError::BoundaryViolation && has_entities(
                raw_views(request.raw_context@),
            ) && transform_leaks(raw_views(request.raw_context@))),
        },
{
    let transformed_context = match transform_context(&request.raw_context, &request.policy) {
        Ok(c) => c,
        Err(e) => {
            return Err(e);
        },
    };
    let output_hash = match compute_output_hash(&transformed_context) {
        Ok(h) => h,
        Err(e) => {
            return Err(e);
        },
    };
    let attestation_report = match generate_simulator_report(
        request.session_id.as_str(),
        request.nonce.as_str(),
        output_hash.as_str(),
    ) {
        Ok(v) => v,
        Err(e) => {
            return Err(e);
        },
    };
    let measurement = get_simulator_measurement();
    let redaction_stats = RedactionStats {
        entity_count: transformed_context.entities.len(),
        relation_count: transformed_context.relations.len(),
        identifiers_replaced: transformed_context.entities.len(),
    };
    Ok(
        EnclaveResponse {
            transformed_context,
            output_hash,
            attestation_report,
            redaction_stats,
            measurement,
            signature: Option::None,
        },
    )
}

/// Executes the transformation under the selected provider. The
/// hardware-backed path is not integrated and fails with
/// `EnclaveUnavailable` rather than degrading to simulation.
pub fn execute_in_enclave(request: &EnclaveRequest, mode: ProviderMode) -> (r: Result<
    EnclaveResponse,
    EnclaveError,
>)
    ensures
        mode == ProviderMode::HardwareBacked ==> (r matches Err(e) && e
            == EnclaveError::EnclaveUnavailable),
        mode == ProviderMode::Simulated ==> match r {
            Ok(resp) => has_entities(raw_views(request.raw_context@)) && !transform_leaks(
                raw_views(request.raw_context@),
            ) && simulated_response_ok(
                resp,
                request.session_id@,
                request.nonce@,
                raw_views(request.raw_context@),
            ),
            Err(e) => (e == EnclaveError::TransformFailed && !has_entities(
                raw_views(request.raw_context@),
            )) || (e == EnclaveError::BoundaryViolation && has_entities(
                raw_views(request.raw_context@),
            ) && transform_leaks(raw_views(request.raw_context@))),
        },
{
    match mode {
        ProviderMode::Simulated => execute_in_simulator(request),
        ProviderMode::HardwareBacked => Err(EnclaveError::EnclaveUnavailable),
    }
}

/// Validates the request size against the policy ceiling and, within it,
/// executes the transformation under the selected provider. An oversized
/// request is rejected with `InputTooLarge` before any extraction work.
pub fn transform(request: &EnclaveRequest, mode: ProviderMode) -> (r: Result<
    EnclaveResponse,
    EnclaveError,
>)
    ensures
        total_raw_len(request.raw_context@) > request.policy.max_input_size ==> (r matches Err(e)
            && e == EnclaveError::InputTooLarge),
        total_raw_len(request.raw_context@) <= request.policy.max_input_size ==> {
            &&& mode == ProviderMode::HardwareBacked ==> (r matches Err(e) && e
                == EnclaveError::EnclaveUnavailable)
            &&& mode == ProviderMode::Simulated ==> match r {
                Ok(resp) => has_entities(raw_views(request.raw_context@)) && !transform_leaks(
                    raw_views(request.raw_context@),
                ) && simulated_response_ok(
                    resp,
                    request.session_id@,
                    request.nonce@,
                    raw_views(request.raw_context@),
                ),
                Err(e) => (e == EnclaveError::TransformFailed && !has_entities(
                    raw_views(request.raw_context@),
                )) || (e == EnclaveError::BoundaryViolation && has_entities(
                    raw_views(request.raw_context@),
                ) && transform_leaks(raw_views(request.raw_context@))),
            }
        },
{
    if !raw_size_within(&request.raw_context, request.policy.max_input_size) {
        return Err(EnclaveError::InputTooLarge);
    }
    execute_in_enclave(request, mode)
}

} // verus!
