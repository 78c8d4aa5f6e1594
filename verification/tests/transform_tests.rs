//! Tests for the transform engine: extraction, relations, the boundary
//! gate, canonicalization, and the output hash.

use enclave_runner::error::EnclaveError;
use enclave_runner::transform::build_relations;
use enclave_runner::transform::compute_output_hash;
use enclave_runner::transform::extract_entities;
use enclave_runner::transform::transform_context;
use enclave_runner::transform::verify_boundary;
use enclave_runner::types::AttrValue;
use enclave_runner::types::Entity;
use enclave_runner::types::MaskingPolicy;
use enclave_runner::types::Relation;
use enclave_runner::types::TransformedContext;

fn empty_context() -> TransformedContext {
    TransformedContext {
        schema_version: "v1".to_string(),
        entities: vec![],
        relations: vec![],
        constraints: None,
        metadata: None,
    }
}

#[test]
fn test_extract_entities() {
    let raw = vec!["Alice met Bob".to_string()];
    let entities = extract_entities(&raw).unwrap();
    assert_eq!(entities.len(), 2);
    assert_eq!(entities[0].role, "Actor");
}

#[test]
fn test_compute_hash_deterministic() {
    let context = empty_context();

    let hash1 = compute_output_hash(&context).unwrap();
    let hash2 = compute_output_hash(&context).unwrap();

    assert_eq!(hash1, hash2);
    assert_eq!(hash1.len(), 64); // SHA-256 hex
}

#[test]
fn test_empty_context_exact_hash() {
    // The canonical form of the empty context is a fixed string, so its
    // digest is a fixed value.
    let hash = compute_output_hash(&empty_context()).unwrap();
    assert_eq!(
        hash,
        "b6227388315c23b81bc800532f68e3b3a8f529f44ebc37d2e521023da32704d4"
    );
}

#[test]
fn test_end_to_end_alice_bob() {
    let raw = vec!["Alice met Bob".to_string()];
    let ctx = transform_context(&raw, &MaskingPolicy::default()).unwrap();
    assert_eq!(ctx.entities.len(), 2);
    assert_eq!(ctx.entities[0].role, "Actor");
    assert_eq!(ctx.entities[1].role, "Actor");
    assert_eq!(ctx.entities[0].id, "ENTITY_0000");
    assert_eq!(ctx.entities[1].id, "ENTITY_0001");
    assert_eq!(ctx.relations.len(), 1);
    assert_eq!(ctx.relations[0].relation_type, "related");
    assert_eq!(ctx.relations[0].from, "ENTITY_0000");
    assert_eq!(ctx.relations[0].to, "ENTITY_0001");
    let hash = compute_output_hash(&ctx).unwrap();
    assert_eq!(hash.len(), 64);
    assert!(hash.chars().all(|c| c.is_ascii_hexdigit()));
    assert_eq!(
        hash,
        "b6acdcf2e21d7e826f0ce88dd36fae7ac5a3c0ccacac8b76fbc765cace437d3a"
    );
}

#[test]
fn test_degenerate_input() {
    let raw = vec!["the".to_string()];
    let r = transform_context(&raw, &MaskingPolicy::default());
    assert!(matches!(r, Err(EnclaveError::TransformFailed)));
}

#[test]
fn test_numeric_tokens_become_values() {
    let raw = vec!["Alice paid 1,250.00".to_string()];
    let entities = extract_entities(&raw).unwrap();
    assert_eq!(entities.len(), 2);
    assert_eq!(entities[0].role, "Actor");
    assert_eq!(entities[1].role, "Value");
    assert_eq!(entities[1].id, "ENTITY_0001");
}

#[test]
fn test_boundary_rejects_reproduced_token() {
    // The token "Actor" is extracted as an entity whose role tag is the
    // very same word, so the raw token reappears in the serialization.
    let raw = vec!["Actor".to_string()];
    let r = transform_context(&raw, &MaskingPolicy::default());
    assert!(matches!(r, Err(EnclaveError::BoundaryViolation)));
}

#[test]
fn test_boundary_holds_without_reproduction() {
    let raw = vec!["Alice met Bob".to_string()];
    let entities = extract_entities(&raw).unwrap();
    let relations = build_relations(&entities).unwrap();
    assert!(verify_boundary(&entities, &relations, &raw).is_ok());
}

#[test]
fn test_short_tokens_never_violate() {
    // A token of three characters or fewer can never leak.
    let raw = vec!["Bob".to_string()];
    let ctx = transform_context(&raw, &MaskingPolicy::default()).unwrap();
    assert_eq!(ctx.entities.len(), 1);
}

fn actor(id: &str, len: usize) -> Entity {
    Entity {
        id: id.to_string(),
        role: "Actor".to_string(),
        attributes: vec![
            ("type".to_string(), AttrValue::Text("name".to_string())),
            ("length".to_string(), AttrValue::Count(len)),
        ],
    }
}

#[test]
fn test_hash_order_independence() {
    let e0 = actor("ENTITY_0000", 4);
    let e1 = actor("ENTITY_0001", 4);
    let r01 = Relation {
        relation_type: "related".to_string(),
        from: "ENTITY_0000".to_string(),
        to: "ENTITY_0001".to_string(),
    };
    let r10 = Relation {
        relation_type: "linked".to_string(),
        from: "ENTITY_0001".to_string(),
        to: "ENTITY_0000".to_string(),
    };
    let ctx_a = TransformedContext {
        schema_version: "v1".to_string(),
        entities: vec![actor("ENTITY_0000", 4), actor("ENTITY_0001", 4)],
        relations: vec![
            Relation {
                relation_type: r01.relation_type.clone(),
                from: r01.from.clone(),
                to: r01.to.clone(),
            },
            Relation {
                relation_type: r10.relation_type.clone(),
                from: r10.from.clone(),
                to: r10.to.clone(),
            },
        ],
        constraints: None,
        metadata: None,
    };
    let ctx_b = TransformedContext {
        schema_version: "v1".to_string(),
        entities: vec![e1, e0],
        relations: vec![r10, r01],
        constraints: None,
        metadata: None,
    };
    let ha = compute_output_hash(&ctx_a).unwrap();
    let hb = compute_output_hash(&ctx_b).unwrap();
    assert_eq!(ha, hb);
}
