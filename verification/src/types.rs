//! The data model: request, policy, entities, relations, transformed
//! context, statistics, and response, with their mathematical views.

use vstd::prelude::*;

verus! {

/// An abstracted attribute value: derived text or a count, never raw content.
pub enum AttrValue {
    /// A short derived text tag.
    Text(String),
    /// A derived count.
    Count(usize),
}

/// The mathematical view of an [`AttrValue`].
pub enum AttrValueView {
    /// A derived text tag.
    Text(Seq<char>),
    /// A derived count.
    Count(nat),
}

impl View for AttrValue {
    type V = AttrValueView;

    open spec fn view(&self) -> AttrValueView {
        match self {
            AttrValue::Text(s) => AttrValueView::Text(s@),
            AttrValue::Count(n) => AttrValueView::Count(*n as nat),
        }
    }
}

impl Clone for AttrValue {
    /// Clones the value; the view is preserved.
    fn clone(&self) -> (r: Self)
        ensures
            r@ == self@,
    {
        match self {
            AttrValue::Text(s) => AttrValue::Text(s.clone()),
            AttrValue::Count(n) => AttrValue::Count(*n),
        }
    }
}

/// A semantic entity with a synthetic id; attributes hold only derived values.
pub struct Entity {
    /// Synthetic identifier, unique within a context.
    pub id: String,
    /// Semantic role tag, e.g. "Actor" or "Value".
    pub role: String,
    /// Attribute key/value pairs, in insertion order.
    pub attributes: Vec<(String, AttrValue)>,
}

/// The mathematical view of an [`Entity`].
pub struct EntityView {
    /// Synthetic identifier.
    pub id: Seq<char>,
    /// Semantic role tag.
    pub role: Seq<char>,
    /// Attribute key/value pairs.
    pub attributes: Seq<(Seq<char>, AttrValueView)>,
}

impl View for Entity {
    type V = EntityView;

    open spec fn view(&self) -> EntityView {
        EntityView {
            id: self.id@,
            role: self.role@,
            attributes: self.attributes@.map_values(|p: (String, AttrValue)| (p.0@, p.1@)),
        }
    }
}

/// Clones attribute pairs; the element views are preserved.
fn clone_attrs(v: &Vec<(String, AttrValue)>) -> (r: Vec<(String, AttrValue)>)
    ensures
        r@.map_values(|p: (String, AttrValue)| (p.0@, p.1@)) == v@.map_values(
            |p: (String, AttrValue)| (p.0@, p.1@),
        ),
{
    let mut r: Vec<(String, AttrValue)> = Vec::new();
    let mut i: usize = 0;
    while i < v.len()
        invariant
            i <= v@.len(),
            r@.len() == i,
            forall|k: int|
                0 <= k < i ==> #[trigger] r@[k].0@ == v@[k].0@ && r@[k].1@ == v@[k].1@,
        decreases v@.len() - i,
    {
        let (k, a) = &v[i];
        r.push((k.clone(), a.clone()));
        i = i + 1;
    }
    proof {
        assert(r@.map_values(|p: (String, AttrValue)| (p.0@, p.1@)) =~= v@.map_values(
            |p: (String, AttrValue)| (p.0@, p.1@),
        ));
    }
    r
}

impl Clone for Entity {
    /// Clones the entity; the view is preserved.
    fn clone(&self) -> (r: Self)
        ensures
            r@ == self@,
    {
        let r = Entity {
            id: self.id.clone(),
            role: self.role.clone(),
            attributes: clone_attrs(&self.attributes),
        };
        proof {
            assert(r@ == self@);
        }
        r
    }
}

/// A typed relation between two entities, referenced by id.
pub struct Relation {
    /// Relation type tag, e.g. "related".
    pub relation_type: String,
    /// Source entity id.
    pub from: String,
    /// Target entity id.
    pub to: String,
}

/// The mathematical view of a [`Relation`].
pub struct RelationView {
    /// Relation type tag.
    pub relation_type: Seq<char>,
    /// Source entity id.
    pub from: Seq<char>,
    /// Target entity id.
    pub to: Seq<char>,
}

impl View for Relation {
    type V = RelationView;

    open spec fn view(&self) -> RelationView {
        RelationView { relation_type: self.relation_type@, from: self.from@, to: self.to@ }
    }
}

impl Clone for Relation {
    /// Clones the relation; the view is preserved.
    fn clone(&self) -> (r: Self)
        ensures
            r@ == self@,
    {
        Relation {
            relation_type: self.relation_type.clone(),
            from: self.from.clone(),
            to: self.to.clone(),
        }
    }
}

/// The minimized semantic context produced by the transform engine.
pub struct TransformedContext {
    /// Schema version tag.
    pub schema_version: String,
    /// Extracted entities, in extraction order.
    pub entities: Vec<Entity>,
    /// Relations between entities, in construction order.
    pub relations: Vec<Relation>,
    /// Optional constraints, as derived key/value pairs.
    pub constraints: Option<Vec<(String, AttrValue)>>,
    /// Optional metadata, as derived key/value pairs.
    pub metadata: Option<Vec<(String, AttrValue)>>,
}

/// The mathematical view of a [`TransformedContext`].
pub struct ContextView {
    /// Schema version tag.
    pub schema_version: Seq<char>,
    /// Extracted entities.
    pub entities: Seq<EntityView>,
    /// Relations between entities.
    pub relations: Seq<RelationView>,
    /// Optional constraints.
    pub constraints: Option<Seq<(Seq<char>, AttrValueView)>>,
    /// Optional metadata.
    pub metadata: Option<Seq<(Seq<char>, AttrValueView)>>,
}

/// The view of an optional attribute list.
pub open spec fn attrs_view(v: Option<Vec<(String, AttrValue)>>) -> Option<
    Seq<(Seq<char>, AttrValueView)>,
> {
    match v {
        Option::None => Option::None,
        Option::Some(a) => Option::Some(a@.map_values(|p: (String, AttrValue)| (p.0@, p.1@))),
    }
}

impl View for TransformedContext {
    type V = ContextView;

    open spec fn view(&self) -> ContextView {
        ContextView {
            schema_version: self.schema_version@,
            entities: self.entities@.map_values(|e: Entity| e@),
            relations: self.relations@.map_values(|r: Relation| r@),
            constraints: attrs_view(self.constraints),
            metadata: attrs_view(self.metadata),
        }
    }
}

/// Entity ids are pairwise distinct within the context.
pub open spec fn unique_entity_ids(c: ContextView) -> bool {
    forall|i: int, j: int|
        0 <= i < j < c.entities.len() ==> c.entities[i].id != c.entities[j].id
}

/// Some entity of `es` carries exactly this id.
pub open spec fn referenced(es: Seq<EntityView>, id: Seq<char>) -> bool {
    exists|j: int| 0 <= j < es.len() && (#[trigger] es[j]).id == id
}

/// Every relation references existing entity ids: none dangle.
pub open spec fn relations_reference_entities(c: ContextView) -> bool {
    forall|i: int|
        0 <= i < c.relations.len() ==> referenced(c.entities, (#[trigger] c.relations[i]).from)
            && referenced(c.entities, c.relations[i].to)
}

/// Masking policy, consumed by this core for size enforcement only.
pub struct MaskingPolicy {
    /// Policy version tag.
    pub version: String,
    /// Whether common words are allowed in the output.
    pub allow_common_words: bool,
    /// The byte ceiling for the total raw context.
    pub max_input_size: usize,
}

impl Default for MaskingPolicy {
    /// The reference policy: version "v1", common words allowed, 10 MiB ceiling.
    fn default() -> (r: Self)
        ensures
            r.version@ == "v1"@,
            r.allow_common_words == true,
            r.max_input_size == 10485760usize,
    {
        MaskingPolicy {
            version: String::from_str("v1"),
            allow_common_words: true,
            max_input_size: 10485760,
        }
    }
}

/// A request to transform raw context, consumed exactly once.
pub struct EnclaveRequest {
    /// The ordered sensitive strings to minimize.
    pub raw_context: Vec<String>,
    /// Optional non-sensitive task hint.
    pub task_hint: Option<String>,
    /// The masking policy for this invocation.
    pub policy: MaskingPolicy,
    /// Session identifier bound into the attestation.
    pub session_id: String,
    /// Single-use freshness nonce bound into the attestation.
    pub nonce: String,
}

impl Default for EnclaveRequest {
    /// An empty request with the default policy.
    fn default() -> (r: Self)
        ensures
            r.raw_context@.len() == 0,
            r.task_hint is None,
            r.session_id@.len() == 0,
            r.nonce@.len() == 0,
            r.policy.max_input_size == 10485760usize,
    {
        EnclaveRequest {
            raw_context: Vec::new(),
            task_hint: Option::None,
            policy: MaskingPolicy::default(),
            session_id: String::new(),
            nonce: String::new(),
        }
    }
}

/// Redaction statistics: counts only, never content.
#[derive(Clone, Copy, Debug, PartialEq, Eq, Structural)]
pub struct RedactionStats {
    /// Number of entities extracted.
    pub entity_count: usize,
    /// Number of relations built.
    pub relation_count: usize,
    /// Number of identifiers replaced by synthetic ids.
    pub identifiers_replaced: usize,
}

/// The full result of a transformation with attestation.
pub struct EnclaveResponse {
    /// The minimized semantic context.
    pub transformed_context: TransformedContext,
    /// Hex digest over the canonical form of the context.
    pub output_hash: String,
    /// Fixed-size attestation report bound to session, nonce, and hash.
    pub attestation_report: Vec<u8>,
    /// Counts of what was redacted.
    pub redaction_stats: RedactionStats,
    /// Code-identity measurement of the execution environment.
    pub measurement: String,
    /// Optional provider signature.
    pub signature: Option<Vec<u8>>,
}

} // verus!
