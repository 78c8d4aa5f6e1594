//! The transform engine: deterministic entity extraction, dense relation
//! building, the boundary-leak gate, canonicalization, and the output hash.

use vstd::prelude::*;
use crate::codec::contains_sub;
use crate::codec::enc_context_view;
use crate::codec::enc_pair_view;
use crate::codec::encode_context_parts;
use crate::codec::encode_pair;
use crate::codec::find_sub;
use crate::error::EnclaveError;
use crate::hashing::hex_encode;
use crate::hashing::hex_of_bytes;
use crate::hashing::lemma_hex_of_bytes_len;
use crate::hashing::sha256;
use crate::hashing::sha256_of;
use crate::sorting::ent_le;
use crate::sorting::insertion_sort;
use crate::sorting::lemma_ent_le_total;
use crate::sorting::lemma_ent_le_transitive;
use crate::sorting::lemma_insertion_sort_props;
use crate::sorting::lemma_rel_le_total;
use crate::sorting::lemma_rel_le_transitive;
use crate::sorting::lemma_sorted_unique;
use crate::sorting::rel_le;
use crate::sorting::sort_entities;
use crate::sorting::sort_relations;
use crate::text::chars_to_string;
use crate::text::dec_digits;
use crate::text::push_dec;
use crate::text::str_chars;
use crate::text::tokenize;
use crate::text::tokens;
use crate::types::AttrValue;
use crate::types::AttrValueView;
use crate::types::ContextView;
use crate::types::Entity;
use crate::types::EntityView;
use crate::types::MaskingPolicy;
use crate::types::Relation;
use crate::types::RelationView;
use crate::types::TransformedContext;
use crate::types::unique_entity_ids;

verus! {

broadcast use vstd::seq_lib::group_to_multiset_ensures;

// ---------------------------------------------------------------------------
// Extraction, specified
// ---------------------------------------------------------------------------

/// The views of a sequence of strings.
pub open spec fn raw_views(rs: Seq<String>) -> Seq<Seq<char>> {
    rs.map_values(|s: String| s@)
}

/// All tokens of all raw strings, in order.
pub open spec fn ctx_tokens(rss: Seq<Seq<char>>) -> Seq<Seq<char>>
    decreases rss.len(),
{
    if rss.len() == 0 {
        Seq::empty()
    } else {
        ctx_tokens(rss.drop_last()) + tokens(rss.last())
    }
}

/// A capitalized token: its first character is an ASCII capital letter.
pub open spec fn cap_token(t: Seq<char>) -> bool {
    t.len() > 0 && 65 <= (t[0] as int) && (t[0] as int) <= 90
}

/// A numeric character for extraction: a digit, a comma, or a dot.
pub open spec fn num_char(c: char) -> bool {
    (48 <= (c as int) && (c as int) <= 57) || c == ',' || c == '.'
}

/// A numeric token: every character is numeric.
pub open spec fn num_token(t: Seq<char>) -> bool {
    t.len() > 0 && forall|i: int| 0 <= i < t.len() ==> num_char(t[i])
}

/// The synthetic id for extraction index `n`: zero-padded to four digits.
pub open spec fn entity_id_chars(n: nat) -> Seq<char> {
    "ENTITY_"@ + (if n < 10 {
        seq!['0', '0', '0']
    } else if n < 100 {
        seq!['0', '0']
    } else if n < 1000 {
        seq!['0']
    } else {
        Seq::<char>::empty()
    }) + dec_digits(n)
}

/// The entity extracted from a capitalized token at index `idx`.
pub open spec fn actor_view(t: Seq<char>, idx: nat) -> EntityView {
    EntityView {
        id: entity_id_chars(idx),
        role: "Actor"@,
        attributes: seq![
            ("type"@, AttrValueView::Text("name"@)),
            ("length"@, AttrValueView::Count(t.len())),
        ],
    }
}

/// The entity extracted from a numeric token at index `idx`.
pub open spec fn value_view(idx: nat) -> EntityView {
    EntityView {
        id: entity_id_chars(idx),
        role: "Value"@,
        attributes: seq![("type"@, AttrValueView::Text("number"@))],
    }
}

/// The actor entities extracted from the capitalized tokens, in order.
pub open spec fn actor_entities(ts: Seq<Seq<char>>) -> Seq<EntityView>
    decreases ts.len(),
{
    if ts.len() == 0 {
        Seq::empty()
    } else {
        let rest = actor_entities(ts.drop_last());
        rest + (if cap_token(ts.last()) {
            seq![actor_view(ts.last(), rest.len())]
        } else {
            Seq::<EntityView>::empty()
        })
    }
}

/// The value entities extracted from the numeric tokens, ids from `base` on.
pub open spec fn value_entities(ts: Seq<Seq<char>>, base: nat) -> Seq<EntityView>
    decreases ts.len(),
{
    if ts.len() == 0 {
        Seq::empty()
    } else {
        let rest = value_entities(ts.drop_last(), base);
        rest + (if num_token(ts.last()) {
            seq![value_view(base + rest.len())]
        } else {
            Seq::<EntityView>::empty()
        })
    }
}

/// Everything extracted from the given tokens: actors first, then values.
pub open spec fn all_entities(ts: Seq<Seq<char>>) -> Seq<EntityView> {
    actor_entities(ts) + value_entities(ts, actor_entities(ts).len())
}

// ---------------------------------------------------------------------------
// Extraction, executed
// ---------------------------------------------------------------------------

/// Whether the token is capitalized.
fn is_cap(t: &Vec<char>) -> (r: bool)
    ensures
        r == cap_token(t@),
{
    if t.len() == 0 {
        return false;
    }
    let c = t[0];
    let u = crate::text::char_code(c);
    65 <= u && u <= 90
}

/// Whether the token is numeric.
fn is_num(t: &Vec<char>) -> (r: bool)
    ensures
        r == num_token(t@),
{
    if t.len() == 0 {
        return false;
    }
    let mut i: usize = 0;
    while i < t.len()
        invariant
            i <= t@.len(),
            forall|k: int| 0 <= k < i ==> num_char(t@[k]),
        decreases t@.len() - i,
    {
        let c = t[i];
        let u = crate::text::char_code(c);
        if !((48 <= u && u <= 57) || c == ',' || c == '.') {
            proof {
                assert(!num_char(t@[i as int]));
            }
            return false;
        }
        i = i + 1;
    }
    true
}

/// The synthetic id string for extraction index `n`.
fn entity_id_string(n: usize) -> (r: String)
    ensures
        r@ == entity_id_chars(n as nat),
{
    let mut idv = str_chars("ENTITY_");
    if n < 10 {
        idv.push('0');
        idv.push('0');
        idv.push('0');
    } else if n < 100 {
        idv.push('0');
        idv.push('0');
    } else if n < 1000 {
        idv.push('0');
    }
    push_dec(&mut idv, n);
    proof {
        assert(idv@ =~= entity_id_chars(n as nat));
    }
    chars_to_string(&idv)
}

/// All tokens of all raw strings, in order.
fn collect_tokens(raw: &Vec<String>) -> (r: Vec<Vec<char>>)
    ensures
        r@.map_values(|t: Vec<char>| t@) == ctx_tokens(raw_views(raw@)),
{
    let mut toks: Vec<Vec<char>> = Vec::new();
    let mut i: usize = 0;
    proof {
        assert(toks@.map_values(|t: Vec<char>| t@) =~= ctx_tokens(raw_views(raw@.take(0))));
    }
    while i < raw.len()
        invariant
            i <= raw@.len(),
            toks@.map_values(|t: Vec<char>| t@) == ctx_tokens(raw_views(raw@.take(i as int))),
        decreases raw@.len() - i,
    {
        let mut more = tokenize(raw[i].as_str());
        let ghost more_view = more@;
        toks.append(&mut more);
        i = i + 1;
        proof {
            assert(raw_views(raw@.take(i as int)).drop_last() =~= raw_views(
                raw@.take(i as int - 1),
            ));
            assert(raw_views(raw@.take(i as int)).last() == raw@[i as int - 1]@);
            assert(toks@.map_values(|t: Vec<char>| t@) =~= ctx_tokens(
                raw_views(raw@.take(i as int - 1)),
            ) + more_view.map_values(|t: Vec<char>| t@));
        }
    }
    proof {
        assert(raw@.take(raw@.len() as int) =~= raw@);
    }
    toks
}

/// Extracts entities from the raw context: capitalized tokens become
/// actors, numeric tokens become values, ids in extraction order.
/// Fails with `TransformFailed` exactly when nothing qualifies.
pub fn extract_entities(raw: &Vec<String>) -> (r: Result<Vec<Entity>, EnclaveError>)
    ensures
        match r {
            Ok(v) => all_entities(ctx_tokens(raw_views(raw@))).len() > 0 && v@.map_values(
                |e: Entity| e@,
            ) == all_entities(ctx_tokens(raw_views(raw@))),
            Err(e) => e == EnclaveError::TransformFailed && all_entities(
                ctx_tokens(raw_views(raw@)),
            ).len() == 0,
        },
{
    let toks = collect_tokens(raw);
    let ghost tv = toks@.map_values(|t: Vec<char>| t@);
    let mut out: Vec<Entity> = Vec::new();
    let mut i: usize = 0;
    proof {
        assert(tv.take(0) =~= Seq::<Seq<char>>::empty());
        assert(out@.map_values(|e: Entity| e@) =~= actor_entities(tv.take(0)));
    }
    while i < toks.len()
        invariant
            i <= toks@.len(),
            tv == toks@.map_values(|t: Vec<char>| t@),
            out@.map_values(|e: Entity| e@) == actor_entities(tv.take(i as int)),
        decreases toks@.len() - i,
    {
        if is_cap(&toks[i]) {
            let idx = out.len();
            let id = entity_id_string(idx);
            let mut attrs: Vec<(String, AttrValue)> = Vec::new();
            attrs.push((String::from_str("type"), AttrValue::Text(String::from_str("name"))));
            attrs.push((String::from_str("length"), AttrValue::Count(toks[i].len())));
            let e = Entity { id, role: String::from_str("Actor"), attributes: attrs };
            proof {
                assert(e@.attributes =~= actor_view(tv[i as int], idx as nat).attributes);
                assert(e@ == actor_view(tv[i as int], idx as nat));
            }
            out.push(e);
        }
        i = i + 1;
        proof {
            assert(tv.take(i as int).drop_last() =~= tv.take(i as int - 1));
            assert(tv.take(i as int).last() == tv[i as int - 1]);
            assert(out@.map_values(|e: Entity| e@) =~= actor_entities(tv.take(i as int)));
        }
    }
    proof {
        assert(tv.take(tv.len() as int) =~= tv);
    }
    let actor_count = out.len();
    let mut j: usize = 0;
    proof {
        assert(value_entities(tv.take(0), actor_count as nat) =~= Seq::<EntityView>::empty());
        assert(out@.map_values(|e: Entity| e@) =~= actor_entities(tv) + value_entities(
            tv.take(0),
            actor_count as nat,
        ));
    }
    while j < toks.len()
        invariant
            j <= toks@.len(),
            tv == toks@.map_values(|t: Vec<char>| t@),
            actor_count as nat == actor_entities(tv).len(),
            out@.len() == actor_count + value_entities(tv.take(j as int), actor_count as nat).len(),
            out@.map_values(|e: Entity| e@) == actor_entities(tv) + value_entities(
                tv.take(j as int),
                actor_count as nat,
            ),
        decreases toks@.len() - j,
    {
        let ghost prev_map = out@.map_values(|e: Entity| e@);
        if is_num(&toks[j]) {
            let idx = out.len();
            let id = entity_id_string(idx);
            let mut attrs: Vec<(String, AttrValue)> = Vec::new();
            attrs.push((String::from_str("type"), AttrValue::Text(String::from_str("number"))));
            let e = Entity { id, role: String::from_str("Value"), attributes: attrs };
            proof {
                assert(e@.attributes =~= value_view(idx as nat).attributes);
                assert(e@ == value_view(idx as nat));
                assert(idx as nat == actor_count + value_entities(
                    tv.take(j as int),
                    actor_count as nat,
                ).len());
            }
            out.push(e);
            proof {
                assert(out@.map_values(|e: Entity| e@) =~= prev_map.push(
                    value_view(idx as nat),
                ));
            }
        }
        j = j + 1;
        proof {
            assert(tv.take(j as int).drop_last() =~= tv.take(j as int - 1));
            assert(tv.take(j as int).last() == tv[j as int - 1]);
            assert(out@.map_values(|e: Entity| e@) =~= actor_entities(tv) + value_entities(
                tv.take(j as int),
                actor_count as nat,
            ));
        }
    }
    proof {
        assert(tv.take(tv.len() as int) =~= tv);
    }
    if out.len() == 0 {
        proof {
            assert(all_entities(tv).len() == 0);
        }
        Err(EnclaveError::TransformFailed)
    } else {
        proof {
            assert(out@.map_values(|e: Entity| e@) == all_entities(tv));
        }
        Ok(out)
    }
}

// ---------------------------------------------------------------------------
// Relations
// ---------------------------------------------------------------------------

/// The "related" relation from one entity id to another.
pub open spec fn rel_view(from: Seq<char>, to: Seq<char>) -> RelationView {
    RelationView { relation_type: "related"@, from, to }
}

/// The relations from entity `i` to every later entity.
pub open spec fn row_from(es: Seq<EntityView>, i: int, j: int) -> Seq<RelationView>
    decreases es.len() - j,
{
    if i < j < es.len() {
        seq![rel_view(es[i].id, es[j].id)] + row_from(es, i, j + 1)
    } else {
        Seq::empty()
    }
}

/// The relations among entities `i` and later, in construction order.
pub open spec fn rels_from(es: Seq<EntityView>, i: int) -> Seq<RelationView>
    decreases es.len() - i,
{
    if 0 <= i < es.len() {
        row_from(es, i, i + 1) + rels_from(es, i + 1)
    } else {
        Seq::empty()
    }
}

/// The complete set of unordered entity pairs, tagged "related".
pub open spec fn all_relations(es: Seq<EntityView>) -> Seq<RelationView> {
    rels_from(es, 0)
}

/// Builds the dense relation topology: every unordered pair of entities,
/// in construction order, tagged "related".
pub fn build_relations(entities: &Vec<Entity>) -> (r: Result<Vec<Relation>, EnclaveError>)
    ensures
        r is Ok,
        r matches Ok(v) ==> v@.map_values(|x: Relation| x@) == all_relations(
            entities@.map_values(|e: Entity| e@),
        ),
{
    let ghost esv = entities@.map_values(|e: Entity| e@);
    let n = entities.len();
    let mut out: Vec<Relation> = Vec::new();
    let mut i: usize = 0;
    proof {
        assert(all_relations(esv) =~= out@.map_values(|x: Relation| x@) + rels_from(esv, 0));
    }
    while i < n
        invariant
            i <= n,
            n == entities@.len(),
            esv == entities@.map_values(|e: Entity| e@),
            all_relations(esv) == out@.map_values(|x: Relation| x@) + rels_from(esv, i as int),
        decreases n - i,
    {
        let mut j: usize = i + 1;
        proof {
            assert(rels_from(esv, i as int) == row_from(esv, i as int, i as int + 1) + rels_from(
                esv,
                i as int + 1,
            ));
            assert(all_relations(esv) =~= out@.map_values(|x: Relation| x@) + row_from(
                esv,
                i as int,
                j as int,
            ) + rels_from(esv, i as int + 1));
        }
        while j < n
            invariant
                i < j <= n,
                n == entities@.len(),
                esv == entities@.map_values(|e: Entity| e@),
                all_relations(esv) == out@.map_values(|x: Relation| x@) + row_from(
                    esv,
                    i as int,
                    j as int,
                ) + rels_from(esv, i as int + 1),
            decreases n - j,
        {
            let rel = Relation {
                relation_type: String::from_str("related"),
                from: entities[i].id.clone(),
                to: entities[j].id.clone(),
            };
            proof {
                assert(rel@ == rel_view(esv[i as int].id, esv[j as int].id));
                assert(row_from(esv, i as int, j as int) == seq![
                    rel_view(esv[i as int].id, esv[j as int].id),
                ] + row_from(esv, i as int, j as int + 1));
            }
            out.push(rel);
            j = j + 1;
            proof {
                assert(all_relations(esv) =~= out@.map_values(|x: Relation| x@) + row_from(
                    esv,
                    i as int,
                    j as int,
                ) + rels_from(esv, i as int + 1));
            }
        }
        i = i + 1;
        proof {
            assert(row_from(esv, i as int - 1, n as int) =~= Seq::<RelationView>::empty());
            assert(all_relations(esv) =~= out@.map_values(|x: Relation| x@) + rels_from(
                esv,
                i as int,
            ));
        }
    }
    proof {
        assert(rels_from(esv, n as int) =~= Seq::<RelationView>::empty());
        assert(out@.map_values(|x: Relation| x@) =~= all_relations(esv));
    }
    Ok(out)
}

// ---------------------------------------------------------------------------
// Boundary verification
// ---------------------------------------------------------------------------

/// Some raw token longer than three characters occurs verbatim in `out`.
pub open spec fn leaks_in(out: Seq<char>, raws: Seq<Seq<char>>) -> bool {
    exists|i: int, j: int|
        0 <= i < raws.len() && 0 <= j < tokens(raws[i]).len() && (#[trigger] tokens(raws[i])[j]).len()
            > 3 && contains_sub(out, tokens(raws[i])[j])
}

/// Some raw token longer than three characters occurs verbatim in the
/// serialized candidate output.
pub open spec fn leaks(
    es: Seq<EntityView>,
    rs: Seq<RelationView>,
    raws: Seq<Seq<char>>,
) -> bool {
    leaks_in(enc_pair_view(es, rs), raws)
}

/// The boundary gate: serializes the candidate output and rejects it with
/// `BoundaryViolation` exactly when a raw token longer than three
/// characters appears verbatim in that serialization.
#[verifier::rlimit(50)]
#[verifier::loop_isolation(false)]
pub fn verify_boundary(
    entities: &Vec<Entity>,
    relations: &Vec<Relation>,
    raw: &Vec<String>,
) -> (r: Result<(), EnclaveError>)
    ensures
        match r {
            Ok(u) => !leaks(
                entities@.map_values(|e: Entity| e@),
                relations@.map_values(|x: Relation| x@),
                raw_views(raw@),
            ),
            Err(e) => e == EnclaveError::BoundaryViolation && leaks(
                entities@.map_values(|e: Entity| e@),
                relations@.map_values(|x: Relation| x@),
                raw_views(raw@),
            ),
        },
{
    let ghost esv = entities@.map_values(|e: Entity| e@);
    let ghost rsv = relations@.map_values(|x: Relation| x@);
    let ghost raws = raw_views(raw@);
    let output = encode_pair(entities, relations);
    let ghost ov = output@;
    let mut i: usize = 0;
    while i < raw.len()
        invariant
            i <= raw@.len(),
            output@ == ov,
            raws == raw_views(raw@),
            forall|a: int, b: int|
                0 <= a < i && 0 <= b < tokens(raws[a]).len() && (#[trigger] tokens(
                    raws[a],
                )[b]).len() > 3 ==> !contains_sub(ov, tokens(raws[a])[b]),
        decreases raw@.len() - i,
    {
        proof {
            assert(raws[i as int] == raw@[i as int]@);
        }
        let toks = tokenize(raw[i].as_str());
        let ghost tsv = toks@.map_values(|t: Vec<char>| t@);
        let mut j: usize = 0;
        while j < toks.len()
            invariant
                j <= toks@.len(),
                0 <= i < raw@.len(),
                output@ == ov,
                raws == raw_views(raw@),
                tsv == toks@.map_values(|t: Vec<char>| t@),
                tsv == tokens(raws[i as int]),
                forall|a: int, b: int|
                    0 <= a < i && 0 <= b < tokens(raws[a]).len() && (#[trigger] tokens(
                        raws[a],
                    )[b]).len() > 3 ==> !contains_sub(ov, tokens(raws[a])[b]),
                forall|b: int|
                    0 <= b < j && (#[trigger] tsv[b]).len() > 3 ==> !contains_sub(ov, tsv[b]),
            decreases toks@.len() - j,
        {
            if toks[j].len() > 3 {
                if find_sub(&output, &toks[j]) {
                    proof {
                        assert(tsv[j as int] == tokens(raws[i as int])[j as int]);
                        assert(0 <= (i as int) && (i as int) < raws.len() && 0 <= (j as int) && (
                        j as int) < tokens(raws[i as int]).len() && tokens(
                            raws[i as int],
                        )[j as int].len() > 3 && contains_sub(
                            ov,
                            tokens(raws[i as int])[j as int],
                        ));
                        assert(leaks_in(ov, raws));
                        assert(leaks(esv, rsv, raws));
                    }
                    return Err(EnclaveError::BoundaryViolation);
                }
            }
            j = j + 1;
        }
        i = i + 1;
    }
    proof {
        assert(!leaks_in(ov, raws));
        assert(!leaks(esv, rsv, raws));
    }
    Ok(())
}

// ---------------------------------------------------------------------------
// The whole transformation
// ---------------------------------------------------------------------------

/// Whether extraction finds anything in the raw context.
pub open spec fn has_entities(raws: Seq<Seq<char>>) -> bool {
    all_entities(ctx_tokens(raws)).len() > 0
}

/// The context the transformation produces for the given raw strings.
pub open spec fn transformed_view(raws: Seq<Seq<char>>) -> ContextView {
    ContextView {
        schema_version: "v1"@,
        entities: all_entities(ctx_tokens(raws)),
        relations: all_relations(all_entities(ctx_tokens(raws))),
        constraints: Option::None,
        metadata: Option::None,
    }
}

/// Whether the transformation of the given raw strings leaks a raw token.
pub open spec fn transform_leaks(raws: Seq<Seq<char>>) -> bool {
    leaks(
        all_entities(ctx_tokens(raws)),
        all_relations(all_entities(ctx_tokens(raws))),
        raws,
    )
}

/// Transforms raw context into the minimized semantic representation:
/// extraction, relation building, then the boundary gate, failing closed.
/// The policy is consumed by the caller for size enforcement only.
pub fn transform_context(raw: &Vec<String>, policy: &MaskingPolicy) -> (r: Result<
    TransformedContext,
    EnclaveError,
>)
    ensures
        match r {
            Ok(c) => has_entities(raw_views(raw@)) && !transform_leaks(raw_views(raw@)) && c@
                == transformed_view(raw_views(raw@)),
            Err(e) => (e == EnclaveError::TransformFailed && !has_entities(raw_views(raw@))) || (e
                == EnclaveError::BoundaryViolation && has_entities(raw_views(raw@))
                && transform_leaks(raw_views(raw@))),
        },
{
    let entities = match extract_entities(raw) {
        Ok(v) => v,
        Err(e) => {
            return Err(e);
        },
    };
    let relations = match build_relations(&entities) {
        Ok(v) => v,
        Err(e) => {
            return Err(e);
        },
    };
    match verify_boundary(&entities, &relations, raw) {
        Ok(u) => {},
        Err(e) => {
            return Err(e);
        },
    }
    let ctx = TransformedContext {
        schema_version: String::from_str("v1"),
        entities,
        relations,
        constraints: Option::None,
        metadata: Option::None,
    };
    proof {
        assert(ctx@ == transformed_view(raw_views(raw@)));
    }
    Ok(ctx)
}

// ---------------------------------------------------------------------------
// Well-formedness of the transformed context
// ---------------------------------------------------------------------------

/// Synthetic ids are injective in the extraction index.
proof fn lemma_entity_id_injective(a: nat, b: nat)
    requires
        entity_id_chars(a) == entity_id_chars(b),
    ensures
        a == b,
{
    lemma_id_suffix_val(a);
    lemma_id_suffix_val(b);
    assert(id_suffix(a) =~= entity_id_chars(a).skip(7)) by {
        reveal_strlit("ENTITY_");
    }
    assert(id_suffix(b) =~= entity_id_chars(b).skip(7)) by {
        reveal_strlit("ENTITY_");
    }
}

/// The id characters after the fixed prefix: padding then digits.
spec fn id_suffix(n: nat) -> Seq<char> {
    (if n < 10 {
        seq!['0', '0', '0']
    } else if n < 100 {
        seq!['0', '0']
    } else if n < 1000 {
        seq!['0']
    } else {
        Seq::<char>::empty()
    }) + dec_digits(n)
}

/// Zero padding does not change the numeric value of the id suffix.
proof fn lemma_id_suffix_val(n: nat)
    ensures
        crate::text::dec_val(id_suffix(n)) == n,
{
    crate::text::lemma_dec_val_of_digits(n);
    let d = dec_digits(n);
    if n < 10 {
        assert(id_suffix(n) =~= seq!['0'] + (seq!['0'] + (seq!['0'] + d)));
        crate::text::lemma_dec_val_zero_prefix(d);
        crate::text::lemma_dec_val_zero_prefix(seq!['0'] + d);
        crate::text::lemma_dec_val_zero_prefix(seq!['0'] + (seq!['0'] + d));
    } else if n < 100 {
        assert(id_suffix(n) =~= seq!['0'] + (seq!['0'] + d));
        crate::text::lemma_dec_val_zero_prefix(d);
        crate::text::lemma_dec_val_zero_prefix(seq!['0'] + d);
    } else if n < 1000 {
        assert(id_suffix(n) =~= seq!['0'] + d);
        crate::text::lemma_dec_val_zero_prefix(d);
    } else {
        assert(id_suffix(n) =~= d);
    }
}

/// Actor entities carry the id of their position.
proof fn lemma_actor_ids(ts: Seq<Seq<char>>)
    ensures
        forall|i: int|
            0 <= i < actor_entities(ts).len() ==> (#[trigger] actor_entities(ts)[i]).id
                == entity_id_chars(i as nat),
    decreases ts.len(),
{
    if ts.len() != 0 {
        lemma_actor_ids(ts.drop_last());
        let rest = actor_entities(ts.drop_last());
        assert forall|i: int| 0 <= i < actor_entities(ts).len() implies (#[trigger] actor_entities(
            ts,
        )[i]).id == entity_id_chars(i as nat) by {
            if i < rest.len() {
                assert(actor_entities(ts)[i] == rest[i]);
            } else {
                assert(actor_entities(ts)[i] == actor_view(ts.last(), rest.len()));
            }
        }
    }
}

/// Value entities carry the id of `base` plus their position.
proof fn lemma_value_ids(ts: Seq<Seq<char>>, base: nat)
    ensures
        forall|i: int|
            0 <= i < value_entities(ts, base).len() ==> (#[trigger] value_entities(ts, base)[i]).id
                == entity_id_chars((base + i) as nat),
    decreases ts.len(),
{
    if ts.len() != 0 {
        lemma_value_ids(ts.drop_last(), base);
        let rest = value_entities(ts.drop_last(), base);
        assert forall|i: int| 0 <= i < value_entities(ts, base).len() implies (
        #[trigger] value_entities(ts, base)[i]).id == entity_id_chars((base + i) as nat) by {
            if i < rest.len() {
                assert(value_entities(ts, base)[i] == rest[i]);
            } else {
                assert(value_entities(ts, base)[i] == value_view(base + rest.len()));
            }
        }
    }
}

/// Every extracted entity carries the id of its position, so ids are
/// unique within the extracted sequence.
proof fn lemma_all_entities_ids(ts: Seq<Seq<char>>)
    ensures
        forall|i: int|
            0 <= i < all_entities(ts).len() ==> (#[trigger] all_entities(ts)[i]).id
                == entity_id_chars(i as nat),
{
    lemma_actor_ids(ts);
    lemma_value_ids(ts, actor_entities(ts).len());
    assert forall|i: int| 0 <= i < all_entities(ts).len() implies (#[trigger] all_entities(
        ts,
    )[i]).id == entity_id_chars(i as nat) by {
        let na = actor_entities(ts).len() as int;
        if i < na {
            assert(all_entities(ts)[i] == actor_entities(ts)[i]);
        } else {
            assert(all_entities(ts)[i] == value_entities(ts, na as nat)[i - na]);
        }
    }
}

/// Every relation the builder emits references extracted entity ids.
proof fn lemma_row_refs(es: Seq<EntityView>, i: int, j: int)
    requires
        0 <= i < es.len(),
        i < j,
    ensures
        forall|k: int|
            0 <= k < row_from(es, i, j).len() ==> exists|p: int, q: int|
                0 <= p < es.len() && 0 <= q < es.len() && #[trigger] row_from(es, i, j)[k]
                    == rel_view(es[p].id, es[q].id),
    decreases es.len() - j,
{
    if j < es.len() {
        lemma_row_refs(es, i, j + 1);
        assert forall|k: int| 0 <= k < row_from(es, i, j).len() implies exists|p: int, q: int|
            0 <= p < es.len() && 0 <= q < es.len() && #[trigger] row_from(es, i, j)[k] == rel_view(
                es[p].id,
                es[q].id,
            ) by {
            if k == 0 {
                assert(row_from(es, i, j)[0] == rel_view(es[i].id, es[j].id));
            } else {
                assert(row_from(es, i, j)[k] == row_from(es, i, j + 1)[k - 1]);
            }
        }
    }
}

proof fn lemma_rels_refs(es: Seq<EntityView>, i: int)
    ensures
        forall|k: int|
            0 <= k < rels_from(es, i).len() ==> exists|p: int, q: int|
                0 <= p < es.len() && 0 <= q < es.len() && #[trigger] rels_from(es, i)[k]
                    == rel_view(es[p].id, es[q].id),
    decreases es.len() - i,
{
    if 0 <= i < es.len() {
        lemma_row_refs(es, i, i + 1);
        lemma_rels_refs(es, i + 1);
        let row = row_from(es, i, i + 1);
        assert forall|k: int| 0 <= k < rels_from(es, i).len() implies exists|p: int, q: int|
            0 <= p < es.len() && 0 <= q < es.len() && #[trigger] rels_from(es, i)[k] == rel_view(
                es[p].id,
                es[q].id,
            ) by {
            if k < row.len() {
                assert(rels_from(es, i)[k] == row[k]);
            } else {
                assert(rels_from(es, i)[k] == rels_from(es, i + 1)[k - row.len()]);
            }
        }
    }
}

/// The transformed context satisfies the data-model invariants: entity
/// ids are unique within it, and no relation references a missing id.
pub proof fn lemma_transformed_view_wf(raws: Seq<Seq<char>>)
    ensures
        unique_entity_ids(transformed_view(raws)),
        crate::types::relations_reference_entities(transformed_view(raws)),
{
    let c = transformed_view(raws);
    let ts = ctx_tokens(raws);
    lemma_all_entities_ids(ts);
    assert forall|i: int, j: int| 0 <= i < j < c.entities.len() implies c.entities[i].id
        != c.entities[j].id by {
        if c.entities[i].id == c.entities[j].id {
            lemma_entity_id_injective(i as nat, j as nat);
        }
    }
    lemma_rels_refs(all_entities(ts), 0);
    assert forall|i: int| 0 <= i < c.relations.len() implies crate::types::referenced(
        c.entities,
        (#[trigger] c.relations[i]).from,
    ) && crate::types::referenced(c.entities, c.relations[i].to) by {
        assert(c.relations[i] == rels_from(all_entities(ts), 0)[i]);
        let (p, q) = choose|p: int, q: int|
            0 <= p < all_entities(ts).len() && 0 <= q < all_entities(ts).len() && rels_from(
                all_entities(ts),
                0,
            )[i] == rel_view(all_entities(ts)[p].id, all_entities(ts)[q].id);
        assert(c.entities[p].id == c.relations[i].from);
        assert(c.entities[q].id == c.relations[i].to);
    }
}

// ---------------------------------------------------------------------------
// Canonicalization and the output hash
// ---------------------------------------------------------------------------

/// The canonical encoding: entities sorted by id, relations sorted by
/// (from, to, type), then the fixed-order encoding.
pub open spec fn spec_canonical(c: ContextView) -> Seq<char> {
    enc_context_view(
        ContextView {
            schema_version: c.schema_version,
            entities: insertion_sort(c.entities, |a: EntityView, b: EntityView| ent_le(a, b)),
            relations: insertion_sort(c.relations, |a: RelationView, b: RelationView| rel_le(a, b)),
            constraints: c.constraints,
            metadata: c.metadata,
        },
    )
}

/// The byte of a character of the canonical encoding. The encoding is
/// printable ASCII by construction; anything else would be replaced.
pub open spec fn char_byte(c: char) -> u8 {
    if (c as int) < 128 {
        (c as int) as u8
    } else {
        63u8
    }
}

/// The bytes of a character sequence, character by character.
pub open spec fn char_bytes(s: Seq<char>) -> Seq<u8> {
    Seq::new(s.len(), |i: int| char_byte(s[i]))
}

/// The output hash of a context: the lowercase hex digest of the
/// canonical encoding.
pub open spec fn spec_output_hash(c: ContextView) -> Seq<char> {
    hex_of_bytes(sha256_of(char_bytes(spec_canonical(c))))
}

/// Canonicalizes a context: sorts entities by id and relations by
/// (from, to, type), and encodes the result without whitespace.
pub fn canonicalize(ctx: &TransformedContext) -> (r: Vec<char>)
    ensures
        r@ == spec_canonical(ctx@),
{
    let sorted_entities = sort_entities(&ctx.entities);
    let sorted_relations = sort_relations(&ctx.relations);
    let r = encode_context_parts(
        &ctx.schema_version,
        &sorted_entities,
        &sorted_relations,
        &ctx.constraints,
        &ctx.metadata,
    );
    proof {
        assert(ContextView {
            schema_version: ctx.schema_version@,
            entities: sorted_entities@.map_values(|e: Entity| e@),
            relations: sorted_relations@.map_values(|x: Relation| x@),
            constraints: crate::types::attrs_view(ctx.constraints),
            metadata: crate::types::attrs_view(ctx.metadata),
        } == ContextView {
            schema_version: ctx@.schema_version,
            entities: insertion_sort(ctx@.entities, |a: EntityView, b: EntityView| ent_le(a, b)),
            relations: insertion_sort(
                ctx@.relations,
                |a: RelationView, b: RelationView| rel_le(a, b),
            ),
            constraints: ctx@.constraints,
            metadata: ctx@.metadata,
        });
    }
    r
}

/// The bytes of a character vector, character by character.
pub fn chars_to_bytes(v: &Vec<char>) -> (r: Vec<u8>)
    ensures
        r@ == char_bytes(v@),
{
    let mut bytes: Vec<u8> = Vec::new();
    let mut i: usize = 0;
    while i < v.len()
        invariant
            i <= v@.len(),
            bytes@ =~= char_bytes(v@).take(i as int),
        decreases v@.len() - i,
    {
        let c = v[i];
        let u = crate::text::char_code(c);
        if u < 128 {
            proof {
                assert((u as u8) as int == c as int);
                assert(char_byte(c) as int == c as int);
            }
            bytes.push(u as u8);
        } else {
            bytes.push(63u8);
        }
        i = i + 1;
        proof {
            assert(bytes@ =~= char_bytes(v@).take(i as int));
        }
    }
    proof {
        assert(char_bytes(v@).take(v@.len() as int) =~= char_bytes(v@));
    }
    bytes
}

/// Computes the output hash over the canonical form of the context.
/// Identical content yields an identical hash, whatever the construction
/// order was.
pub fn compute_output_hash(context: &TransformedContext) -> (r: Result<String, EnclaveError>)
    ensures
        r is Ok,
        r matches Ok(h) ==> h@ == spec_output_hash(context@) && h@.len() == 64,
{
    let canonical = canonicalize(context);
    let bytes = chars_to_bytes(&canonical);
    let digest = sha256(&bytes);
    let hash = hex_encode(&digest);
    proof {
        lemma_hex_of_bytes_len(digest@);
    }
    Ok(hash)
}

// ---------------------------------------------------------------------------
// Order independence
// ---------------------------------------------------------------------------

/// Canonicalization is order independent: two contexts that agree on
/// everything except the order in which entities and relations were
/// constructed — same entity multiset with unique ids, same relation
/// multiset — have the same canonical encoding, and so the same output
/// hash.
pub proof fn lemma_canonical_order_independent(c1: ContextView, c2: ContextView)
    requires
        unique_entity_ids(c1),
        unique_entity_ids(c2),
        c1.entities.to_multiset() == c2.entities.to_multiset(),
        c1.relations.to_multiset() == c2.relations.to_multiset(),
        c1.schema_version == c2.schema_version,
        c1.constraints == c2.constraints,
        c1.metadata == c2.metadata,
    ensures
        spec_canonical(c1) == spec_canonical(c2),
        spec_output_hash(c1) == spec_output_hash(c2),
{
    let le_e = |a: EntityView, b: EntityView| ent_le(a, b);
    let le_r = |a: RelationView, b: RelationView| rel_le(a, b);
    lemma_ent_le_total();
    lemma_ent_le_transitive();
    lemma_rel_le_total();
    lemma_rel_le_transitive();
    lemma_insertion_sort_props(c1.entities, le_e);
    lemma_insertion_sort_props(c2.entities, le_e);
    lemma_insertion_sort_props(c1.relations, le_r);
    lemma_insertion_sort_props(c2.relations, le_r);
    let s1 = insertion_sort(c1.entities, le_e);
    let s2 = insertion_sort(c2.entities, le_e);
    assert forall|a: EntityView, b: EntityView|
        s1.contains(a) && s1.contains(b) && #[trigger] le_e(a, b) && #[trigger] le_e(
            b,
            a,
        ) implies a == b by {
        crate::text::lemma_lex_le_antisymmetric(a.id, b.id);
        assert(s1.to_multiset().count(a) > 0);
        assert(c1.entities.to_multiset().count(a) > 0);
        assert(c1.entities.contains(a));
        assert(c1.entities.to_multiset().count(b) > 0);
        assert(c1.entities.contains(b));
        let i = choose|i: int| 0 <= i < c1.entities.len() && c1.entities[i] == a;
        let j = choose|j: int| 0 <= j < c1.entities.len() && c1.entities[j] == b;
        if i != j {
            assert(c1.entities[i].id != c1.entities[j].id);
        }
    }
    lemma_sorted_unique(s1, s2, le_e);
    let r1 = insertion_sort(c1.relations, le_r);
    let r2 = insertion_sort(c2.relations, le_r);
    assert forall|a: RelationView, b: RelationView|
        r1.contains(a) && r1.contains(b) && #[trigger] le_r(a, b) && #[trigger] le_r(
            b,
            a,
        ) implies a == b by {
        if a.from != b.from {
            crate::text::lemma_lex_le_antisymmetric(a.from, b.from);
        } else if a.to != b.to {
            crate::text::lemma_lex_le_antisymmetric(a.to, b.to);
        } else {
            crate::text::lemma_lex_le_antisymmetric(a.relation_type, b.relation_type);
        }
    }
    lemma_sorted_unique(r1, r2, le_r);
    assert(ContextView {
        schema_version: c1.schema_version,
        entities: s1,
        relations: r1,
        constraints: c1.constraints,
        metadata: c1.metadata,
    } == ContextView {
        schema_version: c2.schema_version,
        entities: s2,
        relations: r2,
        constraints: c2.constraints,
        metadata: c2.metadata,
    });
}

} // verus!
