//! Canonical, whitespace-free text encoding of the semantic context, and
//! verbatim substring search over it.
//!
//! The encoding is a function of the context alone: fields appear in a
//! fixed order, strings are quoted with `"` and `\` escaped and all
//! non-printable or non-ASCII characters written as a fixed-width `\u`
//! escape, so the encoded form is printable ASCII and identical content
//! always encodes identically.

use vstd::prelude::*;
use crate::text::dec_digits;
use crate::types::AttrValue;
use crate::types::AttrValueView;
use crate::types::ContextView;
use crate::types::Entity;
use crate::types::EntityView;
use crate::types::Relation;
use crate::types::RelationView;
use crate::text::str_chars;

verus! {

// ---------------------------------------------------------------------------
// Specification of the encoding
// ---------------------------------------------------------------------------

/// The character for a single hexadecimal digit, lowercase.
pub open spec fn hex_digit(d: nat) -> char {
    if d == 0 {
        '0'
    } else if d == 1 {
        '1'
    } else if d == 2 {
        '2'
    } else if d == 3 {
        '3'
    } else if d == 4 {
        '4'
    } else if d == 5 {
        '5'
    } else if d == 6 {
        '6'
    } else if d == 7 {
        '7'
    } else if d == 8 {
        '8'
    } else if d == 9 {
        '9'
    } else if d == 10 {
        'a'
    } else if d == 11 {
        'b'
    } else if d == 12 {
        'c'
    } else if d == 13 {
        'd'
    } else if d == 14 {
        'e'
    } else {
        'f'
    }
}

/// Six fixed-width hexadecimal digits of `n`, most significant first.
pub open spec fn hex6(n: nat) -> Seq<char> {
    seq![
        hex_digit((n / 0x100000) % 16),
        hex_digit((n / 0x10000) % 16),
        hex_digit((n / 0x1000) % 16),
        hex_digit((n / 0x100) % 16),
        hex_digit((n / 0x10) % 16),
        hex_digit(n % 16),
    ]
}

/// The escaped form of one character inside a quoted string.
pub open spec fn esc_char(c: char) -> Seq<char> {
    if c == '"' {
        seq!['\\', '"']
    } else if c == '\\' {
        seq!['\\', '\\']
    } else if 32 <= (c as int) && (c as int) < 127 {
        seq![c]
    } else {
        seq!['\\', 'u'] + hex6(c as nat)
    }
}

/// The escaped forms of all characters of `s`, concatenated.
pub open spec fn esc_chars(s: Seq<char>) -> Seq<char>
    decreases s.len(),
{
    if s.len() == 0 {
        Seq::empty()
    } else {
        esc_chars(s.drop_last()) + esc_char(s.last())
    }
}

/// A quoted, escaped string.
pub open spec fn enc_string(s: Seq<char>) -> Seq<char> {
    seq!['"'] + esc_chars(s) + seq!['"']
}

/// An encoded attribute value.
pub open spec fn enc_attr_value(v: AttrValueView) -> Seq<char> {
    match v {
        AttrValueView::Text(s) => enc_string(s),
        AttrValueView::Count(n) => dec_digits(n),
    }
}

/// Encoded `key:value` attribute pairs, separated by commas.
pub open spec fn enc_attr_items(s: Seq<(Seq<char>, AttrValueView)>) -> Seq<char>
    decreases s.len(),
{
    if s.len() == 0 {
        Seq::empty()
    } else if s.len() == 1 {
        enc_string(s[0].0) + seq![':'] + enc_attr_value(s[0].1)
    } else {
        enc_attr_items(s.drop_last()) + seq![','] + enc_string(s.last().0) + seq![':']
            + enc_attr_value(s.last().1)
    }
}

/// One encoded entity.
pub open spec fn enc_entity(e: EntityView) -> Seq<char> {
    "{\"id\":"@ + enc_string(e.id) + ",\"role\":"@ + enc_string(e.role) + ",\"attributes\":{"@
        + enc_attr_items(e.attributes) + "}}"@
}

/// Encoded entities, separated by commas.
pub open spec fn enc_entity_items(s: Seq<EntityView>) -> Seq<char>
    decreases s.len(),
{
    if s.len() == 0 {
        Seq::empty()
    } else if s.len() == 1 {
        enc_entity(s[0])
    } else {
        enc_entity_items(s.drop_last()) + seq![','] + enc_entity(s.last())
    }
}

/// One encoded relation.
pub open spec fn enc_relation(r: RelationView) -> Seq<char> {
    "{\"type\":"@ + enc_string(r.relation_type) + ",\"from\":"@ + enc_string(r.from) + ",\"to\":"@
        + enc_string(r.to) + "}"@
}

/// Encoded relations, separated by commas.
pub open spec fn enc_relation_items(s: Seq<RelationView>) -> Seq<char>
    decreases s.len(),
{
    if s.len() == 0 {
        Seq::empty()
    } else if s.len() == 1 {
        enc_relation(s[0])
    } else {
        enc_relation_items(s.drop_last()) + seq![','] + enc_relation(s.last())
    }
}

/// An optional named attribute map; absent maps to nothing.
pub open spec fn enc_opt_attrs(name: Seq<char>, o: Option<Seq<(Seq<char>, AttrValueView)>>) -> Seq<
    char,
> {
    match o {
        Option::None => Seq::empty(),
        Option::Some(a) => seq![',', '"'] + name + seq!['"', ':', '{'] + enc_attr_items(a)
            + seq!['}'],
    }
}

/// The full encoded context, fields in fixed order.
pub open spec fn enc_context_view(c: ContextView) -> Seq<char> {
    "{\"schema_version\":"@ + enc_string(c.schema_version) + ",\"entities\":["@ + enc_entity_items(
        c.entities,
    ) + "],\"relations\":["@ + enc_relation_items(c.relations) + "]"@ + enc_opt_attrs(
        "constraints"@,
        c.constraints,
    ) + enc_opt_attrs("metadata"@, c.metadata) + "}"@
}

/// The encoded entity/relation pair checked by the boundary gate.
pub open spec fn enc_pair_view(es: Seq<EntityView>, rs: Seq<RelationView>) -> Seq<char> {
    "[["@ + enc_entity_items(es) + "],["@ + enc_relation_items(rs) + "]]"@
}

// ---------------------------------------------------------------------------
// Executable encoder
// ---------------------------------------------------------------------------

/// Appends the characters of a literal to the buffer.
fn push_lit(buf: &mut Vec<char>, s: &str)
    ensures
        final(buf)@ == old(buf)@ + s@,
{
    let mut t = str_chars(s);
    buf.append(&mut t);
}

/// The character for a hexadecimal digit below 16.
fn hex_digit_char(d: u32) -> (c: char)
    requires
        d < 16,
    ensures
        c == hex_digit(d as nat),
{
    if d == 0 {
        '0'
    } else if d == 1 {
        '1'
    } else if d == 2 {
        '2'
    } else if d == 3 {
        '3'
    } else if d == 4 {
        '4'
    } else if d == 5 {
        '5'
    } else if d == 6 {
        '6'
    } else if d == 7 {
        '7'
    } else if d == 8 {
        '8'
    } else if d == 9 {
        '9'
    } else if d == 10 {
        'a'
    } else if d == 11 {
        'b'
    } else if d == 12 {
        'c'
    } else if d == 13 {
        'd'
    } else if d == 14 {
        'e'
    } else {
        'f'
    }
}

/// Appends the escaped form of one character.
fn push_esc_char(buf: &mut Vec<char>, c: char)
    ensures
        final(buf)@ == old(buf)@ + esc_char(c),
{
    if c == '"' {
        buf.push('\\');
        buf.push('"');
        proof {
            assert(final(buf)@ =~= old(buf)@ + esc_char(c));
        }
    } else if c == '\\' {
        buf.push('\\');
        buf.push('\\');
        proof {
            assert(final(buf)@ =~= old(buf)@ + esc_char(c));
        }
    } else {
        let u = c as u32;
        if 32 <= u && u < 127 {
            buf.push(c);
            proof {
                assert(final(buf)@ =~= old(buf)@ + esc_char(c));
            }
        } else {
            buf.push('\\');
            buf.push('u');
            buf.push(hex_digit_char((u / 0x100000) % 16));
            buf.push(hex_digit_char((u / 0x10000) % 16));
            buf.push(hex_digit_char((u / 0x1000) % 16));
            buf.push(hex_digit_char((u / 0x100) % 16));
            buf.push(hex_digit_char((u / 0x10) % 16));
            buf.push(hex_digit_char(u % 16));
            proof {
                assert(final(buf)@ =~= old(buf)@ + esc_char(c));
            }
        }
    }
}

/// Appends a quoted, escaped string.
fn push_enc_string(buf: &mut Vec<char>, s: &str)
    ensures
        final(buf)@ == old(buf)@ + enc_string(s@),
{
    buf.push('"');
    let len = s.unicode_len();
    let mut i: usize = 0;
    while i < len
        invariant
            i <= len,
            len == s@.len(),
            buf@ == old(buf)@ + seq!['"'] + esc_chars(s@.take(i as int)),
        decreases len - i,
    {
        let c = s.get_char(i);
        push_esc_char(buf, c);
        i = i + 1;
        proof {
            assert(s@.take(i as int).drop_last() =~= s@.take(i as int - 1));
            assert(s@.take(i as int).last() == s@[i as int - 1]);
        }
    }
    buf.push('"');
    proof {
        assert(s@.take(len as int) =~= s@);
        assert(final(buf)@ =~= old(buf)@ + enc_string(s@));
    }
}

/// The view of an attribute pair sequence.
pub open spec fn attr_pairs_view(s: Seq<(String, AttrValue)>) -> Seq<(Seq<char>, AttrValueView)> {
    s.map_values(|p: (String, AttrValue)| (p.0@, p.1@))
}

/// Appends comma-separated `key:value` attribute pairs.
fn push_attr_items(buf: &mut Vec<char>, attrs: &Vec<(String, AttrValue)>)
    ensures
        final(buf)@ == old(buf)@ + enc_attr_items(attr_pairs_view(attrs@)),
{
    let mut i: usize = 0;
    while i < attrs.len()
        invariant
            i <= attrs@.len(),
            buf@ == old(buf)@ + enc_attr_items(attr_pairs_view(attrs@.take(i as int))),
        decreases attrs@.len() - i,
    {
        if i > 0 {
            buf.push(',');
        }
        let (k, v) = &attrs[i];
        push_enc_string(buf, k.as_str());
        buf.push(':');
        match v {
            AttrValue::Text(t) => push_enc_string(buf, t.as_str()),
            AttrValue::Count(n) => crate::text::push_dec(buf, *n),
        }
        i = i + 1;
        proof {
            let pv = attr_pairs_view(attrs@.take(i as int));
            assert(attr_pairs_view(attrs@.take(i as int - 1)) =~= pv.drop_last());
            assert(pv.last().0 == attrs@[i as int - 1].0@);
            assert(pv.last().1 == attrs@[i as int - 1].1@);
            assert(buf@ =~= old(buf)@ + enc_attr_items(pv));
        }
    }
    proof {
        assert(attrs@.take(attrs@.len() as int) =~= attrs@);
    }
}

/// Appends one encoded entity.
fn push_entity(buf: &mut Vec<char>, e: &Entity)
    ensures
        final(buf)@ == old(buf)@ + enc_entity(e@),
{
    push_lit(buf, "{\"id\":");
    push_enc_string(buf, e.id.as_str());
    push_lit(buf, ",\"role\":");
    push_enc_string(buf, e.role.as_str());
    push_lit(buf, ",\"attributes\":{");
    push_attr_items(buf, &e.attributes);
    push_lit(buf, "}}");
    proof {
        assert(final(buf)@ =~= old(buf)@ + enc_entity(e@));
    }
}

/// Appends comma-separated encoded entities.
fn push_entity_items(buf: &mut Vec<char>, es: &Vec<Entity>)
    ensures
        final(buf)@ == old(buf)@ + enc_entity_items(es@.map_values(|e: Entity| e@)),
{
    let mut i: usize = 0;
    while i < es.len()
        invariant
            i <= es@.len(),
            buf@ == old(buf)@ + enc_entity_items(es@.take(i as int).map_values(|e: Entity| e@)),
        decreases es@.len() - i,
    {
        if i > 0 {
            buf.push(',');
        }
        push_entity(buf, &es[i]);
        i = i + 1;
        proof {
            let pv = es@.take(i as int).map_values(|e: Entity| e@);
            assert(es@.take(i as int - 1).map_values(|e: Entity| e@) =~= pv.drop_last());
            assert(pv.last() == es@[i as int - 1]@);
            assert(buf@ =~= old(buf)@ + enc_entity_items(pv));
        }
    }
    proof {
        assert(es@.take(es@.len() as int) =~= es@);
    }
}

/// Appends one encoded relation.
fn push_relation(buf: &mut Vec<char>, r: &Relation)
    ensures
        final(buf)@ == old(buf)@ + enc_relation(r@),
{
    push_lit(buf, "{\"type\":");
    push_enc_string(buf, r.relation_type.as_str());
    push_lit(buf, ",\"from\":");
    push_enc_string(buf, r.from.as_str());
    push_lit(buf, ",\"to\":");
    push_enc_string(buf, r.to.as_str());
    push_lit(buf, "}");
    proof {
        assert(final(buf)@ =~= old(buf)@ + enc_relation(r@));
    }
}

/// Appends comma-separated encoded relations.
fn push_relation_items(buf: &mut Vec<char>, rs: &Vec<Relation>)
    ensures
        final(buf)@ == old(buf)@ + enc_relation_items(rs@.map_values(|r: Relation| r@)),
{
    let mut i: usize = 0;
    while i < rs.len()
        invariant
            i <= rs@.len(),
            buf@ == old(buf)@ + enc_relation_items(
                rs@.take(i as int).map_values(|r: Relation| r@),
            ),
        decreases rs@.len() - i,
    {
        if i > 0 {
            buf.push(',');
        }
        push_relation(buf, &rs[i]);
        i = i + 1;
        proof {
            let pv = rs@.take(i as int).map_values(|r: Relation| r@);
            assert(rs@.take(i as int - 1).map_values(|r: Relation| r@) =~= pv.drop_last());
            assert(pv.last() == rs@[i as int - 1]@);
            assert(buf@ =~= old(buf)@ + enc_relation_items(pv));
        }
    }
    proof {
        assert(rs@.take(rs@.len() as int) =~= rs@);
    }
}

/// Appends an optional named attribute map.
fn push_opt_attrs(buf: &mut Vec<char>, name: &str, o: &Option<Vec<(String, AttrValue)>>)
    ensures
        final(buf)@ == old(buf)@ + enc_opt_attrs(name@, crate::types::attrs_view(*o)),
{
    match o {
        Option::None => {
            proof {
                assert(final(buf)@ =~= old(buf)@ + enc_opt_attrs(
                    name@,
                    crate::types::attrs_view(*o),
                ));
            }
        },
        Option::Some(a) => {
            buf.push(',');
            buf.push('"');
            push_lit(buf, name);
            buf.push('"');
            buf.push(':');
            buf.push('{');
            push_attr_items(buf, a);
            buf.push('}');
            proof {
                assert(final(buf)@ =~= old(buf)@ + enc_opt_attrs(
                    name@,
                    crate::types::attrs_view(*o),
                ));
            }
        },
    }
}

/// Encodes a context whose entities and relations are given separately,
/// so a caller can encode a reordered form of the same context.
pub fn encode_context_parts(
    schema_version: &String,
    entities: &Vec<Entity>,
    relations: &Vec<Relation>,
    constraints: &Option<Vec<(String, AttrValue)>>,
    metadata: &Option<Vec<(String, AttrValue)>>,
) -> (r: Vec<char>)
    ensures
        r@ == enc_context_view(
            ContextView {
                schema_version: schema_version@,
                entities: entities@.map_values(|e: Entity| e@),
                relations: relations@.map_values(|x: Relation| x@),
                constraints: crate::types::attrs_view(*constraints),
                metadata: crate::types::attrs_view(*metadata),
            },
        ),
{
    let mut buf: Vec<char> = Vec::new();
    push_lit(&mut buf, "{\"schema_version\":");
    push_enc_string(&mut buf, schema_version.as_str());
    push_lit(&mut buf, ",\"entities\":[");
    push_entity_items(&mut buf, entities);
    push_lit(&mut buf, "],\"relations\":[");
    push_relation_items(&mut buf, relations);
    push_lit(&mut buf, "]");
    push_opt_attrs(&mut buf, "constraints", constraints);
    push_opt_attrs(&mut buf, "metadata", metadata);
    push_lit(&mut buf, "}");
    proof {
        assert(buf@ =~= enc_context_view(
            ContextView {
                schema_version: schema_version@,
                entities: entities@.map_values(|e: Entity| e@),
                relations: relations@.map_values(|x: Relation| x@),
                constraints: crate::types::attrs_view(*constraints),
                metadata: crate::types::attrs_view(*metadata),
            },
        ));
    }
    buf
}

/// Encodes the entity/relation pair checked by the boundary gate.
pub fn encode_pair(entities: &Vec<Entity>, relations: &Vec<Relation>) -> (r: Vec<char>)
    ensures
        r@ == enc_pair_view(
            entities@.map_values(|e: Entity| e@),
            relations@.map_values(|x: Relation| x@),
        ),
{
    let mut buf: Vec<char> = Vec::new();
    push_lit(&mut buf, "[[");
    push_entity_items(&mut buf, entities);
    push_lit(&mut buf, "],[");
    push_relation_items(&mut buf, relations);
    push_lit(&mut buf, "]]");
    proof {
        assert(buf@ =~= enc_pair_view(
            entities@.map_values(|e: Entity| e@),
            relations@.map_values(|x: Relation| x@),
        ));
    }
    buf
}

// ---------------------------------------------------------------------------
// Verbatim substring search
// ---------------------------------------------------------------------------

/// `needle` occurs verbatim at position `k` of `hay`.
pub open spec fn match_at(hay: Seq<char>, needle: Seq<char>, k: int) -> bool {
    0 <= k && k + needle.len() <= hay.len() && hay.subrange(k, k + needle.len() as int) == needle
}

/// `needle` occurs verbatim somewhere in `hay`.
pub open spec fn contains_sub(hay: Seq<char>, needle: Seq<char>) -> bool {
    exists|k: int| match_at(hay, needle, k)
}

/// Whether `needle` occurs verbatim in `hay`.
pub fn find_sub(hay: &Vec<char>, needle: &Vec<char>) -> (r: bool)
    ensures
        r == contains_sub(hay@, needle@),
{
    let n = needle.len();
    let h = hay.len();
    if n > h {
        proof {
            assert(forall|k: int| !match_at(hay@, needle@, k));
        }
        return false;
    }
    if n == 0 {
        proof {
            assert(hay@.subrange(0, 0) =~= needle@);
            assert(match_at(hay@, needle@, 0));
        }
        return true;
    }
    let mut k: usize = 0;
    while k <= h - n
        invariant
            n == needle@.len(),
            h == hay@.len(),
            1 <= n <= h,
            k <= h - n + 1,
            forall|j: int| 0 <= j < k ==> !match_at(hay@, needle@, j),
        decreases h - n + 1 - k,
    {
        let mut i: usize = 0;
        let mut matched = true;
        while i < n
            invariant
                n == needle@.len(),
                h == hay@.len(),
                k + n <= h,
                i <= n,
                matched ==> forall|j: int| 0 <= j < i ==> hay@[k + j] == needle@[j],
                !matched ==> !match_at(hay@, needle@, k as int),
            decreases n - i,
        {
            if hay[k + i] != needle[i] {
                proof {
                    assert(hay@.subrange(k as int, k + n as int)[i as int] != needle@[i as int]);
                    assert(!match_at(hay@, needle@, k as int));
                }
                matched = false;
                i = n;
            } else {
                i = i + 1;
            }
        }
        if matched {
            proof {
                assert(hay@.subrange(k as int, k + n as int) =~= needle@);
                assert(match_at(hay@, needle@, k as int));
            }
            return true;
        }
        k = k + 1;
    }
    proof {
        assert(forall|j: int| !match_at(hay@, needle@, j));
    }
    false
}

} // verus!
