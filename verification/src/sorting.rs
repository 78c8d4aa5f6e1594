//! Insertion sort with an exact functional specification, the orders used
//! by canonicalization, and the uniqueness of sorted permutations.

use vstd::prelude::*;
use vstd::relations::sorted_by;
use vstd::multiset::Multiset;
use crate::text::lex_le;
use crate::text::lemma_lex_le_total;
use crate::text::lemma_lex_le_antisymmetric;
use crate::text::str_lex_le;
use crate::types::Entity;
use crate::types::EntityView;
use crate::types::Relation;
use crate::types::RelationView;

verus! {

broadcast use vstd::seq_lib::group_to_multiset_ensures;

// ---------------------------------------------------------------------------
// Sorting, specified
// ---------------------------------------------------------------------------

/// `x` inserted in front of the first element of `s` it precedes.
pub open spec fn insert_sorted<A>(s: Seq<A>, x: A, le: spec_fn(A, A) -> bool) -> Seq<A>
    decreases s.len(),
{
    if s.len() == 0 {
        seq![x]
    } else if le(x, s[0]) {
        seq![x] + s
    } else {
        seq![s[0]] + insert_sorted(s.drop_first(), x, le)
    }
}

/// The elements of `s`, inserted one by one in order.
pub open spec fn insertion_sort<A>(s: Seq<A>, le: spec_fn(A, A) -> bool) -> Seq<A>
    decreases s.len(),
{
    if s.len() == 0 {
        Seq::empty()
    } else {
        insert_sorted(insertion_sort(s.drop_last(), le), s.last(), le)
    }
}

/// Inserting keeps a sorted sequence sorted and adds one occurrence of `x`.
pub proof fn lemma_insert_sorted_props<A>(s: Seq<A>, x: A, le: spec_fn(A, A) -> bool)
    requires
        sorted_by(s, le),
        forall|a: A, b: A| #[trigger] le(a, b) || #[trigger] le(b, a),
        forall|a: A, b: A, c: A| #[trigger] le(a, b) && #[trigger] le(b, c) ==> le(a, c),
    ensures
        sorted_by(insert_sorted(s, x, le), le),
        insert_sorted(s, x, le).to_multiset() == s.to_multiset().insert(x),
        insert_sorted(s, x, le).len() == s.len() + 1,
    decreases s.len(),
{
    let r = insert_sorted(s, x, le);
    if s.len() == 0 {
        assert(r =~= Seq::empty().push(x));
        assert(s.to_multiset() =~= Multiset::empty());
        assert(r.to_multiset() =~= s.to_multiset().insert(x));
    } else if le(x, s[0]) {
        assert(r == seq![x] + s);
        assert forall|i: int, j: int| 0 <= i < j < r.len() implies #[trigger] le(r[i], r[j]) by {
            if i == 0 {
                if j == 1 {
                    assert(le(x, s[0]));
                } else {
                    assert(le(s[0], s[j - 1]));
                }
            } else {
                assert(le(s[i - 1], s[j - 1]));
            }
        }
        assert(r =~= s.insert(0, x));
        lemma_multiset_insert_any(s, x, 0);
    } else {
        let t = s.drop_first();
        assert forall|i: int, j: int| 0 <= i < j < t.len() implies #[trigger] le(t[i], t[j]) by {
            assert(le(s[i + 1], s[j + 1]));
        }
        lemma_insert_sorted_props(t, x, le);
        let rt = insert_sorted(t, x, le);
        assert(r == seq![s[0]] + rt);
        assert(le(s[0], x));
        assert forall|i: int, j: int| 0 <= i < j < r.len() implies #[trigger] le(r[i], r[j]) by {
            if i == 0 {
                // every element of rt is either x or drawn from t
                assert(rt.to_multiset().count(rt[j - 1]) > 0);
                if rt[j - 1] == x {
                    assert(le(s[0], r[j]));
                } else {
                    assert(t.to_multiset().insert(x).count(rt[j - 1]) > 0);
                    assert(t.to_multiset().count(rt[j - 1]) > 0);
                    assert(t.contains(rt[j - 1]));
                    let w = choose|w: int| 0 <= w < t.len() && t[w] == rt[j - 1];
                    assert(le(s[0], s[w + 1]));
                }
            } else {
                assert(le(rt[i - 1], rt[j - 1]));
            }
        }
        assert(r =~= rt.insert(0, s[0]));
        lemma_multiset_insert_any(rt, s[0], 0);
        assert(s =~= t.insert(0, s[0]));
        lemma_multiset_insert_any(t, s[0], 0);
        assert(r.to_multiset() =~= s.to_multiset().insert(x));
    }
}

/// Inserting an element anywhere adds one occurrence of it to the multiset.
proof fn lemma_multiset_insert_any<A>(s: Seq<A>, x: A, p: int)
    requires
        0 <= p <= s.len(),
    ensures
        s.insert(p, x).to_multiset() == s.to_multiset().insert(x),
{
    let r = s.insert(p, x);
    assert(r.remove(p) =~= s);
    assert(r.remove(p).to_multiset() =~= r.to_multiset().remove(r[p]));
    assert(r[p] == x);
    assert(r.to_multiset().count(x) > 0) by {
        assert(r.contains(x));
    }
    assert(r.to_multiset() =~= s.to_multiset().insert(x)) by {
        assert forall|y: A| true implies r.to_multiset().count(y) == s.to_multiset().insert(
            x,
        ).count(y) by {
            assert(s.to_multiset() == r.to_multiset().remove(x));
        }
    }
}

/// The sort is sorted and is a permutation of its input.
pub proof fn lemma_insertion_sort_props<A>(s: Seq<A>, le: spec_fn(A, A) -> bool)
    requires
        forall|a: A, b: A| #[trigger] le(a, b) || #[trigger] le(b, a),
        forall|a: A, b: A, c: A| #[trigger] le(a, b) && #[trigger] le(b, c) ==> le(a, c),
    ensures
        sorted_by(insertion_sort(s, le), le),
        insertion_sort(s, le).to_multiset() == s.to_multiset(),
    decreases s.len(),
{
    if s.len() == 0 {
        assert(insertion_sort(s, le) =~= Seq::<A>::empty());
        assert(s.to_multiset() =~= Seq::<A>::empty().to_multiset());
    } else {
        let t = s.drop_last();
        lemma_insertion_sort_props(t, le);
        lemma_insert_sorted_props(insertion_sort(t, le), s.last(), le);
        assert(s =~= t.push(s.last()));
    }
}

/// Two sorted sequences with the same multiset of elements are equal,
/// provided elements ordered both ways are equal.
pub proof fn lemma_sorted_unique<A>(s1: Seq<A>, s2: Seq<A>, le: spec_fn(A, A) -> bool)
    requires
        sorted_by(s1, le),
        sorted_by(s2, le),
        s1.to_multiset() == s2.to_multiset(),
        forall|a: A, b: A| #[trigger] le(a, b) || #[trigger] le(b, a),
        forall|a: A, b: A|
            s1.contains(a) && s1.contains(b) && #[trigger] le(a, b) && #[trigger] le(b, a) ==> a
                == b,
    ensures
        s1 == s2,
    decreases s1.len(),
{
    assert(s1.len() == s1.to_multiset().len());
    assert(s2.len() == s2.to_multiset().len());
    if s1.len() == 0 {
        assert(s1 =~= s2);
    } else {
        let a = s1[0];
        let b = s2[0];
        assert(s1.contains(a));
        assert(s2.contains(b));
        assert(s1.to_multiset().count(b) > 0);
        assert(s1.contains(b));
        assert(s2.to_multiset().count(a) > 0);
        assert(s2.contains(a));
        assert(le(a, b)) by {
            let i = choose|i: int| 0 <= i < s1.len() && s1[i] == b;
            if i == 0 {
                assert(le(a, b) || le(b, a));
            } else {
                assert(le(s1[0], s1[i]));
            }
        }
        assert(le(b, a)) by {
            let i = choose|i: int| 0 <= i < s2.len() && s2[i] == a;
            if i == 0 {
                assert(le(a, b) || le(b, a));
            } else {
                assert(le(s2[0], s2[i]));
            }
        }
        assert(a == b);
        let t1 = s1.drop_first();
        let t2 = s2.drop_first();
        assert(t1 =~= s1.remove(0));
        assert(t2 =~= s2.remove(0));
        assert(t1.to_multiset() =~= s1.to_multiset().remove(a));
        assert(t2.to_multiset() =~= s2.to_multiset().remove(b));
        assert forall|i: int, j: int| 0 <= i < j < t1.len() implies #[trigger] le(t1[i], t1[j]) by {
            assert(le(s1[i + 1], s1[j + 1]));
        }
        assert forall|i: int, j: int| 0 <= i < j < t2.len() implies #[trigger] le(t2[i], t2[j]) by {
            assert(le(s2[i + 1], s2[j + 1]));
        }
        assert forall|x: A, y: A|
            t1.contains(x) && t1.contains(y) && #[trigger] le(x, y) && #[trigger] le(
                y,
                x,
            ) implies x == y by {
            let i = choose|i: int| 0 <= i < t1.len() && t1[i] == x;
            let j = choose|j: int| 0 <= j < t1.len() && t1[j] == y;
            assert(s1[i + 1] == x);
            assert(s1[j + 1] == y);
            assert(s1.contains(x) && s1.contains(y));
        }
        lemma_sorted_unique(t1, t2, le);
        assert forall|i: int| 0 <= i < s1.len() implies s1[i] == s2[i] by {
            if i > 0 {
                assert(t1[i - 1] == t2[i - 1]);
            }
        }
        assert(s1 =~= s2);
    }
}

// ---------------------------------------------------------------------------
// The orders used by canonicalization
// ---------------------------------------------------------------------------

/// Entities are ordered by id.
pub open spec fn ent_le(a: EntityView, b: EntityView) -> bool {
    lex_le(a.id, b.id)
}

/// Relations are ordered lexicographically by (from, to, type).
pub open spec fn rel_le(a: RelationView, b: RelationView) -> bool {
    if a.from != b.from {
        lex_le(a.from, b.from)
    } else if a.to != b.to {
        lex_le(a.to, b.to)
    } else {
        lex_le(a.relation_type, b.relation_type)
    }
}

/// The entity order compares every pair, one way or the other.
pub proof fn lemma_ent_le_total()
    ensures
        forall|a: EntityView, b: EntityView| #[trigger] ent_le(a, b) || #[trigger] ent_le(b, a),
{
    assert forall|a: EntityView, b: EntityView| #[trigger]
        ent_le(a, b) || #[trigger] ent_le(b, a) by {
        lemma_lex_le_total(a.id, b.id);
    }
}

/// The entity order is transitive.
pub proof fn lemma_ent_le_transitive()
    ensures
        forall|a: EntityView, b: EntityView, c: EntityView|
            #[trigger] ent_le(a, b) && #[trigger] ent_le(b, c) ==> ent_le(a, c),
{
    assert forall|a: EntityView, b: EntityView, c: EntityView|
        #[trigger] ent_le(a, b) && #[trigger] ent_le(b, c) implies ent_le(a, c) by {
        crate::text::lemma_lex_le_transitive(a.id, b.id, c.id);
    }
}

/// The relation order compares every pair, one way or the other.
pub proof fn lemma_rel_le_total()
    ensures
        forall|a: RelationView, b: RelationView| #[trigger] rel_le(a, b) || #[trigger] rel_le(b, a),
{
    assert forall|a: RelationView, b: RelationView| #[trigger]
        rel_le(a, b) || #[trigger] rel_le(b, a) by {
        lemma_lex_le_total(a.from, b.from);
        lemma_lex_le_total(a.to, b.to);
        lemma_lex_le_total(a.relation_type, b.relation_type);
    }
}

/// The relation order is transitive.
pub proof fn lemma_rel_le_transitive()
    ensures
        forall|a: RelationView, b: RelationView, c: RelationView|
            #[trigger] rel_le(a, b) && #[trigger] rel_le(b, c) ==> rel_le(a, c),
{
    assert forall|a: RelationView, b: RelationView, c: RelationView|
        #[trigger] rel_le(a, b) && #[trigger] rel_le(b, c) implies rel_le(a, c) by {
        lemma_rel_le_transitive_one(a, b, c);
    }
}

proof fn lemma_rel_le_transitive_one(a: RelationView, b: RelationView, c: RelationView)
    requires
        rel_le(a, b),
        rel_le(b, c),
    ensures
        rel_le(a, c),
{
    if a.from != b.from {
        if b.from != c.from {
            crate::text::lemma_lex_le_transitive(a.from, b.from, c.from);
            if a.from == c.from {
                lemma_lex_le_antisymmetric(a.from, b.from);
            }
        } else {
            assert(lex_le(a.from, c.from));
        }
    } else if b.from != c.from {
        assert(lex_le(a.from, c.from));
    } else {
        // a.from == b.from == c.from
        if a.to != b.to {
            if b.to != c.to {
                crate::text::lemma_lex_le_transitive(a.to, b.to, c.to);
                if a.to == c.to {
                    lemma_lex_le_antisymmetric(a.to, b.to);
                }
            } else {
                assert(lex_le(a.to, c.to));
            }
        } else if b.to != c.to {
            assert(lex_le(a.to, c.to));
        } else {
            crate::text::lemma_lex_le_transitive(a.relation_type, b.relation_type, c.relation_type);
        }
    }
}

// ---------------------------------------------------------------------------
// Executable sorts
// ---------------------------------------------------------------------------

/// `insert_sorted` is insertion at the first admissible position.
proof fn lemma_insert_sorted_at<A>(s: Seq<A>, x: A, le: spec_fn(A, A) -> bool, j: int)
    requires
        0 <= j <= s.len(),
        forall|k: int| 0 <= k < j ==> !le(x, #[trigger] s[k]),
        j < s.len() ==> le(x, s[j]),
    ensures
        insert_sorted(s, x, le) == s.take(j) + seq![x] + s.skip(j),
    decreases j,
{
    if j == 0 {
        if s.len() == 0 {
            assert(insert_sorted(s, x, le) =~= s.take(0) + seq![x] + s.skip(0));
        } else {
            assert(le(x, s[0]));
            assert(insert_sorted(s, x, le) =~= s.take(0) + seq![x] + s.skip(0));
        }
    } else {
        assert(!le(x, s[0]));
        let t = s.drop_first();
        assert(forall|k: int| 0 <= k < j - 1 ==> !le(x, #[trigger] t[k]));
        lemma_insert_sorted_at(t, x, le, j - 1);
        assert(insert_sorted(s, x, le) == seq![s[0]] + (t.take(j - 1) + seq![x] + t.skip(j - 1)));
        assert(insert_sorted(s, x, le) =~= s.take(j) + seq![x] + s.skip(j));
    }
}

/// Whether entity `a` sorts at or before entity `b`.
fn entity_le(a: &Entity, b: &Entity) -> (r: bool)
    ensures
        r == ent_le(a@, b@),
{
    str_lex_le(a.id.as_str(), b.id.as_str())
}

/// Whether relation `a` sorts at or before relation `b`.
fn relation_le(a: &Relation, b: &Relation) -> (r: bool)
    ensures
        r == rel_le(a@, b@),
{
    if !(a.from == b.from) {
        str_lex_le(a.from.as_str(), b.from.as_str())
    } else if !(a.to == b.to) {
        str_lex_le(a.to.as_str(), b.to.as_str())
    } else {
        str_lex_le(a.relation_type.as_str(), b.relation_type.as_str())
    }
}

/// Sorts entities by id.
pub fn sort_entities(v: &Vec<Entity>) -> (r: Vec<Entity>)
    ensures
        r@.map_values(|e: Entity| e@) == insertion_sort(
            v@.map_values(|e: Entity| e@),
            |a: EntityView, b: EntityView| ent_le(a, b),
        ),
{
    let ghost le = |a: EntityView, b: EntityView| ent_le(a, b);
    proof {
        lemma_ent_le_total();
        lemma_ent_le_transitive();
    }
    let mut out: Vec<Entity> = Vec::new();
    let mut i: usize = 0;
    while i < v.len()
        invariant
            i <= v@.len(),
            out@.map_values(|e: Entity| e@) == insertion_sort(
                v@.take(i as int).map_values(|e: Entity| e@),
                le,
            ),
            sorted_by(out@.map_values(|e: Entity| e@), le),
            forall|a: EntityView, b: EntityView| #[trigger] le(a, b) || #[trigger] le(b, a),
            forall|a: EntityView, b: EntityView, c: EntityView|
                #[trigger] le(a, b) && #[trigger] le(b, c) ==> le(a, c),
            le == (|a: EntityView, b: EntityView| ent_le(a, b)),
        decreases v@.len() - i,
    {
        let ghost prev = out@.map_values(|e: Entity| e@);
        let x = v[i].clone();
        let mut j: usize = 0;
        while j < out.len() && !entity_le(&x, &out[j])
            invariant
                j <= out@.len(),
                forall|k: int| 0 <= k < j ==> !le(x@, #[trigger] prev[k]),
                le == (|a: EntityView, b: EntityView| ent_le(a, b)),
                out@.map_values(|e: Entity| e@) == prev,
                j <= prev.len(),
            decreases out@.len() - j,
        {
            j = j + 1;
        }
        proof {
            lemma_insert_sorted_at(prev, x@, le, j as int);
            lemma_insert_sorted_props(prev, x@, le);
        }
        out.insert(j, x);
        i = i + 1;
        proof {
            assert(out@.map_values(|e: Entity| e@) =~= prev.take(j as int) + seq![v@[i as int - 1]@]
                + prev.skip(j as int));
            assert(v@.take(i as int).map_values(|e: Entity| e@).drop_last() =~= v@.take(
                i as int - 1,
            ).map_values(|e: Entity| e@));
            assert(v@.take(i as int).map_values(|e: Entity| e@).last() == v@[i as int - 1]@);
        }
    }
    proof {
        assert(v@.take(v@.len() as int) =~= v@);
    }
    out
}

/// Sorts relations by (from, to, type).
pub fn sort_relations(v: &Vec<Relation>) -> (r: Vec<Relation>)
    ensures
        r@.map_values(|x: Relation| x@) == insertion_sort(
            v@.map_values(|x: Relation| x@),
            |a: RelationView, b: RelationView| rel_le(a, b),
        ),
{
    let ghost le = |a: RelationView, b: RelationView| rel_le(a, b);
    proof {
        lemma_rel_le_total();
        lemma_rel_le_transitive();
    }
    let mut out: Vec<Relation> = Vec::new();
    let mut i: usize = 0;
    while i < v.len()
        invariant
            i <= v@.len(),
            out@.map_values(|x: Relation| x@) == insertion_sort(
                v@.take(i as int).map_values(|x: Relation| x@),
                le,
            ),
            sorted_by(out@.map_values(|x: Relation| x@), le),
            forall|a: RelationView, b: RelationView| #[trigger] le(a, b) || #[trigger] le(b, a),
            forall|a: RelationView, b: RelationView, c: RelationView|
                #[trigger] le(a, b) && #[trigger] le(b, c) ==> le(a, c),
            le == (|a: RelationView, b: RelationView| rel_le(a, b)),
        decreases v@.len() - i,
    {
        let ghost prev = out@.map_values(|x: Relation| x@);
        let x = v[i].clone();
        let mut j: usize = 0;
        while j < out.len() && !relation_le(&x, &out[j])
            invariant
                j <= out@.len(),
                forall|k: int| 0 <= k < j ==> !le(x@, #[trigger] prev[k]),
                le == (|a: RelationView, b: RelationView| rel_le(a, b)),
                out@.map_values(|y: Relation| y@) == prev,
                j <= prev.len(),
            decreases out@.len() - j,
        {
            j = j + 1;
        }
        proof {
            lemma_insert_sorted_at(prev, x@, le, j as int);
            lemma_insert_sorted_props(prev, x@, le);
        }
        out.insert(j, x);
        i = i + 1;
        proof {
            assert(out@.map_values(|y: Relation| y@) =~= prev.take(j as int) + seq![v@[i as int
                - 1]@] + prev.skip(j as int));
            assert(v@.take(i as int).map_values(|y: Relation| y@).drop_last() =~= v@.take(
                i as int - 1,
            ).map_values(|y: Relation| y@));
            assert(v@.take(i as int).map_values(|y: Relation| y@).last() == v@[i as int - 1]@);
        }
    }
    proof {
        assert(v@.take(v@.len() as int) =~= v@);
    }
    out
}

} // verus!
