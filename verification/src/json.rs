//! The JSON tree model: what a `serde_json`-style value holds, as plain data.
//! Numbers keep the three shapes JSON readers distinguish — unsigned, signed
//! (used only for negatives) and floating point (held as IEEE-754 bits).

use vstd::prelude::*;

verus! {

/// A JSON value.
pub struct JsonPair {
    pub key: String,
    pub val: JsonVal,
}

pub enum JsonVal {
    Null,
    Bool(bool),
    NumU(u64),
    NumI(i64),
    NumF(u64),
    Str(String),
    Array(Vec<JsonVal>),
    Object(Vec<JsonPair>),
}

/// The mathematical shape of a `JsonVal`.
pub enum JsonSpec {
    Null,
    Bool(bool),
    NumU(u64),
    NumI(i64),
    NumF(u64),
    Str(Seq<char>),
    Array(Seq<JsonSpec>),
    Object(Seq<(Seq<char>, JsonSpec)>),
}

/// The view of a `JsonVal`.
pub open spec fn jview(j: JsonVal) -> JsonSpec
    decreases j,
{
    match j {
        JsonVal::Null => JsonSpec::Null,
        JsonVal::Bool(b) => JsonSpec::Bool(b),
        JsonVal::NumU(u) => JsonSpec::NumU(u),
        JsonVal::NumI(i) => JsonSpec::NumI(i),
        JsonVal::NumF(b) => JsonSpec::NumF(b),
        JsonVal::Str(s) => JsonSpec::Str(s@),
        JsonVal::Array(js) => JsonSpec::Array(jview_seq(js@)),
        JsonVal::Object(ps) => JsonSpec::Object(jview_pairs(ps@)),
    }
}

/// Element-wise view of an array's items.
pub open spec fn jview_seq(js: Seq<JsonVal>) -> Seq<JsonSpec>
    decreases js,
{
    if js.len() == 0 {
        Seq::empty()
    } else {
        seq![jview(js[0])] + jview_seq(js.drop_first())
    }
}

/// Pair-wise view of an object's entries.
pub open spec fn jview_pairs(ps: Seq<JsonPair>) -> Seq<(Seq<char>, JsonSpec)>
    decreases ps,
{
    if ps.len() == 0 {
        Seq::empty()
    } else {
        seq![(ps[0].key@, jview(ps[0].val))] + jview_pairs(ps.drop_first())
    }
}

pub proof fn lemma_jview_seq(js: Seq<JsonVal>)
    ensures
        jview_seq(js).len() == js.len(),
        forall|i: int| 0 <= i < js.len() ==> jview_seq(js)[i] == jview(js[i]),
    decreases js,
{
    if js.len() > 0 {
        lemma_jview_seq(js.drop_first());
    }
}

pub proof fn lemma_jview_pairs(ps: Seq<JsonPair>)
    ensures
        jview_pairs(ps).len() == ps.len(),
        forall|i: int|
            0 <= i < ps.len() ==> jview_pairs(ps)[i] == (ps[i].key@, jview(ps[i].val)),
    decreases ps,
{
    if ps.len() > 0 {
        lemma_jview_pairs(ps.drop_first());
    }
}

/// Whether every object in the tree has strictly increasing keys, the
/// canonical order a JSON reader with sorted maps produces.
pub open spec fn json_sorted(j: JsonSpec) -> bool
    decreases j,
{
    match j {
        JsonSpec::Array(js) => json_sorted_seq(js),
        JsonSpec::Object(ps) => (forall|i: int|
            0 <= i < ps.len() - 1 ==> #[trigger] crate::strutil::lex_lt(ps[i].0, ps[i + 1].0))
            && json_sorted_pairs(ps),
        _ => true,
    }
}

pub open spec fn json_sorted_seq(js: Seq<JsonSpec>) -> bool
    decreases js,
{
    if js.len() == 0 {
        true
    } else {
        json_sorted(js[0]) && json_sorted_seq(js.drop_first())
    }
}

pub open spec fn json_sorted_pairs(ps: Seq<(Seq<char>, JsonSpec)>) -> bool
    decreases ps,
{
    if ps.len() == 0 {
        true
    } else {
        json_sorted(ps[0].1) && json_sorted_pairs(ps.drop_first())
    }
}

pub proof fn lemma_json_sorted_seq(js: Seq<JsonSpec>)
    ensures
        json_sorted_seq(js) ==> (forall|i: int| 0 <= i < js.len() ==> json_sorted(#[trigger] js[i])),
    decreases js,
{
    if js.len() > 0 {
        lemma_json_sorted_seq(js.drop_first());
        if json_sorted_seq(js) {
            assert forall|i: int| 0 <= i < js.len() implies json_sorted(#[trigger] js[i]) by {
                if i > 0 {
                    assert(js.drop_first()[i - 1] == js[i]);
                }
            }
        }
    }
}

pub proof fn lemma_json_sorted_pairs(ps: Seq<(Seq<char>, JsonSpec)>)
    ensures
        json_sorted_pairs(ps) ==> (forall|i: int|
            0 <= i < ps.len() ==> json_sorted(#[trigger] ps[i].1)),
    decreases ps,
{
    if ps.len() > 0 {
        lemma_json_sorted_pairs(ps.drop_first());
        if json_sorted_pairs(ps) {
            assert forall|i: int| 0 <= i < ps.len() implies json_sorted(#[trigger] ps[i].1) by {
                if i > 0 {
                    assert(ps.drop_first()[i - 1] == ps[i]);
                }
            }
        }
    }
}

/// The value under the first entry with this key, if any.
pub open spec fn obj_get(ps: Seq<(Seq<char>, JsonSpec)>, key: Seq<char>) -> Option<JsonSpec>
    decreases ps,
{
    if ps.len() == 0 {
        None
    } else if ps[0].0 == key {
        Some(ps[0].1)
    } else {
        obj_get(ps.drop_first(), key)
    }
}

/// Find the value under `key` in an object's entries.
#[verifier::loop_isolation(false)]
pub fn obj_find<'a>(ps: &'a Vec<JsonPair>, key: &str) -> (r: Option<&'a JsonVal>)
    ensures
        match r {
            Some(v) => obj_get(jview_pairs(ps@), key@) == Some(jview(*v)),
            None => obj_get(jview_pairs(ps@), key@) is None,
        },
{
    proof {
        lemma_jview_pairs(ps@);
    }
    let ghost pspec = jview_pairs(ps@);
    proof {
        assert(pspec.subrange(0, pspec.len() as int) =~= pspec);
    }
    let mut i: usize = 0;
    while i < ps.len()
        invariant
            0 <= i <= ps@.len(),
            obj_get(pspec, key@) == obj_get(pspec.subrange(i as int, pspec.len() as int), key@),
        decreases ps@.len() - i,
    {
        let ghost rest = pspec.subrange(i as int, pspec.len() as int);
        proof {
            assert(rest[0] == pspec[i as int]);
            assert(rest.drop_first() =~= pspec.subrange(i as int + 1, pspec.len() as int));
        }
        if crate::strutil::str_eq(ps[i].key.as_str(), key) {
            return Some(&ps[i].val);
        }
        i = i + 1;
    }
    proof {
        assert(pspec.subrange(pspec.len() as int, pspec.len() as int) =~= Seq::<(
            Seq<char>,
            JsonSpec,
        )>::empty());
    }
    None
}

} // verus!
