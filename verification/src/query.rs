//! The query assembler: a query is a validator expression plus the key of
//! the entries it selects. Hand-written JSON for the validator is expected to
//! be canonicalized by the caller through the binary document layer before
//! the query is put to use.

use vstd::prelude::*;
use vstd::string::*;

use crate::dec::{dec, json_to_fog};
use crate::enc::{enc, fog_to_json};
use crate::json::{JsonPair, JsonSpec, JsonVal, jview, jview_pairs, lemma_jview_pairs, obj_find,
    obj_get};
use crate::strutil::str_eq;
use crate::value::{ValPair, ValSpec, Value, vview};
use crate::{ObjErrSpec, ObjectError, oeview};

verus! {

broadcast use vstd::seq::group_seq_axioms;

/// A query: the key of the entries it selects, and the validator expression
/// they must satisfy, held as a fog-pack value.
pub struct Query {
    key: String,
    validator: Value,
}

/// The mathematical shape of a query.
pub struct QuerySpec {
    pub key: Seq<char>,
    pub validator: ValSpec,
}

impl Query {
    /// The view of the query.
    pub closed spec fn qview(self) -> QuerySpec {
        QuerySpec { key: self.key@, validator: vview(self.validator) }
    }

    /// A query from its key and validator value.
    pub fn new(key: String, validator: Value) -> (r: Query)
        ensures
            r.qview() == (QuerySpec { key: key@, validator: vview(validator) }),
    {
        Query { key, validator }
    }

    /// The key of the entries this query selects.
    pub fn key(&self) -> (r: &str)
        ensures
            r@ == self.qview().key,
    {
        self.key.as_str()
    }

    /// The validator expression.
    pub fn validator(&self) -> (r: &Value)
        ensures
            vview(*r) == self.qview().validator,
    {
        &self.validator
    }
}

/// The field names a query object may carry.
pub open spec fn query_key_ok(k: Seq<char>) -> bool {
    k == "validator"@ || k == "key"@
}

/// The first key, in object order, that a query does not recognize.
pub open spec fn query_bad_key(ps: Seq<(Seq<char>, JsonSpec)>) -> Option<Seq<char>>
    decreases ps,
{
    if ps.len() == 0 {
        None
    } else if !query_key_ok(ps[0].0) {
        Some(ps[0].0)
    } else {
        query_bad_key(ps.drop_first())
    }
}

/// What assembling a query from JSON produces: the checks of shape, unknown
/// keys, the required `key` field (a string), then the required `validator`.
pub open spec fn query_dec(j: JsonSpec) -> Result<QuerySpec, ObjErrSpec> {
    if !(j is Object) {
        Err(ObjErrSpec::NotAnObject)
    } else {
        let ps = j->Object_0;
        match query_bad_key(ps) {
            Some(k) => Err(ObjErrSpec::UnrecognizedKey(k)),
            None => match obj_get(ps, "key"@) {
                None => Err(ObjErrSpec::MissingKey("key"@)),
                Some(kj) => match dec(kj) {
                    Err(e) => Err(ObjErrSpec::Decode("key"@, e)),
                    Ok(kv) => if !(kv is Str) {
                        Err(ObjErrSpec::WrongDataType("key"@))
                    } else {
                        match obj_get(ps, "validator"@) {
                            None => Err(ObjErrSpec::MissingKey("validator"@)),
                            Some(vj) => match dec(vj) {
                                Err(e) => Err(ObjErrSpec::Decode("validator"@, e)),
                                Ok(vv) => Ok(QuerySpec { key: kv->Str_0, validator: vv }),
                            },
                        }
                    },
                },
            },
        }
    }
}

/// Whether an executable assembly result is exactly a spec-level one.
pub open spec fn query_result_matches(
    r: Result<Query, ObjectError>,
    d: Result<QuerySpec, ObjErrSpec>,
) -> bool {
    match r {
        Ok(q) => d is Ok && q.qview() == d->Ok_0,
        Err(e) => d is Err && oeview(e) == d->Err_0,
    }
}

/// Scan an object's keys for one a query does not recognize.
#[verifier::loop_isolation(false)]
fn query_scan_keys(ps: &Vec<JsonPair>) -> (r: Option<String>)
    ensures
        match r {
            Some(k) => query_bad_key(jview_pairs(ps@)) == Some(k@),
            None => query_bad_key(jview_pairs(ps@)) is None,
        },
{
    proof {
        lemma_jview_pairs(ps@);
    }
    let ghost pspec = jview_pairs(ps@);
    proof {
        assert(pspec.subrange(0, pspec.len() as int) =~= pspec);
    }
    let mut i: usize = 0;
    while i < ps.len()
        invariant
            0 <= i <= ps@.len(),
            query_bad_key(pspec) == query_bad_key(pspec.subrange(i as int, pspec.len() as int)),
        decreases ps@.len() - i,
    {
        let ghost rest = pspec.subrange(i as int, pspec.len() as int);
        proof {
            assert(rest[0] == pspec[i as int]);
            assert(rest.drop_first() =~= pspec.subrange(i as int + 1, pspec.len() as int));
        }
        let k = &ps[i].key;
        if !(str_eq(k.as_str(), "validator") || str_eq(k.as_str(), "key")) {
            return Some(k.clone());
        }
        i = i + 1;
    }
    proof {
        assert(pspec.subrange(pspec.len() as int, pspec.len() as int) =~= Seq::<(
            Seq<char>,
            JsonSpec,
        )>::empty());
    }
    None
}

/// Convert JSON into a query. The result is exactly `query_dec` of the
/// input's view: the root must be an object whose only keys are `key` (a
/// string, required) and `validator` (required). The caller is expected to
/// canonicalize the validator through the binary document layer, so that
/// hand-edited JSON always yields the same validator a real document would.
pub fn json_to_query(json: &JsonVal) -> (r: Result<Query, ObjectError>)
    ensures
        query_result_matches(r, query_dec(jview(*json))),
{
    let ps = match json {
        JsonVal::Object(ps) => ps,
        _ => {
            return Err(ObjectError::NotAnObject);
        },
    };
    if let Some(k) = query_scan_keys(ps) {
        return Err(ObjectError::UnrecognizedKey(k));
    }
    let kj = match obj_find(ps, "key") {
        Some(k) => k,
        None => {
            return Err(ObjectError::MissingKey(String::from_str("key")));
        },
    };
    let key = match json_to_fog(kj) {
        Err(e) => {
            return Err(ObjectError::Decode { key: String::from_str("key"), src: e });
        },
        Ok(kv) => match kv {
            Value::Str(ks) => ks,
            _ => {
                return Err(ObjectError::WrongDataType(String::from_str("key")));
            },
        },
    };
    let vj = match obj_find(ps, "validator") {
        Some(v) => v,
        None => {
            return Err(ObjectError::MissingKey(String::from_str("validator")));
        },
    };
    match json_to_fog(vj) {
        Err(e) => Err(ObjectError::Decode { key: String::from_str("validator"), src: e }),
        Ok(validator) => Ok(Query { key, validator }),
    }
}

/// The JSON object entries of a query, in canonical key order.
pub open spec fn query_enc_pairs(key: Seq<char>, validator: ValSpec) -> Seq<(Seq<char>, ValSpec)> {
    seq![("key"@, ValSpec::Str(key)), ("validator"@, validator)]
}

/// Render a query as a JSON object: its key under `key` and its validator
/// under `validator`, each in the value codec's form.
pub fn query_to_json(query: Query) -> (r: JsonVal)
    ensures
        jview(r) == enc(
            ValSpec::Object(query_enc_pairs(query.qview().key, query.qview().validator)),
        ),
{
    let ghost kspec = query.qview().key;
    let ghost vspec = query.qview().validator;
    let mut entries: Vec<ValPair> = Vec::new();
    entries.push(ValPair { key: String::from_str("key"), val: Value::Str(query.key) });
    entries.push(ValPair { key: String::from_str("validator"), val: query.validator });
    let whole = Value::Object(entries);
    proof {
        crate::value::lemma_vview_pairs(whole->Object_0@);
        assert(crate::value::vview_pairs(whole->Object_0@) =~= query_enc_pairs(kspec, vspec));
    }
    fog_to_json(&whole)
}

} // verus!
