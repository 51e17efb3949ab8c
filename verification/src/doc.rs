//! The document assembler: build the validated fields of a new document from
//! a JSON object, entering the signing pendant state when a signer is named,
//! and render a finished document's parts back to JSON.

use vstd::prelude::*;
use vstd::string::*;

use crate::dec::{dec, json_to_fog};
use crate::enc::{enc, fog_to_json};
use crate::json::{JsonPair, JsonSpec, JsonVal, jview, jview_pairs, lemma_jview_pairs, obj_find,
    obj_get};
use crate::strutil::str_eq;
use crate::value::{Identity, ValPair, ValSpec, Value, opt_hash_view, opt_identity_view, vview};
use crate::{ObjErrSpec, ObjectError, oeview};

verus! {

broadcast use vstd::seq::group_seq_axioms;

/// The validated fields of a document, ready for the binary document layer:
/// its data, an optional schema hash, the compression override tri-state
/// (absent, explicitly disabled, or an explicit level) and, once signing has
/// completed, the signer.
pub struct NewDocument {
    data: Value,
    schema: Option<crate::value::Hash>,
    compression: Option<Option<u8>>,
    signer: Option<Identity>,
}

/// The mathematical shape of a document's fields.
pub struct DocSpec {
    pub data: ValSpec,
    pub schema: Option<Seq<char>>,
    pub compression: Option<Option<u8>>,
    pub signer: Option<Seq<char>>,
}

impl NewDocument {
    /// The view of the document's fields.
    pub closed spec fn dview(self) -> DocSpec {
        DocSpec {
            data: vview(self.data),
            schema: opt_hash_view(self.schema),
            compression: self.compression,
            signer: opt_identity_view(self.signer),
        }
    }

    /// The document's data.
    pub fn data(&self) -> (r: &Value)
        ensures
            vview(*r) == self.dview().data,
    {
        &self.data
    }

    /// The schema hash, when one was named.
    pub fn schema_hash(&self) -> (r: &Option<crate::value::Hash>)
        ensures
            opt_hash_view(*r) == self.dview().schema,
    {
        &self.schema
    }

    /// The compression override: absent for the default, `Some(None)` for
    /// explicitly disabled, `Some(Some(level))` for an explicit level.
    pub fn compression(&self) -> (r: Option<Option<u8>>)
        ensures
            r == self.dview().compression,
    {
        self.compression
    }

    /// The identity that signed the document, once signing has completed.
    pub fn signer(&self) -> (r: &Option<Identity>)
        ensures
            opt_identity_view(*r) == self.dview().signer,
    {
        &self.signer
    }
}

/// A document that still awaits its signature: the validated fields plus the
/// identity that must sign them. Completing it is the only way forward, and
/// it consumes the pendant.
pub struct SignDocument {
    doc: NewDocument,
    signer: Identity,
}

/// A freshly assembled document: finished outright, or awaiting a signature.
pub enum MaybeDocument {
    NewDocument(NewDocument),
    SignDocument(SignDocument),
}

/// The mathematical shape of an assembled document: finished, or pending
/// with the identity text that must sign it.
pub enum MaybeDocSpec {
    Finished(DocSpec),
    Pending(DocSpec, Seq<char>),
}

impl SignDocument {
    /// The view of the pendant's unsigned fields.
    pub closed spec fn doc_view(self) -> DocSpec {
        self.doc.dview()
    }

    /// The identity that must sign this document.
    pub closed spec fn signer_view(self) -> Seq<char> {
        self.signer@
    }

    /// Get the identity that should sign this.
    pub fn signer(&self) -> (r: &Identity)
        ensures
            r@ == self.signer_view(),
    {
        &self.signer
    }

    /// The unsigned fields held while the key is being located.
    pub fn doc(&self) -> (r: &NewDocument)
        ensures
            r.dview() == self.doc_view(),
    {
        &self.doc
    }

    /// Attempt to complete the document with the identity of an offered
    /// signing key. Exactly when the identity is the pendant's target, the
    /// finished document is produced, now carrying its signer; any other
    /// identity is refused with the expected identity, and the pendant is
    /// consumed either way.
    pub fn complete(self, key_id: &Identity) -> (r: Result<NewDocument, ObjectError>)
        ensures
            key_id@ == self.signer_view() ==> r is Ok && r->Ok_0.dview() == (DocSpec {
                signer: Some(self.signer_view()),
                ..self.doc_view()
            }),
            key_id@ != self.signer_view() ==> r is Err && oeview(r->Err_0)
                == ObjErrSpec::IncorrectIdentityKey(self.signer_view()),
    {
        if key_id.same_as(&self.signer) {
            Ok(
                NewDocument {
                    data: self.doc.data,
                    schema: self.doc.schema,
                    compression: self.doc.compression,
                    signer: Some(self.signer),
                },
            )
        } else {
            Err(ObjectError::IncorrectIdentityKey(Box::new(self.signer)))
        }
    }
}

/// The view of an assembled document.
pub open spec fn mdview(m: MaybeDocument) -> MaybeDocSpec {
    match m {
        MaybeDocument::NewDocument(d) => MaybeDocSpec::Finished(d.dview()),
        MaybeDocument::SignDocument(p) => MaybeDocSpec::Pending(p.doc_view(), p.signer_view()),
    }
}

/// The field names a document object may carry.
pub open spec fn doc_key_ok(k: Seq<char>) -> bool {
    k == "data"@ || k == "signer"@ || k == "schema"@ || k == "compression"@
}

/// The first key, in object order, that a document does not recognize.
pub open spec fn doc_bad_key(ps: Seq<(Seq<char>, JsonSpec)>) -> Option<Seq<char>>
    decreases ps,
{
    if ps.len() == 0 {
        None
    } else if !doc_key_ok(ps[0].0) {
        Some(ps[0].0)
    } else {
        doc_bad_key(ps.drop_first())
    }
}

/// Reading the optional `compression` field: absent means the default; JSON
/// null disables compression; an unsigned integer up to 255 sets the level;
/// everything else is the wrong data type.
pub open spec fn dec_compression(ps: Seq<(Seq<char>, JsonSpec)>) -> Result<
    Option<Option<u8>>,
    ObjErrSpec,
> {
    match obj_get(ps, "compression"@) {
        None => Ok(None),
        Some(cj) => match cj {
            JsonSpec::Null => Ok(Some(None)),
            JsonSpec::NumU(u) => if u <= 255 {
                Ok(Some(Some(u as u8)))
            } else {
                Err(ObjErrSpec::WrongDataType("compression"@))
            },
            _ => Err(ObjErrSpec::WrongDataType("compression"@)),
        },
    }
}

/// What assembling a document from JSON produces: the checks of shape,
/// unknown keys, the required `data` field, the optional `schema`,
/// `compression` and `signer` fields, in that order.
pub open spec fn doc_dec(j: JsonSpec) -> Result<MaybeDocSpec, ObjErrSpec> {
    if !(j is Object) {
        Err(ObjErrSpec::NotAnObject)
    } else {
        let ps = j->Object_0;
        match doc_bad_key(ps) {
            Some(k) => Err(ObjErrSpec::UnrecognizedKey(k)),
            None => match obj_get(ps, "data"@) {
                None => Err(ObjErrSpec::MissingKey("data"@)),
                Some(dj) => match dec(dj) {
                    Err(e) => Err(ObjErrSpec::Decode("data"@, e)),
                    Ok(data) => match (match obj_get(ps, "schema"@) {
                        None => Ok(None),
                        Some(sj) => match dec(sj) {
                            Err(e) => Err(ObjErrSpec::Decode("schema"@, e)),
                            Ok(sv) => if sv is Hash {
                                Ok(Some(sv->Hash_0))
                            } else {
                                Err(ObjErrSpec::WrongDataType("schema"@))
                            },
                        },
                    }) {
                        Err(e) => Err(e),
                        Ok(schema) => match dec_compression(ps) {
                            Err(e) => Err(e),
                            Ok(compression) => {
                                let fields = DocSpec { data, schema, compression, signer: None };
                                match obj_get(ps, "signer"@) {
                                    None => Ok(MaybeDocSpec::Finished(fields)),
                                    Some(gj) => match dec(gj) {
                                        Err(e) => Err(ObjErrSpec::Decode("signer"@, e)),
                                        Ok(gv) => if gv is Identity {
                                            Ok(MaybeDocSpec::Pending(fields, gv->Identity_0))
                                        } else {
                                            Err(ObjErrSpec::WrongDataType("signer"@))
                                        },
                                    },
                                }
                            },
                        },
                    },
                },
            },
        }
    }
}

/// Whether an executable assembly result is exactly a spec-level one.
pub open spec fn doc_result_matches(
    r: Result<MaybeDocument, ObjectError>,
    d: Result<MaybeDocSpec, ObjErrSpec>,
) -> bool {
    match r {
        Ok(m) => d is Ok && mdview(m) == d->Ok_0,
        Err(e) => d is Err && oeview(e) == d->Err_0,
    }
}

/// Scan an object's keys for one a document does not recognize.
#[verifier::loop_isolation(false)]
pub(crate) fn doc_scan_keys(ps: &Vec<JsonPair>) -> (r: Option<String>)
    ensures
        match r {
            Some(k) => doc_bad_key(jview_pairs(ps@)) == Some(k@),
            None => doc_bad_key(jview_pairs(ps@)) is None,
        },
{
    proof {
        lemma_jview_pairs(ps@);
    }
    let ghost pspec = jview_pairs(ps@);
    proof {
        assert(pspec.subrange(0, pspec.len() as int) =~= pspec);
    }
    let mut i: usize = 0;
    while i < ps.len()
        invariant
            0 <= i <= ps@.len(),
            doc_bad_key(pspec) == doc_bad_key(pspec.subrange(i as int, pspec.len() as int)),
        decreases ps@.len() - i,
    {
        let ghost rest = pspec.subrange(i as int, pspec.len() as int);
        proof {
            assert(rest[0] == pspec[i as int]);
            assert(rest.drop_first() =~= pspec.subrange(i as int + 1, pspec.len() as int));
        }
        let k = &ps[i].key;
        if !(str_eq(k.as_str(), "data") || str_eq(k.as_str(), "signer") || str_eq(
            k.as_str(),
            "schema",
        ) || str_eq(k.as_str(), "compression")) {
            return Some(k.clone());
        }
        i = i + 1;
    }
    proof {
        assert(pspec.subrange(pspec.len() as int, pspec.len() as int) =~= Seq::<(
            Seq<char>,
            JsonSpec,
        )>::empty());
    }
    None
}

/// Convert a JSON value into the validated fields of a new document. The
/// result is exactly `doc_dec` of the input's view: the root must be an
/// object with only recognized keys, `data` is required, `schema` must be a
/// hash, `compression` must be null or an integer up to 255, and a `signer`
/// field turns the result into a pendant awaiting that identity's signature.
pub fn json_to_doc(json: &JsonVal) -> (r: Result<MaybeDocument, ObjectError>)
    ensures
        doc_result_matches(r, doc_dec(jview(*json))),
{
    let ps = match json {
        JsonVal::Object(ps) => ps,
        _ => {
            return Err(ObjectError::NotAnObject);
        },
    };
    if let Some(k) = doc_scan_keys(ps) {
        return Err(ObjectError::UnrecognizedKey(k));
    }
    let dj = match obj_find(ps, "data") {
        Some(d) => d,
        None => {
            return Err(ObjectError::MissingKey(String::from_str("data")));
        },
    };
    let data = match json_to_fog(dj) {
        Ok(v) => v,
        Err(e) => {
            return Err(ObjectError::Decode { key: String::from_str("data"), src: e });
        },
    };
    let schema: Option<crate::value::Hash> = match obj_find(ps, "schema") {
        None => None,
        Some(sj) => match json_to_fog(sj) {
            Err(e) => {
                return Err(ObjectError::Decode { key: String::from_str("schema"), src: e });
            },
            Ok(sv) => match sv {
                Value::Hash(h) => Some(h),
                _ => {
                    return Err(ObjectError::WrongDataType(String::from_str("schema")));
                },
            },
        },
    };
    let compression: Option<Option<u8>> = match obj_find(ps, "compression") {
        None => None,
        Some(cj) => match cj {
            JsonVal::Null => Some(None),
            JsonVal::NumU(u) => {
                if *u <= 255 {
                    Some(Some(*u as u8))
                } else {
                    return Err(ObjectError::WrongDataType(String::from_str("compression")));
                }
            },
            _ => {
                return Err(ObjectError::WrongDataType(String::from_str("compression")));
            },
        },
    };
    match obj_find(ps, "signer") {
        None => Ok(
            MaybeDocument::NewDocument(NewDocument { data, schema, compression, signer: None }),
        ),
        Some(gj) => match json_to_fog(gj) {
            Err(e) => Err(ObjectError::Decode { key: String::from_str("signer"), src: e }),
            Ok(gv) => match gv {
                Value::Identity(idv) => Ok(
                    MaybeDocument::SignDocument(
                        SignDocument {
                            doc: NewDocument { data, schema, compression, signer: None },
                            signer: idv,
                        },
                    ),
                ),
                _ => Err(ObjectError::WrongDataType(String::from_str("signer"))),
            },
        },
    }
}

/// The JSON object entries of a document: its data under `data`, then the
/// optional schema hash and signer identity, in canonical key order.
pub open spec fn doc_enc_pairs(
    data: ValSpec,
    schema: Option<Seq<char>>,
    signer: Option<Seq<char>>,
) -> Seq<(Seq<char>, ValSpec)> {
    seq![("data"@, data)] + (match schema {
        Some(s) => seq![("schema"@, ValSpec::Hash(s))],
        None => Seq::empty(),
    }) + (match signer {
        Some(s) => seq![("signer"@, ValSpec::Identity(s))],
        None => Seq::empty(),
    })
}

/// Render a document's parts as a JSON object: the data under `data`, the
/// schema hash under `schema` and the signer under `signer` when present,
/// each in the value codec's form.
pub fn doc_to_json(
    data: Value,
    schema: Option<crate::value::Hash>,
    signer: Option<Identity>,
) -> (r: JsonVal)
    ensures
        jview(r) == enc(
            ValSpec::Object(
                doc_enc_pairs(vview(data), opt_hash_view(schema), opt_identity_view(signer)),
            ),
        ),
{
    let ghost dspec = vview(data);
    let ghost sspec = opt_hash_view(schema);
    let ghost gspec = opt_identity_view(signer);
    let mut entries: Vec<ValPair> = Vec::new();
    entries.push(ValPair { key: String::from_str("data"), val: data });
    if let Some(h) = schema {
        entries.push(ValPair { key: String::from_str("schema"), val: Value::Hash(h) });
    }
    if let Some(g) = signer {
        entries.push(ValPair { key: String::from_str("signer"), val: Value::Identity(g) });
    }
    let whole = Value::Object(entries);
    proof {
        crate::value::lemma_vview_pairs(whole->Object_0@);
        assert(crate::value::vview_pairs(whole->Object_0@) =~= doc_enc_pairs(
            dspec,
            sspec,
            gspec,
        ));
    }
    fog_to_json(&whole)
}

} // verus!
