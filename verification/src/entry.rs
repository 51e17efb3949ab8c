//! The entry assembler: entries are keyed records anchored to a parent
//! document, so assembly is a two-step protocol. Parsing the JSON yields a
//! pending form carrying the parent's hash and the validated fields; once the
//! caller has located the parent, completion restructures it into a new
//! entry, or into a signing pendant when a signer was named.

use vstd::prelude::*;
use vstd::string::*;

use crate::dec::{dec, json_to_fog};
use crate::enc::{enc, fog_to_json};
use crate::json::{JsonPair, JsonSpec, JsonVal, jview, jview_pairs, lemma_jview_pairs, obj_find,
    obj_get};
use crate::strutil::str_eq;
use crate::value::{Identity, ValPair, ValSpec, Value, opt_identity_view, vview};
use crate::{ObjErrSpec, ObjectError, oeview};

verus! {

broadcast use vstd::seq::group_seq_axioms;

/// A JSON object parsed as an entry, not yet bound to its parent document:
/// the entry's data, its string key, the parent document's hash, the
/// compression override tri-state and the optional signer.
pub struct JsonEntry {
    data: Value,
    parent: crate::value::Hash,
    key: String,
    compression: Option<Option<u8>>,
    signer: Option<Identity>,
}

/// The validated fields of an entry, ready for the binary entry layer.
pub struct NewEntry {
    data: Value,
    key: String,
    parent: crate::value::Hash,
    compression: Option<Option<u8>>,
    signer: Option<Identity>,
}

/// The mathematical shape of an entry's fields.
pub struct EntrySpec {
    pub data: ValSpec,
    pub key: Seq<char>,
    pub parent: Seq<char>,
    pub compression: Option<Option<u8>>,
    pub signer: Option<Seq<char>>,
}

impl JsonEntry {
    /// The view of the parsed fields.
    pub closed spec fn eview(self) -> EntrySpec {
        EntrySpec {
            data: vview(self.data),
            key: self.key@,
            parent: self.parent@,
            compression: self.compression,
            signer: opt_identity_view(self.signer),
        }
    }

    /// Get the hash of the parent document, used to locate the parent.
    pub fn parent(&self) -> (r: &crate::value::Hash)
        ensures
            r@ == self.eview().parent,
    {
        &self.parent
    }

    /// Parse a JSON value as the first step of converting it into an entry.
    /// The result is exactly `entry_dec` of the input's view: the root must
    /// be an object with only recognized keys; `data`, `key` and `parent` are
    /// required, the key a string and the parent a hash; `compression` must
    /// be null or an integer up to 255; a `signer` must be an identity.
    pub fn from_json(json: &JsonVal) -> (r: Result<JsonEntry, ObjectError>)
        ensures
            entry_result_matches(r, entry_dec(jview(*json))),
    {
        let ps = match json {
            JsonVal::Object(ps) => ps,
            _ => {
                return Err(ObjectError::NotAnObject);
            },
        };
        if let Some(k) = entry_scan_keys(ps) {
            return Err(ObjectError::UnrecognizedKey(k));
        }
        let dj = match obj_find(ps, "data") {
            Some(d) => d,
            None => {
                return Err(ObjectError::MissingKey(String::from_str("data")));
            },
        };
        let data = match json_to_fog(dj) {
            Ok(v) => v,
            Err(e) => {
                return Err(ObjectError::Decode { key: String::from_str("data"), src: e });
            },
        };
        let kj = match obj_find(ps, "key") {
            Some(k) => k,
            None => {
                return Err(ObjectError::MissingKey(String::from_str("key")));
            },
        };
        let key = match json_to_fog(kj) {
            Err(e) => {
                return Err(ObjectError::Decode { key: String::from_str("key"), src: e });
            },
            Ok(kv) => match kv {
                Value::Str(ks) => ks,
                _ => {
                    return Err(ObjectError::WrongDataType(String::from_str("key")));
                },
            },
        };
        let pj = match obj_find(ps, "parent") {
            Some(p) => p,
            None => {
                return Err(ObjectError::MissingKey(String::from_str("parent")));
            },
        };
        let parent = match json_to_fog(pj) {
            Err(e) => {
                return Err(ObjectError::Decode { key: String::from_str("parent"), src: e });
            },
            Ok(pv) => match pv {
                Value::Hash(h) => h,
                _ => {
                    return Err(ObjectError::WrongDataType(String::from_str("parent")));
                },
            },
        };
        let compression: Option<Option<u8>> = match obj_find(ps, "compression") {
            None => None,
            Some(cj) => match cj {
                JsonVal::Null => Some(None),
                JsonVal::NumU(u) => {
                    if *u <= 255 {
                        Some(Some(*u as u8))
                    } else {
                        return Err(ObjectError::WrongDataType(String::from_str("compression")));
                    }
                },
                _ => {
                    return Err(ObjectError::WrongDataType(String::from_str("compression")));
                },
            },
        };
        let signer: Option<Identity> = match obj_find(ps, "signer") {
            None => None,
            Some(gj) => match json_to_fog(gj) {
                Err(e) => {
                    return Err(ObjectError::Decode { key: String::from_str("signer"), src: e });
                },
                Ok(gv) => match gv {
                    Value::Identity(idv) => Some(idv),
                    _ => {
                        return Err(ObjectError::WrongDataType(String::from_str("signer")));
                    },
                },
            },
        };
        Ok(JsonEntry { data, key, parent, compression, signer })
    }

    /// Finish the parse once the caller has resolved the parent document:
    /// the fields become a new entry outright, or a signing pendant bound to
    /// the named signer.
    pub fn complete(self) -> (r: MaybeEntry)
        ensures
            meview(r) == (match self.eview().signer {
                None => MaybeEntrySpec::Finished(self.eview()),
                Some(g) => MaybeEntrySpec::Pending(
                    EntrySpec { signer: None, ..self.eview() },
                    g,
                ),
            }),
    {
        let entry = NewEntry {
            data: self.data,
            key: self.key,
            parent: self.parent,
            compression: self.compression,
            signer: None,
        };
        match self.signer {
            None => MaybeEntry::NewEntry(entry),
            Some(signer) => MaybeEntry::SignEntry(SignEntry { entry, signer }),
        }
    }
}

impl NewEntry {
    /// The view of the entry's fields.
    pub closed spec fn eview(self) -> EntrySpec {
        EntrySpec {
            data: vview(self.data),
            key: self.key@,
            parent: self.parent@,
            compression: self.compression,
            signer: opt_identity_view(self.signer),
        }
    }

    /// The entry's data.
    pub fn data(&self) -> (r: &Value)
        ensures
            vview(*r) == self.eview().data,
    {
        &self.data
    }

    /// The entry's key.
    pub fn key(&self) -> (r: &str)
        ensures
            r@ == self.eview().key,
    {
        self.key.as_str()
    }

    /// The parent document's hash.
    pub fn parent(&self) -> (r: &crate::value::Hash)
        ensures
            r@ == self.eview().parent,
    {
        &self.parent
    }

    /// The compression override tri-state.
    pub fn compression(&self) -> (r: Option<Option<u8>>)
        ensures
            r == self.eview().compression,
    {
        self.compression
    }

    /// The identity that signed the entry, once signing has completed.
    pub fn signer(&self) -> (r: &Option<Identity>)
        ensures
            opt_identity_view(*r) == self.eview().signer,
    {
        &self.signer
    }
}

/// An entry that still awaits its signature.
pub struct SignEntry {
    entry: NewEntry,
    signer: Identity,
}

/// A completed parse: a new entry, or one awaiting a signature.
pub enum MaybeEntry {
    NewEntry(NewEntry),
    SignEntry(SignEntry),
}

/// The mathematical shape of a completed parse.
pub enum MaybeEntrySpec {
    Finished(EntrySpec),
    Pending(EntrySpec, Seq<char>),
}

/// The view of a completed parse.
pub open spec fn meview(m: MaybeEntry) -> MaybeEntrySpec {
    match m {
        MaybeEntry::NewEntry(e) => MaybeEntrySpec::Finished(e.eview()),
        MaybeEntry::SignEntry(p) => MaybeEntrySpec::Pending(p.entry_view(), p.signer_view()),
    }
}

impl SignEntry {
    /// The view of the pendant's unsigned fields.
    pub closed spec fn entry_view(self) -> EntrySpec {
        self.entry.eview()
    }

    /// The identity that must sign this entry.
    pub closed spec fn signer_view(self) -> Seq<char> {
        self.signer@
    }

    /// Get the identity that should sign this.
    pub fn signer(&self) -> (r: &Identity)
        ensures
            r@ == self.signer_view(),
    {
        &self.signer
    }

    /// The unsigned fields held while the key is being located.
    pub fn entry(&self) -> (r: &NewEntry)
        ensures
            r.eview() == self.entry_view(),
    {
        &self.entry
    }

    /// Attempt to complete the entry with the identity of an offered signing
    /// key. Exactly when the identity is the pendant's target, the finished
    /// entry is produced, now carrying its signer; any other identity is
    /// refused with the expected identity, and the pendant is consumed
    /// either way.
    pub fn complete(self, key_id: &Identity) -> (r: Result<NewEntry, ObjectError>)
        ensures
            key_id@ == self.signer_view() ==> r is Ok && r->Ok_0.eview() == (EntrySpec {
                signer: Some(self.signer_view()),
                ..self.entry_view()
            }),
            key_id@ != self.signer_view() ==> r is Err && oeview(r->Err_0)
                == ObjErrSpec::IncorrectIdentityKey(self.signer_view()),
    {
        if key_id.same_as(&self.signer) {
            Ok(
                NewEntry {
                    data: self.entry.data,
                    key: self.entry.key,
                    parent: self.entry.parent,
                    compression: self.entry.compression,
                    signer: Some(self.signer),
                },
            )
        } else {
            Err(ObjectError::IncorrectIdentityKey(Box::new(self.signer)))
        }
    }
}

/// The field names an entry object may carry.
pub open spec fn entry_key_ok(k: Seq<char>) -> bool {
    k == "data"@ || k == "signer"@ || k == "key"@ || k == "parent"@ || k == "compression"@
}

/// The first key, in object order, that an entry does not recognize.
pub open spec fn entry_bad_key(ps: Seq<(Seq<char>, JsonSpec)>) -> Option<Seq<char>>
    decreases ps,
{
    if ps.len() == 0 {
        None
    } else if !entry_key_ok(ps[0].0) {
        Some(ps[0].0)
    } else {
        entry_bad_key(ps.drop_first())
    }
}

/// What parsing an entry from JSON produces: the checks of shape, unknown
/// keys, the required `data`, `key` and `parent` fields, then the optional
/// `compression` and `signer`, in that order.
pub open spec fn entry_dec(j: JsonSpec) -> Result<EntrySpec, ObjErrSpec> {
    if !(j is Object) {
        Err(ObjErrSpec::NotAnObject)
    } else {
        let ps = j->Object_0;
        match entry_bad_key(ps) {
            Some(k) => Err(ObjErrSpec::UnrecognizedKey(k)),
            None => match obj_get(ps, "data"@) {
                None => Err(ObjErrSpec::MissingKey("data"@)),
                Some(dj) => match dec(dj) {
                    Err(e) => Err(ObjErrSpec::Decode("data"@, e)),
                    Ok(data) => match obj_get(ps, "key"@) {
                        None => Err(ObjErrSpec::MissingKey("key"@)),
                        Some(kj) => match dec(kj) {
                            Err(e) => Err(ObjErrSpec::Decode("key"@, e)),
                            Ok(kv) => if !(kv is Str) {
                                Err(ObjErrSpec::WrongDataType("key"@))
                            } else {
                                match obj_get(ps, "parent"@) {
                                    None => Err(ObjErrSpec::MissingKey("parent"@)),
                                    Some(pj) => match dec(pj) {
                                        Err(e) => Err(ObjErrSpec::Decode("parent"@, e)),
                                        Ok(pv) => if !(pv is Hash) {
                                            Err(ObjErrSpec::WrongDataType("parent"@))
                                        } else {
                                            match crate::doc::dec_compression(ps) {
                                                Err(e) => Err(e),
                                                Ok(compression) => match obj_get(ps, "signer"@) {
                                                    None => Ok(
                                                        EntrySpec {
                                                            data,
                                                            key: kv->Str_0,
                                                            parent: pv->Hash_0,
                                                            compression,
                                                            signer: None,
                                                        },
                                                    ),
                                                    Some(gj) => match dec(gj) {
                                                        Err(e) => Err(
                                                            ObjErrSpec::Decode("signer"@, e),
                                                        ),
                                                        Ok(gv) => if gv is Identity {
                                                            Ok(
                                                                EntrySpec {
                                                                    data,
                                                                    key: kv->Str_0,
                                                                    parent: pv->Hash_0,
                                                                    compression,
                                                                    signer: Some(gv->Identity_0),
                                                                },
                                                            )
                                                        } else {
                                                            Err(
                                                                ObjErrSpec::WrongDataType(
                                                                    "signer"@,
                                                                ),
                                                            )
                                                        },
                                                    },
                                                },
                                            }
                                        },
                                    },
                                }
                            },
                        },
                    },
                },
            },
        }
    }
}

/// Whether an executable parse result is exactly a spec-level one.
pub open spec fn entry_result_matches(
    r: Result<JsonEntry, ObjectError>,
    d: Result<EntrySpec, ObjErrSpec>,
) -> bool {
    match r {
        Ok(e) => d is Ok && e.eview() == d->Ok_0,
        Err(e) => d is Err && oeview(e) == d->Err_0,
    }
}

/// Scan an object's keys for one an entry does not recognize.
#[verifier::loop_isolation(false)]
pub(crate) fn entry_scan_keys(ps: &Vec<JsonPair>) -> (r: Option<String>)
    ensures
        match r {
            Some(k) => entry_bad_key(jview_pairs(ps@)) == Some(k@),
            None => entry_bad_key(jview_pairs(ps@)) is None,
        },
{
    proof {
        lemma_jview_pairs(ps@);
    }
    let ghost pspec = jview_pairs(ps@);
    proof {
        assert(pspec.subrange(0, pspec.len() as int) =~= pspec);
    }
    let mut i: usize = 0;
    while i < ps.len()
        invariant
            0 <= i <= ps@.len(),
            entry_bad_key(pspec) == entry_bad_key(pspec.subrange(i as int, pspec.len() as int)),
        decreases ps@.len() - i,
    {
        let ghost rest = pspec.subrange(i as int, pspec.len() as int);
        proof {
            assert(rest[0] == pspec[i as int]);
            assert(rest.drop_first() =~= pspec.subrange(i as int + 1, pspec.len() as int));
        }
        let k = &ps[i].key;
        if !(str_eq(k.as_str(), "data") || str_eq(k.as_str(), "signer") || str_eq(k.as_str(), "key")
            || str_eq(k.as_str(), "parent") || str_eq(k.as_str(), "compression")) {
            return Some(k.clone());
        }
        i = i + 1;
    }
    proof {
        assert(pspec.subrange(pspec.len() as int, pspec.len() as int) =~= Seq::<(
            Seq<char>,
            JsonSpec,
        )>::empty());
    }
    None
}

/// The JSON object entries of an entry: data, key, parent and the optional
/// signer, in canonical key order.
pub open spec fn entry_enc_pairs(
    data: ValSpec,
    key: Seq<char>,
    parent: Seq<char>,
    signer: Option<Seq<char>>,
) -> Seq<(Seq<char>, ValSpec)> {
    seq![("data"@, data), ("key"@, ValSpec::Str(key)), ("parent"@, ValSpec::Hash(parent))] + (
    match signer {
        Some(s) => seq![("signer"@, ValSpec::Identity(s))],
        None => Seq::empty(),
    })
}

/// Render an entry's parts as a JSON object: the data under `data`, the key
/// under `key`, the parent hash under `parent` and the signer under `signer`
/// when present, each in the value codec's form.
pub fn entry_to_json(
    data: Value,
    key: String,
    parent: crate::value::Hash,
    signer: Option<Identity>,
) -> (r: JsonVal)
    ensures
        jview(r) == enc(
            ValSpec::Object(entry_enc_pairs(vview(data), key@, parent@, opt_identity_view(signer))),
        ),
{
    let ghost dspec = vview(data);
    let ghost kspec = key@;
    let ghost pspec = parent@;
    let ghost gspec = opt_identity_view(signer);
    let mut entries: Vec<ValPair> = Vec::new();
    entries.push(ValPair { key: String::from_str("data"), val: data });
    entries.push(ValPair { key: String::from_str("key"), val: Value::Str(key) });
    entries.push(ValPair { key: String::from_str("parent"), val: Value::Hash(parent) });
    if let Some(g) = signer {
        entries.push(ValPair { key: String::from_str("signer"), val: Value::Identity(g) });
    }
    let whole = Value::Object(entries);
    proof {
        crate::value::lemma_vview_pairs(whole->Object_0@);
        assert(crate::value::vview_pairs(whole->Object_0@) =~= entry_enc_pairs(
            dspec,
            kspec,
            pspec,
            gspec,
        ));
    }
    fog_to_json(&whole)
}

} // verus!
