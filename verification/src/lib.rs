//! Conversion between fog-pack values and a JSON-friendly tree, so that
//! fog-pack data can be inspected and edited with ordinary JSON tooling.
//!
//! Most fog-pack types either map directly onto a JSON type or are written as
//! a string starting with the reserved prefix `$fog-`, in the shape
//! `$fog-<Type>:<payload>`. A plain string that itself starts with `$fog-` is
//! escaped as `$fog-Str:<string>` so that decoding is never ambiguous.
//!
//! The crate works on two fully modelled trees: `Value`, the fog-pack value
//! model, and `JsonVal`, the JSON tree model. The encoder `fog_to_json` is
//! total and deterministic, and decoding its output always gives the encoded
//! value back; the decoder `json_to_fog` reports exactly where and why a
//! malformed input was rejected. On top of the value codec sit the
//! assemblers for documents, entries and queries, together with the signing
//! pendants that hold an object while its signing key is being located.

use vstd::prelude::*;

pub mod dec;
pub mod doc;
pub mod entry;
pub mod enc;
pub mod ext;
pub mod hexnum;
pub mod json;
pub mod query;
mod roundtrip;
pub mod strutil;
pub mod value;

pub use dec::{DecodeError, json_to_fog};
pub use doc::{MaybeDocument, NewDocument, SignDocument, doc_to_json, json_to_doc};
pub use entry::{JsonEntry, MaybeEntry, NewEntry, SignEntry, entry_to_json};
pub use query::{Query, json_to_query, query_to_json};
pub use enc::fog_to_json;
pub use json::JsonVal;
pub use value::{F32Val, Identity, Int, LockId, StreamId, Timestamp, Value};

use crate::dec::{DecErrSpec, eview};

verus! {

/// Why a JSON object could not be assembled into a fog-pack document, entry
/// or query.
#[derive(Debug)]
pub enum ObjectError {
    /// Value conversion failed for the field with this name.
    Decode { key: String, src: DecodeError },
    /// The field with this name decoded to the wrong kind of value.
    WrongDataType(String),
    /// The root JSON value was not an object.
    NotAnObject,
    /// The object holds a field this object kind does not recognize.
    UnrecognizedKey(String),
    /// A required field is missing; its name is carried.
    MissingKey(String),
    /// The underlying binary format layer refused the object; its message is
    /// carried verbatim.
    FogPack(String),
    /// The signing key offered does not belong to the identity the object
    /// names; the expected identity is carried.
    IncorrectIdentityKey(Box<crate::value::Identity>),
}

/// The mathematical shape of an `ObjectError`.
pub enum ObjErrSpec {
    Decode(Seq<char>, DecErrSpec),
    WrongDataType(Seq<char>),
    NotAnObject,
    UnrecognizedKey(Seq<char>),
    MissingKey(Seq<char>),
    FogPack(Seq<char>),
    IncorrectIdentityKey(Seq<char>),
}

/// The view of an `ObjectError`.
pub open spec fn oeview(e: ObjectError) -> ObjErrSpec {
    match e {
        ObjectError::Decode { key, src } => ObjErrSpec::Decode(key@, eview(src)),
        ObjectError::WrongDataType(k) => ObjErrSpec::WrongDataType(k@),
        ObjectError::NotAnObject => ObjErrSpec::NotAnObject,
        ObjectError::UnrecognizedKey(k) => ObjErrSpec::UnrecognizedKey(k@),
        ObjectError::MissingKey(k) => ObjErrSpec::MissingKey(k@),
        ObjectError::FogPack(m) => ObjErrSpec::FogPack(m@),
        ObjectError::IncorrectIdentityKey(id) => ObjErrSpec::IncorrectIdentityKey(id@),
    }
}

} // verus!
