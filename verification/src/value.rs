//! The fog-pack value model: a closed tagged union whose every variant is
//! held as plain data, together with its mathematical view and its
//! well-formedness predicate.

use vstd::prelude::*;

use crate::ext::{
    data_lockbox_ok, f32_of_str, hash_b58_check, hash_b58_ok, identity_b58_check,
    identity_b58_ok, identity_lockbox_ok, lock_id_b58_check, lock_id_b58_ok, lock_lockbox_ok,
    stream_id_b58_check, stream_id_b58_ok, stream_lockbox_ok,
};
use crate::strutil::{is_trimmed, lex_lt, str_eq, trim};

verus! {

/// A 64-bit integer that tracks its sign range: `U` for values that fit an
/// unsigned 64-bit integer, `I` for negative values.
#[derive(Clone, Copy, Debug, PartialEq, Eq, Structural)]
pub enum Int {
    U(u64),
    I(i64),
}

/// An `Int` is canonical when the signed form is only used for negatives.
pub open spec fn int_wf(i: Int) -> bool {
    match i {
        Int::U(_) => true,
        Int::I(x) => x < 0,
    }
}

/// Whether a 32-bit IEEE-754 bit pattern is finite (exponent not all ones).
pub open spec fn is_finite32(b: u32) -> bool {
    (b >> 23) & 0xff != 0xff
}

/// Whether a 64-bit IEEE-754 bit pattern is finite.
pub open spec fn is_finite64(b: u64) -> bool {
    (b >> 52) & 0x7ff != 0x7ff
}

pub(crate) fn f32_finite(b: u32) -> (r: bool)
    ensures
        r == is_finite32(b),
{
    (b >> 23) & 0xff != 0xff
}

pub(crate) fn f64_finite(b: u64) -> (r: bool)
    ensures
        r == is_finite64(b),
{
    (b >> 52) & 0x7ff != 0x7ff
}

/// A 32-bit float value. Verified code cannot compute with floats, so a
/// finite value read from decimal text keeps both that text and its IEEE-754
/// bits (`Dec`), while any other value is held as bare bits (`Raw`) and is
/// rendered in the hexadecimal form.
#[derive(Clone, Debug, PartialEq)]
pub enum F32Val {
    Dec(String, u32),
    Raw(u32),
}

/// A fixed-width content digest, held in its Base58 text form and valid per
/// fog-pack.
#[derive(Clone, Debug, PartialEq)]
pub struct Hash {
    b58: String,
}

/// A signer's public-key identifier, held in its Base58 text form and valid
/// per fog-pack.
#[derive(Clone, Debug, PartialEq)]
pub struct Identity {
    b58: String,
}

/// A stream identifier, held in its Base58 text form and valid per fog-pack.
#[derive(Clone, Debug, PartialEq)]
pub struct StreamId {
    b58: String,
}

/// A lock identifier, held in its Base58 text form and valid per fog-pack.
#[derive(Clone, Debug, PartialEq)]
pub struct LockId {
    b58: String,
}

impl View for Hash {
    type V = Seq<char>;

    closed spec fn view(&self) -> Seq<char> {
        self.b58@
    }
}

impl View for Identity {
    type V = Seq<char>;

    closed spec fn view(&self) -> Seq<char> {
        self.b58@
    }
}

impl View for StreamId {
    type V = Seq<char>;

    closed spec fn view(&self) -> Seq<char> {
        self.b58@
    }
}

impl View for LockId {
    type V = Seq<char>;

    closed spec fn view(&self) -> Seq<char> {
        self.b58@
    }
}

/// Validity of a hash in text form: valid Base58 for fog-pack, with no
/// surrounding whitespace.
pub open spec fn hash_text_wf(s: Seq<char>) -> bool {
    hash_b58_ok(s) && is_trimmed(s)
}

/// Validity of an identity in text form.
pub open spec fn identity_text_wf(s: Seq<char>) -> bool {
    identity_b58_ok(s) && is_trimmed(s)
}

/// Validity of a stream id in text form.
pub open spec fn stream_id_text_wf(s: Seq<char>) -> bool {
    stream_id_b58_ok(s) && is_trimmed(s)
}

/// Validity of a lock id in text form.
pub open spec fn lock_id_text_wf(s: Seq<char>) -> bool {
    lock_id_b58_ok(s) && is_trimmed(s)
}

impl Hash {
    /// Accept a Base58 hash string exactly when fog-pack accepts it.
    pub fn from_base58(s: &str) -> (r: Option<Hash>)
        ensures
            match r {
                Some(h) => h@ == s@ && hash_text_wf(s@),
                None => !hash_text_wf(s@),
            },
    {
        let t = trim(s);
        if !str_eq(t, s) {
            return None;
        }
        if !hash_b58_check(s) {
            return None;
        }
        Some(Hash { b58: s.to_owned() })
    }

    /// The Base58 text of the hash.
    pub fn as_base58(&self) -> (r: &str)
        ensures
            r@ == self@,
    {
        self.b58.as_str()
    }
}

impl Identity {
    /// Accept a Base58 identity string exactly when fog-pack accepts it.
    pub fn from_base58(s: &str) -> (r: Option<Identity>)
        ensures
            match r {
                Some(h) => h@ == s@ && identity_text_wf(s@),
                None => !identity_text_wf(s@),
            },
    {
        let t = trim(s);
        if !str_eq(t, s) {
            return None;
        }
        if !identity_b58_check(s) {
            return None;
        }
        Some(Identity { b58: s.to_owned() })
    }

    /// The Base58 text of the identity.
    pub fn as_base58(&self) -> (r: &str)
        ensures
            r@ == self@,
    {
        self.b58.as_str()
    }

    /// Whether two identities are the same signer.
    pub fn same_as(&self, other: &Identity) -> (r: bool)
        ensures
            r == (self@ == other@),
    {
        str_eq(self.b58.as_str(), other.b58.as_str())
    }
}

impl StreamId {
    /// Accept a Base58 stream id string exactly when fog-pack accepts it.
    pub fn from_base58(s: &str) -> (r: Option<StreamId>)
        ensures
            match r {
                Some(h) => h@ == s@ && stream_id_text_wf(s@),
                None => !stream_id_text_wf(s@),
            },
    {
        let t = trim(s);
        if !str_eq(t, s) {
            return None;
        }
        if !stream_id_b58_check(s) {
            return None;
        }
        Some(StreamId { b58: s.to_owned() })
    }

    /// The Base58 text of the stream id.
    pub fn as_base58(&self) -> (r: &str)
        ensures
            r@ == self@,
    {
        self.b58.as_str()
    }
}

impl LockId {
    /// Accept a Base58 lock id string exactly when fog-pack accepts it.
    pub fn from_base58(s: &str) -> (r: Option<LockId>)
        ensures
            match r {
                Some(h) => h@ == s@ && lock_id_text_wf(s@),
                None => !lock_id_text_wf(s@),
            },
    {
        let t = trim(s);
        if !str_eq(t, s) {
            return None;
        }
        if !lock_id_b58_check(s) {
            return None;
        }
        Some(LockId { b58: s.to_owned() })
    }

    /// The Base58 text of the lock id.
    pub fn as_base58(&self) -> (r: &str)
        ensures
            r@ == self@,
    {
        self.b58.as_str()
    }
}

/// First UTC second of year 0000: the earliest instant RFC 3339 can write.
pub const TS_MIN_SECS: i64 = -62167219200;

/// Last UTC second of year 9999: the latest instant RFC 3339 can write.
pub const TS_MAX_SECS: i64 = 253402300799;

/// Whether seconds and nanoseconds form a UTC instant that RFC 3339 can
/// write: within years 0000 through 9999, nanoseconds below one billion.
pub open spec fn ts_bounds(secs: int, nanos: int) -> bool {
    TS_MIN_SECS <= secs <= TS_MAX_SECS && 0 <= nanos <= 999_999_999
}

/// A UTC instant: seconds since the Unix epoch plus subsecond nanoseconds,
/// normalized and always within the RFC 3339 window.
#[derive(Clone, Copy, Debug, PartialEq, Eq, Structural)]
pub struct Timestamp {
    secs: i64,
    nanos: u32,
}

impl Timestamp {
    #[verifier::type_invariant]
    spec fn inv(self) -> bool {
        ts_bounds(self.secs as int, self.nanos as int)
    }

    /// Seconds since the Unix epoch.
    pub closed spec fn spec_secs(self) -> int {
        self.secs as int
    }

    /// Subsecond nanoseconds.
    pub closed spec fn spec_nanos(self) -> int {
        self.nanos as int
    }

    /// Accept a UTC instant; rejected when the nanoseconds reach one billion
    /// or the seconds fall outside the RFC 3339 year window.
    pub fn from_utc(secs: i64, nanos: u32) -> (r: Option<Timestamp>)
        ensures
            match r {
                Some(t) => t.spec_secs() == secs && t.spec_nanos() == nanos && ts_bounds(
                    secs as int,
                    nanos as int,
                ),
                None => !ts_bounds(secs as int, nanos as int),
            },
    {
        if TS_MIN_SECS <= secs && secs <= TS_MAX_SECS && nanos <= 999_999_999 {
            Some(Timestamp { secs, nanos })
        } else {
            None
        }
    }

    /// The instant as UTC seconds and subsecond nanoseconds.
    pub fn utc(&self) -> (r: (i64, u32))
        ensures
            r.0 == self.spec_secs(),
            r.1 == self.spec_nanos(),
            ts_bounds(r.0 as int, r.1 as int),
    {
        proof {
            use_type_invariant(&*self);
        }
        (self.secs, self.nanos)
    }
}

/// A key and the value under it: one entry of a fog-pack map.
pub struct ValPair {
    pub key: String,
    pub val: Value,
}

/// The fog-pack value model. Every variant is self-describing plain data;
/// nothing needs outside context to round-trip through JSON.
pub enum Value {
    Null,
    Bool(bool),
    Int(Int),
    F32(F32Val),
    F64(u64),
    Str(String),
    Bin(Vec<u8>),
    Array(Vec<Value>),
    Object(Vec<ValPair>),
    Hash(Hash),
    Identity(Identity),
    StreamId(StreamId),
    LockId(LockId),
    DataLockbox(Vec<u8>),
    IdentityLockbox(Vec<u8>),
    StreamLockbox(Vec<u8>),
    LockLockbox(Vec<u8>),
    Timestamp(Timestamp),
}

/// The mathematical shape of a `Value`: texts as character sequences, bytes
/// as byte sequences, the trees as sequences of views.
pub enum ValSpec {
    Null,
    Bool(bool),
    Int(Int),
    F32Dec(Seq<char>, u32),
    F32Raw(u32),
    F64(u64),
    Str(Seq<char>),
    Bin(Seq<u8>),
    Array(Seq<ValSpec>),
    Object(Seq<(Seq<char>, ValSpec)>),
    Hash(Seq<char>),
    Identity(Seq<char>),
    StreamId(Seq<char>),
    LockId(Seq<char>),
    DataLockbox(Seq<u8>),
    IdentityLockbox(Seq<u8>),
    StreamLockbox(Seq<u8>),
    LockLockbox(Seq<u8>),
    Timestamp(int, int),
}

/// The view of a `Value`.
pub open spec fn vview(v: Value) -> ValSpec
    decreases v,
{
    match v {
        Value::Null => ValSpec::Null,
        Value::Bool(b) => ValSpec::Bool(b),
        Value::Int(i) => ValSpec::Int(i),
        Value::F32(f) => match f {
            F32Val::Dec(s, b) => ValSpec::F32Dec(s@, b),
            F32Val::Raw(b) => ValSpec::F32Raw(b),
        },
        Value::F64(b) => ValSpec::F64(b),
        Value::Str(s) => ValSpec::Str(s@),
        Value::Bin(b) => ValSpec::Bin(b@),
        Value::Array(vs) => ValSpec::Array(vview_seq(vs@)),
        Value::Object(ps) => ValSpec::Object(vview_pairs(ps@)),
        Value::Hash(h) => ValSpec::Hash(h@),
        Value::Identity(h) => ValSpec::Identity(h@),
        Value::StreamId(h) => ValSpec::StreamId(h@),
        Value::LockId(h) => ValSpec::LockId(h@),
        Value::DataLockbox(b) => ValSpec::DataLockbox(b@),
        Value::IdentityLockbox(b) => ValSpec::IdentityLockbox(b@),
        Value::StreamLockbox(b) => ValSpec::StreamLockbox(b@),
        Value::LockLockbox(b) => ValSpec::LockLockbox(b@),
        Value::Timestamp(t) => ValSpec::Timestamp(t.spec_secs(), t.spec_nanos()),
    }
}

/// Element-wise view of an array's items.
pub open spec fn vview_seq(vs: Seq<Value>) -> Seq<ValSpec>
    decreases vs,
{
    if vs.len() == 0 {
        Seq::empty()
    } else {
        seq![vview(vs[0])] + vview_seq(vs.drop_first())
    }
}

/// Pair-wise view of a map's entries.
pub open spec fn vview_pairs(ps: Seq<ValPair>) -> Seq<(Seq<char>, ValSpec)>
    decreases ps,
{
    if ps.len() == 0 {
        Seq::empty()
    } else {
        seq![(ps[0].key@, vview(ps[0].val))] + vview_pairs(ps.drop_first())
    }
}

pub proof fn lemma_vview_seq(vs: Seq<Value>)
    ensures
        vview_seq(vs).len() == vs.len(),
        forall|i: int| 0 <= i < vs.len() ==> vview_seq(vs)[i] == vview(vs[i]),
    decreases vs,
{
    if vs.len() > 0 {
        lemma_vview_seq(vs.drop_first());
    }
}

pub proof fn lemma_vview_pairs(ps: Seq<ValPair>)
    ensures
        vview_pairs(ps).len() == ps.len(),
        forall|i: int|
            0 <= i < ps.len() ==> vview_pairs(ps)[i] == (ps[i].key@, vview(ps[i].val)),
    decreases ps,
{
    if ps.len() > 0 {
        lemma_vview_pairs(ps.drop_first());
    }
}

/// Map keys strictly increase in lexicographic order: unique and canonical.
pub open spec fn pairs_sorted(ps: Seq<(Seq<char>, ValSpec)>) -> bool {
    forall|i: int| 0 <= i < ps.len() - 1 ==> #[trigger] lex_lt(ps[i].0, ps[i + 1].0)
}

/// Well-formedness of a value: canonical integers, float text that parses to
/// the recorded finite bits, valid identifiers and lockboxes, sorted map
/// keys, and timestamps within the RFC 3339 window.
pub open spec fn val_wf(v: ValSpec) -> bool
    decreases v,
{
    match v {
        ValSpec::Null => true,
        ValSpec::Bool(_) => true,
        ValSpec::Int(i) => int_wf(i),
        ValSpec::F32Dec(s, b) => f32_of_str(s) == Some(b) && is_finite32(b) && is_trimmed(s),
        ValSpec::F32Raw(_) => true,
        ValSpec::F64(_) => true,
        ValSpec::Str(_) => true,
        ValSpec::Bin(_) => true,
        ValSpec::Array(vs) => val_wf_seq(vs),
        ValSpec::Object(ps) => pairs_sorted(ps) && val_wf_pairs(ps),
        ValSpec::Hash(s) => hash_text_wf(s),
        ValSpec::Identity(s) => identity_text_wf(s),
        ValSpec::StreamId(s) => stream_id_text_wf(s),
        ValSpec::LockId(s) => lock_id_text_wf(s),
        ValSpec::DataLockbox(b) => data_lockbox_ok(b),
        ValSpec::IdentityLockbox(b) => identity_lockbox_ok(b),
        ValSpec::StreamLockbox(b) => stream_lockbox_ok(b),
        ValSpec::LockLockbox(b) => lock_lockbox_ok(b),
        ValSpec::Timestamp(secs, nanos) => ts_bounds(secs, nanos),
    }
}

pub open spec fn val_wf_seq(vs: Seq<ValSpec>) -> bool
    decreases vs,
{
    if vs.len() == 0 {
        true
    } else {
        val_wf(vs[0]) && val_wf_seq(vs.drop_first())
    }
}

pub open spec fn val_wf_pairs(ps: Seq<(Seq<char>, ValSpec)>) -> bool
    decreases ps,
{
    if ps.len() == 0 {
        true
    } else {
        val_wf(ps[0].1) && val_wf_pairs(ps.drop_first())
    }
}

pub proof fn lemma_val_wf_seq(vs: Seq<ValSpec>)
    ensures
        val_wf_seq(vs) <==> (forall|i: int| 0 <= i < vs.len() ==> val_wf(vs[i])),
    decreases vs,
{
    if vs.len() > 0 {
        lemma_val_wf_seq(vs.drop_first());
        if val_wf_seq(vs) {
            assert forall|i: int| 0 <= i < vs.len() implies val_wf(vs[i]) by {
                if i > 0 {
                    assert(vs.drop_first()[i - 1] == vs[i]);
                }
            }
        }
        if forall|i: int| 0 <= i < vs.len() ==> val_wf(vs[i]) {
            assert forall|i: int| 0 <= i < vs.drop_first().len() implies val_wf(
                vs.drop_first()[i],
            ) by {
                assert(vs.drop_first()[i] == vs[i + 1]);
            }
            assert(val_wf(vs[0]));
        }
    }
}

pub proof fn lemma_val_wf_pairs(ps: Seq<(Seq<char>, ValSpec)>)
    ensures
        val_wf_pairs(ps) <==> (forall|i: int| 0 <= i < ps.len() ==> val_wf(ps[i].1)),
    decreases ps,
{
    if ps.len() > 0 {
        lemma_val_wf_pairs(ps.drop_first());
        if val_wf_pairs(ps) {
            assert forall|i: int| 0 <= i < ps.len() implies val_wf(ps[i].1) by {
                if i > 0 {
                    assert(ps.drop_first()[i - 1] == ps[i]);
                }
            }
        }
        if forall|i: int| 0 <= i < ps.len() ==> val_wf(ps[i].1) {
            assert forall|i: int| 0 <= i < ps.drop_first().len() implies val_wf(
                ps.drop_first()[i].1,
            ) by {
                assert(ps.drop_first()[i] == ps[i + 1]);
            }
            assert(val_wf(ps[0].1));
        }
    }
}

/// View of an optional hash as its optional text.
pub open spec fn opt_hash_view(o: Option<Hash>) -> Option<Seq<char>> {
    match o {
        Some(h) => Some(h@),
        None => None,
    }
}

/// View of an optional identity as its optional text.
pub open spec fn opt_identity_view(o: Option<Identity>) -> Option<Seq<char>> {
    match o {
        Some(h) => Some(h@),
        None => None,
    }
}

/// Construct a finite 32-bit float value from decimal text, exactly when the
/// text parses as a finite 32-bit float and carries no outer whitespace.
pub fn f32_from_text(s: &str) -> (r: Option<F32Val>)
    ensures
        match r {
            Some(f) => vview(Value::F32(f)) == ValSpec::F32Dec(s@, f32_of_str(s@)->Some_0)
                && val_wf(vview(Value::F32(f))),
            None => !(f32_of_str(s@) is Some && is_finite32(f32_of_str(s@)->Some_0)
                && is_trimmed(s@)),
        },
{
    let t = trim(s);
    if !str_eq(t, s) {
        return None;
    }
    match crate::ext::parse_f32_bits(s) {
        Some(bits) => {
            if f32_finite(bits) {
                Some(F32Val::Dec(s.to_owned(), bits))
            } else {
                None
            }
        },
        None => None,
    }
}

} // verus!
