//! The value decoder: JSON tree to fog-pack value, with exact error
//! attribution. A failure inside an array or object is wrapped with the index
//! or key where it happened, so the chain names the full structural path to
//! the offending text.

use vstd::prelude::*;
use vstd::string::*;

use crate::ext::{b64_decode, b64_parse, data_lockbox_check, data_lockbox_ok, f32_of_str,
    f64_of_str, hash_b58_ok, identity_b58_ok, identity_lockbox_check, identity_lockbox_ok,
    lock_id_b58_ok, lock_lockbox_check, lock_lockbox_ok, parse_f32_bits, parse_f64_bits,
    rfc3339_parse, rfc3339_read, stream_id_b58_ok, stream_lockbox_check, stream_lockbox_ok};
use crate::hexnum::{hex_parse, hex_parse_spec, parse_i64, parse_i64_spec, parse_u64,
    parse_u64_spec};
use crate::json::{JsonSpec, JsonVal, jview, jview_pairs, jview_seq, lemma_jview_pairs,
    lemma_jview_seq};
use crate::strutil::{find_char, find_from, lemma_find_subrange, lemma_trim_idempotent, starts_with,
    starts_with_spec, str_eq, trim, trim_spec};
use crate::value::{F32Val, Int, Timestamp, ValSpec, Value, f32_finite, is_finite32, ts_bounds,
    vview, vview_pairs, vview_seq, lemma_vview_pairs, lemma_vview_seq};

verus! {

broadcast use vstd::seq::group_seq_axioms;

/// Why a JSON value could not be read as a fog-pack value. `Array` and
/// `Object` wrap a child's error with the place where it happened.
#[derive(Debug)]
pub enum DecodeError {
    /// Conversion failed for the array item at this index.
    Array { loc: usize, err: Box<DecodeError> },
    /// Conversion failed for the object value under this key.
    Object { key: String, err: Box<DecodeError> },
    /// A payload that should be Base64 was not valid Base64.
    Base64,
    /// A payload that should be fixed-width hexadecimal was not.
    Hex,
    /// The `$fog-` type token is not one this codec knows.
    UnrecognizedType(String),
    /// The time payload is not a valid RFC 3339 instant.
    InvalidTime,
    /// The floating-point payload does not parse.
    InvalidFloat,
    /// The integer payload does not parse or does not fit 64 bits.
    InvalidInteger,
    /// A `$fog-` string has no colon after its type token.
    BadFogType,
    /// A payload that should be Base58 was not a valid identifier.
    InvalidBase58,
    /// The lockbox bytes do not form a well-formed lockbox container.
    InvalidLockbox,
}

/// The mathematical shape of a `DecodeError`.
pub enum DecErrSpec {
    Array(int, Box<DecErrSpec>),
    Object(Seq<char>, Box<DecErrSpec>),
    Base64,
    Hex,
    UnrecognizedType(Seq<char>),
    InvalidTime,
    InvalidFloat,
    InvalidInteger,
    BadFogType,
    InvalidBase58,
    InvalidLockbox,
}

/// The view of a `DecodeError`.
pub open spec fn eview(e: DecodeError) -> DecErrSpec
    decreases e,
{
    match e {
        DecodeError::Array { loc, err } => DecErrSpec::Array(loc as int, Box::new(eview(*err))),
        DecodeError::Object { key, err } => DecErrSpec::Object(key@, Box::new(eview(*err))),
        DecodeError::Base64 => DecErrSpec::Base64,
        DecodeError::Hex => DecErrSpec::Hex,
        DecodeError::UnrecognizedType(t) => DecErrSpec::UnrecognizedType(t@),
        DecodeError::InvalidTime => DecErrSpec::InvalidTime,
        DecodeError::InvalidFloat => DecErrSpec::InvalidFloat,
        DecodeError::InvalidInteger => DecErrSpec::InvalidInteger,
        DecodeError::BadFogType => DecErrSpec::BadFogType,
        DecodeError::InvalidBase58 => DecErrSpec::InvalidBase58,
        DecodeError::InvalidLockbox => DecErrSpec::InvalidLockbox,
    }
}

/// What decoding makes of one tagged string, given its type token and the
/// payload after the colon. The payload is trimmed for every type but `Str`,
/// whose payload is taken verbatim.
pub open spec fn dec_tag(ty: Seq<char>, payload: Seq<char>) -> Result<ValSpec, DecErrSpec> {
    let val = trim_spec(payload);
    if ty == "Str"@ {
        Ok(ValSpec::Str(payload))
    } else if ty == "F32"@ {
        match f32_of_str(val) {
            Some(b) => Ok(
                if is_finite32(b) {
                    ValSpec::F32Dec(val, b)
                } else {
                    ValSpec::F32Raw(b)
                },
            ),
            None => Err(DecErrSpec::InvalidFloat),
        }
    } else if ty == "F64"@ {
        match f64_of_str(val) {
            Some(b) => Ok(ValSpec::F64(b)),
            None => Err(DecErrSpec::InvalidFloat),
        }
    } else if ty == "Int"@ {
        if val.len() > 0 && val[0] == '-' {
            match parse_i64_spec(val) {
                Some(x) => Ok(
                    ValSpec::Int(
                        if x < 0 {
                            Int::I(x)
                        } else {
                            Int::U(x as u64)
                        },
                    ),
                ),
                None => Err(DecErrSpec::InvalidInteger),
            }
        } else {
            match parse_u64_spec(val) {
                Some(u) => Ok(ValSpec::Int(Int::U(u))),
                None => Err(DecErrSpec::InvalidInteger),
            }
        }
    } else if ty == "F32Hex"@ {
        match hex_parse_spec(val, 8) {
            Some(b) => Ok(ValSpec::F32Raw(b as u32)),
            None => Err(DecErrSpec::Hex),
        }
    } else if ty == "F64Hex"@ {
        match hex_parse_spec(val, 16) {
            Some(b) => Ok(ValSpec::F64(b as u64)),
            None => Err(DecErrSpec::Hex),
        }
    } else if ty == "Bin"@ {
        match b64_parse(val) {
            Some(b) => Ok(ValSpec::Bin(b)),
            None => Err(DecErrSpec::Base64),
        }
    } else if ty == "Hash"@ {
        if hash_b58_ok(val) {
            Ok(ValSpec::Hash(val))
        } else {
            Err(DecErrSpec::InvalidBase58)
        }
    } else if ty == "Identity"@ {
        if identity_b58_ok(val) {
            Ok(ValSpec::Identity(val))
        } else {
            Err(DecErrSpec::InvalidBase58)
        }
    } else if ty == "StreamId"@ {
        if stream_id_b58_ok(val) {
            Ok(ValSpec::StreamId(val))
        } else {
            Err(DecErrSpec::InvalidBase58)
        }
    } else if ty == "LockId"@ {
        if lock_id_b58_ok(val) {
            Ok(ValSpec::LockId(val))
        } else {
            Err(DecErrSpec::InvalidBase58)
        }
    } else if ty == "DataLockbox"@ {
        match b64_parse(val) {
            Some(b) => if data_lockbox_ok(b) {
                Ok(ValSpec::DataLockbox(b))
            } else {
                Err(DecErrSpec::InvalidLockbox)
            },
            None => Err(DecErrSpec::Base64),
        }
    } else if ty == "IdentityLockbox"@ {
        match b64_parse(val) {
            Some(b) => if identity_lockbox_ok(b) {
                Ok(ValSpec::IdentityLockbox(b))
            } else {
                Err(DecErrSpec::InvalidLockbox)
            },
            None => Err(DecErrSpec::Base64),
        }
    } else if ty == "StreamLockbox"@ {
        match b64_parse(val) {
            Some(b) => if stream_lockbox_ok(b) {
                Ok(ValSpec::StreamLockbox(b))
            } else {
                Err(DecErrSpec::InvalidLockbox)
            },
            None => Err(DecErrSpec::Base64),
        }
    } else if ty == "LockLockbox"@ {
        match b64_parse(val) {
            Some(b) => if lock_lockbox_ok(b) {
                Ok(ValSpec::LockLockbox(b))
            } else {
                Err(DecErrSpec::InvalidLockbox)
            },
            None => Err(DecErrSpec::Base64),
        }
    } else if ty == "Time"@ {
        match rfc3339_parse(val) {
            Some(p) => if ts_bounds(p.0 as int, p.1 as int) {
                Ok(ValSpec::Timestamp(p.0 as int, p.1 as int))
            } else {
                Err(DecErrSpec::InvalidTime)
            },
            None => Err(DecErrSpec::InvalidTime),
        }
    } else {
        Err(DecErrSpec::UnrecognizedType(ty))
    }
}

/// What decoding makes of one JSON string: a plain string passes through
/// unless it carries the reserved prefix, in which case it is split at the
/// first colon into a type token and a payload.
pub open spec fn dec_text(s: Seq<char>) -> Result<ValSpec, DecErrSpec> {
    if !starts_with_spec(s, "$fog-"@) {
        Ok(ValSpec::Str(s))
    } else {
        let rest = s.subrange(5, s.len() as int);
        match find_from(rest, 0, ':') {
            None => Err(DecErrSpec::BadFogType),
            Some(c) => dec_tag(rest.subrange(0, c), rest.subrange(c + 1, rest.len() as int)),
        }
    }
}

/// What decoding makes of a JSON tree. Numbers prefer the unsigned form,
/// then the signed form, then 64-bit float bits; arrays and objects recurse,
/// wrapping a child's failure with its position.
pub open spec fn dec(j: JsonSpec) -> Result<ValSpec, DecErrSpec>
    decreases j,
{
    match j {
        JsonSpec::Null => Ok(ValSpec::Null),
        JsonSpec::Bool(b) => Ok(ValSpec::Bool(b)),
        JsonSpec::NumU(u) => Ok(ValSpec::Int(Int::U(u))),
        JsonSpec::NumI(x) => Ok(
            ValSpec::Int(
                if x < 0 {
                    Int::I(x)
                } else {
                    Int::U(x as u64)
                },
            ),
        ),
        JsonSpec::NumF(b) => Ok(ValSpec::F64(b)),
        JsonSpec::Str(s) => dec_text(s),
        JsonSpec::Array(js) => match dec_seq(js) {
            Ok(vs) => Ok(ValSpec::Array(vs)),
            Err(p) => Err(DecErrSpec::Array(p.0, Box::new(p.1))),
        },
        JsonSpec::Object(ps) => match dec_pairs(ps) {
            Ok(vps) => Ok(ValSpec::Object(vps)),
            Err(p) => Err(DecErrSpec::Object(p.0, Box::new(p.1))),
        },
    }
}

/// Decode an array's items in order; a failure carries the index of the
/// first item that fails.
pub open spec fn dec_seq(js: Seq<JsonSpec>) -> Result<Seq<ValSpec>, (int, DecErrSpec)>
    decreases js,
{
    if js.len() == 0 {
        Ok(Seq::empty())
    } else {
        match dec(js[0]) {
            Err(e) => Err((0int, e)),
            Ok(v) => match dec_seq(js.drop_first()) {
                Ok(vs) => Ok(seq![v] + vs),
                Err(p) => Err((p.0 + 1, p.1)),
            },
        }
    }
}

/// Decode an object's entries in order; a failure carries the key of the
/// first entry whose value fails.
pub open spec fn dec_pairs(ps: Seq<(Seq<char>, JsonSpec)>) -> Result<
    Seq<(Seq<char>, ValSpec)>,
    (Seq<char>, DecErrSpec),
>
    decreases ps,
{
    if ps.len() == 0 {
        Ok(Seq::empty())
    } else {
        match dec(ps[0].1) {
            Err(e) => Err((ps[0].0, e)),
            Ok(v) => match dec_pairs(ps.drop_first()) {
                Ok(vps) => Ok(seq![(ps[0].0, v)] + vps),
                Err(p) => Err(p),
            },
        }
    }
}

pub proof fn lemma_dec_seq(js: Seq<JsonSpec>)
    ensures
        match dec_seq(js) {
            Ok(vs) => vs.len() == js.len() && forall|i: int|
                0 <= i < js.len() ==> dec(#[trigger] js[i]) is Ok && vs[i] == dec(js[i])->Ok_0,
            Err(p) => 0 <= p.0 < js.len() && dec(js[p.0]) is Err && p.1 == dec(js[p.0])->Err_0
                && forall|k: int| 0 <= k < p.0 ==> dec(#[trigger] js[k]) is Ok,
        },
    decreases js,
{
    if js.len() > 0 {
        let tail = js.drop_first();
        lemma_dec_seq(tail);
        assert(forall|i: int| 0 <= i < tail.len() ==> #[trigger] tail[i] == js[i + 1]);
        match dec(js[0]) {
            Err(_) => {},
            Ok(v) => {
                match dec_seq(tail) {
                    Ok(vs) => {
                        let res = seq![v] + vs;
                        assert forall|i: int| 0 <= i < js.len() implies dec(#[trigger] js[i]) is Ok
                            && res[i] == dec(js[i])->Ok_0 by {
                            if i > 0 {
                                assert(tail[i - 1] == js[i]);
                                assert(dec(tail[i - 1]) is Ok);
                                assert(res[i] == vs[i - 1]);
                            }
                        }
                    },
                    Err(p) => {
                        assert(tail[p.0] == js[p.0 + 1]);
                        assert forall|k: int| 0 <= k < p.0 + 1 implies dec(
                            #[trigger] js[k],
                        ) is Ok by {
                            if k > 0 {
                                assert(tail[k - 1] == js[k]);
                                assert(dec(tail[k - 1]) is Ok);
                            }
                        }
                    },
                }
            },
        }
    }
}

pub proof fn lemma_dec_pairs(ps: Seq<(Seq<char>, JsonSpec)>)
    ensures
        match dec_pairs(ps) {
            Ok(vps) => vps.len() == ps.len() && forall|i: int|
                0 <= i < ps.len() ==> dec(#[trigger] ps[i].1) is Ok && vps[i] == (
                ps[i].0,
                dec(ps[i].1)->Ok_0,
                ),
            Err(p) => exists|i: int|
                {
                    &&& 0 <= i < ps.len()
                    &&& dec(#[trigger] ps[i].1) is Err
                    &&& p.0 == ps[i].0
                    &&& p.1 == dec(ps[i].1)->Err_0
                    &&& forall|k: int| 0 <= k < i ==> dec(#[trigger] ps[k].1) is Ok
                },
        },
    decreases ps,
{
    if ps.len() > 0 {
        let tail = ps.drop_first();
        lemma_dec_pairs(tail);
        assert(forall|i: int| 0 <= i < tail.len() ==> #[trigger] tail[i] == ps[i + 1]);
        match dec(ps[0].1) {
            Err(e) => {
                assert({
                    &&& 0 <= 0 < ps.len()
                    &&& dec(#[trigger] ps[0].1) is Err
                    &&& dec_pairs(ps)->Err_0.0 == ps[0].0
                    &&& dec_pairs(ps)->Err_0.1 == dec(ps[0].1)->Err_0
                    &&& forall|k: int| 0 <= k < 0 ==> dec(#[trigger] ps[k].1) is Ok
                });
            },
            Ok(v) => {
                match dec_pairs(tail) {
                    Ok(vps) => {
                        let res = seq![(ps[0].0, v)] + vps;
                        assert forall|i: int| 0 <= i < ps.len() implies dec(
                            #[trigger] ps[i].1,
                        ) is Ok && res[i] == (ps[i].0, dec(ps[i].1)->Ok_0) by {
                            if i > 0 {
                                assert(tail[i - 1] == ps[i]);
                                assert(dec(tail[i - 1].1) is Ok);
                                assert(res[i] == vps[i - 1]);
                            }
                        }
                    },
                    Err(p) => {
                        let i0 = choose|i: int|
                            {
                                &&& 0 <= i < tail.len()
                                &&& dec(#[trigger] tail[i].1) is Err
                                &&& p.0 == tail[i].0
                                &&& p.1 == dec(tail[i].1)->Err_0
                                &&& forall|k: int| 0 <= k < i ==> dec(#[trigger] tail[k].1) is Ok
                            };
                        assert(tail[i0] == ps[i0 + 1]);
                        assert(dec(ps[i0 + 1].1) is Err);
                        assert forall|k: int| 0 <= k < i0 + 1 implies dec(
                            #[trigger] ps[k].1,
                        ) is Ok by {
                            if k > 0 {
                                assert(tail[k - 1] == ps[k]);
                                assert(dec(tail[k - 1].1) is Ok);
                            }
                        }
                    },
                }
            },
        }
    }
}

/// Every value the tag dispatch accepts is well-formed: its payload checks
/// are exactly the value's validity conditions.
proof fn lemma_dec_tag_wf(ty: Seq<char>, payload: Seq<char>)
    ensures
        dec_tag(ty, payload) is Ok ==> crate::value::val_wf(dec_tag(ty, payload)->Ok_0),
{
    crate::strutil::lemma_trim_idempotent(payload);
}

/// Decoding a JSON tree whose objects are sorted yields a well-formed value:
/// everything the decoder accepts can be encoded again and decoded back.
pub proof fn lemma_dec_wf(j: JsonSpec)
    requires
        crate::json::json_sorted(j),
        dec(j) is Ok,
    ensures
        crate::value::val_wf(dec(j)->Ok_0),
    decreases j,
{
    match j {
        JsonSpec::Str(s) => {
            if starts_with_spec(s, "$fog-"@) {
                let rest = s.subrange(5, s.len() as int);
                match find_from(rest, 0, ':') {
                    None => {},
                    Some(c) => {
                        lemma_dec_tag_wf(rest.subrange(0, c), rest.subrange(c + 1, rest.len() as int));
                    },
                }
            }
        },
        JsonSpec::Array(js) => {
            lemma_dec_seq(js);
            crate::json::lemma_json_sorted_seq(js);
            match dec_seq(js) {
                Err(_) => {},
                Ok(vs) => {
                    assert forall|i: int| 0 <= i < vs.len() implies crate::value::val_wf(
                        #[trigger] vs[i],
                    ) by {
                        assert(decreases_to!(j => js));
                        assert(decreases_to!(js => js[i]));
                        assert(decreases_to!(j => js[i]));
                        lemma_dec_wf(js[i]);
                    }
                    crate::value::lemma_val_wf_seq(vs);
                },
            }
        },
        JsonSpec::Object(ps) => {
            lemma_dec_pairs(ps);
            crate::json::lemma_json_sorted_pairs(ps);
            match dec_pairs(ps) {
                Err(_) => {},
                Ok(vps) => {
                    assert forall|i: int| 0 <= i < vps.len() implies crate::value::val_wf(
                        #[trigger] vps[i].1,
                    ) by {
                        assert(decreases_to!(j => ps));
                        assert(decreases_to!(ps => ps[i]));
                        assert(decreases_to!(ps[i] => ps[i].1));
                        assert(decreases_to!(j => ps[i].1));
                        lemma_dec_wf(ps[i].1);
                    }
                    crate::value::lemma_val_wf_pairs(vps);
                    assert forall|i: int|
                        0 <= i < vps.len() - 1 implies #[trigger] crate::strutil::lex_lt(
                        vps[i].0,
                        vps[i + 1].0,
                    ) by {
                        assert(dec(ps[i].1) is Ok && vps[i] == (ps[i].0, dec(ps[i].1)->Ok_0));
                        assert(dec(ps[i + 1].1) is Ok && vps[i + 1] == (
                            ps[i + 1].0,
                            dec(ps[i + 1].1)->Ok_0,
                        ));
                        assert(crate::strutil::lex_lt(ps[i].0, ps[i + 1].0));
                    }
                },
            }
        },
        _ => {},
    }
}

/// Whether an executable decode result is exactly a spec-level decode result.
pub open spec fn dec_result_matches(
    r: Result<Value, DecodeError>,
    d: Result<ValSpec, DecErrSpec>,
) -> bool {
    match r {
        Ok(v) => d is Ok && vview(v) == d->Ok_0,
        Err(e) => d is Err && eview(e) == d->Err_0,
    }
}

/// Decode the payload of one tagged string.
fn dec_tag_exec(ty: &str, payload: &str) -> (r: Result<Value, DecodeError>)
    ensures
        dec_result_matches(r, dec_tag(ty@, payload@)),
{
    let val = trim(payload);
    proof {
        lemma_trim_idempotent(payload@);
    }
    if str_eq(ty, "Str") {
        Ok(Value::Str(payload.to_owned()))
    } else if str_eq(ty, "F32") {
        match parse_f32_bits(val) {
            Some(bits) => {
                if f32_finite(bits) {
                    Ok(Value::F32(F32Val::Dec(val.to_owned(), bits)))
                } else {
                    Ok(Value::F32(F32Val::Raw(bits)))
                }
            },
            None => Err(DecodeError::InvalidFloat),
        }
    } else if str_eq(ty, "F64") {
        match parse_f64_bits(val) {
            Some(bits) => Ok(Value::F64(bits)),
            None => Err(DecodeError::InvalidFloat),
        }
    } else if str_eq(ty, "Int") {
        if val.unicode_len() > 0 && val.get_char(0) == '-' {
            match parse_i64(val) {
                Some(x) => {
                    if x < 0 {
                        Ok(Value::Int(Int::I(x)))
                    } else {
                        Ok(Value::Int(Int::U(x as u64)))
                    }
                },
                None => Err(DecodeError::InvalidInteger),
            }
        } else {
            match parse_u64(val) {
                Some(u) => Ok(Value::Int(Int::U(u))),
                None => Err(DecodeError::InvalidInteger),
            }
        }
    } else if str_eq(ty, "F32Hex") {
        match hex_parse(val, 8) {
            Some(b) => Ok(Value::F32(F32Val::Raw(b as u32))),
            None => Err(DecodeError::Hex),
        }
    } else if str_eq(ty, "F64Hex") {
        match hex_parse(val, 16) {
            Some(b) => Ok(Value::F64(b)),
            None => Err(DecodeError::Hex),
        }
    } else if str_eq(ty, "Bin") {
        match b64_decode(val) {
            Some(b) => Ok(Value::Bin(b)),
            None => Err(DecodeError::Base64),
        }
    } else if str_eq(ty, "Hash") {
        match crate::value::Hash::from_base58(val) {
            Some(h) => Ok(Value::Hash(h)),
            None => Err(DecodeError::InvalidBase58),
        }
    } else if str_eq(ty, "Identity") {
        match crate::value::Identity::from_base58(val) {
            Some(h) => Ok(Value::Identity(h)),
            None => Err(DecodeError::InvalidBase58),
        }
    } else if str_eq(ty, "StreamId") {
        match crate::value::StreamId::from_base58(val) {
            Some(h) => Ok(Value::StreamId(h)),
            None => Err(DecodeError::InvalidBase58),
        }
    } else if str_eq(ty, "LockId") {
        match crate::value::LockId::from_base58(val) {
            Some(h) => Ok(Value::LockId(h)),
            None => Err(DecodeError::InvalidBase58),
        }
    } else if str_eq(ty, "DataLockbox") {
        match b64_decode(val) {
            Some(b) => {
                if data_lockbox_check(b.as_slice()) {
                    Ok(Value::DataLockbox(b))
                } else {
                    Err(DecodeError::InvalidLockbox)
                }
            },
            None => Err(DecodeError::Base64),
        }
    } else if str_eq(ty, "IdentityLockbox") {
        match b64_decode(val) {
            Some(b) => {
                if identity_lockbox_check(b.as_slice()) {
                    Ok(Value::IdentityLockbox(b))
                } else {
                    Err(DecodeError::InvalidLockbox)
                }
            },
            None => Err(DecodeError::Base64),
        }
    } else if str_eq(ty, "StreamLockbox") {
        match b64_decode(val) {
            Some(b) => {
                if stream_lockbox_check(b.as_slice()) {
                    Ok(Value::StreamLockbox(b))
                } else {
                    Err(DecodeError::InvalidLockbox)
                }
            },
            None => Err(DecodeError::Base64),
        }
    } else if str_eq(ty, "LockLockbox") {
        match b64_decode(val) {
            Some(b) => {
                if lock_lockbox_check(b.as_slice()) {
                    Ok(Value::LockLockbox(b))
                } else {
                    Err(DecodeError::InvalidLockbox)
                }
            },
            None => Err(DecodeError::Base64),
        }
    } else if str_eq(ty, "Time") {
        match rfc3339_read(val) {
            Some(p) => {
                match Timestamp::from_utc(p.0, p.1) {
                    Some(t) => Ok(Value::Timestamp(t)),
                    None => Err(DecodeError::InvalidTime),
                }
            },
            None => Err(DecodeError::InvalidTime),
        }
    } else {
        Err(DecodeError::UnrecognizedType(ty.to_owned()))
    }
}

/// Decode one JSON string.
fn dec_text_exec(s: &str) -> (r: Result<Value, DecodeError>)
    ensures
        dec_result_matches(r, dec_text(s@)),
{
    if !starts_with(s, "$fog-") {
        return Ok(Value::Str(s.to_owned()));
    }
    let n = s.unicode_len();
    proof {
        reveal_strlit("$fog-");
        lemma_find_subrange(s@, 5, ':');
    }
    match find_char(s, 5, ':') {
        None => Err(DecodeError::BadFogType),
        Some(cpos) => {
            let ty = s.substring_char(5, cpos);
            let payload = s.substring_char(cpos + 1, n);
            proof {
                let rest = s@.subrange(5, s@.len() as int);
                let c = cpos as int - 5;
                assert(ty@ =~= rest.subrange(0, c));
                assert(payload@ =~= rest.subrange(c + 1, rest.len() as int));
            }
            dec_tag_exec(ty, payload)
        },
    }
}

/// Convert a JSON value to a fog-pack value. The result is exactly `dec` of
/// the input's view: the value on success, and on failure the error chain
/// naming the path to the first offending element.
#[verifier::loop_isolation(false)]
pub fn json_to_fog(j: &JsonVal) -> (r: Result<Value, DecodeError>)
    ensures
        dec_result_matches(r, dec(jview(*j))),
    decreases *j,
{
    match j {
        JsonVal::Null => Ok(Value::Null),
        JsonVal::Bool(b) => Ok(Value::Bool(*b)),
        JsonVal::NumU(u) => Ok(Value::Int(Int::U(*u))),
        JsonVal::NumI(x) => {
            if *x < 0 {
                Ok(Value::Int(Int::I(*x)))
            } else {
                Ok(Value::Int(Int::U(*x as u64)))
            }
        },
        JsonVal::NumF(b) => Ok(Value::F64(*b)),
        JsonVal::Str(s) => dec_text_exec(s.as_str()),
        JsonVal::Array(js) => {
            let ghost jspec = jview_seq(js@);
            proof {
                lemma_jview_seq(js@);
            }
            let mut out: Vec<Value> = Vec::new();
            let mut i: usize = 0;
            while i < js.len()
                invariant
                    0 <= i <= js@.len(),
                    out@.len() == i as nat,
                    forall|k: int|
                        0 <= k < i ==> dec(#[trigger] jspec[k]) is Ok && vview(out@[k]) == dec(
                            jspec[k],
                        )->Ok_0,
                decreases js@.len() - i,
            {
                proof {
                    assert(decreases_to!(*j => j->Array_0));
                    assert(decreases_to!(j->Array_0 => j->Array_0@));
                    assert(decreases_to!(j->Array_0@ => j->Array_0@[i as int]));
                    assert(j->Array_0@[i as int] == js@[i as int]);
                }
                match json_to_fog(&js[i]) {
                    Ok(v) => {
                        out.push(v);
                        i = i + 1;
                    },
                    Err(e) => {
                        proof {
                            lemma_dec_seq(jspec);
                            match dec_seq(jspec) {
                                Ok(_) => {
                                    assert(dec(jspec[i as int]) is Ok);
                                },
                                Err(p) => {
                                    if p.0 < i as int {
                                        assert(dec(jspec[p.0]) is Ok);
                                    }
                                    if p.0 > i as int {
                                        assert(dec(jspec[i as int]) is Ok);
                                    }
                                },
                            }
                        }
                        return Err(DecodeError::Array { loc: i, err: Box::new(e) });
                    },
                }
            }
            proof {
                lemma_dec_seq(jspec);
                lemma_vview_seq(out@);
                match dec_seq(jspec) {
                    Err(p) => {
                        assert(dec(jspec[p.0]) is Ok);
                    },
                    Ok(vs) => {
                        assert forall|k: int| 0 <= k < out@.len() implies vview_seq(out@)[k]
                            == vs[k] by {
                            assert(dec(jspec[k]) is Ok);
                        }
                        assert(vview_seq(out@) =~= vs);
                    },
                }
            }
            Ok(Value::Array(out))
        },
        JsonVal::Object(ps) => {
            let ghost pspec = jview_pairs(ps@);
            proof {
                lemma_jview_pairs(ps@);
            }
            let mut out: Vec<crate::value::ValPair> = Vec::new();
            let mut i: usize = 0;
            while i < ps.len()
                invariant
                    0 <= i <= ps@.len(),
                    out@.len() == i as nat,
                    forall|k: int|
                        0 <= k < i ==> dec(#[trigger] pspec[k].1) is Ok && out@[k].key@
                            == pspec[k].0 && vview(out@[k].val) == dec(pspec[k].1)->Ok_0,
                decreases ps@.len() - i,
            {
                proof {
                    assert(decreases_to!(*j => j->Object_0));
                    assert(decreases_to!(j->Object_0 => j->Object_0@));
                    assert(decreases_to!(j->Object_0@ => j->Object_0@[i as int]));
                    assert(decreases_to!(j->Object_0@[i as int] => j->Object_0@[i as int].val));
                    assert(j->Object_0@[i as int] == ps@[i as int]);
                }
                let p = &ps[i];
                match json_to_fog(&p.val) {
                    Ok(v) => {
                        out.push(crate::value::ValPair { key: p.key.clone(), val: v });
                        i = i + 1;
                    },
                    Err(e) => {
                        proof {
                            lemma_dec_pairs(pspec);
                            match dec_pairs(pspec) {
                                Ok(_) => {
                                    assert(dec(pspec[i as int].1) is Ok);
                                },
                                Err(q) => {
                                    let i0 = choose|k: int|
                                        {
                                            &&& 0 <= k < pspec.len()
                                            &&& dec(#[trigger] pspec[k].1) is Err
                                            &&& q.0 == pspec[k].0
                                            &&& q.1 == dec(pspec[k].1)->Err_0
                                            &&& forall|m: int| 0 <= m < k ==> dec(
                                                #[trigger] pspec[m].1,
                                            ) is Ok
                                        };
                                    if i0 < i as int {
                                        assert(dec(pspec[i0].1) is Ok);
                                    }
                                    if i0 > i as int {
                                        assert(dec(pspec[i as int].1) is Ok);
                                    }
                                },
                            }
                        }
                        return Err(DecodeError::Object { key: p.key.clone(), err: Box::new(e) });
                    },
                }
            }
            proof {
                lemma_dec_pairs(pspec);
                lemma_vview_pairs(out@);
                match dec_pairs(pspec) {
                    Err(q) => {
                        let i0 = choose|k: int|
                            {
                                &&& 0 <= k < pspec.len()
                                &&& dec(#[trigger] pspec[k].1) is Err
                                &&& q.0 == pspec[k].0
                                &&& q.1 == dec(pspec[k].1)->Err_0
                                &&& forall|m: int| 0 <= m < k ==> dec(#[trigger] pspec[m].1) is Ok
                            };
                        assert(dec(pspec[i0].1) is Ok);
                    },
                    Ok(vps) => {
                        assert forall|k: int| 0 <= k < out@.len() implies vview_pairs(out@)[k]
                            == vps[k] by {
                            assert(dec(pspec[k].1) is Ok);
                        }
                        assert(vview_pairs(out@) =~= vps);
                    },
                }
            }
            Ok(Value::Object(out))
        },
    }
}

} // verus!
