//! The value encoder: a total, deterministic mapping from the fog-pack value
//! model to the JSON tree. Each value either becomes the matching JSON type
//! or a string of the shape `$fog-<Type>:<payload>`.

use vstd::prelude::*;
use vstd::string::*;

use crate::dec::{DecErrSpec, dec, dec_seq, dec_pairs, lemma_dec_seq, lemma_dec_pairs};
use crate::ext::{b64_encode, b64_of, rfc3339_format, rfc3339_of};
use crate::hexnum::{hex_append, hex_seq};
use crate::roundtrip::{lemma_rt_bin, lemma_rt_data_lockbox, lemma_rt_f32dec, lemma_rt_f32hex,
    lemma_rt_f64hex, lemma_rt_hash, lemma_rt_identity, lemma_rt_identity_lockbox, lemma_rt_lock_id,
    lemma_rt_lock_lockbox, lemma_rt_str, lemma_rt_stream_id, lemma_rt_stream_lockbox,
    lemma_rt_time};
use crate::json::{JsonPair, JsonSpec, JsonVal, jview, jview_pairs, jview_seq, lemma_jview_pairs,
    lemma_jview_seq};
use crate::strutil::{starts_with, starts_with_spec};
use crate::value::{F32Val, Int, ValPair, ValSpec, Value, is_finite64, f64_finite, val_wf,
    val_wf_pairs, val_wf_seq, lemma_val_wf_pairs, lemma_val_wf_seq, vview, vview_pairs, vview_seq,
    lemma_vview_pairs, lemma_vview_seq};

verus! {

broadcast use vstd::seq::group_seq_axioms;

/// What encoding produces, value by value. Total: every value has a JSON
/// form, and equal values always get the identical form.
pub open spec fn enc(v: ValSpec) -> JsonSpec
    decreases v,
{
    match v {
        ValSpec::Null => JsonSpec::Null,
        ValSpec::Bool(b) => JsonSpec::Bool(b),
        ValSpec::Int(i) => match i {
            Int::U(u) => JsonSpec::NumU(u),
            Int::I(x) => JsonSpec::NumI(x),
        },
        ValSpec::F32Dec(s, _) => JsonSpec::Str("$fog-F32:"@ + s),
        ValSpec::F32Raw(b) => JsonSpec::Str("$fog-F32Hex:"@ + hex_seq(b as int, 8)),
        ValSpec::F64(b) => if is_finite64(b) {
            JsonSpec::NumF(b)
        } else {
            JsonSpec::Str("$fog-F64Hex:"@ + hex_seq(b as int, 16))
        },
        ValSpec::Str(s) => if starts_with_spec(s, "$fog-"@) {
            JsonSpec::Str("$fog-Str:"@ + s)
        } else {
            JsonSpec::Str(s)
        },
        ValSpec::Bin(b) => JsonSpec::Str("$fog-Bin:"@ + b64_of(b)),
        ValSpec::Array(vs) => JsonSpec::Array(enc_seq(vs)),
        ValSpec::Object(ps) => JsonSpec::Object(enc_pairs(ps)),
        ValSpec::Hash(s) => JsonSpec::Str("$fog-Hash:"@ + s),
        ValSpec::Identity(s) => JsonSpec::Str("$fog-Identity:"@ + s),
        ValSpec::StreamId(s) => JsonSpec::Str("$fog-StreamId:"@ + s),
        ValSpec::LockId(s) => JsonSpec::Str("$fog-LockId:"@ + s),
        ValSpec::DataLockbox(b) => JsonSpec::Str("$fog-DataLockbox:"@ + b64_of(b)),
        ValSpec::IdentityLockbox(b) => JsonSpec::Str("$fog-IdentityLockbox:"@ + b64_of(b)),
        ValSpec::StreamLockbox(b) => JsonSpec::Str("$fog-StreamLockbox:"@ + b64_of(b)),
        ValSpec::LockLockbox(b) => JsonSpec::Str("$fog-LockLockbox:"@ + b64_of(b)),
        ValSpec::Timestamp(secs, nanos) => JsonSpec::Str("$fog-Time:"@ + rfc3339_of(secs, nanos)),
    }
}

/// Element-wise encoding of an array's items, order preserved.
pub open spec fn enc_seq(vs: Seq<ValSpec>) -> Seq<JsonSpec>
    decreases vs,
{
    if vs.len() == 0 {
        Seq::empty()
    } else {
        seq![enc(vs[0])] + enc_seq(vs.drop_first())
    }
}

/// Pair-wise encoding of a map's entries, key order preserved.
pub open spec fn enc_pairs(ps: Seq<(Seq<char>, ValSpec)>) -> Seq<(Seq<char>, JsonSpec)>
    decreases ps,
{
    if ps.len() == 0 {
        Seq::empty()
    } else {
        seq![(ps[0].0, enc(ps[0].1))] + enc_pairs(ps.drop_first())
    }
}

pub proof fn lemma_enc_seq(vs: Seq<ValSpec>)
    ensures
        enc_seq(vs).len() == vs.len(),
        forall|i: int| 0 <= i < vs.len() ==> enc_seq(vs)[i] == enc(vs[i]),
    decreases vs,
{
    if vs.len() > 0 {
        lemma_enc_seq(vs.drop_first());
    }
}

pub proof fn lemma_enc_pairs(ps: Seq<(Seq<char>, ValSpec)>)
    ensures
        enc_pairs(ps).len() == ps.len(),
        forall|i: int| 0 <= i < ps.len() ==> enc_pairs(ps)[i] == (ps[i].0, enc(ps[i].1)),
    decreases ps,
{
    if ps.len() > 0 {
        lemma_enc_pairs(ps.drop_first());
    }
}

/// Convert a fog-pack value to a JSON value. Total and deterministic; the
/// result is exactly `enc` of the value's view. For every well-formed value,
/// decoding the result gives the value back: the codec round-trips.
#[verifier::loop_isolation(false)]
pub fn fog_to_json(v: &Value) -> (r: JsonVal)
    ensures
        jview(r) == enc(vview(*v)),
        val_wf(vview(*v)) ==> dec(jview(r)) == Ok::<ValSpec, crate::dec::DecErrSpec>(vview(*v)),
    decreases *v,
{
    match v {
        Value::Null => JsonVal::Null,
        Value::Bool(b) => JsonVal::Bool(*b),
        Value::Int(i) => match i {
            Int::U(u) => JsonVal::NumU(*u),
            Int::I(x) => JsonVal::NumI(*x),
        },
        Value::F32(f) => match f {
            F32Val::Dec(s, b) => {
                let mut out = String::from_str("$fog-F32:");
                out.append(s.as_str());
                proof {
                    if val_wf(vview(*v)) {
                        crate::roundtrip::lemma_rt_f32dec(s@, *b);
                    }
                }
                JsonVal::Str(out)
            },
            F32Val::Raw(b) => {
                let mut out = String::from_str("$fog-F32Hex:");
                hex_append(&mut out, *b as u64, 8);
                proof {
                    lemma_rt_f32hex(*b);
                }
                JsonVal::Str(out)
            },
        },
        Value::F64(b) => {
            if f64_finite(*b) {
                JsonVal::NumF(*b)
            } else {
                let mut out = String::from_str("$fog-F64Hex:");
                hex_append(&mut out, *b, 16);
                proof {
                    lemma_rt_f64hex(*b);
                }
                JsonVal::Str(out)
            }
        },
        Value::Str(s) => {
            if starts_with(s.as_str(), "$fog-") {
                let mut out = String::from_str("$fog-Str:");
                out.append(s.as_str());
                proof {
                    lemma_rt_str(s@);
                }
                JsonVal::Str(out)
            } else {
                JsonVal::Str(s.clone())
            }
        },
        Value::Bin(b) => {
            let mut out = String::from_str("$fog-Bin:");
            let enc_b = b64_encode(b.as_slice());
            out.append(enc_b.as_str());
            proof {
                lemma_rt_bin(enc_b@, b@);
            }
            JsonVal::Str(out)
        },
        Value::Array(vs) => {
            let mut out: Vec<JsonVal> = Vec::new();
            let mut i: usize = 0;
            while i < vs.len()
                invariant
                    0 <= i <= vs@.len(),
                    out@.len() == i as nat,
                    forall|j: int| 0 <= j < i ==> jview(out@[j]) == enc(#[trigger] vview(vs@[j])),
                    forall|j: int|
                        0 <= j < i ==> (val_wf(#[trigger] vview(vs@[j])) ==> dec(enc(vview(vs@[j])))
                            == Ok::<ValSpec, DecErrSpec>(vview(vs@[j]))),
                decreases vs@.len() - i,
            {
                proof {
                    assert(decreases_to!(*v => v->Array_0));
                    assert(decreases_to!(v->Array_0 => v->Array_0@));
                    assert(decreases_to!(v->Array_0@ => v->Array_0@[i as int]));
                    assert(v->Array_0@[i as int] == vs@[i as int]);
                }
                let e = fog_to_json(&vs[i]);
                out.push(e);
                i = i + 1;
            }
            let r = JsonVal::Array(out);
            proof {
                lemma_jview_seq(r->Array_0@);
                lemma_enc_seq(vview_seq(vs@));
                lemma_vview_seq(vs@);
                assert(jview_seq(r->Array_0@) =~= enc_seq(vview_seq(vs@)));
                if val_wf(vview(*v)) {
                    let vvs = vview_seq(vs@);
                    let es = enc_seq(vvs);
                    lemma_val_wf_seq(vvs);
                    assert forall|k: int| 0 <= k < es.len() implies dec(#[trigger] es[k])
                        == Ok::<ValSpec, DecErrSpec>(vvs[k]) by {
                        assert(es[k] == enc(vvs[k]));
                        assert(vvs[k] == vview(vs@[k]));
                        assert(val_wf(vvs[k]));
                    }
                    lemma_dec_seq(es);
                    match dec_seq(es) {
                        Err(q) => {
                            assert(dec(es[q.0]) is Ok);
                        },
                        Ok(ds) => {
                            assert forall|k: int| 0 <= k < ds.len() implies ds[k] == vvs[k] by {
                                assert(dec(es[k]) == Ok::<ValSpec, DecErrSpec>(vvs[k]));
                            }
                            assert(ds =~= vvs);
                        },
                    }
                }
            }
            r
        },
        Value::Object(ps) => {
            let mut out: Vec<JsonPair> = Vec::new();
            let mut i: usize = 0;
            while i < ps.len()
                invariant
                    0 <= i <= ps@.len(),
                    out@.len() == i as nat,
                    forall|j: int|
                        0 <= j < i ==> out@[j].key@ == ps@[j].key@ && jview(out@[j].val) == enc(
                            #[trigger] vview(ps@[j].val),
                        ),
                    forall|j: int|
                        0 <= j < i ==> (val_wf(#[trigger] vview(ps@[j].val)) ==> dec(
                            enc(vview(ps@[j].val)),
                        ) == Ok::<ValSpec, DecErrSpec>(vview(ps@[j].val))),
                decreases ps@.len() - i,
            {
                proof {
                    assert(decreases_to!(*v => v->Object_0));
                    assert(decreases_to!(v->Object_0 => v->Object_0@));
                    assert(decreases_to!(v->Object_0@ => v->Object_0@[i as int]));
                    assert(decreases_to!(v->Object_0@[i as int] => v->Object_0@[i as int].val));
                    assert(v->Object_0@[i as int] == ps@[i as int]);
                }
                let p = &ps[i];
                let e = fog_to_json(&p.val);
                out.push(JsonPair { key: p.key.clone(), val: e });
                i = i + 1;
            }
            let r = JsonVal::Object(out);
            proof {
                lemma_jview_pairs(r->Object_0@);
                lemma_enc_pairs(vview_pairs(ps@));
                lemma_vview_pairs(ps@);
                assert(jview_pairs(r->Object_0@) =~= enc_pairs(vview_pairs(ps@)));
                if val_wf(vview(*v)) {
                    let vps = vview_pairs(ps@);
                    let es = enc_pairs(vps);
                    lemma_val_wf_pairs(vps);
                    assert forall|k: int| 0 <= k < es.len() implies #[trigger] es[k].0 == vps[k].0
                        && dec(es[k].1) == Ok::<ValSpec, DecErrSpec>(vps[k].1) by {
                        assert(es[k] == (vps[k].0, enc(vps[k].1)));
                        assert(vps[k] == (ps@[k].key@, vview(ps@[k].val)));
                        assert(val_wf(vps[k].1));
                    }
                    lemma_dec_pairs(es);
                    match dec_pairs(es) {
                        Err(q) => {
                            let i0 = choose|k: int|
                                {
                                    &&& 0 <= k < es.len()
                                    &&& dec(#[trigger] es[k].1) is Err
                                    &&& q.0 == es[k].0
                                    &&& q.1 == dec(es[k].1)->Err_0
                                    &&& forall|m: int| 0 <= m < k ==> dec(#[trigger] es[m].1) is Ok
                                };
                            assert(dec(es[i0].1) is Ok);
                        },
                        Ok(ds) => {
                            assert forall|k: int| 0 <= k < ds.len() implies ds[k] == vps[k] by {
                                assert(ds[k] == (es[k].0, dec(es[k].1)->Ok_0));
                            }
                            assert(ds =~= vps);
                        },
                    }
                }
            }
            r
        },
        Value::Hash(h) => {
            let mut out = String::from_str("$fog-Hash:");
            out.append(h.as_base58());
            proof {
                if val_wf(vview(*v)) {
                    lemma_rt_hash(h@);
                }
            }
            JsonVal::Str(out)
        },
        Value::Identity(h) => {
            let mut out = String::from_str("$fog-Identity:");
            out.append(h.as_base58());
            proof {
                if val_wf(vview(*v)) {
                    lemma_rt_identity(h@);
                }
            }
            JsonVal::Str(out)
        },
        Value::StreamId(h) => {
            let mut out = String::from_str("$fog-StreamId:");
            out.append(h.as_base58());
            proof {
                if val_wf(vview(*v)) {
                    lemma_rt_stream_id(h@);
                }
            }
            JsonVal::Str(out)
        },
        Value::LockId(h) => {
            let mut out = String::from_str("$fog-LockId:");
            out.append(h.as_base58());
            proof {
                if val_wf(vview(*v)) {
                    lemma_rt_lock_id(h@);
                }
            }
            JsonVal::Str(out)
        },
        Value::DataLockbox(b) => {
            let mut out = String::from_str("$fog-DataLockbox:");
            let enc_b = b64_encode(b.as_slice());
            out.append(enc_b.as_str());
            proof {
                if val_wf(vview(*v)) {
                    lemma_rt_data_lockbox(enc_b@, b@);
                }
            }
            JsonVal::Str(out)
        },
        Value::IdentityLockbox(b) => {
            let mut out = String::from_str("$fog-IdentityLockbox:");
            let enc_b = b64_encode(b.as_slice());
            out.append(enc_b.as_str());
            proof {
                if val_wf(vview(*v)) {
                    lemma_rt_identity_lockbox(enc_b@, b@);
                }
            }
            JsonVal::Str(out)
        },
        Value::StreamLockbox(b) => {
            let mut out = String::from_str("$fog-StreamLockbox:");
            let enc_b = b64_encode(b.as_slice());
            out.append(enc_b.as_str());
            proof {
                if val_wf(vview(*v)) {
                    lemma_rt_stream_lockbox(enc_b@, b@);
                }
            }
            JsonVal::Str(out)
        },
        Value::LockLockbox(b) => {
            let mut out = String::from_str("$fog-LockLockbox:");
            let enc_b = b64_encode(b.as_slice());
            out.append(enc_b.as_str());
            proof {
                if val_wf(vview(*v)) {
                    lemma_rt_lock_lockbox(enc_b@, b@);
                }
            }
            JsonVal::Str(out)
        },
        Value::Timestamp(t) => {
            let parts = t.utc();
            let mut out = String::from_str("$fog-Time:");
            let time_text = rfc3339_format(parts.0, parts.1);
            out.append(time_text.as_str());
            proof {
                lemma_rt_time(time_text@, parts.0, parts.1);
            }
            JsonVal::Str(out)
        },
    }
}

} // verus!
