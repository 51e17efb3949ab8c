//! Decoding the tagged strings the encoder produces: one lemma per tag,
//! showing that the decoder's split-and-dispatch recovers exactly the value
//! the tag was written from. These feed the encoder's round-trip guarantee.

use vstd::prelude::*;

use crate::dec::{DecErrSpec, dec_tag, dec_text};
use crate::ext::{b64_parse, f32_of_str, hash_b58_ok, identity_b58_ok, lock_id_b58_ok,
    rfc3339_parse, stream_id_b58_ok, data_lockbox_ok, identity_lockbox_ok, stream_lockbox_ok,
    lock_lockbox_ok};
use crate::hexnum::{hex_parse_spec, hex_seq, hex_val, lemma_hex_round_trip, lemma_pow16_16};
use crate::strutil::{is_trimmed, is_ws, lemma_find_from_exact, lemma_trimmed_ends,
    starts_with_spec, trim_spec};
use crate::value::{ValSpec, is_finite32, ts_bounds};

verus! {

broadcast use vstd::seq::group_seq_axioms;

/// A string of the exact tag shape decodes by splitting at the first colon
/// into the type token and the verbatim payload.
proof fn lemma_split_tag(full: Seq<char>, ty: Seq<char>, payload: Seq<char>)
    requires
        full == "$fog-"@ + ty + ":"@ + payload,
        forall|i: int| 0 <= i < ty.len() ==> ty[i] != ':',
    ensures
        dec_text(full) == dec_tag(ty, payload),
{
    reveal_strlit("$fog-");
    reveal_strlit(":");
    let n = full.len() as int;
    assert(full.subrange(0, 5) =~= "$fog-"@);
    assert(starts_with_spec(full, "$fog-"@));
    let rest = full.subrange(5, n);
    let k = ty.len() as int;
    assert(rest[k] == ':');
    assert(forall|j: int| 0 <= j < k ==> rest[j] == ty[j] && ty[j] != ':');
    lemma_find_from_exact(rest, 0, ':', k);
    assert(rest.subrange(0, k) =~= ty);
    assert(rest.subrange(k + 1, rest.len() as int) =~= payload);
}

/// A hexadecimal rendering has no whitespace to trim.
proof fn lemma_hex_trimmed(b: int, nd: int)
    requires
        0 < nd,
        0 <= b,
    ensures
        is_trimmed(hex_seq(b, nd)),
{
    let s = hex_seq(b, nd);
    crate::hexnum::lemma_hex_seq_len(b, nd);
    assert forall|i: int| 0 <= i < s.len() implies !is_ws(s[i]) by {
        assert(hex_val(s[i]) is Some);
    }
    lemma_trimmed_ends(s);
}

pub(crate) proof fn lemma_rt_str(s: Seq<char>)
    ensures
        dec_text("$fog-Str:"@ + s) == Ok::<ValSpec, DecErrSpec>(ValSpec::Str(s)),
{
    reveal_strlit("$fog-Str:");
    reveal_strlit("Str");
    reveal_strlit("$fog-");
    reveal_strlit(":");
    assert("$fog-Str:"@ + s =~= "$fog-"@ + "Str"@ + ":"@ + s);
    lemma_split_tag("$fog-Str:"@ + s, "Str"@, s);
}

pub(crate) proof fn lemma_rt_f32dec(s: Seq<char>, b: u32)
    requires
        f32_of_str(s) == Some(b),
        is_finite32(b),
        is_trimmed(s),
    ensures
        dec_text("$fog-F32:"@ + s) == Ok::<ValSpec, DecErrSpec>(ValSpec::F32Dec(s, b)),
{
    reveal_strlit("$fog-F32:");
    reveal_strlit("F32");
    reveal_strlit("Str");
    reveal_strlit("$fog-");
    reveal_strlit(":");
    assert("$fog-F32:"@ + s =~= "$fog-"@ + "F32"@ + ":"@ + s);
    lemma_split_tag("$fog-F32:"@ + s, "F32"@, s);
}

pub(crate) proof fn lemma_rt_f32hex(b: u32)
    ensures
        dec_text("$fog-F32Hex:"@ + hex_seq(b as int, 8)) == Ok::<ValSpec, DecErrSpec>(
            ValSpec::F32Raw(b),
        ),
{
    reveal_strlit("$fog-F32Hex:");
    reveal_strlit("F32Hex");
    reveal_strlit("Str");
    reveal_strlit("F32");
    reveal_strlit("F64");
    reveal_strlit("Int");
    reveal_strlit("$fog-");
    reveal_strlit(":");
    let s = hex_seq(b as int, 8);
    lemma_pow16_16();
    lemma_hex_round_trip(b as int, 8);
    assert("$fog-F32Hex:"@ + s =~= "$fog-"@ + "F32Hex"@ + ":"@ + s);
    lemma_split_tag("$fog-F32Hex:"@ + s, "F32Hex"@, s);
    lemma_hex_trimmed(b as int, 8);
}

pub(crate) proof fn lemma_rt_f64hex(b: u64)
    ensures
        dec_text("$fog-F64Hex:"@ + hex_seq(b as int, 16)) == Ok::<ValSpec, DecErrSpec>(
            ValSpec::F64(b),
        ),
{
    reveal_strlit("$fog-F64Hex:");
    reveal_strlit("F64Hex");
    reveal_strlit("Str");
    reveal_strlit("F32");
    reveal_strlit("F64");
    reveal_strlit("Int");
    reveal_strlit("F32Hex");
    reveal_strlit("$fog-");
    reveal_strlit(":");
    let s = hex_seq(b as int, 16);
    lemma_pow16_16();
    lemma_hex_round_trip(b as int, 16);
    assert("$fog-F64Hex:"@ + s =~= "$fog-"@ + "F64Hex"@ + ":"@ + s);
    lemma_split_tag("$fog-F64Hex:"@ + s, "F64Hex"@, s);
    lemma_hex_trimmed(b as int, 16);
    assert(trim_spec(s) == s);
    assert(hex_parse_spec(s, 16) == Some(b as int));
    assert("F64Hex"@[1] == '6' && "F32Hex"@[1] == '3');
    assert("F64Hex"@ != "F32Hex"@);
    assert(dec_tag("F64Hex"@, s) == Ok::<ValSpec, DecErrSpec>(ValSpec::F64(b)));
}

pub(crate) proof fn lemma_rt_bin(s: Seq<char>, b: Seq<u8>)
    requires
        b64_parse(s) == Some(b),
        is_trimmed(s),
    ensures
        dec_text("$fog-Bin:"@ + s) == Ok::<ValSpec, DecErrSpec>(ValSpec::Bin(b)),
{
    reveal_strlit("$fog-Bin:");
    reveal_strlit("Bin");
    reveal_strlit("Str");
    reveal_strlit("F32");
    reveal_strlit("F64");
    reveal_strlit("Int");
    reveal_strlit("F32Hex");
    reveal_strlit("F64Hex");
    reveal_strlit("$fog-");
    reveal_strlit(":");
    assert("$fog-Bin:"@ + s =~= "$fog-"@ + "Bin"@ + ":"@ + s);
    lemma_split_tag("$fog-Bin:"@ + s, "Bin"@, s);
}

pub(crate) proof fn lemma_rt_hash(s: Seq<char>)
    requires
        hash_b58_ok(s),
        is_trimmed(s),
    ensures
        dec_text("$fog-Hash:"@ + s) == Ok::<ValSpec, DecErrSpec>(ValSpec::Hash(s)),
{
    reveal_strlit("$fog-Hash:");
    reveal_strlit("Hash");
    reveal_strlit("Str");
    reveal_strlit("F32");
    reveal_strlit("F64");
    reveal_strlit("Int");
    reveal_strlit("F32Hex");
    reveal_strlit("F64Hex");
    reveal_strlit("Bin");
    reveal_strlit("$fog-");
    reveal_strlit(":");
    assert("$fog-Hash:"@ + s =~= "$fog-"@ + "Hash"@ + ":"@ + s);
    lemma_split_tag("$fog-Hash:"@ + s, "Hash"@, s);
}

pub(crate) proof fn lemma_rt_identity(s: Seq<char>)
    requires
        identity_b58_ok(s),
        is_trimmed(s),
    ensures
        dec_text("$fog-Identity:"@ + s) == Ok::<ValSpec, DecErrSpec>(ValSpec::Identity(s)),
{
    reveal_strlit("$fog-Identity:");
    reveal_strlit("Identity");
    reveal_strlit("Str");
    reveal_strlit("F32");
    reveal_strlit("F64");
    reveal_strlit("Int");
    reveal_strlit("F32Hex");
    reveal_strlit("F64Hex");
    reveal_strlit("Bin");
    reveal_strlit("Hash");
    reveal_strlit("$fog-");
    reveal_strlit(":");
    assert("$fog-Identity:"@ + s =~= "$fog-"@ + "Identity"@ + ":"@ + s);
    lemma_split_tag("$fog-Identity:"@ + s, "Identity"@, s);
}

pub(crate) proof fn lemma_rt_stream_id(s: Seq<char>)
    requires
        stream_id_b58_ok(s),
        is_trimmed(s),
    ensures
        dec_text("$fog-StreamId:"@ + s) == Ok::<ValSpec, DecErrSpec>(ValSpec::StreamId(s)),
{
    reveal_strlit("$fog-StreamId:");
    reveal_strlit("StreamId");
    reveal_strlit("Str");
    reveal_strlit("F32");
    reveal_strlit("F64");
    reveal_strlit("Int");
    reveal_strlit("F32Hex");
    reveal_strlit("F64Hex");
    reveal_strlit("Bin");
    reveal_strlit("Hash");
    reveal_strlit("Identity");
    reveal_strlit("$fog-");
    reveal_strlit(":");
    assert("$fog-StreamId:"@ + s =~= "$fog-"@ + "StreamId"@ + ":"@ + s);
    lemma_split_tag("$fog-StreamId:"@ + s, "StreamId"@, s);
}

pub(crate) proof fn lemma_rt_lock_id(s: Seq<char>)
    requires
        lock_id_b58_ok(s),
        is_trimmed(s),
    ensures
        dec_text("$fog-LockId:"@ + s) == Ok::<ValSpec, DecErrSpec>(ValSpec::LockId(s)),
{
    reveal_strlit("$fog-LockId:");
    reveal_strlit("LockId");
    reveal_strlit("Str");
    reveal_strlit("F32");
    reveal_strlit("F64");
    reveal_strlit("Int");
    reveal_strlit("F32Hex");
    reveal_strlit("F64Hex");
    reveal_strlit("Bin");
    reveal_strlit("Hash");
    reveal_strlit("Identity");
    reveal_strlit("StreamId");
    reveal_strlit("$fog-");
    reveal_strlit(":");
    assert("$fog-LockId:"@ + s =~= "$fog-"@ + "LockId"@ + ":"@ + s);
    lemma_split_tag("$fog-LockId:"@ + s, "LockId"@, s);
}

pub(crate) proof fn lemma_rt_data_lockbox(s: Seq<char>, b: Seq<u8>)
    requires
        b64_parse(s) == Some(b),
        is_trimmed(s),
        data_lockbox_ok(b),
    ensures
        dec_text("$fog-DataLockbox:"@ + s) == Ok::<ValSpec, DecErrSpec>(ValSpec::DataLockbox(b)),
{
    reveal_strlit("$fog-DataLockbox:");
    reveal_strlit("DataLockbox");
    reveal_strlit("Str");
    reveal_strlit("F32");
    reveal_strlit("F64");
    reveal_strlit("Int");
    reveal_strlit("F32Hex");
    reveal_strlit("F64Hex");
    reveal_strlit("Bin");
    reveal_strlit("Hash");
    reveal_strlit("Identity");
    reveal_strlit("StreamId");
    reveal_strlit("LockId");
    reveal_strlit("$fog-");
    reveal_strlit(":");
    assert("$fog-DataLockbox:"@ + s =~= "$fog-"@ + "DataLockbox"@ + ":"@ + s);
    lemma_split_tag("$fog-DataLockbox:"@ + s, "DataLockbox"@, s);
}

pub(crate) proof fn lemma_rt_identity_lockbox(s: Seq<char>, b: Seq<u8>)
    requires
        b64_parse(s) == Some(b),
        is_trimmed(s),
        identity_lockbox_ok(b),
    ensures
        dec_text("$fog-IdentityLockbox:"@ + s) == Ok::<ValSpec, DecErrSpec>(
            ValSpec::IdentityLockbox(b),
        ),
{
    reveal_strlit("$fog-IdentityLockbox:");
    reveal_strlit("IdentityLockbox");
    reveal_strlit("Str");
    reveal_strlit("F32");
    reveal_strlit("F64");
    reveal_strlit("Int");
    reveal_strlit("F32Hex");
    reveal_strlit("F64Hex");
    reveal_strlit("Bin");
    reveal_strlit("Hash");
    reveal_strlit("Identity");
    reveal_strlit("StreamId");
    reveal_strlit("LockId");
    reveal_strlit("DataLockbox");
    reveal_strlit("$fog-");
    reveal_strlit(":");
    assert("$fog-IdentityLockbox:"@ + s =~= "$fog-"@ + "IdentityLockbox"@ + ":"@ + s);
    lemma_split_tag("$fog-IdentityLockbox:"@ + s, "IdentityLockbox"@, s);
}

pub(crate) proof fn lemma_rt_stream_lockbox(s: Seq<char>, b: Seq<u8>)
    requires
        b64_parse(s) == Some(b),
        is_trimmed(s),
        stream_lockbox_ok(b),
    ensures
        dec_text("$fog-StreamLockbox:"@ + s) == Ok::<ValSpec, DecErrSpec>(
            ValSpec::StreamLockbox(b),
        ),
{
    reveal_strlit("$fog-StreamLockbox:");
    reveal_strlit("StreamLockbox");
    reveal_strlit("Str");
    reveal_strlit("F32");
    reveal_strlit("F64");
    reveal_strlit("Int");
    reveal_strlit("F32Hex");
    reveal_strlit("F64Hex");
    reveal_strlit("Bin");
    reveal_strlit("Hash");
    reveal_strlit("Identity");
    reveal_strlit("StreamId");
    reveal_strlit("LockId");
    reveal_strlit("DataLockbox");
    reveal_strlit("IdentityLockbox");
    reveal_strlit("$fog-");
    reveal_strlit(":");
    assert("$fog-StreamLockbox:"@ + s =~= "$fog-"@ + "StreamLockbox"@ + ":"@ + s);
    lemma_split_tag("$fog-StreamLockbox:"@ + s, "StreamLockbox"@, s);
}

pub(crate) proof fn lemma_rt_lock_lockbox(s: Seq<char>, b: Seq<u8>)
    requires
        b64_parse(s) == Some(b),
        is_trimmed(s),
        lock_lockbox_ok(b),
    ensures
        dec_text("$fog-LockLockbox:"@ + s) == Ok::<ValSpec, DecErrSpec>(ValSpec::LockLockbox(b)),
{
    reveal_strlit("$fog-LockLockbox:");
    reveal_strlit("LockLockbox");
    reveal_strlit("Str");
    reveal_strlit("F32");
    reveal_strlit("F64");
    reveal_strlit("Int");
    reveal_strlit("F32Hex");
    reveal_strlit("F64Hex");
    reveal_strlit("Bin");
    reveal_strlit("Hash");
    reveal_strlit("Identity");
    reveal_strlit("StreamId");
    reveal_strlit("LockId");
    reveal_strlit("DataLockbox");
    reveal_strlit("IdentityLockbox");
    reveal_strlit("StreamLockbox");
    reveal_strlit("$fog-");
    reveal_strlit(":");
    assert("$fog-LockLockbox:"@ + s =~= "$fog-"@ + "LockLockbox"@ + ":"@ + s);
    lemma_split_tag("$fog-LockLockbox:"@ + s, "LockLockbox"@, s);
}

pub(crate) proof fn lemma_rt_time(s: Seq<char>, secs: i64, nanos: u32)
    requires
        rfc3339_parse(s) == Some((secs, nanos)),
        ts_bounds(secs as int, nanos as int),
        is_trimmed(s),
    ensures
        dec_text("$fog-Time:"@ + s) == Ok::<ValSpec, DecErrSpec>(
            ValSpec::Timestamp(secs as int, nanos as int),
        ),
{
    reveal_strlit("$fog-Time:");
    reveal_strlit("Time");
    reveal_strlit("Str");
    reveal_strlit("F32");
    reveal_strlit("F64");
    reveal_strlit("Int");
    reveal_strlit("F32Hex");
    reveal_strlit("F64Hex");
    reveal_strlit("Bin");
    reveal_strlit("Hash");
    reveal_strlit("Identity");
    reveal_strlit("StreamId");
    reveal_strlit("LockId");
    reveal_strlit("DataLockbox");
    reveal_strlit("IdentityLockbox");
    reveal_strlit("StreamLockbox");
    reveal_strlit("LockLockbox");
    reveal_strlit("$fog-");
    reveal_strlit(":");
    assert("$fog-Time:"@ + s =~= "$fog-"@ + "Time"@ + ":"@ + s);
    lemma_split_tag("$fog-Time:"@ + s, "Time"@, s);
}

} // verus!
