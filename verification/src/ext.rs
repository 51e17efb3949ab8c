//! The crate's trusted boundary: every call into an outside crate is made
//! here, behind a contract. Results that no short formula can state are given
//! names (`b64_of`, `rfc3339_of`, ...) that the rest of the crate reasons
//! with; each wrapper's doc comment says which outside function it relies on.

use base64::engine::Engine;
use chrono::TimeZone;
use vstd::prelude::*;

use crate::strutil::trim_spec;
use crate::value::{TS_MAX_SECS, TS_MIN_SECS};

verus! {

/// The standard-alphabet, unpadded Base64 encoding of a byte sequence.
pub uninterp spec fn b64_of(b: Seq<u8>) -> Seq<char>;

/// What standard-alphabet Base64 decoding (padding accepted but not required)
/// makes of a text: the bytes, or `None` when the text is not valid Base64.
pub uninterp spec fn b64_parse(s: Seq<char>) -> Option<Seq<u8>>;

/// What `str::parse` makes of a text read as a 32-bit float: the IEEE-754
/// bits of the parsed value, or `None` when the text does not parse.
pub uninterp spec fn f32_of_str(s: Seq<char>) -> Option<u32>;

/// What `str::parse` makes of a text read as a 64-bit float.
pub uninterp spec fn f64_of_str(s: Seq<char>) -> Option<u64>;

/// The RFC 3339 rendering of a UTC instant: date and time with `Z` suffix and
/// as many subsecond digits (none, three, six or nine) as the value needs.
pub uninterp spec fn rfc3339_of(secs: int, nanos: int) -> Seq<char>;

/// What RFC 3339 parsing makes of a text: UTC seconds and subsecond
/// nanoseconds, or `None` when the text is not a valid RFC 3339 date-time.
pub uninterp spec fn rfc3339_parse(s: Seq<char>) -> Option<(i64, u32)>;

/// Whether the text is a valid Base58-encoded fog-pack hash.
pub uninterp spec fn hash_b58_ok(s: Seq<char>) -> bool;

/// Whether the text is a valid Base58-encoded fog-pack identity.
pub uninterp spec fn identity_b58_ok(s: Seq<char>) -> bool;

/// Whether the text is a valid Base58-encoded fog-pack stream id.
pub uninterp spec fn stream_id_b58_ok(s: Seq<char>) -> bool;

/// Whether the text is a valid Base58-encoded fog-pack lock id.
pub uninterp spec fn lock_id_b58_ok(s: Seq<char>) -> bool;

/// Whether the bytes form a well-formed fog-pack data lockbox.
pub uninterp spec fn data_lockbox_ok(b: Seq<u8>) -> bool;

/// Whether the bytes form a well-formed fog-pack identity lockbox.
pub uninterp spec fn identity_lockbox_ok(b: Seq<u8>) -> bool;

/// Whether the bytes form a well-formed fog-pack stream lockbox.
pub uninterp spec fn stream_lockbox_ok(b: Seq<u8>) -> bool;

/// Whether the bytes form a well-formed fog-pack lock lockbox.
pub uninterp spec fn lock_lockbox_ok(b: Seq<u8>) -> bool;

/// Relies on `base64`'s `STANDARD_NO_PAD` engine: standard alphabet, no
/// padding. Its output has no whitespace, and decoding its output gives the
/// input bytes back.
#[verifier::external_body]
pub(crate) fn b64_encode(b: &[u8]) -> (r: String)
    ensures
        r@ == b64_of(b@),
        trim_spec(r@) == r@,
        b64_parse(r@) == Some(b@),
{
    base64::engine::general_purpose::STANDARD_NO_PAD.encode(b)
}

/// Relies on `base64`'s `GeneralPurpose` engine over the standard alphabet
/// with padding accepted but not required; canonical trailing bits are still
/// demanded, as with the engine the encoder uses.
#[verifier::external_body]
pub(crate) fn b64_decode(s: &str) -> (r: Option<Vec<u8>>)
    ensures
        match r {
            Some(v) => b64_parse(s@) == Some(v@),
            None => b64_parse(s@) is None,
        },
{
    let cfg = base64::engine::GeneralPurposeConfig::new().with_encode_padding(
        false,
    ).with_decode_padding_mode(base64::engine::DecodePaddingMode::Indifferent);
    let eng = base64::engine::GeneralPurpose::new(&base64::alphabet::STANDARD, cfg);
    eng.decode(s).ok()
}

/// Relies on `str::parse` for 32-bit floats, reducing the parsed value to its
/// IEEE-754 bits. Verified code cannot name floating-point types, so the
/// parse target is pinned through fog-pack's own `F32` value constructor.
#[verifier::external_body]
pub(crate) fn parse_f32_bits(s: &str) -> (r: Option<u32>)
    ensures
        r == f32_of_str(s@),
{
    match s.parse() {
        Ok(x) => match fog_pack::types::Value::F32(x) {
            fog_pack::types::Value::F32(v) => Some(v.to_bits()),
            _ => None,
        },
        Err(_) => None,
    }
}

/// Relies on `str::parse` for 64-bit floats, reducing the parsed value to its
/// IEEE-754 bits; the parse target is pinned through fog-pack's own `F64`
/// value constructor.
#[verifier::external_body]
pub(crate) fn parse_f64_bits(s: &str) -> (r: Option<u64>)
    ensures
        r == f64_of_str(s@),
{
    match s.parse() {
        Ok(x) => match fog_pack::types::Value::F64(x) {
            fog_pack::types::Value::F64(v) => Some(v.to_bits()),
            _ => None,
        },
        Err(_) => None,
    }
}

/// Relies on chrono's `Utc.timestamp_opt` and `to_rfc3339_opts` (`AutoSi`,
/// `Z` suffix). Within the year window 0000 through 9999 the rendering has no
/// whitespace and parses back to the same instant.
#[verifier::external_body]
pub(crate) fn rfc3339_format(secs: i64, nanos: u32) -> (r: String)
    requires
        TS_MIN_SECS <= secs <= TS_MAX_SECS,
        nanos <= 999_999_999,
    ensures
        r@ == rfc3339_of(secs as int, nanos as int),
        trim_spec(r@) == r@,
        rfc3339_parse(r@) == Some((secs, nanos)),
{
    let dt = chrono::Utc.timestamp_opt(secs, nanos).unwrap();
    dt.to_rfc3339_opts(chrono::SecondsFormat::AutoSi, true)
}

/// Relies on chrono's `DateTime::parse_from_rfc3339`, reducing the parsed
/// instant to UTC seconds and subsecond nanoseconds.
#[verifier::external_body]
pub(crate) fn rfc3339_read(s: &str) -> (r: Option<(i64, u32)>)
    ensures
        r == rfc3339_parse(s@),
{
    match chrono::DateTime::parse_from_rfc3339(s) {
        Ok(dt) => Some((dt.timestamp(), dt.timestamp_subsec_nanos())),
        Err(_) => None,
    }
}

/// Relies on `fog_pack::types::Hash::from_base58`: whether the text is a
/// valid Base58-encoded hash.
#[verifier::external_body]
pub(crate) fn hash_b58_check(s: &str) -> (r: bool)
    ensures
        r == hash_b58_ok(s@),
{
    fog_pack::types::Hash::from_base58(s).is_ok()
}

/// Relies on `fog_pack::types::Identity::from_base58`: whether the text is a
/// valid Base58-encoded identity.
#[verifier::external_body]
pub(crate) fn identity_b58_check(s: &str) -> (r: bool)
    ensures
        r == identity_b58_ok(s@),
{
    fog_pack::types::Identity::from_base58(s).is_ok()
}

/// Relies on `fog_pack::types::StreamId::from_base58`: whether the text is a
/// valid Base58-encoded stream id.
#[verifier::external_body]
pub(crate) fn stream_id_b58_check(s: &str) -> (r: bool)
    ensures
        r == stream_id_b58_ok(s@),
{
    fog_pack::types::StreamId::from_base58(s).is_ok()
}

/// Relies on `fog_pack::types::LockId::from_base58`: whether the text is a
/// valid Base58-encoded lock id.
#[verifier::external_body]
pub(crate) fn lock_id_b58_check(s: &str) -> (r: bool)
    ensures
        r == lock_id_b58_ok(s@),
{
    fog_pack::types::LockId::from_base58(s).is_ok()
}

/// Relies on `fog_pack::types::DataLockboxRef::from_bytes`: whether the bytes
/// form a well-formed data lockbox.
#[verifier::external_body]
pub(crate) fn data_lockbox_check(b: &[u8]) -> (r: bool)
    ensures
        r == data_lockbox_ok(b@),
{
    fog_pack::types::DataLockboxRef::from_bytes(b).is_ok()
}

/// Relies on `fog_pack::types::IdentityLockboxRef::from_bytes`: whether the
/// bytes form a well-formed identity lockbox.
#[verifier::external_body]
pub(crate) fn identity_lockbox_check(b: &[u8]) -> (r: bool)
    ensures
        r == identity_lockbox_ok(b@),
{
    fog_pack::types::IdentityLockboxRef::from_bytes(b).is_ok()
}

/// Relies on `fog_pack::types::StreamLockboxRef::from_bytes`: whether the
/// bytes form a well-formed stream lockbox.
#[verifier::external_body]
pub(crate) fn stream_lockbox_check(b: &[u8]) -> (r: bool)
    ensures
        r == stream_lockbox_ok(b@),
{
    fog_pack::types::StreamLockboxRef::from_bytes(b).is_ok()
}

/// Relies on `fog_pack::types::LockLockboxRef::from_bytes`: whether the bytes
/// form a well-formed lock lockbox.
#[verifier::external_body]
pub(crate) fn lock_lockbox_check(b: &[u8]) -> (r: bool)
    ensures
        r == lock_lockbox_ok(b@),
{
    fog_pack::types::LockLockboxRef::from_bytes(b).is_ok()
}

} // verus!
