//! End-to-end tests of the value codec and the object assemblers, run
//! against the real base64, chrono and fog-pack crates.

use fog_human_json::dec::DecodeError;
use fog_human_json::json::{JsonPair, JsonVal};
use fog_human_json::value::{F32Val, Identity, Int, Timestamp, ValPair, Value};
use fog_human_json::{
    JsonEntry, MaybeDocument, MaybeEntry, ObjectError, fog_to_json, json_to_doc, json_to_fog,
    json_to_query, query_to_json,
};

fn jeq(a: &JsonVal, b: &JsonVal) -> bool {
    match (a, b) {
        (JsonVal::Null, JsonVal::Null) => true,
        (JsonVal::Bool(x), JsonVal::Bool(y)) => x == y,
        (JsonVal::NumU(x), JsonVal::NumU(y)) => x == y,
        (JsonVal::NumI(x), JsonVal::NumI(y)) => x == y,
        (JsonVal::NumF(x), JsonVal::NumF(y)) => x == y,
        (JsonVal::Str(x), JsonVal::Str(y)) => x == y,
        (JsonVal::Array(x), JsonVal::Array(y)) => {
            x.len() == y.len() && x.iter().zip(y.iter()).all(|(u, v)| jeq(u, v))
        }
        (JsonVal::Object(x), JsonVal::Object(y)) => {
            x.len() == y.len()
                && x.iter()
                    .zip(y.iter())
                    .all(|(u, v)| u.key == v.key && jeq(&u.val, &v.val))
        }
        _ => false,
    }
}

fn veq(a: &Value, b: &Value) -> bool {
    match (a, b) {
        (Value::Null, Value::Null) => true,
        (Value::Bool(x), Value::Bool(y)) => x == y,
        (Value::Int(x), Value::Int(y)) => x == y,
        (Value::F32(x), Value::F32(y)) => x == y,
        (Value::F64(x), Value::F64(y)) => x == y,
        (Value::Str(x), Value::Str(y)) => x == y,
        (Value::Bin(x), Value::Bin(y)) => x == y,
        (Value::Array(x), Value::Array(y)) => {
            x.len() == y.len() && x.iter().zip(y.iter()).all(|(u, v)| veq(u, v))
        }
        (Value::Object(x), Value::Object(y)) => {
            x.len() == y.len()
                && x.iter()
                    .zip(y.iter())
                    .all(|(u, v)| u.key == v.key && veq(&u.val, &v.val))
        }
        (Value::Hash(x), Value::Hash(y)) => x.as_base58() == y.as_base58(),
        (Value::Identity(x), Value::Identity(y)) => x.as_base58() == y.as_base58(),
        (Value::StreamId(x), Value::StreamId(y)) => x.as_base58() == y.as_base58(),
        (Value::LockId(x), Value::LockId(y)) => x.as_base58() == y.as_base58(),
        (Value::DataLockbox(x), Value::DataLockbox(y)) => x == y,
        (Value::IdentityLockbox(x), Value::IdentityLockbox(y)) => x == y,
        (Value::StreamLockbox(x), Value::StreamLockbox(y)) => x == y,
        (Value::LockLockbox(x), Value::LockLockbox(y)) => x == y,
        (Value::Timestamp(x), Value::Timestamp(y)) => x.utc() == y.utc(),
        _ => false,
    }
}

fn round_trips(v: Value) -> bool {
    let reference = fog_to_json(&v);
    let json = fog_to_json(&v);
    match json_to_fog(&json) {
        Ok(back) => veq(&back, &v) && jeq(&fog_to_json(&back), &reference),
        Err(_) => false,
    }
}

fn str_of(j: &JsonVal) -> &str {
    match j {
        JsonVal::Str(s) => s.as_str(),
        _ => panic!("expected a JSON string"),
    }
}

#[test]
fn round_trip_scalars() {
    assert!(round_trips(Value::Null));
    assert!(round_trips(Value::Bool(true)));
    assert!(round_trips(Value::Bool(false)));
    assert!(round_trips(Value::Int(Int::U(0))));
    assert!(round_trips(Value::Int(Int::U(u64::MAX))));
    assert!(round_trips(Value::Int(Int::I(i64::MIN))));
    assert!(round_trips(Value::Int(Int::I(-1))));
    assert!(round_trips(Value::F64(0.0f64.to_bits())));
    assert!(round_trips(Value::F64(f64::NAN.to_bits())));
    assert!(round_trips(Value::F64(f64::INFINITY.to_bits())));
    assert!(round_trips(Value::F32(F32Val::Raw(f32::NAN.to_bits()))));
    assert!(round_trips(Value::F32(F32Val::Raw(f32::NEG_INFINITY.to_bits()))));
}

#[test]
fn round_trip_strings_and_bytes() {
    assert!(round_trips(Value::Str(String::new())));
    assert!(round_trips(Value::Str("hello".to_string())));
    assert!(round_trips(Value::Str("snowman \u{2603} text".to_string())));
    assert!(round_trips(Value::Str("$fog-test".to_string())));
    assert!(round_trips(Value::Str("$fog-Str:already".to_string())));
    assert!(round_trips(Value::Bin(Vec::new())));
    assert!(round_trips(Value::Bin(vec![0, 1, 2, 3, 4])));
    assert!(round_trips(Value::Bin(vec![255u8; 33])));
}

#[test]
fn round_trip_trees() {
    assert!(round_trips(Value::Array(Vec::new())));
    assert!(round_trips(Value::Object(Vec::new())));
    let nested = Value::Array(vec![
        Value::Null,
        Value::Array(vec![Value::Int(Int::U(7))]),
        Value::Object(vec![
            ValPair {
                key: "a".to_string(),
                val: Value::Str("$fog-needs escaping".to_string()),
            },
            ValPair {
                key: "b".to_string(),
                val: Value::Bin(vec![9, 8, 7]),
            },
        ]),
    ]);
    assert!(round_trips(nested));
}

#[test]
fn round_trip_float_text() {
    let f = fog_human_json::value::f32_from_text("1.5").expect("1.5 parses as a finite f32");
    if let F32Val::Dec(text, bits) = &f {
        assert_eq!(text, "1.5");
        assert_eq!(*bits, 1.5f32.to_bits());
    } else {
        panic!("expected the decimal form");
    }
    assert!(round_trips(Value::F32(f)));
    assert!(fog_human_json::value::f32_from_text("not a float").is_none());
    assert!(fog_human_json::value::f32_from_text(" 1.5").is_none());
    assert!(fog_human_json::value::f32_from_text("inf").is_none());
}

#[test]
fn round_trip_identifiers() {
    let hash = fog_pack::types::Hash::new(b"example data");
    let h = fog_human_json::value::Hash::from_base58(&hash.to_base58())
        .expect("a real hash is accepted");
    assert!(round_trips(Value::Hash(h)));

    let key = fog_crypto::identity::IdentityKey::new();
    let id = Identity::from_base58(&key.id().to_base58()).expect("a real identity is accepted");
    assert!(round_trips(Value::Identity(id)));

    let stream_key = fog_crypto::stream::StreamKey::new();
    let sid = fog_human_json::value::StreamId::from_base58(&stream_key.id().to_base58())
        .expect("a real stream id is accepted");
    assert!(round_trips(Value::StreamId(sid)));

    let lock_key = fog_crypto::lock::LockKey::new();
    let lid = fog_human_json::value::LockId::from_base58(&lock_key.id().to_base58())
        .expect("a real lock id is accepted");
    assert!(round_trips(Value::LockId(lid)));
}

#[test]
fn round_trip_lockboxes() {
    let lock_key = fog_crypto::lock::LockKey::new();
    let lockbox = lock_key.id().encrypt_data(&[0u8, 1, 2, 3]);
    assert!(round_trips(Value::DataLockbox(lockbox.as_bytes().to_vec())));

    let id_key = fog_crypto::identity::IdentityKey::new();
    let id_box = id_key
        .export_for_lock(lock_key.id())
        .expect("an identity key exports for a lock");
    assert!(round_trips(Value::IdentityLockbox(id_box.as_bytes().to_vec())));

    let stream_key = fog_crypto::stream::StreamKey::new();
    let stream_box = stream_key
        .export_for_lock(lock_key.id())
        .expect("a stream key exports for a lock");
    assert!(round_trips(Value::StreamLockbox(stream_box.as_bytes().to_vec())));

    let other_lock = fog_crypto::lock::LockKey::new();
    let lock_box = other_lock
        .export_for_lock(lock_key.id())
        .expect("a lock key exports for a lock");
    assert!(round_trips(Value::LockLockbox(lock_box.as_bytes().to_vec())));
}

#[test]
fn round_trip_timestamps() {
    let t = Timestamp::from_utc(1_689_183_193, 454_466_675).expect("in range");
    assert!(round_trips(Value::Timestamp(t)));
    let json = fog_to_json(&Value::Timestamp(t));
    assert_eq!(str_of(&json), "$fog-Time:2023-07-12T17:33:13.454466675Z");
    let whole = Timestamp::from_utc(1_689_183_193, 0).expect("in range");
    assert_eq!(
        str_of(&fog_to_json(&Value::Timestamp(whole))),
        "$fog-Time:2023-07-12T17:33:13Z"
    );
    assert!(round_trips(Value::Timestamp(whole)));
}

#[test]
fn timestamp_window_matches_rfc3339() {
    // The model's window is exactly what a four-digit year can write.
    let min = Timestamp::from_utc(-62_167_219_200, 0).expect("year 0000 is in range");
    assert_eq!(str_of(&fog_to_json(&Value::Timestamp(min))), "$fog-Time:0000-01-01T00:00:00Z");
    let max = Timestamp::from_utc(253_402_300_799, 999_999_999).expect("year 9999 is in range");
    assert!(round_trips(Value::Timestamp(max)));
    assert!(Timestamp::from_utc(-62_167_219_201, 0).is_none());
    assert!(Timestamp::from_utc(253_402_300_800, 0).is_none());
    assert!(Timestamp::from_utc(0, 1_000_000_000).is_none());
    let parsed = chrono::DateTime::parse_from_rfc3339("0000-01-01T00:00:00Z").unwrap();
    assert_eq!(parsed.timestamp(), -62_167_219_200);
    let parsed = chrono::DateTime::parse_from_rfc3339("9999-12-31T23:59:59Z").unwrap();
    assert_eq!(parsed.timestamp(), 253_402_300_799);
}

#[test]
fn escape_correctness() {
    let json = fog_to_json(&Value::Str("$fog-test".to_string()));
    assert_eq!(str_of(&json), "$fog-Str:$fog-test");
    match json_to_fog(&json) {
        Ok(Value::Str(s)) => assert_eq!(s, "$fog-test"),
        _ => panic!("expected the exact string back"),
    }
    // The Str payload is taken verbatim, not trimmed.
    match json_to_fog(&JsonVal::Str("$fog-Str:  padded  ".to_string())) {
        Ok(Value::Str(s)) => assert_eq!(s, "  padded  "),
        _ => panic!("expected the untrimmed payload"),
    }
}

#[test]
fn float_canonicalization() {
    let json = fog_to_json(&Value::F32(F32Val::Raw(0x7fc00000)));
    assert_eq!(str_of(&json), "$fog-F32Hex:7fc00000");
    match json_to_fog(&json) {
        Ok(Value::F32(F32Val::Raw(bits))) => assert_eq!(bits, 0x7fc00000),
        _ => panic!("expected the exact bit pattern back"),
    }
    let inf = fog_to_json(&Value::F64(f64::INFINITY.to_bits()));
    assert_eq!(str_of(&inf), "$fog-F64Hex:7ff0000000000000");
    // A finite decimal payload keeps its text and its bits.
    match json_to_fog(&JsonVal::Str("$fog-F32: 0.25 ".to_string())) {
        Ok(Value::F32(F32Val::Dec(text, bits))) => {
            assert_eq!(text, "0.25");
            assert_eq!(bits, 0.25f32.to_bits());
        }
        _ => panic!("expected the trimmed decimal form"),
    }
    // A non-finite decimal payload becomes the raw form, re-encoded as hex.
    match json_to_fog(&JsonVal::Str("$fog-F32:inf".to_string())) {
        Ok(Value::F32(F32Val::Raw(bits))) => assert_eq!(bits, f32::INFINITY.to_bits()),
        _ => panic!("expected the raw form"),
    }
}

#[test]
fn binary_encoding() {
    let json = fog_to_json(&Value::Bin(vec![0, 1, 2, 3, 4]));
    assert_eq!(str_of(&json), "$fog-Bin:AAECAwQ");
    // Padding is optional on input: both spellings give the same bytes.
    for text in ["$fog-Bin:AAECAwQ", "$fog-Bin:AAECAwQ="] {
        match json_to_fog(&JsonVal::Str(text.to_string())) {
            Ok(Value::Bin(b)) => assert_eq!(b, vec![0, 1, 2, 3, 4]),
            _ => panic!("expected the bytes back"),
        }
    }
    assert!(matches!(
        json_to_fog(&JsonVal::Str("$fog-Bin:!!!".to_string())),
        Err(DecodeError::Base64)
    ));
}

#[test]
fn malformed_tag_rejection() {
    assert!(matches!(
        json_to_fog(&JsonVal::Str("$fog-NoColonHere".to_string())),
        Err(DecodeError::BadFogType)
    ));
}

#[test]
fn unknown_tag_rejection() {
    match json_to_fog(&JsonVal::Str("$fog-Bogus:xyz".to_string())) {
        Err(DecodeError::UnrecognizedType(t)) => assert_eq!(t, "Bogus"),
        _ => panic!("expected the unrecognized type token"),
    }
}

#[test]
fn error_location_attribution() {
    let json = JsonVal::Object(vec![JsonPair {
        key: "a".to_string(),
        val: JsonVal::Array(vec![JsonVal::Str("$fog-Int:notanumber".to_string())]),
    }]);
    match json_to_fog(&json) {
        Err(DecodeError::Object { key, err }) => {
            assert_eq!(key, "a");
            match *err {
                DecodeError::Array { loc, err } => {
                    assert_eq!(loc, 0);
                    assert!(matches!(*err, DecodeError::InvalidInteger));
                }
                _ => panic!("expected the array index in the chain"),
            }
        }
        _ => panic!("expected the object key in the chain"),
    }
}

#[test]
fn integer_edges() {
    match json_to_fog(&JsonVal::Str("$fog-Int:18446744073709551615".to_string())) {
        Ok(Value::Int(Int::U(u))) => assert_eq!(u, u64::MAX),
        _ => panic!("expected the largest unsigned value"),
    }
    assert!(matches!(
        json_to_fog(&JsonVal::Str("$fog-Int:18446744073709551616".to_string())),
        Err(DecodeError::InvalidInteger)
    ));
    match json_to_fog(&JsonVal::Str("$fog-Int:-9223372036854775808".to_string())) {
        Ok(Value::Int(Int::I(x))) => assert_eq!(x, i64::MIN),
        _ => panic!("expected the smallest signed value"),
    }
    assert!(matches!(
        json_to_fog(&JsonVal::Str("$fog-Int:-9223372036854775809".to_string())),
        Err(DecodeError::InvalidInteger)
    ));
    match json_to_fog(&JsonVal::Str("$fog-Int: +5 ".to_string())) {
        Ok(Value::Int(Int::U(u))) => assert_eq!(u, 5),
        _ => panic!("expected a plus sign to be accepted"),
    }
    // Negative zero normalizes to the unsigned form, as fog-pack integers do.
    match json_to_fog(&JsonVal::Str("$fog-Int:-0".to_string())) {
        Ok(Value::Int(Int::U(u))) => assert_eq!(u, 0),
        _ => panic!("expected the canonical unsigned zero"),
    }
}

#[test]
fn hex_rejection() {
    assert!(matches!(
        json_to_fog(&JsonVal::Str("$fog-F32Hex:xyzw".to_string())),
        Err(DecodeError::Hex)
    ));
    assert!(matches!(
        json_to_fog(&JsonVal::Str("$fog-F32Hex:7fc0".to_string())),
        Err(DecodeError::Hex)
    ));
    match json_to_fog(&JsonVal::Str("$fog-F64Hex:3FF0000000000000".to_string())) {
        Ok(Value::F64(bits)) => assert_eq!(bits, 1.0f64.to_bits()),
        _ => panic!("uppercase hexadecimal digits are accepted"),
    }
}

#[test]
fn base58_and_time_rejection() {
    assert!(matches!(
        json_to_fog(&JsonVal::Str("$fog-Hash:0OIl".to_string())),
        Err(DecodeError::InvalidBase58)
    ));
    assert!(matches!(
        json_to_fog(&JsonVal::Str("$fog-Identity:***".to_string())),
        Err(DecodeError::InvalidBase58)
    ));
    assert!(matches!(
        json_to_fog(&JsonVal::Str("$fog-Time:notatime".to_string())),
        Err(DecodeError::InvalidTime)
    ));
    assert!(matches!(
        json_to_fog(&JsonVal::Str("$fog-F32:abc".to_string())),
        Err(DecodeError::InvalidFloat)
    ));
    assert!(matches!(
        json_to_fog(&JsonVal::Str("$fog-DataLockbox:AAECAwQ".to_string())),
        Err(DecodeError::InvalidLockbox)
    ));
}

fn doc_json(entries: Vec<(&str, JsonVal)>) -> JsonVal {
    JsonVal::Object(
        entries
            .into_iter()
            .map(|(k, v)| JsonPair {
                key: k.to_string(),
                val: v,
            })
            .collect(),
    )
}

#[test]
fn strict_key_rejection() {
    let json = doc_json(vec![
        ("data", JsonVal::NumU(1)),
        ("extra", JsonVal::NumU(1)),
    ]);
    match json_to_doc(&json) {
        Err(ObjectError::UnrecognizedKey(k)) => assert_eq!(k, "extra"),
        _ => panic!("expected the extra key to be refused"),
    }
    assert!(matches!(
        json_to_doc(&JsonVal::Null),
        Err(ObjectError::NotAnObject)
    ));
    match json_to_doc(&doc_json(vec![("schema", JsonVal::Null)])) {
        Err(ObjectError::MissingKey(k)) => assert_eq!(k, "data"),
        _ => panic!("expected the missing data field to be named"),
    }
    match json_to_doc(&doc_json(vec![
        ("data", JsonVal::Null),
        ("schema", JsonVal::NumU(3)),
    ])) {
        Err(ObjectError::WrongDataType(k)) => assert_eq!(k, "schema"),
        _ => panic!("expected the schema type mismatch to be named"),
    }
}

#[test]
fn compression_tri_state() {
    let built = json_to_doc(&doc_json(vec![("data", JsonVal::NumU(1))])).unwrap();
    match built {
        MaybeDocument::NewDocument(d) => assert_eq!(d.compression(), None),
        _ => panic!("no signer was named"),
    }
    let built = json_to_doc(&doc_json(vec![
        ("compression", JsonVal::Null),
        ("data", JsonVal::NumU(1)),
    ]))
    .unwrap();
    match built {
        MaybeDocument::NewDocument(d) => assert_eq!(d.compression(), Some(None)),
        _ => panic!("no signer was named"),
    }
    let built = json_to_doc(&doc_json(vec![
        ("compression", JsonVal::NumU(5)),
        ("data", JsonVal::NumU(1)),
    ]))
    .unwrap();
    match built {
        MaybeDocument::NewDocument(d) => assert_eq!(d.compression(), Some(Some(5))),
        _ => panic!("no signer was named"),
    }
    match json_to_doc(&doc_json(vec![
        ("compression", JsonVal::NumU(300)),
        ("data", JsonVal::NumU(1)),
    ])) {
        Err(ObjectError::WrongDataType(k)) => assert_eq!(k, "compression"),
        _ => panic!("expected the out-of-range level to be refused"),
    }
    match json_to_doc(&doc_json(vec![
        ("compression", JsonVal::NumF(0.5f64.to_bits())),
        ("data", JsonVal::NumU(1)),
    ])) {
        Err(ObjectError::WrongDataType(k)) => assert_eq!(k, "compression"),
        _ => panic!("expected a float level to be refused"),
    }
}

#[test]
fn signing_mismatch() {
    let key_a = fog_crypto::identity::IdentityKey::new();
    let key_b = fog_crypto::identity::IdentityKey::new();
    let a_text = key_a.id().to_base58();
    let json = doc_json(vec![
        ("data", JsonVal::NumU(1)),
        ("signer", JsonVal::Str(format!("$fog-Identity:{}", a_text))),
    ]);
    let pendant = match json_to_doc(&json).unwrap() {
        MaybeDocument::SignDocument(p) => p,
        _ => panic!("a signer was named, so a pendant is expected"),
    };
    assert_eq!(pendant.signer().as_base58(), a_text);
    let id_b = Identity::from_base58(&key_b.id().to_base58()).unwrap();
    match pendant.complete(&id_b) {
        Err(ObjectError::IncorrectIdentityKey(expected)) => {
            assert_eq!(expected.as_base58(), a_text);
        }
        _ => panic!("a mismatched key must be refused"),
    }
    // A fresh pendant with the right identity completes and carries the signer.
    let pendant = match json_to_doc(&json).unwrap() {
        MaybeDocument::SignDocument(p) => p,
        _ => panic!("a signer was named, so a pendant is expected"),
    };
    let id_a = Identity::from_base58(&a_text).unwrap();
    let done = pendant.complete(&id_a).expect("the matching key completes");
    assert_eq!(done.signer().as_ref().unwrap().as_base58(), a_text);
}

#[test]
fn entry_two_step() {
    let hash = fog_pack::types::Hash::new(b"parent document");
    let parent_text = hash.to_base58();
    let json = doc_json(vec![
        ("data", JsonVal::Str("payload".to_string())),
        ("key", JsonVal::Str("records".to_string())),
        (
            "parent",
            JsonVal::Str(format!("$fog-Hash:{}", parent_text)),
        ),
        ("compression", JsonVal::NumU(3)),
    ]);
    let entry = JsonEntry::from_json(&json).expect("a well-formed entry");
    assert_eq!(entry.parent().as_base58(), parent_text);
    match entry.complete() {
        MaybeEntry::NewEntry(e) => {
            assert_eq!(e.key(), "records");
            assert_eq!(e.parent().as_base58(), parent_text);
            assert_eq!(e.compression(), Some(Some(3)));
            assert!(e.signer().is_none());
        }
        _ => panic!("no signer was named"),
    }
    match JsonEntry::from_json(&doc_json(vec![(
        "data",
        JsonVal::Str("payload".to_string()),
    )])) {
        Err(ObjectError::MissingKey(k)) => assert_eq!(k, "key"),
        _ => panic!("expected the missing key field to be named"),
    }
    match JsonEntry::from_json(&doc_json(vec![
        ("data", JsonVal::Null),
        ("key", JsonVal::NumU(4)),
        ("parent", JsonVal::Str(format!("$fog-Hash:{}", parent_text))),
    ])) {
        Err(ObjectError::WrongDataType(k)) => assert_eq!(k, "key"),
        _ => panic!("expected the key type mismatch to be named"),
    }
}

#[test]
fn entry_signing() {
    let hash = fog_pack::types::Hash::new(b"parent document");
    let key_a = fog_crypto::identity::IdentityKey::new();
    let a_text = key_a.id().to_base58();
    let json = doc_json(vec![
        ("data", JsonVal::Null),
        ("key", JsonVal::Str("k".to_string())),
        ("parent", JsonVal::Str(format!("$fog-Hash:{}", hash.to_base58()))),
        ("signer", JsonVal::Str(format!("$fog-Identity:{}", a_text))),
    ]);
    let entry = JsonEntry::from_json(&json).expect("a well-formed entry");
    let pendant = match entry.complete() {
        MaybeEntry::SignEntry(p) => p,
        _ => panic!("a signer was named, so a pendant is expected"),
    };
    assert_eq!(pendant.signer().as_base58(), a_text);
    let other = fog_crypto::identity::IdentityKey::new();
    let id_other = Identity::from_base58(&other.id().to_base58()).unwrap();
    match pendant.complete(&id_other) {
        Err(ObjectError::IncorrectIdentityKey(expected)) => {
            assert_eq!(expected.as_base58(), a_text)
        }
        _ => panic!("a mismatched key must be refused"),
    }
}

#[test]
fn query_conversions() {
    let json = doc_json(vec![
        ("key", JsonVal::Str("lookup".to_string())),
        ("validator", JsonVal::NumU(9)),
    ]);
    let q = json_to_query(&json).expect("a well-formed query");
    assert_eq!(q.key(), "lookup");
    assert!(veq(q.validator(), &Value::Int(Int::U(9))));
    let back = query_to_json(q);
    assert!(jeq(&back, &json));
    match json_to_query(&doc_json(vec![("validator", JsonVal::Null)])) {
        Err(ObjectError::MissingKey(k)) => assert_eq!(k, "key"),
        _ => panic!("expected the missing key field to be named"),
    }
    match json_to_query(&doc_json(vec![
        ("key", JsonVal::Str("k".to_string())),
        ("wrong", JsonVal::Null),
    ])) {
        Err(ObjectError::UnrecognizedKey(k)) => assert_eq!(k, "wrong"),
        _ => panic!("expected the unknown field to be named"),
    }
}

#[test]
fn decode_time_text() {
    match json_to_fog(&JsonVal::Str("$fog-Time:2023-07-12T17:33:13Z".to_string())) {
        Ok(Value::Timestamp(t)) => assert_eq!(t.utc(), (1_689_183_193, 0)),
        _ => panic!("expected the instant back"),
    }
    // An offset is folded into the UTC seconds.
    match json_to_fog(&JsonVal::Str("$fog-Time:2023-07-12T18:33:13+01:00".to_string())) {
        Ok(Value::Timestamp(t)) => assert_eq!(t.utc(), (1_689_183_193, 0)),
        _ => panic!("expected the instant back"),
    }
}

#[test]
fn entry_to_json_layout() {
    let hash = fog_pack::types::Hash::new(b"parent");
    let parent = fog_human_json::value::Hash::from_base58(&hash.to_base58()).unwrap();
    let json = fog_human_json::entry_to_json(
        Value::Bool(false),
        "$fog-odd key".to_string(),
        parent,
        None,
    );
    match &json {
        JsonVal::Object(ps) => {
            assert_eq!(ps.len(), 3);
            assert_eq!(ps[0].key, "data");
            assert_eq!(ps[1].key, "key");
            // The key is a string value, so it is escaped like any other.
            assert_eq!(str_of(&ps[1].val), "$fog-Str:$fog-odd key");
            assert_eq!(ps[2].key, "parent");
            assert_eq!(str_of(&ps[2].val), format!("$fog-Hash:{}", hash.to_base58()));
        }
        _ => panic!("expected an object"),
    }
}

#[test]
fn doc_to_json_layout() {
    let hash = fog_pack::types::Hash::new(b"schema");
    let h = fog_human_json::value::Hash::from_base58(&hash.to_base58()).unwrap();
    let json = fog_human_json::doc_to_json(Value::Bool(true), Some(h), None);
    match &json {
        JsonVal::Object(ps) => {
            assert_eq!(ps.len(), 2);
            assert_eq!(ps[0].key, "data");
            assert!(jeq(&ps[0].val, &JsonVal::Bool(true)));
            assert_eq!(ps[1].key, "schema");
            assert_eq!(
                str_of(&ps[1].val),
                format!("$fog-Hash:{}", hash.to_base58())
            );
        }
        _ => panic!("expected an object"),
    }
}
