use replica_store::bso_record::{
    deserialize, open_payload, seal_with_iv, serialize, BsoRecord, EncryptedPayload, ServerTimestamp, Sync15Record,
};
use replica_store::error::{ErrorKind, InvalidRecord};
use replica_store::key_bundle::KeyBundle;

#[test]
fn test_deserialize_enc() {
    let serialized = r#"{
            "id": "1234",
            "collection": "passwords",
            "modified": 12344321.0,
            "payload": "{\"IV\": \"aaaaa\", \"hmac\": \"bbbbb\", \"ciphertext\": \"ccccc\"}"
        }"#;
    let record: BsoRecord<EncryptedPayload> = BsoRecord::<EncryptedPayload>::from_wire(serialized).unwrap();
    assert_eq!(&record.id, "1234");
    assert_eq!(&record.collection, "passwords");
    assert_eq!(record.modified.0 as f64 / 1000.0, 12344321.0);
    assert_eq!(&record.payload.iv, "aaaaa");
    assert_eq!(&record.payload.hmac, "bbbbb");
    assert_eq!(&record.payload.ciphertext, "ccccc");
}

#[test]
fn test_serialize_enc() {
    let goal = r#"{"id":"1234","collection":"passwords","payload":"{\"IV\":\"aaaaa\",\"hmac\":\"bbbbb\",\"ciphertext\":\"ccccc\"}"}"#;
    let record = BsoRecord {
        id: "1234".into(),
        modified: ServerTimestamp(999_000), // shouldn't be serialized by client no matter what it's value is
        collection: "passwords".into(),
        sortindex: None,
        ttl: None,
        payload: EncryptedPayload { iv: "aaaaa".into(), hmac: "bbbbb".into(), ciphertext: "ccccc".into() },
    };
    let actual = record.to_wire();
    assert_eq!(actual, goal);
}

fn sample(sortindex: Option<i32>, ttl: Option<u32>) -> BsoRecord<EncryptedPayload> {
    BsoRecord {
        id: "a\"b".into(),
        modified: ServerTimestamp(5),
        collection: "tabs".into(),
        sortindex,
        ttl,
        payload: EncryptedPayload { iv: "i".into(), hmac: "h".into(), ciphertext: "c\\".into() },
    }
}

#[test]
fn wire_text_carries_optional_fields_and_escapes() {
    let text = sample(Some(-12), Some(4000000000)).to_wire();
    assert_eq!(
        text,
        r#"{"id":"a\"b","collection":"tabs","sortindex":-12,"ttl":4000000000,"payload":"{\"IV\":\"i\",\"hmac\":\"h\",\"ciphertext\":\"c\\\\\"}"}"#
    );
    assert_eq!(
        sample(Some(i32::MIN), None).to_wire(),
        r#"{"id":"a\"b","collection":"tabs","sortindex":-2147483648,"payload":"{\"IV\":\"i\",\"hmac\":\"h\",\"ciphertext\":\"c\\\\\"}"}"#
    );
}

#[test]
fn wire_text_is_stable_and_ignores_modified() {
    let sent = sample(Some(7), Some(60)).to_wire();
    // a server adds a time stamp; what comes back is sent on as the same bytes
    let received = format!("{},\"modified\":1234.56,\"unknown\":[1,2]}}", &sent[..sent.len() - 1]);
    let back = BsoRecord::<EncryptedPayload>::from_wire(&received).unwrap();
    assert_eq!(back.modified, ServerTimestamp(1_234_560));
    assert_eq!(back.sortindex, Some(7));
    assert_eq!(back.ttl, Some(60));
    assert_eq!(back.to_wire(), sent);
    let mut later = sample(Some(7), Some(60));
    later.modified = ServerTimestamp(99);
    assert_eq!(later.to_wire(), sent);
}

#[test]
fn malformed_envelopes_are_refused() {
    let refuse = |text: &str| {
        assert!(matches!(
            BsoRecord::<EncryptedPayload>::from_wire(text),
            Err(ErrorKind::InvalidRecord(InvalidRecord::SchemaViolation))
        ))
    };
    let p = r#""payload":"{\"IV\":\"a\",\"hmac\":\"b\",\"ciphertext\":\"c\"}""#;
    refuse("not json");
    refuse("[1]");
    refuse(&format!(r#"{{"collection":"x","modified":1,{}}}"#, p));
    refuse(&format!(r#"{{"id":"1","modified":"soon",{}}}"#, p));
    refuse(&format!(r#"{{"id":"1",{}}}"#, p));
    refuse(&format!(r#"{{"id":"1","modified":1,"sortindex":2147483648,{}}}"#, p));
    refuse(&format!(r#"{{"id":"1","modified":1,"ttl":-1,{}}}"#, p));
    refuse(&format!(r#"{{"id":"1","modified":1,"ttl":1.5,{}}}"#, p));
    refuse(r#"{"id":"1","modified":1,"payload":"{\"IV\":\"a\",\"hmac\":\"b\"}"}"#);
    refuse(r#"{"id":"1","modified":1,"payload":{"IV":"a","hmac":"b","ciphertext":"c"}}"#);
    refuse(&format!(r#"{{"id":"1","modified":1e30,{}}}"#, p));
    // an absent collection is the empty one; null stands for no sort index
    let ok = BsoRecord::<EncryptedPayload>::from_wire(&format!(r#"{{"id":"1","modified":-2,"sortindex":null,{}}}"#, p))
        .unwrap();
    assert_eq!(ok.collection, "");
    assert_eq!(ok.sortindex, None);
    assert_eq!(ok.modified, ServerTimestamp(-2000));
}

#[test]
fn payload_text_round_trip() {
    let p = EncryptedPayload { iv: "aaaaa".into(), hmac: "bbbbb".into(), ciphertext: "ccccc".into() };
    let text = serialize(&p);
    assert_eq!(text, r#"{"IV":"aaaaa","hmac":"bbbbb","ciphertext":"ccccc"}"#);
    let back = deserialize(&text).unwrap();
    assert_eq!((back.iv, back.hmac, back.ciphertext), (p.iv, p.hmac, p.ciphertext));
    assert!(deserialize("{}").is_err());
}

#[derive(Clone, Debug, PartialEq)]
struct Login {
    id: String,
    name: String,
}

impl Sync15Record for Login {
    fn collection_tag() -> &'static str {
        "passwords"
    }

    fn record_id(&self) -> &str {
        &self.id
    }

    fn to_json(&self) -> String {
        format!("{{\"id\":{:?},\"name\":{:?}}}", self.id, self.name)
    }

    fn from_json(text: &str) -> Option<Self> {
        let v: serde_json::Value = serde_json::from_str(text).ok()?;
        Some(Login { id: v.get("id")?.as_str()?.to_string(), name: v.get("name")?.as_str()?.to_string() })
    }
}

fn key() -> KeyBundle {
    KeyBundle::new((0u8..32).collect(), (100u8..132).collect()).unwrap()
}

#[test]
fn encryption_round_trip() {
    let k = key();
    let login = Login { id: "G1".into(), name: "a".into() };
    let clear = BsoRecord::from_payload(login.clone());
    assert_eq!(clear.id, "G1");
    assert_eq!(clear.collection, "passwords");
    assert_eq!(clear.modified, ServerTimestamp(0));
    let sealed = clear.encrypt(&k).unwrap();
    assert_eq!(sealed.id, "G1");
    assert_ne!(sealed.payload.ciphertext, login.to_json());
    let back: BsoRecord<Login> = sealed.decrypt(&k).unwrap();
    assert_eq!(back.payload, login);
    assert_eq!(back.collection, "passwords");
}

#[test]
fn tampering_is_an_hmac_mismatch() {
    let k = key();
    let sealed = BsoRecord::from_payload(Login { id: "G1".into(), name: "a".into() }).encrypt(&k).unwrap();
    let mut bad = sealed.clone();
    let mut bytes = bad.payload.ciphertext.into_bytes();
    bytes[0] = if bytes[0] == b'A' { b'B' } else { b'A' };
    bad.payload.ciphertext = String::from_utf8(bytes).unwrap();
    assert!(matches!(bad.decrypt::<Login>(&k), Err(ErrorKind::HmacMismatch)));
    // a tag that is no base64 does not match either, and another key's tag neither
    let mut odd = sealed.clone();
    odd.payload.hmac = "***".into();
    assert!(matches!(odd.decrypt::<Login>(&k), Err(ErrorKind::HmacMismatch)));
    let other = KeyBundle::new(vec![7; 32], vec![9; 32]).unwrap();
    assert!(matches!(sealed.decrypt::<Login>(&other), Err(ErrorKind::HmacMismatch)));
}

#[test]
fn sealing_is_exact_for_a_given_vector() {
    let k = key();
    let iv = [1u8; 16];
    let a = seal_with_iv(&k, "{\"name\":\"a\"}", &iv).unwrap();
    let b = seal_with_iv(&k, "{\"name\":\"a\"}", &iv).unwrap();
    assert_eq!(a.ciphertext, b.ciphertext);
    assert_eq!(a.iv, "AQEBAQEBAQEBAQEBAQEBAQ==");
    assert_eq!(a.hmac, k.hmac_string(a.ciphertext.as_bytes()).unwrap());
    assert_eq!(a.hmac.len(), 44);
    assert_eq!(open_payload(&k, &a).unwrap(), "{\"name\":\"a\"}");
    // 12 bytes of cleartext fill one block of 16 bytes: 24 characters of base64
    assert_eq!(a.ciphertext.len(), 24);
    assert!(matches!(seal_with_iv(&k, "x", &[0u8; 15]), Err(ErrorKind::CryptoFailure)));
}

#[test]
fn fresh_vectors_differ() {
    let k = key();
    let (c1, iv1) = k.encrypt_bytes_rand_iv(b"same").unwrap();
    let (c2, iv2) = k.encrypt_bytes_rand_iv(b"same").unwrap();
    assert_eq!(iv1.len(), 16);
    assert_ne!(iv1, iv2);
    assert_ne!(c1, c2);
    assert_eq!(k.decrypt(&c1, &iv1).unwrap(), "same");
    assert!(matches!(k.decrypt(&c1, &iv2[..8]), Err(ErrorKind::CryptoFailure)));
    assert!(matches!(k.decrypt(&c1[..5], &iv1), Err(ErrorKind::CryptoFailure)));
}

#[test]
fn key_lengths_are_checked() {
    assert!(matches!(KeyBundle::new(vec![0; 31], vec![0; 32]), Err(ErrorKind::CryptoFailure)));
    assert!(matches!(KeyBundle::new(vec![0; 32], vec![0; 33]), Err(ErrorKind::CryptoFailure)));
    let k = key();
    assert_eq!(k.encryption_key().len(), 32);
    assert_eq!(k.hmac_key()[0], 100);
    assert_eq!(k.verify_hmac_string(&k.hmac_string(b"abc").unwrap(), "abc").unwrap(), true);
    assert_eq!(k.verify_hmac_string(&k.hmac_string(b"abc").unwrap(), "abd").unwrap(), false);
}

#[test]
fn undecodable_cleartext_is_a_schema_violation() {
    let k = key();
    let p = seal_with_iv(&k, "[]", &[3u8; 16]).unwrap();
    let rec = BsoRecord {
        id: "x".into(),
        collection: "c".into(),
        modified: ServerTimestamp(0),
        sortindex: None,
        ttl: None,
        payload: p,
    };
    assert!(matches!(rec.decrypt::<Login>(&k), Err(ErrorKind::InvalidRecord(InvalidRecord::SchemaViolation))));
}

#[test]
fn payloads_map_and_transpose() {
    let rec = BsoRecord {
        id: "x".to_string(),
        collection: "c".to_string(),
        modified: ServerTimestamp(3),
        sortindex: Some(1),
        ttl: Some(2),
        payload: Some(5u32),
    };
    let doubled = rec.clone().map_payload(|p| p.map(|n| n * 2));
    assert_eq!(doubled.payload, Some(10));
    assert_eq!((doubled.id.as_str(), doubled.sortindex, doubled.ttl, doubled.modified), ("x", Some(1), Some(2), ServerTimestamp(3)));
    let inner = doubled.transpose().unwrap();
    assert_eq!(inner.payload, 10);
    assert_eq!(inner.collection, "c");
    assert!(rec.with_payload(None::<u32>).transpose().is_none());
}

#[test]
fn an_envelope_derefs_to_its_payload() {
    let mut rec = BsoRecord::new("x".to_string(), "c".to_string(), vec![1u8, 2]);
    assert_eq!(rec.len(), 2);
    rec.push(3);
    assert_eq!(rec.payload, vec![1, 2, 3]);
    assert_eq!((rec.id.as_str(), rec.collection.as_str(), rec.modified), ("x", "c", ServerTimestamp(0)));
    let from: BsoRecord<Login> = Login { id: "L".into(), name: "n".into() }.into();
    assert_eq!((from.id.as_str(), from.collection.as_str()), ("L", "passwords"));
}
