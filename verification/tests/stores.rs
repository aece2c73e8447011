use aetherlink::error::SessionAuthError;
use aetherlink::hex::{char_to_hex_nibble, decode_hex, encode_hex, hex_nibble_to_char};
use aetherlink::identity::{IdentityKey, PeerId};
use aetherlink::replay::NonceReplayCache;
use aetherlink::text::{bytes_eq, bytes_lt, char_is_whitespace, str_before, str_eq, str_is_blank};
use aetherlink::trust::{TrustedPeerRecord, TrustedPeers};
use libp2p::identity;

fn peer_of(seed: u8) -> (PeerId, Vec<u8>) {
    let key = identity::Keypair::ed25519_from_bytes([seed; 32]).unwrap();
    let public = key.public().encode_protobuf();
    (PeerId::from_public_key(&public).unwrap(), public)
}

#[test]
fn nonce_is_accepted_once_within_retention() {
    let mut cache = NonceReplayCache::new(60_000);
    assert_eq!(cache.check_and_store(b"nonce", 1_000), Ok(()));
    assert_eq!(cache.check_and_store(b"nonce", 1_000), Err(SessionAuthError::ReplayDetected));
    assert_eq!(cache.check_and_store(b"nonce", 61_000), Err(SessionAuthError::ReplayDetected));
    // the clock may run backwards: an entry dated in the future is kept
    assert_eq!(cache.check_and_store(b"nonce", -5), Err(SessionAuthError::ReplayDetected));
    assert_eq!(cache.check_and_store(b"nonce", 61_001), Ok(()));
    assert_eq!(cache.check_and_store(b"nonce", 61_002), Err(SessionAuthError::ReplayDetected));
    assert_eq!(cache.len(), 1);
}

#[test]
fn eviction_is_lazy_and_happens_on_refusal_too() {
    let mut cache = NonceReplayCache::new(10);
    cache.check_and_store(b"a", 0).unwrap();
    cache.check_and_store(b"b", 5).unwrap();
    assert_eq!(cache.len(), 2);
    assert_eq!(cache.check_and_store(b"b", 12), Err(SessionAuthError::ReplayDetected));
    assert_eq!(cache.len(), 1);
    cache.check_and_store(b"a", 12).unwrap();
    assert_eq!(cache.len(), 2);
}

#[test]
fn retention_is_at_least_one_millisecond() {
    assert_eq!(NonceReplayCache::new(0).retention_ms(), 1);
    assert_eq!(NonceReplayCache::new(-7).retention_ms(), 1);
    assert_eq!(NonceReplayCache::new(7).retention_ms(), 7);
    assert_eq!(NonceReplayCache::default().retention_ms(), 60_000);
    let mut cache = NonceReplayCache::new(0);
    cache.check_and_store(b"n", 0).unwrap();
    assert!(cache.check_and_store(b"n", 1).is_err());
    assert!(cache.check_and_store(b"n", 2).is_ok());
}

#[test]
fn replay_cache_survives_extreme_times() {
    let mut cache = NonceReplayCache::new(i64::MAX);
    cache.check_and_store(b"n", i64::MIN).unwrap();
    assert!(cache.check_and_store(b"n", i64::MAX).is_ok());
    let mut cache = NonceReplayCache::new(i64::MAX);
    cache.check_and_store(b"n", -1).unwrap();
    assert!(cache.check_and_store(b"n", i64::MAX - 1).is_err());
    assert!(cache.check_and_store(b"n", i64::MAX).is_ok());
}

#[test]
fn hex_round_trip() {
    assert_eq!(encode_hex(&[]), "");
    assert_eq!(encode_hex(&[0x00, 0x0f, 0xa5, 0xff]), "000fa5ff");
    assert_eq!(decode_hex("000fa5ff"), Ok(vec![0x00, 0x0f, 0xa5, 0xff]));
    assert_eq!(decode_hex("000FA5Ff"), Ok(vec![0x00, 0x0f, 0xa5, 0xff]));
    assert_eq!(decode_hex(""), Ok(vec![]));
    let all: Vec<u8> = (0..=255).collect();
    assert_eq!(decode_hex(&encode_hex(&all)), Ok(all));
}

#[test]
fn hex_faults() {
    assert_eq!(
        decode_hex("abc"),
        Err(SessionAuthError::TrustStoreCorrupt("hex string has odd length".to_string()))
    );
    assert_eq!(
        decode_hex("0g"),
        Err(SessionAuthError::TrustStoreCorrupt("invalid hex char g".to_string()))
    );
    assert_eq!(
        decode_hex("zz0x"),
        Err(SessionAuthError::TrustStoreCorrupt("invalid hex char z".to_string()))
    );
    assert_eq!(
        decode_hex("00 1"),
        Err(SessionAuthError::TrustStoreCorrupt("invalid hex char  ".to_string()))
    );
    // two bytes of UTF-8 are read byte by byte
    assert_eq!(
        decode_hex("é"),
        Err(SessionAuthError::TrustStoreCorrupt("invalid hex char Ã".to_string()))
    );
}

#[test]
fn hex_digits() {
    assert_eq!(hex_nibble_to_char(0), '0');
    assert_eq!(hex_nibble_to_char(9), '9');
    assert_eq!(hex_nibble_to_char(10), 'a');
    assert_eq!(hex_nibble_to_char(15), 'f');
    assert_eq!(hex_nibble_to_char(16), '0');
    assert_eq!(char_to_hex_nibble('7'), Ok(7));
    assert_eq!(char_to_hex_nibble('c'), Ok(12));
    assert_eq!(char_to_hex_nibble('C'), Ok(12));
    assert_eq!(
        char_to_hex_nibble('G'),
        Err(SessionAuthError::TrustStoreCorrupt("invalid hex char G".to_string()))
    );
}

#[test]
fn text_helpers_agree_with_the_standard_library() {
    let samples = ["", "a", "ab", "b", "A", "é", "z\u{10FFFF}", "zz", "\u{7f}", "\u{80}"];
    for a in samples {
        for b in samples {
            assert_eq!(str_eq(a, b), a == b);
            assert_eq!(str_before(a, b), a < b);
            assert_eq!(bytes_eq(a.as_bytes(), b.as_bytes()), a == b);
            assert_eq!(bytes_lt(a.as_bytes(), b.as_bytes()), a.as_bytes() < b.as_bytes());
        }
    }
    let mut c = 0u32;
    while c <= 0x10FFFF {
        if let Some(ch) = char::from_u32(c) {
            assert_eq!(char_is_whitespace(ch), ch.is_whitespace(), "U+{:04X}", c);
        }
        c += 1;
    }
    assert!(str_is_blank(""));
    assert!(str_is_blank(" \t\r\n\u{3000}"));
    assert!(!str_is_blank(" x "));
}

fn record(code: &str, seed: u8, first: i64, last: i64) -> TrustedPeerRecord {
    let (peer, public) = peer_of(seed);
    TrustedPeerRecord {
        device_code: code.to_string(),
        peer_id: peer.as_str().to_string(),
        identity_pubkey_hex: encode_hex(&public),
        first_seen_unix_ms: first,
        last_seen_unix_ms: last,
    }
}

#[test]
fn trust_store_round_trip_is_sorted_by_device_code() {
    let input = vec![record("zeta", 1, 1, 2), record("alpha", 2, 3, 4), record("mid", 3, 5, 6)];
    let store = TrustedPeers::from_records(input.clone()).unwrap();
    assert_eq!(store.len(), 3);
    assert!(!store.is_empty());
    let out = store.to_records();
    assert_eq!(out, vec![input[1].clone(), input[2].clone(), input[0].clone()]);
    let again = TrustedPeers::from_records(out.clone()).unwrap();
    assert_eq!(again.to_records(), out);
}

fn record_to_json(record: &TrustedPeerRecord) -> serde_json::Value {
    let mut fields = serde_json::Map::new();
    fields.insert("device_code".to_string(), serde_json::Value::from(record.device_code.clone()));
    fields.insert("peer_id".to_string(), serde_json::Value::from(record.peer_id.clone()));
    fields.insert(
        "identity_pubkey_hex".to_string(),
        serde_json::Value::from(record.identity_pubkey_hex.clone()),
    );
    fields.insert("first_seen_unix_ms".to_string(), serde_json::Value::from(record.first_seen_unix_ms));
    fields.insert("last_seen_unix_ms".to_string(), serde_json::Value::from(record.last_seen_unix_ms));
    serde_json::Value::Object(fields)
}

fn record_from_json(value: &serde_json::Value) -> TrustedPeerRecord {
    TrustedPeerRecord {
        device_code: value["device_code"].as_str().unwrap().to_string(),
        peer_id: value["peer_id"].as_str().unwrap().to_string(),
        identity_pubkey_hex: value["identity_pubkey_hex"].as_str().unwrap().to_string(),
        first_seen_unix_ms: value["first_seen_unix_ms"].as_i64().unwrap(),
        last_seen_unix_ms: value["last_seen_unix_ms"].as_i64().unwrap(),
    }
}

#[test]
fn trust_store_survives_json() {
    let input = vec![
        record("zeta \"quoted\"", 1, i64::MIN, i64::MAX),
        record("älpha\n", 2, -3, 4),
        record("mid", 3, 0, 0),
    ];
    let store = TrustedPeers::from_records(input).unwrap();
    let written = store.to_records();

    let mut file = serde_json::Map::new();
    file.insert("version".to_string(), serde_json::Value::from(1));
    file.insert(
        "peers".to_string(),
        serde_json::Value::Array(written.iter().map(record_to_json).collect()),
    );
    let text = serde_json::to_string_pretty(&serde_json::Value::Object(file)).unwrap();

    let parsed: serde_json::Value = serde_json::from_str(&text).unwrap();
    assert_eq!(parsed["version"].as_u64(), Some(1));
    let read: Vec<TrustedPeerRecord> =
        parsed["peers"].as_array().unwrap().iter().map(record_from_json).collect();
    assert_eq!(read, written);
    let again = TrustedPeers::from_records(read).unwrap();
    assert_eq!(again.to_records(), written);
    let codes: Vec<&str> = written.iter().map(|r| r.device_code.as_str()).collect();
    assert_eq!(codes, vec!["mid", "zeta \"quoted\"", "älpha\n"]);
}

#[test]
fn last_record_of_a_device_code_wins() {
    let input = vec![record("dev", 1, 1, 2), record("other", 2, 3, 4), record("dev", 3, 5, 6)];
    let store = TrustedPeers::from_records(input.clone()).unwrap();
    assert_eq!(store.to_records(), vec![input[2].clone(), input[1].clone()]);
}

#[test]
fn faulty_records_are_refused() {
    let mut blank = record("dev", 1, 1, 2);
    blank.device_code = " \t ".to_string();
    assert_eq!(
        TrustedPeers::from_records(vec![record("ok", 2, 0, 0), blank]).unwrap_err(),
        SessionAuthError::TrustStoreCorrupt("empty device_code in trust record".to_string())
    );
    let mut bad_peer = record("dev", 1, 1, 2);
    bad_peer.peer_id = "peer-a".to_string();
    assert_eq!(
        TrustedPeers::from_records(vec![bad_peer]).unwrap_err(),
        SessionAuthError::TrustStoreCorrupt("invalid peer id: peer-a".to_string())
    );
    let mut bad_hex = record("dev", 1, 1, 2);
    bad_hex.identity_pubkey_hex = "abc".to_string();
    assert_eq!(
        TrustedPeers::from_records(vec![bad_hex]).unwrap_err(),
        SessionAuthError::TrustStoreCorrupt("hex string has odd length".to_string())
    );
    let mut both = record("dev", 1, 1, 2);
    both.peer_id = "?".to_string();
    both.identity_pubkey_hex = "xy".to_string();
    assert_eq!(
        TrustedPeers::from_records(vec![both]).unwrap_err(),
        SessionAuthError::TrustStoreCorrupt("invalid peer id: ?".to_string())
    );
    // a key that is hexadecimal text but no key at all
    let mut no_key = record("dev", 1, 1, 2);
    no_key.identity_pubkey_hex = "ab".to_string();
    assert_eq!(
        TrustedPeers::from_records(vec![no_key.clone()]).unwrap_err(),
        SessionAuthError::TrustStoreCorrupt(format!(
            "public key does not belong to peer id: {}",
            no_key.peer_id
        ))
    );
    // the key of another peer
    let mut other_key = record("dev", 1, 1, 2);
    other_key.identity_pubkey_hex = record("dev", 2, 1, 2).identity_pubkey_hex;
    assert_eq!(
        TrustedPeers::from_records(vec![record("ok", 3, 0, 0), other_key.clone()]).unwrap_err(),
        SessionAuthError::TrustStoreCorrupt(format!(
            "public key does not belong to peer id: {}",
            other_key.peer_id
        ))
    );
    // upper-case digits stand for the same key
    let mut upper = record("dev", 1, 1, 2);
    upper.identity_pubkey_hex = upper.identity_pubkey_hex.to_uppercase();
    assert_eq!(TrustedPeers::from_records(vec![upper]).unwrap().len(), 1);
    assert!(TrustedPeers::from_records(vec![]).unwrap().is_empty());
}

#[test]
fn sightings_pin_and_refresh() {
    let (peer, public) = peer_of(1);
    let (other, other_public) = peer_of(2);
    let mut store = TrustedPeers::default();
    assert_eq!(
        store.ensure_trusted("dev", &peer, &public, 1_000, false),
        Err(SessionAuthError::UntrustedPeer { device_code: "dev".to_string() })
    );
    assert!(store.is_empty());
    assert_eq!(store.ensure_trusted("dev", &peer, &public, 1_000, true), Ok(true));
    assert_eq!(store.to_records(), vec![record("dev", 1, 1_000, 1_000)]);
    assert_eq!(store.ensure_trusted("dev", &peer, &public, 60_999, false), Ok(false));
    assert_eq!(store.to_records(), vec![record("dev", 1, 1_000, 1_000)]);
    assert_eq!(store.ensure_trusted("dev", &peer, &public, 61_000, false), Ok(true));
    assert_eq!(store.to_records(), vec![record("dev", 1, 1_000, 61_000)]);
    // time that runs backwards writes nothing
    assert_eq!(store.ensure_trusted("dev", &peer, &public, 0, true), Ok(false));

    let mismatch = Err(SessionAuthError::TrustedPeerMismatch { device_code: "dev".to_string() });
    assert_eq!(store.ensure_trusted("dev", &other, &other_public, 200_000, true), mismatch);
    assert_eq!(store.ensure_trusted("dev", &peer, &other_public, 200_000, true), mismatch);
    assert_eq!(store.ensure_trusted("dev", &other, &public, 200_000, true), mismatch);
    assert_eq!(store.to_records(), vec![record("dev", 1, 1_000, 61_000)]);

    assert_eq!(store.ensure_trusted("abc", &other, &other_public, 5, true), Ok(true));
    assert_eq!(
        store.to_records(),
        vec![record("abc", 2, 5, 5), record("dev", 1, 1_000, 61_000)]
    );
    // the far ends of the clock neither wrap nor panic
    assert_eq!(store.ensure_trusted("abc", &other, &other_public, i64::MIN, true), Ok(false));
    assert_eq!(store.ensure_trusted("abc", &other, &other_public, i64::MAX, true), Ok(true));
    assert_eq!(store.ensure_trusted("abc", &other, &other_public, i64::MIN, true), Ok(false));
}

#[test]
fn peer_identifiers_agree_with_libp2p() {
    let key = identity::Keypair::ed25519_from_bytes([42; 32]).unwrap();
    let theirs = libp2p::PeerId::from(key.public());
    let ours = PeerId::from_public_key(&key.public().encode_protobuf()).unwrap();
    assert_eq!(ours.to_bytes(), theirs.to_bytes());
    assert_eq!(ours.as_bytes(), &theirs.to_bytes()[..]);
    assert_eq!(ours.as_str(), theirs.to_string());
    assert_eq!(PeerId::from_bytes(&theirs.to_bytes()).unwrap(), ours);
    assert_eq!(PeerId::parse(&theirs.to_string()).unwrap(), ours);
    assert!(ours.same_as(&ours.duplicate()));
    assert!(ours.has_text(&theirs.to_string()));
    assert!(!ours.has_text("x"));
    assert!(PeerId::from_bytes(&[]).is_none());
    assert!(PeerId::from_bytes(&[0x16, 0x01, 0x00]).is_none());
    assert!(PeerId::parse("peer-a").is_none());
    assert!(PeerId::from_public_key(&[1, 2, 3]).is_none());
    let (a, _) = peer_of(1);
    assert!(!a.same_as(&ours));
}

#[test]
fn identity_key_signs_what_its_public_half_verifies() {
    let key = identity::Keypair::ed25519_from_bytes([43; 32]).unwrap();
    let ours = IdentityKey::from_protobuf_encoding(&key.to_protobuf_encoding().unwrap()).unwrap();
    assert_eq!(ours.public_key_bytes(), &key.public().encode_protobuf()[..]);
    assert_eq!(ours.local_peer_id().to_bytes(), libp2p::PeerId::from(key.public()).to_bytes());
    assert_eq!(ours.to_protobuf_encoding(), key.to_protobuf_encoding().unwrap());
    let signature = ours.sign(b"message").unwrap();
    assert_eq!(signature, key.sign(b"message").unwrap());
    assert!(key.public().verify(b"message", &signature));
    assert!(IdentityKey::from_protobuf_encoding(&[9, 9, 9]).is_err());
    let fresh = IdentityKey::generate().unwrap();
    let other = IdentityKey::generate().unwrap();
    assert_ne!(fresh.to_protobuf_encoding(), other.to_protobuf_encoding());
    let reread = IdentityKey::from_protobuf_encoding(&fresh.to_protobuf_encoding()).unwrap();
    assert!(reread.local_peer_id().same_as(fresh.local_peer_id()));
}

#[test]
fn generated_identities_are_fresh_and_usable() {
    let first = IdentityKey::generate().unwrap();
    let second = IdentityKey::generate().unwrap();
    assert_ne!(first.to_protobuf_encoding(), second.to_protobuf_encoding());
    assert_ne!(first.local_peer_id(), second.local_peer_id());

    let read = IdentityKey::from_protobuf_encoding(&first.to_protobuf_encoding()).unwrap();
    assert_eq!(read.local_peer_id(), first.local_peer_id());
    assert_eq!(read.public_key_bytes(), first.public_key_bytes());
    assert_eq!(
        PeerId::from_public_key(first.public_key_bytes()).as_ref(),
        Some(first.local_peer_id())
    );

    let keypair = identity::Keypair::from_protobuf_encoding(&first.to_protobuf_encoding()).unwrap();
    assert_eq!(keypair.key_type(), identity::KeyType::Ed25519);
    let signature = first.sign(b"message").unwrap();
    assert!(keypair.public().verify(b"message", &signature));
    assert!(!keypair.public().verify(b"massage", &signature));
}
