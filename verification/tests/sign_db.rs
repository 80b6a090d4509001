use sealed_store::api::handlers::{handle_sign, handle_verify};
use sealed_store::api::interfaces::SigningDataPayload;
use sealed_store::crypto::secretbox_chacha20_poly1305::Nonce;
use sealed_store::crypto::sign_ed25519::{PublicKey, SecretKey, Signature};
use sealed_store::db::constants::{SALT_BASE, SIG_TTL};
use sealed_store::db::security::SecurityAtRest;
use sealed_store::db::sign_db::{SigningDb, SigningEntry};
use sealed_store::db::ErrorKind;

const SEED: [u8; 32] = [
    157, 97, 177, 157, 239, 253, 90, 96, 186, 132, 74, 244, 146, 236, 44, 196, 68, 73, 197, 105,
    123, 50, 105, 25, 112, 59, 172, 3, 28, 174, 127, 96,
];

const PUBLIC: [u8; 32] = [
    215, 90, 152, 1, 130, 177, 10, 183, 213, 75, 254, 211, 201, 100, 7, 58, 14, 225, 114, 243, 218,
    166, 35, 37, 175, 2, 26, 104, 247, 7, 81, 26,
];

const SIGNATURE_OF_NOTHING: [u8; 64] = [
    229, 86, 67, 0, 195, 96, 172, 114, 144, 134, 226, 204, 128, 110, 130, 138, 132, 135, 127, 30,
    184, 229, 217, 116, 216, 115, 224, 101, 34, 73, 1, 85, 95, 184, 130, 21, 144, 163, 59, 172,
    198, 30, 57, 112, 28, 249, 180, 107, 210, 91, 245, 240, 89, 91, 190, 36, 101, 81, 65, 67, 142,
    122, 16, 11,
];

fn fresh_path(name: &str) -> String {
    format!("/tmp/sealed_store_{}_{:016x}", name, rand::random::<u64>())
}

fn quick_security() -> SecurityAtRest {
    SecurityAtRest::with_parameters(Nonce([5; 12]), 1000, SALT_BASE).unwrap()
}

fn open_signing_db(name: &str) -> SigningDb {
    SigningDb::with_security(fresh_path(name), quick_security()).unwrap()
}

fn request(id: &str, message: &str, signature: Option<Signature>) -> SigningDataPayload {
    SigningDataPayload {
        id: id.to_string(),
        message: message.to_string(),
        timestamp: String::new(),
        signature,
        custom_data: None,
    }
}

#[test]
fn entry_of_a_given_secret_key_holds_its_pair() {
    let db = open_signing_db("given");
    let security = quick_security();
    let entry = db.create_from("alice", "p", SecretKey(SEED));
    assert_eq!(entry.pk_hash, "21fe31dfa154a261626bf854046fd2271b7bed4b6abe45aa58877ef47f9721b9");
    assert_eq!(entry.ttl, 3600);
    assert_eq!(SIG_TTL, 3600);
    assert_eq!(entry.timestamp, "");
    let rest_key = security.derive_rest_key("alice", "p");
    assert_eq!(entry.pub_key, security.wrap(rest_key, &PUBLIC).unwrap());
    assert_eq!(entry.secret_key, security.wrap(rest_key, &SEED).unwrap());
}

#[test]
fn created_entries_have_fresh_key_pairs() {
    let db = open_signing_db("fresh");
    let first = db.create("alice", "p");
    let second = db.create("alice", "p");
    assert_ne!(first.pk_hash, second.pk_hash);
    assert_ne!(first.secret_key, second.secret_key);
    assert_eq!(first.pk_hash.len(), 64);
    assert_eq!(first.pub_key.len(), 48);
    assert_eq!(first.secret_key.len(), 48);
    assert_eq!(first.ttl, 3600);
    let security = quick_security();
    let rest_key = security.derive_rest_key("alice", "p");
    let (public, _) = security
        .decrypt_keys_from_storage(rest_key, (first.pub_key.clone(), first.secret_key.clone()))
        .unwrap();
    assert_eq!(first.pk_hash, sealed_store::crypto::sha256::fingerprint(public.as_ref()));
}

#[test]
fn signing_with_an_entry_gives_the_ed25519_signature() {
    let db = open_signing_db("vector");
    let security = quick_security();
    let entry = db.create_from("alice", "p", SecretKey(SEED));
    let (signature, public_key) =
        SigningDb::sign_with(&security, entry.clone(), "alice", "p", b"").unwrap();
    assert_eq!(public_key, PublicKey(PUBLIC));
    assert_eq!(signature, Signature(SIGNATURE_OF_NOTHING));
    let valid =
        SigningDb::verify_with(&security, entry.clone(), "alice", "p", b"", &signature).unwrap();
    assert!(valid);
    let valid = SigningDb::verify_with(&security, entry, "alice", "p", b"x", &signature).unwrap();
    assert!(!valid);
}

#[test]
fn signing_with_an_entry_needs_the_passphrase() {
    let db = open_signing_db("needs");
    let security = quick_security();
    let entry = db.create_from("alice", "p", SecretKey(SEED));
    let error = SigningDb::sign_with(&security, entry.clone(), "alice", "q", b"m").unwrap_err();
    assert_eq!(error.kind, ErrorKind::AuthenticationFailed);
    let error = SigningDb::sign_with(&security, entry.clone(), "bob", "p", b"m").unwrap_err();
    assert_eq!(error.kind, ErrorKind::AuthenticationFailed);
    let signature = Signature(SIGNATURE_OF_NOTHING);
    let error =
        SigningDb::verify_with(&security, entry, "alice", "q", b"", &signature).unwrap_err();
    assert_eq!(error.kind, ErrorKind::AuthenticationFailed);
}

#[test]
fn inserted_entry_is_found_by_its_identifier() {
    let mut db = open_signing_db("inserted");
    let entry = db.create_from("alice", "p", SecretKey(SEED));
    db.insert("message-1".to_string(), entry.clone()).unwrap();
    let found = db.get("message-1".to_string()).unwrap();
    assert_eq!(found.pk_hash, entry.pk_hash);
    assert_eq!(found.pub_key, entry.pub_key);
    assert_eq!(found.secret_key, entry.secret_key);
    assert_eq!(found.ttl, 3600);
    assert_eq!(found.timestamp, "");
    assert_eq!(db.get("message-2".to_string()).unwrap_err().kind, ErrorKind::NotFound);
    assert_eq!(db.get(entry.pk_hash).unwrap_err().kind, ErrorKind::NotFound);
}

#[test]
fn identifier_that_reads_like_a_key_of_the_store_overwrites_nothing() {
    let mut db = open_signing_db("collision");
    let first = db.create_from("alice", "p", SecretKey(SEED));
    let second = db.create_from("bob", "p", SecretKey([1; 32]));
    db.insert("alice".to_string(), first.clone()).unwrap();
    db.insert(first.pk_hash.clone(), second.clone()).unwrap();
    db.insert(format!("signatures/{}", first.pk_hash), second.clone()).unwrap();
    db.insert(format!("sig_ids/{}", "alice"), second.clone()).unwrap();
    assert_eq!(db.get("alice".to_string()).unwrap().secret_key, first.secret_key);
    assert_eq!(db.get(first.pk_hash.clone()).unwrap().secret_key, second.secret_key);
}

#[test]
fn signature_of_a_provisioned_identity_verifies() {
    let mut db = open_signing_db("verifies");
    let message = b"a message".to_vec();
    let (signature, public_key) = db.sign("alice", "pass", message.clone()).unwrap();
    assert!(db.verify("alice", "pass", message.clone(), signature).unwrap());
    let entry = db.get("alice".to_string()).unwrap();
    assert_eq!(entry.pk_hash, sealed_store::crypto::sha256::fingerprint(public_key.as_ref()));
    assert_eq!(entry.ttl, 3600);
}

#[test]
fn signature_of_a_different_message_does_not_verify() {
    let mut db = open_signing_db("different");
    let (signature, _) = db.sign("alice", "pass", b"one message".to_vec()).unwrap();
    let (other, _) = db.sign("alice", "pass", b"another message".to_vec()).unwrap();
    assert_ne!(signature, other);
    assert!(!db.verify("alice", "pass", b"one message".to_vec(), other).unwrap());
    assert!(!db.verify("alice", "pass", b"another message".to_vec(), signature).unwrap());
    assert!(db.verify("alice", "pass", b"another message".to_vec(), other).unwrap());
    let mut altered = signature;
    altered.0[10] ^= 1;
    assert!(!db.verify("alice", "pass", b"one message".to_vec(), altered).unwrap());
}

#[test]
fn signature_of_another_identity_does_not_verify() {
    let mut db = open_signing_db("another");
    let (signature, alice) = db.sign("alice", "pass", b"m".to_vec()).unwrap();
    let (_, bob) = db.sign("bob", "pass", b"m".to_vec()).unwrap();
    assert_ne!(alice, bob);
    assert!(!db.verify("bob", "pass", b"m".to_vec(), signature).unwrap());
}

#[test]
fn signing_twice_uses_the_same_key_pair() {
    let mut db = open_signing_db("twice");
    let (first, first_key) = db.sign("fresh-id", "pass", b"m".to_vec()).unwrap();
    let (second, second_key) = db.sign("fresh-id", "pass", b"m".to_vec()).unwrap();
    assert_eq!(first_key, second_key);
    assert_eq!(first, second);
    let (third, third_key) = db.sign("fresh-id", "pass", b"n".to_vec()).unwrap();
    assert_eq!(first_key, third_key);
    assert_ne!(first, third);
}

#[test]
fn signing_is_the_same_under_the_default_parameters() {
    let mut db = SigningDb::new(fresh_path("default")).unwrap();
    let (signature, first_key) = db.sign("id", "pass", b"m".to_vec()).unwrap();
    let (_, second_key) = db.sign("id", "pass", b"m".to_vec()).unwrap();
    assert_eq!(first_key, second_key);
    assert!(db.verify("id", "pass", b"m".to_vec(), signature).unwrap());
}

#[test]
fn signing_for_a_provisioned_identity_needs_its_passphrase() {
    let mut db = open_signing_db("passphrase");
    let (signature, _) = db.sign("alice", "correct", b"m".to_vec()).unwrap();
    let error = db.sign("alice", "wrong", b"m".to_vec()).unwrap_err();
    assert_eq!(error.kind, ErrorKind::AuthenticationFailed);
    let error = db.verify("alice", "wrong", b"m".to_vec(), signature).unwrap_err();
    assert_eq!(error.kind, ErrorKind::AuthenticationFailed);
    assert!(db.verify("alice", "correct", b"m".to_vec(), signature).unwrap());
}

#[test]
fn verifying_provisions_nothing() {
    let db = open_signing_db("nothing");
    let signature = Signature(SIGNATURE_OF_NOTHING);
    let error = db.verify("nobody", "pass", b"".to_vec(), signature).unwrap_err();
    assert_eq!(error.kind, ErrorKind::NotFound);
    assert_eq!(db.get("nobody".to_string()).unwrap_err().kind, ErrorKind::NotFound);
    let error = db.verify("nobody", "pass", b"".to_vec(), signature).unwrap_err();
    assert_eq!(error.kind, ErrorKind::NotFound);
}

#[test]
fn signing_with_an_inserted_entry_uses_its_key_pair() {
    let mut db = open_signing_db("uses");
    let entry = db.create_from("alice", "p", SecretKey(SEED));
    db.insert("alice".to_string(), entry).unwrap();
    let (signature, public_key) = db.sign("alice", "p", Vec::new()).unwrap();
    assert_eq!(public_key, PublicKey(PUBLIC));
    assert_eq!(signature, Signature(SIGNATURE_OF_NOTHING));
    assert!(db.verify("alice", "p", Vec::new(), signature).unwrap());
}

#[test]
fn entry_under_an_identifier_it_was_not_made_for_is_not_authenticated() {
    let mut db = open_signing_db("moved");
    let entry = db.create_from("alice", "p", SecretKey(SEED));
    db.insert("bob".to_string(), entry).unwrap();
    assert_eq!(db.sign("bob", "p", Vec::new()).unwrap_err().kind, ErrorKind::AuthenticationFailed);
}

#[test]
fn entry_with_keys_of_a_wrong_length_is_malformed() {
    let mut db = open_signing_db("length");
    let security = quick_security();
    let rest_key = security.derive_rest_key("alice", "p");
    let entry = SigningEntry {
        pk_hash: "00".to_string(),
        pub_key: security.wrap(rest_key, &[1; 31]).unwrap(),
        secret_key: security.wrap(rest_key, &[1; 32]).unwrap(),
        ttl: 1,
        timestamp: String::new(),
    };
    db.insert("alice".to_string(), entry).unwrap();
    assert_eq!(db.sign("alice", "p", Vec::new()).unwrap_err().kind, ErrorKind::MalformedInput);
    let signature = Signature(SIGNATURE_OF_NOTHING);
    assert_eq!(
        db.verify("alice", "p", Vec::new(), signature).unwrap_err().kind,
        ErrorKind::MalformedInput
    );
}

#[test]
fn fetched_records_decide_what_is_decoded() {
    assert_eq!(SigningDb::decode_id(None).unwrap_err().kind, ErrorKind::NotFound);
    assert_eq!(SigningDb::decode_id(Some(vec![1])).unwrap_err().kind, ErrorKind::MalformedInput);
    assert_eq!(SigningDb::decode_entry(None).unwrap_err().kind, ErrorKind::NotFound);
    assert_eq!(
        SigningDb::decode_entry(Some(vec![1])).unwrap_err().kind,
        ErrorKind::MalformedInput
    );
    let entry = SigningEntry {
        pk_hash: "00".to_string(),
        pub_key: vec![1],
        secret_key: vec![2],
        ttl: 7,
        timestamp: "t".to_string(),
    };
    let decoded = SigningDb::decode_entry(Some(entry.to_bytes())).unwrap();
    assert_eq!(decoded.pk_hash, "00");
    assert_eq!(decoded.pub_key, vec![1]);
    assert_eq!(decoded.secret_key, vec![2]);
    assert_eq!(decoded.ttl, 7);
    assert_eq!(decoded.timestamp, "t");
}

#[test]
fn signing_storage_that_cannot_be_opened_is_unavailable() {
    let error = SigningDb::new("/dev/null/sealed_store".to_string()).unwrap_err();
    assert_eq!(error.kind, ErrorKind::StoreUnavailable);
}

#[test]
fn provisioned_identity_outlives_its_handle() {
    let path = fresh_path("outlives");
    let (signature, public_key) = {
        let mut db = SigningDb::with_security(path.clone(), quick_security()).unwrap();
        db.sign("alice", "pass", b"m".to_vec()).unwrap()
    };
    let mut db = SigningDb::with_security(path, quick_security()).unwrap();
    assert!(db.verify("alice", "pass", b"m".to_vec(), signature).unwrap());
    assert_eq!(db.sign("alice", "pass", b"m".to_vec()).unwrap().1, public_key);
}

#[test]
fn request_is_signed_and_verified() {
    let mut db = open_signing_db("request");
    let (signature, public_key) = handle_sign(&mut db, &request("alice", "hello", None), "pass").unwrap();
    let (direct, direct_key) = db.sign("alice", "pass", b"hello".to_vec()).unwrap();
    assert_eq!(signature, direct);
    assert_eq!(public_key, direct_key);
    assert!(handle_verify(&db, &request("alice", "hello", Some(signature)), "pass").unwrap());
    assert!(!handle_verify(&db, &request("alice", "hullo", Some(signature)), "pass").unwrap());
}

#[test]
fn request_to_verify_without_a_signature_is_malformed() {
    let mut db = open_signing_db("unsigned");
    handle_sign(&mut db, &request("alice", "hello", None), "pass").unwrap();
    let error = handle_verify(&db, &request("alice", "hello", None), "pass").unwrap_err();
    assert_eq!(error.kind, ErrorKind::MalformedInput);
    let error = handle_verify(&db, &request("nobody", "hello", None), "pass").unwrap_err();
    assert_eq!(error.kind, ErrorKind::MalformedInput);
}

#[test]
fn request_to_verify_for_an_unknown_identity_is_not_found() {
    let db = open_signing_db("unknown");
    let signature = Signature(SIGNATURE_OF_NOTHING);
    let error = handle_verify(&db, &request("nobody", "", Some(signature)), "pass").unwrap_err();
    assert_eq!(error.kind, ErrorKind::NotFound);
}

#[test]
fn signature_is_parsed_from_its_hex_text() {
    let text = sealed_store::crypto::hex::to_hex(&SIGNATURE_OF_NOTHING);
    assert_eq!(
        text,
        "e5564300c360ac729086e2cc806e828a84877f1eb8e5d974d873e065224901555fb8821590a33bacc61e39701cf9b46bd25bf5f0595bbe24655141438e7a100b"
    );
    let parsed = sealed_store::api::interfaces::parse_signature(&text).unwrap();
    assert_eq!(parsed, Signature(SIGNATURE_OF_NOTHING));
}

#[test]
fn text_that_is_no_signature_is_malformed() {
    for text in ["", "00", "zz", &"0".repeat(127), &"0".repeat(130), &"g".repeat(128)] {
        let error = sealed_store::api::interfaces::parse_signature(text).unwrap_err();
        assert_eq!(error.kind, ErrorKind::MalformedInput);
    }
    assert!(sealed_store::api::interfaces::parse_signature(&"0".repeat(128)).is_ok());
}

#[test]
fn opened_database_makes_a_signing_store() {
    let opened = sled::open(fresh_path("handed"));
    assert!(opened.is_ok());
    let mut db = SigningDb::from_opened(quick_security(), opened).unwrap();
    let (signature, _) = db.sign("alice", "pass", b"m".to_vec()).unwrap();
    assert!(db.verify("alice", "pass", b"m".to_vec(), signature).unwrap());
}

#[test]
fn failed_opening_makes_no_signing_store() {
    let opened = sled::open("/dev/null/sealed_store");
    assert!(opened.is_err());
    let error = SigningDb::from_opened(quick_security(), opened).unwrap_err();
    assert_eq!(error.kind, ErrorKind::StoreUnavailable);
}

#[test]
fn signing_store_is_opened_at_the_given_place() {
    let first = fresh_path("place_one");
    let second = fresh_path("place_two");
    let signature = {
        let mut db = SigningDb::with_security(first.clone(), quick_security()).unwrap();
        db.sign("alice", "pass", b"m".to_vec()).unwrap().0
    };
    let elsewhere = SigningDb::with_security(second, quick_security()).unwrap();
    let error = elsewhere.verify("alice", "pass", b"m".to_vec(), signature).unwrap_err();
    assert_eq!(error.kind, ErrorKind::NotFound);
    let again = SigningDb::with_security(first, quick_security()).unwrap();
    assert!(again.verify("alice", "pass", b"m".to_vec(), signature).unwrap());
}
