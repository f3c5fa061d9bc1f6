use licensed::codec;
use licensed::{License, LicenseBuilder, LicenseError};
use ring::rand::SystemRandom;
use ring::signature::{Ed25519KeyPair, KeyPair};

fn keypair() -> Ed25519KeyPair {
    let rng = SystemRandom::new();
    let pkcs8 = Ed25519KeyPair::generate_pkcs8(&rng).unwrap();
    Ed25519KeyPair::from_pkcs8(pkcs8.as_ref()).unwrap()
}

fn signed_blob(payload: &[u8], key: &Ed25519KeyPair) -> Vec<u8> {
    let sig = key.sign(payload);
    codec::encode_blob(payload, sig.as_ref())
}

fn built(payload: &[u8]) -> Result<License, LicenseError> {
    let key = keypair();
    let blob = signed_blob(payload, &key);
    License::new(&blob)
        .with_public_key(key.public_key().as_ref())
        .build()
}

#[test]
fn it_fails_with_missing_signature() {
    let license = License::new(b"test").with_public_key(b"a").build();
    match license {
        Ok(_) => unreachable!(),
        Err(e) => assert_eq!(e, LicenseError::MissingSignature),
    }
}

#[test]
fn it_fails_with_missing_public_key() {
    let license = License::new(b"test").build();
    match license {
        Ok(_) => unreachable!(),
        Err(e) => assert_eq!(e, LicenseError::MissingPublicKey),
    }
}

#[test]
fn it_fails_with_missing_text() {
    let builder = LicenseBuilder::default()
        .with_public_key(&[0x08])
        .with_signature(&[0x08]);
    match builder.build() {
        Ok(_) => unreachable!(),
        Err(e) => assert_eq!(e, LicenseError::MissingLicenseText),
    }
}

#[test]
fn it_validates_a_signature() {
    let license = built(b"{\"features\":[\"hello\"],\"expires\":null}").unwrap();
    assert!(license.valid());
}

#[test]
fn valid_license_grants_its_features() {
    let license = built(b"{\"features\":[\"hello\"],\"expires\":null}").unwrap();
    assert!(license.valid());
    assert!(license.has_feature(b"hello"));
    assert!(!license.has_feature(b"world"));
}

#[test]
fn feature_match_is_case_sensitive() {
    let license = built(b"{\"features\":[\"x\"]}").unwrap();
    assert!(license.has_feature(b"x"));
    assert!(!license.has_feature(b"X"));
}

#[test]
fn flipped_signature_bit_invalidates() {
    let key = keypair();
    let mut blob = signed_blob(b"{\"features\":[\"hello\"],\"expires\":null}", &key);
    let last = blob.len() - 1;
    blob[last] ^= 0x01;
    let license = License::new(&blob)
        .with_public_key(key.public_key().as_ref())
        .build()
        .unwrap();
    assert!(!license.valid());
}

#[test]
fn signature_under_other_key_invalidates() {
    let signer = keypair();
    let other = keypair();
    let blob = signed_blob(b"{\"features\":[]}", &signer);
    let license = License::new(&blob)
        .with_public_key(other.public_key().as_ref())
        .build()
        .unwrap();
    assert!(!license.valid());
}

#[test]
fn signature_over_other_payload_invalidates() {
    let key = keypair();
    let sig = key.sign(b"{\"features\":[\"other\"]}");
    let blob = codec::encode_blob(b"{\"features\":[\"hello\"]}", sig.as_ref());
    let license = License::new(&blob)
        .with_public_key(key.public_key().as_ref())
        .build()
        .unwrap();
    assert!(!license.valid());
}

#[test]
fn missing_delimiter_fails_with_missing_signature() {
    let key = keypair();
    let license = License::new(b"{\"features\":[]}")
        .with_public_key(key.public_key().as_ref())
        .build();
    match license {
        Ok(_) => unreachable!(),
        Err(e) => assert_eq!(e, LicenseError::MissingSignature),
    }
}

#[test]
fn invalid_utf8_text_fails_with_missing_text() {
    let key = keypair();
    let mut blob = vec![0xffu8, 0xfe, 0x00];
    blob.extend_from_slice(&[0x01; 64]);
    let license = License::new(&blob)
        .with_public_key(key.public_key().as_ref())
        .build();
    match license {
        Ok(_) => unreachable!(),
        Err(e) => assert_eq!(e, LicenseError::MissingLicenseText),
    }
}

#[test]
fn expired_license_is_invalid() {
    let license = built(b"{\"features\":[],\"expires\":\"2000-01-01T00:00:00Z\"}").unwrap();
    assert!(!license.valid());
}

#[test]
fn future_expiry_is_valid() {
    let license = built(b"{\"features\":[],\"expires\":\"2999-01-01T00:00:00Z\"}").unwrap();
    assert!(license.valid());
}

#[test]
fn expiry_boundary_is_strict() {
    // 2000-01-01T00:00:00Z is 946684800 seconds after the Unix epoch.
    let license = built(b"{\"features\":[],\"expires\":\"2000-01-01T00:00:00Z\"}").unwrap();
    assert!(license.valid_at(946_684_799_999));
    assert!(!license.valid_at(946_684_800_000));
    assert!(!license.valid_at(946_684_800_001));
}

#[test]
fn expiry_offset_is_normalized() {
    // One o'clock at offset +01:00 is the same instant as midnight UTC.
    let license =
        built(b"{\"features\":[],\"expires\":\"2000-01-01T01:00:00+01:00\"}").unwrap();
    assert!(license.valid_at(946_684_799_999));
    assert!(!license.valid_at(946_684_800_000));
}

#[test]
fn invalid_signature_overrides_expiry() {
    let key = keypair();
    let other = keypair();
    let blob = signed_blob(b"{\"features\":[],\"expires\":\"2999-01-01T00:00:00Z\"}", &key);
    let license = License::new(&blob)
        .with_public_key(other.public_key().as_ref())
        .build()
        .unwrap();
    assert!(!license.valid_at(0));
    assert!(!license.valid());
}

#[test]
fn unknown_members_are_ignored() {
    let text = b"{\"extra\":{\"a\":[1,-2.5e+3,{\"b\":null},true,false],\"c\":\"s\"},\"features\":[\"x\"],\"more\":-0.125}";
    let license = built(text).unwrap();
    assert!(license.valid());
    assert!(license.has_feature(b"x"));
}

#[test]
fn whitespace_is_tolerated() {
    let text = b" { \"features\" : [ \"a\" ,\t\"b\" ] ,\n\"expires\" : null } ";
    let license = built(text).unwrap();
    assert!(license.has_feature(b"a"));
    assert!(license.has_feature(b"b"));
    assert!(!license.has_feature(b"c"));
}

#[test]
fn string_escapes_are_unescaped() {
    let text = b"{\"features\":[\"a\\\"b\",\"c\\\\d\",\"e\\nf\"]}";
    let license = built(text).unwrap();
    assert!(license.has_feature(b"a\"b"));
    assert!(license.has_feature(b"c\\d"));
    assert!(license.has_feature(b"e\nf"));
    assert!(!license.has_feature(b"a\\\"b"));
}

#[test]
fn unicode_escape_is_rejected() {
    assert_eq!(
        built(b"{\"features\":[\"\\u0041\"]}").unwrap_err(),
        LicenseError::PayloadCorrupt
    );
}

#[test]
fn missing_features_member_is_corrupt() {
    assert_eq!(
        built(b"{\"expires\":null}").unwrap_err(),
        LicenseError::PayloadCorrupt
    );
}

#[test]
fn duplicate_known_member_is_corrupt() {
    assert_eq!(
        built(b"{\"features\":[],\"features\":[]}").unwrap_err(),
        LicenseError::PayloadCorrupt
    );
    assert_eq!(
        built(b"{\"features\":[],\"expires\":null,\"expires\":null}").unwrap_err(),
        LicenseError::PayloadCorrupt
    );
}

#[test]
fn non_object_payload_is_corrupt() {
    assert_eq!(built(b"[]").unwrap_err(), LicenseError::PayloadCorrupt);
    assert_eq!(built(b"null").unwrap_err(), LicenseError::PayloadCorrupt);
    assert_eq!(built(b"").unwrap_err(), LicenseError::PayloadCorrupt);
}

#[test]
fn trailing_garbage_is_corrupt() {
    assert_eq!(
        built(b"{\"features\":[]} x").unwrap_err(),
        LicenseError::PayloadCorrupt
    );
}

#[test]
fn malformed_expiry_is_corrupt() {
    assert_eq!(
        built(b"{\"features\":[],\"expires\":\"soon\"}").unwrap_err(),
        LicenseError::PayloadCorrupt
    );
    assert_eq!(
        built(b"{\"features\":[],\"expires\":5}").unwrap_err(),
        LicenseError::PayloadCorrupt
    );
}

#[test]
fn multibyte_feature_names_survive() {
    let license = built(b"{\"features\":[\"caf\xc3\xa9\"]}").unwrap();
    assert!(license.has_feature("café".as_bytes()));
    assert!(!license.has_feature(b"cafe"));
}

#[test]
fn blob_round_trip_recovers_both_parts() {
    let payload = b"{\"features\":[\"hello\"]}".to_vec();
    // Zero bytes inside the signature must not confuse the split: the
    // delimiter is the first zero, and the payload holds none.
    let mut signature = vec![0u8; 4];
    signature.extend_from_slice(&[7u8; 60]);
    let blob = codec::encode_blob(&payload, &signature);
    let (text, sig) = codec::split_blob(&blob);
    assert_eq!(text.unwrap(), payload);
    assert_eq!(sig.unwrap(), signature);
}

#[test]
fn blob_without_delimiter_splits_to_nothing() {
    let (text, sig) = codec::split_blob(b"no delimiter here");
    assert!(text.is_none());
    assert!(sig.is_none());
}

#[test]
fn moderate_nesting_in_unknown_member_is_fine() {
    let text = format!(
        "{{\"x\":{}{},\"features\":[\"a\"]}}",
        "[".repeat(100),
        "]".repeat(100)
    );
    let license = built(text.as_bytes()).unwrap();
    assert!(license.has_feature(b"a"));
}

#[test]
fn nesting_beyond_the_limit_is_corrupt() {
    let text = format!(
        "{{\"x\":{}{},\"features\":[\"a\"]}}",
        "[".repeat(150),
        "]".repeat(150)
    );
    assert_eq!(built(text.as_bytes()).unwrap_err(), LicenseError::PayloadCorrupt);
}

#[test]
fn payload_decodes_to_structured_fields() {
    let p = licensed::payload::parse_payload(
        b"{\"features\":[\"a\",\"b\"],\"expires\":\"2030-01-01T00:00:00Z\"}",
    )
    .unwrap();
    assert_eq!(p.features, vec![b"a".to_vec(), b"b".to_vec()]);
    assert_eq!(p.expires, Some(b"2030-01-01T00:00:00Z".to_vec()));
    let q = licensed::payload::parse_payload(b"{\"features\":[],\"expires\":null}").unwrap();
    assert!(q.features.is_empty());
    assert!(q.expires.is_none());
}

#[test]
fn setters_overwrite_last_write_wins() {
    let key = keypair();
    let payload = b"{\"features\":[\"hello\"]}";
    let blob = signed_blob(payload, &key);
    let other = keypair();
    let license = License::new(&blob)
        .with_public_key(other.public_key().as_ref())
        .with_public_key(key.public_key().as_ref())
        .build()
        .unwrap();
    assert!(license.valid());
}
