use appcore::csrf::constant_time_eq;
use appcore::CsrfSecret;

#[test]
fn test_generate_and_validate() {
    let secret = CsrfSecret::generate();
    let session = "test-session-123";
    let token = secret.generate_token(session);

    assert!(secret.validate_token(&token, session));
    assert!(!secret.validate_token(&token, "wrong-session"));
    assert!(!secret.validate_token("garbage", session));
}

#[test]
fn test_tokens_are_unique() {
    let secret = CsrfSecret::generate();
    let t1 = secret.generate_token("session");
    let t2 = secret.generate_token("session");
    assert_ne!(t1, t2); // Different nonces
}

#[test]
fn round_trip_for_several_session_ids() {
    let secret = CsrfSecret::generate();
    for sid in ["", "a", "some-longer-session-identifier", "With Space", "unicode-\u{00e9}\u{4e16}"] {
        let token = secret.generate_token(sid);
        assert!(secret.validate_token(&token, sid));
    }
}

#[test]
fn token_shape_is_nonce_dot_signature() {
    let secret = CsrfSecret::generate();
    let token = secret.generate_token("sid");
    let parts: Vec<&str> = token.splitn(2, '.').collect();
    assert_eq!(parts.len(), 2);
    let engine = base64::engine::general_purpose::URL_SAFE_NO_PAD;
    let nonce = base64::Engine::decode(&engine, parts[0]).unwrap();
    assert_eq!(nonce.len(), 32);
    let sig = base64::Engine::decode(&engine, parts[1]).unwrap();
    assert_eq!(sig.len(), 32);
}

#[test]
fn token_rejected_for_other_session() {
    let secret = CsrfSecret::generate();
    let token = secret.generate_token("alpha");
    assert!(!secret.validate_token(&token, "beta"));
    assert!(!secret.validate_token(&token, ""));
}

#[test]
fn malformed_tokens_are_rejected() {
    let secret = CsrfSecret::generate();
    let sid = "session";
    assert!(!secret.validate_token("", sid));
    assert!(!secret.validate_token("not-a-valid-token", sid));
    assert!(!secret.validate_token(".", sid));
    assert!(!secret.validate_token("..", sid));
    assert!(!secret.validate_token("a.b", sid));
    assert!(!secret.validate_token("!!!.###", sid));
    assert!(!secret.validate_token("\u{00e9}\u{00e9}.\u{00e9}\u{00e9}", sid));
    // A well-formed pair of segments whose nonce is not 32 bytes long.
    let engine = base64::engine::general_purpose::URL_SAFE_NO_PAD;
    let short = base64::Engine::encode(&engine, [7u8; 10]);
    let sig = base64::Engine::encode(&engine, [0u8; 32]);
    let token = format!("{}.{}", short, sig);
    assert!(!secret.validate_token(&token, sid));
}

#[test]
fn secrets_reject_each_others_tokens() {
    let a = CsrfSecret::generate();
    let b = CsrfSecret::generate();
    let sid = "shared-session";
    let token_a = a.generate_token(sid);
    let token_b = b.generate_token(sid);
    assert!(!b.validate_token(&token_a, sid));
    assert!(!a.validate_token(&token_b, sid));
}

#[test]
fn constant_time_eq_matches_equality() {
    assert!(constant_time_eq(&[], &[]));
    assert!(constant_time_eq(&[1, 2, 3], &[1, 2, 3]));
    assert!(!constant_time_eq(&[1, 2, 3], &[1, 2, 4]));
    assert!(!constant_time_eq(&[0, 2, 3], &[1, 2, 3]));
    assert!(!constant_time_eq(&[1, 2], &[1, 2, 3]));
}
