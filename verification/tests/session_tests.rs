use appcore::CsrfSecret;
use appcore::InMemorySessionStore;
use appcore::SessionStore;

#[test]
fn session_id_decodes_to_32_bytes() {
    let mut store = InMemorySessionStore::new();
    let session = store.create(1000);
    let engine = base64::engine::general_purpose::URL_SAFE_NO_PAD;
    let bytes = base64::Engine::decode(&engine, &session.id).unwrap();
    assert_eq!(bytes.len(), 32);
}

#[test]
fn created_ids_differ() {
    let mut store = InMemorySessionStore::new();
    let a = store.create(0);
    let b = store.create(0);
    assert_ne!(a.id, b.id);
}

#[test]
fn get_right_after_create() {
    let mut store = InMemorySessionStore::new();
    let session = store.create(500);
    let got = store.get(&session.id, 500).unwrap();
    assert_eq!(got.id, session.id);
    assert!(got.data.is_empty());
    assert!(got.csrf_token.is_empty());
    assert_eq!(got.created_at, 500);
    assert_eq!(got.last_access, 500);
}

#[test]
fn get_unknown_id_is_none() {
    let store = InMemorySessionStore::new();
    assert!(store.get("nonexistent", 0).is_none());
}

#[test]
fn touch_refreshes_last_access() {
    let mut store = InMemorySessionStore::new();
    let session = store.create(100);
    let before = store.get(&session.id, 100).unwrap().last_access;
    store.touch(&session.id, 200);
    let after = store.get(&session.id, 200).unwrap().last_access;
    assert!(after >= before);
    assert_eq!(after, 200);
    // Touching an unknown id is a quiet no-op.
    store.touch("nonexistent", 300);
}

#[test]
fn expired_session_is_hidden_before_cleanup() {
    let mut store = InMemorySessionStore::new();
    let session = store.create(100);
    // Exactly at the TTL the session is still returned; past it, not.
    assert!(store.get(&session.id, 100 + 3600).is_some());
    assert!(store.get(&session.id, 100 + 3601).is_none());
    // The record is still physically present: touching revives it.
    store.touch(&session.id, 100 + 3601);
    assert!(store.get(&session.id, 100 + 3601).is_some());
}

#[test]
fn cleanup_removes_exactly_the_expired() {
    let mut store = InMemorySessionStore::new();
    let stale = store.create(0);
    let fresh = store.create(5000);
    store.cleanup_expired(5000);
    // The stale record is gone for good: touching does not revive it.
    store.touch(&stale.id, 5000);
    assert!(store.get(&stale.id, 5000).is_none());
    // The fresh one is untouched.
    let kept = store.get(&fresh.id, 5000).unwrap();
    assert_eq!(kept.id, fresh.id);
    assert_eq!(kept.last_access, 5000);
}

#[test]
fn update_csrf_stores_the_token() {
    let mut store = InMemorySessionStore::new();
    let session = store.create(10);
    store.update_csrf(&session.id, "token-value");
    let got = store.get(&session.id, 10).unwrap();
    assert_eq!(got.csrf_token, "token-value");
    // Unknown ids are a quiet no-op.
    store.update_csrf("nonexistent", "whatever");
}

#[test]
fn destroy_removes_the_session() {
    let mut store = InMemorySessionStore::new();
    let session = store.create(10);
    store.destroy(&session.id);
    assert!(store.get(&session.id, 10).is_none());
    // Destroying an absent id is a quiet no-op.
    store.destroy(&session.id);
}

#[test]
fn session_token_scenario() {
    let mut store = InMemorySessionStore::new();
    let secret = CsrfSecret::generate();
    let session = store.create(42);
    let token = secret.generate_token(&session.id);
    assert!(secret.validate_token(&token, &session.id));
    assert!(!secret.validate_token(&token, "other-session"));
    store.destroy(&session.id);
    assert!(store.get(&session.id, 42).is_none());
}

#[test]
fn is_expired_threshold() {
    let mut store = InMemorySessionStore::new();
    let session = store.create(1000);
    assert!(!session.is_expired(1000));
    assert!(!session.is_expired(4600));
    assert!(session.is_expired(4601));
    // A clock reading earlier than the last access does not expire it.
    assert!(!session.is_expired(0));
}
