use foundry_auth::auth::{AuthManager, Backend};
use foundry_auth::credential_store::CredentialStore;
use foundry_auth::error::DbError;
use foundry_auth::password::hash_password;
use foundry_auth::user::{Credentials, DbUser};

fn store_with_alice() -> (CredentialStore, String) {
    let hash = hash_password(&"secret123".to_string());
    let mut store = CredentialStore::new();
    let added = store.add_user(DbUser {
        id: 1,
        username: "alice".to_string(),
        password: hash.clone(),
    });
    assert!(added);
    (store, hash)
}

fn creds(username: &str, password: &str) -> Credentials {
    Credentials { username: username.to_string(), password: password.to_string(), next: None }
}

#[test]
fn authenticate_accepts_matching_password() {
    let (store, _) = store_with_alice();
    let backend = Backend::new(store);
    let user = backend.authenticate(&creds("alice", "secret123")).unwrap();
    assert_eq!(user.id(), 1);
    assert_eq!(user.0.username, "alice");
}

#[test]
fn authenticate_rejects_wrong_password() {
    let (store, _) = store_with_alice();
    let backend = Backend::new(store);
    let err = match backend.authenticate(&creds("alice", "secret124")) {
        Err(e) => e,
        Ok(_) => panic!("expected an error"),
    };
    assert!(matches!(err, DbError::PasswordIncorrect));
}

#[test]
fn authenticate_unknown_user_is_user_not_found() {
    let (store, _) = store_with_alice();
    let backend = Backend::new(store);
    let err = match backend.authenticate(&creds("bob", "secret123")) {
        Err(e) => e,
        Ok(_) => panic!("expected an error"),
    };
    assert!(matches!(err, DbError::UserNotFound));
    let err = match backend.authenticate(&creds("bob", "")) {
        Err(e) => e,
        Ok(_) => panic!("expected an error"),
    };
    assert!(matches!(err, DbError::UserNotFound));
}

#[test]
fn authenticate_on_empty_store_is_user_not_found() {
    let backend = Backend::new(CredentialStore::new());
    let err = match backend.authenticate(&creds("alice", "secret123")) {
        Err(e) => e,
        Ok(_) => panic!("expected an error"),
    };
    assert!(matches!(err, DbError::UserNotFound));
}

#[test]
fn session_resolves_to_identity_and_permissions_right_after_login() {
    let (mut store, _) = store_with_alice();
    store.add_membership(1, 10);
    store.add_grant(10, "articles.write".to_string());
    let mut manager = AuthManager::new(Backend::new(store));
    let now: u64 = 1_000;
    let (user, token) = manager.login(&creds("alice", "secret123"), now).unwrap();
    assert_eq!(user.id(), 1);
    let resolved = manager.resolve(&token, now).expect("fresh session must resolve");
    assert_eq!(resolved.id(), 1);
    assert_eq!(resolved.0.username, "alice");
    let perms = manager.permissions_of(&resolved);
    assert_eq!(perms.len(), 1);
    assert_eq!(perms[0].name, "articles.write");
}

#[test]
fn password_change_invalidates_session_without_deleting_row() {
    let (store, _) = store_with_alice();
    let mut manager = AuthManager::new(Backend::new(store));
    let now: u64 = 50;
    let (_, token) = manager.login(&creds("alice", "secret123"), now).unwrap();
    assert!(manager.resolve(&token, now).is_some());

    assert!(manager.change_password(1, &"another-password".to_string()));

    // The row is still physically present...
    assert!(manager.sessions.read(&token).is_some());
    // ...but the session no longer resolves.
    assert!(manager.resolve(&token, now).is_none());
}

#[test]
fn two_logins_are_independent_sessions() {
    let (store, _) = store_with_alice();
    let mut manager = AuthManager::new(Backend::new(store));
    let now: u64 = 0;
    let (_, t1) = manager.login(&creds("alice", "secret123"), now).unwrap();
    let (_, t2) = manager.login(&creds("alice", "secret123"), now).unwrap();
    assert_ne!(t1, t2);
    assert_eq!(manager.resolve(&t1, now).unwrap().0.username, "alice");
    assert_eq!(manager.resolve(&t2, now).unwrap().0.username, "alice");

    manager.logout(&t1);
    assert!(manager.resolve(&t1, now).is_none());
    assert_eq!(manager.resolve(&t2, now).unwrap().0.username, "alice");
}

#[test]
fn logout_is_idempotent() {
    let (store, _) = store_with_alice();
    let mut manager = AuthManager::new(Backend::new(store));
    let (_, token) = manager.login(&creds("alice", "secret123"), 0).unwrap();
    manager.logout(&token);
    manager.logout(&token);
    assert!(manager.resolve(&token, 0).is_none());
    assert_eq!(manager.sessions.sessions.len(), 0);
}

#[test]
fn expired_session_lingers_until_swept() {
    let (store, _) = store_with_alice();
    let mut manager = AuthManager::new(Backend::new(store));
    let now: u64 = 10_000;
    // A session whose expiry already passed one second ago.
    let token = manager
        .sessions
        .create(1, &manager.backend.db.users[0].password.clone(), now - 3_601, now - 1)
        .unwrap();
    assert!(manager.resolve(&token, now).is_none());
    assert!(manager.sessions.read(&token).is_some());

    let removed = manager.sweep_expired(now);
    assert_eq!(removed, 1);
    assert!(manager.sessions.read(&token).is_none());
}

#[test]
fn sweep_removes_exactly_the_expired_and_twice_removes_nothing() {
    let (store, _) = store_with_alice();
    let mut manager = AuthManager::new(Backend::new(store));
    let now: u64 = 5_000;
    let hash = manager.backend.db.users[0].password.clone();
    let expired_a = manager.sessions.create(1, &hash, 0, now - 1).unwrap();
    let live_b = manager.sessions.create(1, &hash, 0, now).unwrap();
    let live_c = manager.sessions.create(1, &hash, 0, now + 500).unwrap();

    let removed = manager.sweep_expired(now);
    assert_eq!(removed, 1);
    assert!(manager.sessions.read(&expired_a).is_none());
    // expires_at == now is not physically expired (though no longer resolvable)
    assert!(manager.sessions.read(&live_b).is_some());
    assert!(manager.sessions.read(&live_c).is_some());

    let removed_again = manager.sweep_expired(now);
    assert_eq!(removed_again, 0);
    assert_eq!(manager.sessions.sessions.len(), 2);
}

#[test]
fn resolve_slides_the_expiry_window() {
    let (store, _) = store_with_alice();
    let mut manager = AuthManager::new(Backend::new(store));
    let (_, token) = manager.login(&creds("alice", "secret123"), 0).unwrap();
    // Just before the initial window closes, the session still resolves...
    assert!(manager.resolve(&token, 3_599).is_some());
    // ...which slides the window; an instant past the original expiry is fine.
    assert!(manager.resolve(&token, 4_000).is_some());
    // Once a full idle hour passes, the session stops resolving.
    assert!(manager.resolve(&token, 4_000 + 3_600).is_none());
}

#[test]
fn session_expires_at_the_window_boundary() {
    let (store, _) = store_with_alice();
    let mut manager = AuthManager::new(Backend::new(store));
    let (_, token) = manager.login(&creds("alice", "secret123"), 100).unwrap();
    assert!(manager.resolve(&token, 100 + 3_599).is_some());
    let (_, token2) = manager.login(&creds("alice", "secret123"), 100).unwrap();
    assert!(manager.resolve(&token2, 100 + 3_600).is_none());
}

#[test]
fn resolve_of_garbage_token_is_anonymous() {
    let (store, _) = store_with_alice();
    let mut manager = AuthManager::new(Backend::new(store));
    assert!(manager.resolve(&"no-such-token".to_string(), 0).is_none());
}

#[test]
fn session_tokens_are_22_chars() {
    let (store, _) = store_with_alice();
    let mut manager = AuthManager::new(Backend::new(store));
    let (_, token) = manager.login(&creds("alice", "secret123"), 0).unwrap();
    assert_eq!(token.len(), 22);
}

#[test]
fn change_password_rehashes_for_the_named_user_only() {
    let (store, _) = store_with_alice();
    let mut manager = AuthManager::new(Backend::new(store));
    assert!(manager.change_password(1, &"new-secret".to_string()));
    // the unknown id changes nothing and reports failure
    assert!(!manager.change_password(99, &"whatever".to_string()));

    let err = match manager.authenticate(&creds("alice", "secret123")) {
        Err(e) => e,
        Ok(_) => panic!("expected an error"),
    };
    assert!(matches!(err, DbError::PasswordIncorrect));
    let user = manager.authenticate(&creds("alice", "new-secret")).unwrap();
    assert_eq!(user.id(), 1);
}
