use foundry_auth::auth::{login_feedback, redirect_target, Backend, LoginFeedback};
use foundry_auth::base_template::{AssetCache, BaseTemplateData, Editor};
use foundry_auth::credential_store::CredentialStore;
use foundry_auth::error::DbError;
use foundry_auth::password::{hash_password, verify_password_hash};
use foundry_auth::user::{DbPermission, DbUser, NextUrl, User};

#[test]
fn password_hash_round_trip() {
    let password = "hunter2".to_string();
    let hash = hash_password(&password);
    assert!(verify_password_hash(&password, &hash));
    assert!(!verify_password_hash(&"hunter3".to_string(), &hash));
}

#[test]
fn malformed_hash_never_verifies() {
    assert!(!verify_password_hash(&"anything".to_string(), &"not-a-phc-hash".to_string()));
    assert!(!verify_password_hash(&"anything".to_string(), &String::new()));
}

#[test]
fn hashing_salts_freshly_each_time() {
    let password = "same-password".to_string();
    let h1 = hash_password(&password);
    let h2 = hash_password(&password);
    assert_ne!(h1, h2);
    assert!(verify_password_hash(&password, &h1));
    assert!(verify_password_hash(&password, &h2));
}

#[test]
fn error_messages() {
    assert_eq!(DbError::NotFound.message(), "Not found");
    assert_eq!(DbError::UserNotFound.message(), "User not found");
    assert_eq!(DbError::PasswordIncorrect.message(), "Password incorrect");
    assert_eq!(DbError::SessionInvalid.message(), "Session invalid");
    assert_eq!(DbError::StoreUnavailable.message(), "Store unavailable");
    assert_eq!(DbError::Other.message(), "Other error");
}

#[test]
fn login_feedback_distinguishes_the_two_credential_errors() {
    assert!(matches!(login_feedback(&DbError::UserNotFound), LoginFeedback::UsernameError));
    assert!(matches!(login_feedback(&DbError::PasswordIncorrect), LoginFeedback::PasswordError));
    assert!(matches!(login_feedback(&DbError::StoreUnavailable), LoginFeedback::ServerError));
    assert!(matches!(login_feedback(&DbError::Other), LoginFeedback::ServerError));
}

#[test]
fn redirect_goes_to_next_or_root() {
    let next = NextUrl { next: Some("/articles/7".to_string()) };
    assert_eq!(redirect_target(&next.next), "/articles/7");
    assert_eq!(redirect_target(&None), "/");
}

#[test]
fn user_exposes_id_and_auth_hash() {
    let user = User(DbUser {
        id: 9,
        username: "carol".to_string(),
        password: "phc-hash".to_string(),
    });
    assert_eq!(user.id(), 9);
    assert_eq!(user.session_auth_hash(), "phc-hash");
    let copy = user.duplicate();
    assert_eq!(copy.0.username, "carol");
}

#[test]
fn duplicate_usernames_and_ids_are_rejected() {
    let mut store = CredentialStore::new();
    assert!(store.add_user(DbUser {
        id: 1,
        username: "alice".to_string(),
        password: "h1".to_string(),
    }));
    // same username, fresh id
    assert!(!store.add_user(DbUser {
        id: 2,
        username: "alice".to_string(),
        password: "h2".to_string(),
    }));
    // same id, fresh username
    assert!(!store.add_user(DbUser {
        id: 1,
        username: "bob".to_string(),
        password: "h3".to_string(),
    }));
    assert!(store.add_user(DbUser {
        id: 2,
        username: "bob".to_string(),
        password: "h4".to_string(),
    }));
    assert_eq!(store.users.len(), 2);
}

#[test]
fn lookups_find_the_right_record() {
    let mut store = CredentialStore::new();
    store.add_user(DbUser { id: 1, username: "alice".to_string(), password: "h1".to_string() });
    store.add_user(DbUser { id: 2, username: "bob".to_string(), password: "h2".to_string() });
    assert_eq!(store.find_by_username(&"bob".to_string()).unwrap().id, 2);
    assert_eq!(store.find_by_id(1).unwrap().username, "alice");
    assert!(store.find_by_username(&"carol".to_string()).is_none());
    assert!(store.find_by_id(3).is_none());
}

#[test]
fn set_password_touches_only_the_named_user() {
    let mut store = CredentialStore::new();
    store.add_user(DbUser { id: 1, username: "alice".to_string(), password: "h1".to_string() });
    store.add_user(DbUser { id: 2, username: "bob".to_string(), password: "h2".to_string() });
    assert!(store.set_password(1, "h1-new".to_string()));
    assert_eq!(store.find_by_id(1).unwrap().password, "h1-new");
    assert_eq!(store.find_by_id(2).unwrap().password, "h2");
    assert!(!store.set_password(3, "nobody".to_string()));
}

#[test]
fn permissions_of_user_in_no_group_are_empty() {
    let mut store = CredentialStore::new();
    store.add_user(DbUser { id: 1, username: "alice".to_string(), password: "h".to_string() });
    store.add_grant(10, "articles.read".to_string());
    let perms = store.effective_permissions(1);
    assert!(perms.is_empty());
}

#[test]
fn overlapping_group_permissions_collapse_to_one() {
    let mut store = CredentialStore::new();
    store.add_user(DbUser { id: 1, username: "alice".to_string(), password: "h".to_string() });
    store.add_membership(1, 10);
    store.add_membership(1, 20);
    store.add_grant(10, "articles.read".to_string());
    store.add_grant(10, "articles.write".to_string());
    store.add_grant(20, "articles.read".to_string());
    store.add_grant(30, "admin".to_string());

    let perms = store.effective_permissions(1);
    let mut names: Vec<String> = perms.iter().map(|p| p.name.clone()).collect();
    names.sort();
    assert_eq!(names, vec!["articles.read".to_string(), "articles.write".to_string()]);
}

#[test]
fn permissions_ignore_other_users_memberships() {
    let mut store = CredentialStore::new();
    store.add_user(DbUser { id: 1, username: "alice".to_string(), password: "h".to_string() });
    store.add_user(DbUser { id: 2, username: "bob".to_string(), password: "h2".to_string() });
    store.add_membership(2, 10);
    store.add_grant(10, "admin".to_string());
    assert!(store.effective_permissions(1).is_empty());
    let backend = Backend::new(store);
    let bob = backend.get_user(2).unwrap().unwrap();
    let perms = backend.get_group_permissions(&bob).unwrap();
    assert_eq!(perms.len(), 1);
    assert_eq!(perms[0].name, "admin");
}

#[test]
fn permission_value_semantics() {
    let p = DbPermission::new("articles.read".to_string());
    let q = p.duplicate();
    assert_eq!(p.name, q.name);
}

#[test]
fn asset_cache_get_and_reject_duplicates() {
    let mut cache = AssetCache::new();
    assert!(cache.add("index.css".to_string(), "/assets/index.deadbeef.css".to_string()));
    assert!(cache.add("index.js".to_string(), "/assets/index.cafebabe.js".to_string()));
    assert!(!cache.add("index.css".to_string(), "/assets/other.css".to_string()));
    let hit = cache.get(&"index.css".to_string()).unwrap();
    assert_eq!(hit.path, "/assets/index.deadbeef.css");
    assert!(cache.get(&"missing.css".to_string()).is_none());
}

#[test]
fn base_template_data_resolves_hashed_paths() {
    let mut cache = AssetCache::new();
    cache.add("index.css".to_string(), "/assets/index.deadbeef.css".to_string());
    cache.add("index.js".to_string(), "/assets/index.cafebabe.js".to_string());
    let data = BaseTemplateData::new(&cache, &"index.css".to_string(), &"index.js".to_string());
    assert_eq!(data.styles, "/assets/index.deadbeef.css");
    assert_eq!(data.scripts, "/assets/index.cafebabe.js");

    let shared = BaseTemplateData::load_static(
        &cache,
        &"index.css".to_string(),
        &"index.js".to_string(),
    );
    assert_eq!(shared.styles, "/assets/index.deadbeef.css");
    assert_eq!(shared.scripts, "/assets/index.cafebabe.js");
}

#[test]
fn editor_variants_exist() {
    let quill = Editor::Quill;
    let lexical = Editor::Lexical;
    assert!(matches!(quill, Editor::Quill));
    assert!(matches!(lexical, Editor::Lexical));
}
