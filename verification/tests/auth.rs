use chat_core::auth::{AuthError, CredentialStore};

#[test]
fn signup_then_login_succeeds_with_the_same_id() {
    let mut s = CredentialStore::new();
    let id = s.signup(&"alice".to_string(), &"s3cret".to_string()).unwrap();
    assert_eq!(id.len(), 36);
    let logged = s.login(&"alice".to_string(), &"s3cret".to_string()).unwrap();
    assert_eq!(logged, id);
}

#[test]
fn signup_with_taken_username_is_a_conflict_and_writes_nothing() {
    let mut s = CredentialStore::new();
    let id = s.signup(&"alice".to_string(), &"first".to_string()).unwrap();
    let r = s.signup(&"alice".to_string(), &"second".to_string());
    assert_eq!(r, Err(AuthError::Conflict));
    // The original credentials still stand: no write happened.
    assert_eq!(s.login(&"alice".to_string(), &"first".to_string()), Ok(id));
    assert_eq!(
        s.login(&"alice".to_string(), &"second".to_string()),
        Err(AuthError::Unauthorized)
    );
}

#[test]
fn login_with_unknown_username_is_not_found() {
    let s = CredentialStore::new();
    assert_eq!(
        s.login(&"nobody".to_string(), &"whatever".to_string()),
        Err(AuthError::NotFound)
    );
}

#[test]
fn login_with_wrong_password_is_unauthorized() {
    let mut s = CredentialStore::new();
    s.signup(&"bob".to_string(), &"right".to_string()).unwrap();
    assert_eq!(
        s.login(&"bob".to_string(), &"wrong".to_string()),
        Err(AuthError::Unauthorized)
    );
}

#[test]
fn distinct_users_get_distinct_ids_and_separate_credentials() {
    let mut s = CredentialStore::new();
    let id1 = s.signup(&"alice".to_string(), &"pw-a".to_string()).unwrap();
    let id2 = s.signup(&"bob".to_string(), &"pw-b".to_string()).unwrap();
    assert_ne!(id1, id2);
    assert_eq!(s.login(&"alice".to_string(), &"pw-a".to_string()), Ok(id1));
    assert_eq!(s.login(&"bob".to_string(), &"pw-b".to_string()), Ok(id2));
    assert_eq!(
        s.login(&"alice".to_string(), &"pw-b".to_string()),
        Err(AuthError::Unauthorized)
    );
}

#[test]
fn stored_hash_is_a_phc_string_not_the_password() {
    let mut s = CredentialStore::new();
    let id = s.signup(&"alice".to_string(), &"s3cret".to_string()).unwrap();
    let (stored_id, hash) = s.credentials_of(&"alice".to_string()).unwrap();
    assert_eq!(stored_id, id);
    assert_ne!(hash, "s3cret".to_string());
    assert!(hash.starts_with("$argon2"));
    assert_eq!(s.credentials_of(&"nobody".to_string()), None);
}

#[test]
fn restored_accounts_authenticate_with_their_original_password() {
    let mut s = CredentialStore::new();
    let id = s.signup(&"alice".to_string(), &"pw".to_string()).unwrap();
    let (sid, hash) = s.credentials_of(&"alice".to_string()).unwrap();

    // A fresh store hydrated from the persisted record behaves the same.
    let mut t = CredentialStore::new();
    t.restore_account(&sid, &"alice".to_string(), &hash).unwrap();
    assert_eq!(t.login(&"alice".to_string(), &"pw".to_string()), Ok(id));
    assert_eq!(
        t.login(&"alice".to_string(), &"wrong".to_string()),
        Err(AuthError::Unauthorized)
    );
}

#[test]
fn restore_refuses_a_taken_username_or_id() {
    let mut t = CredentialStore::new();
    t.restore_account(&"id-1".to_string(), &"alice".to_string(), &"h1".to_string())
        .unwrap();
    assert_eq!(
        t.restore_account(&"id-2".to_string(), &"alice".to_string(), &"h2".to_string()),
        Err(AuthError::Conflict)
    );
    assert_eq!(
        t.restore_account(&"id-1".to_string(), &"bob".to_string(), &"h2".to_string()),
        Err(AuthError::IdCollision)
    );
    // The refused calls wrote nothing.
    assert_eq!(t.credentials_of(&"bob".to_string()), None);
    let (id, hash) = t.credentials_of(&"alice".to_string()).unwrap();
    assert_eq!(id, "id-1".to_string());
    assert_eq!(hash, "h1".to_string());
}

#[test]
fn empty_password_round_trips_too() {
    let mut s = CredentialStore::new();
    let id = s.signup(&"carol".to_string(), &"".to_string()).unwrap();
    assert_eq!(s.login(&"carol".to_string(), &"".to_string()), Ok(id));
    assert_eq!(
        s.login(&"carol".to_string(), &"x".to_string()),
        Err(AuthError::Unauthorized)
    );
}
