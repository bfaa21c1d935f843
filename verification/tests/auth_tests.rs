use stargram::auth::{login, Auth, AuthError, LoginBody, LoginError};
use stargram::user::{create, CreateUserBody};
use stargram::Store;

fn store_with_user(username: &str, password: &str) -> Store {
    let mut store = Store::new();
    let body = CreateUserBody { username: username.to_string(), password: password.to_string() };
    create(&mut store, &body).expect("registration should succeed on an empty store");
    store
}

fn login_body(username: &str, password: &str) -> LoginBody {
    LoginBody { username: username.to_string(), password: password.to_string() }
}

#[test]
fn issue_twice_invalidates_first_token() {
    let mut store = store_with_user("ada", "pw");
    let user = store.find_user(&"ada".to_string()).unwrap();

    let first = store.create_session(&user).unwrap();
    let second = store.create_session(&user).unwrap();

    assert_ne!(first, second);
    assert!(store.resolve_session(&first).is_err());
    let resolved = store.resolve_session(&second).unwrap();
    assert_eq!(resolved.username, "ada");
}

#[test]
fn install_session_refuses_a_live_token() {
    let mut store = store_with_user("ada", "pw");
    let user = store.find_user(&"ada".to_string()).unwrap();
    let installed = store
        .install_session(&user, "fixed-token".to_string())
        .unwrap();
    assert_eq!(installed, "fixed-token");
    let clash = store.install_session(&user, "fixed-token".to_string());
    assert!(matches!(clash, Err(stargram::StoreError::Conflict)));
    // A different token still goes through, superseding the first.
    let replaced = store.install_session(&user, "other-token".to_string()).unwrap();
    assert_eq!(replaced, "other-token");
    assert!(store.resolve_session(&"fixed-token".to_string()).is_err());
}

#[test]
fn resolve_unknown_token_fails() {
    let store = store_with_user("ada", "pw");
    assert!(store.resolve_session(&"no-such-token".to_string()).is_err());
}

#[test]
fn login_with_correct_credentials_returns_token() {
    let mut store = store_with_user("ada", "pw");
    let token = login(&mut store, &login_body("ada", "pw")).unwrap();
    assert_eq!(token.len(), 36);
    let resolved = store.resolve_session(&token).unwrap();
    assert_eq!(resolved.username, "ada");
}

#[test]
fn login_with_wrong_password_is_not_found() {
    let mut store = store_with_user("ada", "pw");
    let r = login(&mut store, &login_body("ada", "wrong"));
    assert!(matches!(r, Err(LoginError::NotFound)));
}

#[test]
fn login_with_unknown_username_matches_wrong_password_outcome() {
    let mut store = store_with_user("ada", "pw");
    let wrong_password = login(&mut store, &login_body("ada", "wrong"));
    let unknown_user = login(&mut store, &login_body("bob", "pw"));
    assert!(matches!(wrong_password, Err(LoginError::NotFound)));
    assert!(matches!(unknown_user, Err(LoginError::NotFound)));
}

#[test]
fn guard_admits_valid_token_and_exposes_its_user() {
    let mut store = store_with_user("ada", "pw");
    let token = login(&mut store, &login_body("ada", "pw")).unwrap();
    let Auth(user) = Auth::authenticate(&store, Some(&token)).unwrap();
    assert_eq!(user.username, "ada");
    assert_eq!(user.password, "pw");
}

#[test]
fn guard_rejects_missing_header() {
    let store = store_with_user("ada", "pw");
    let r = Auth::authenticate(&store, None);
    assert!(matches!(r, Err(AuthError::Unauthorized)));
}

#[test]
fn guard_rejects_unresolvable_token_uniformly() {
    let mut store = store_with_user("ada", "pw");
    let stale = login(&mut store, &login_body("ada", "pw")).unwrap();
    // A second login supersedes the first session, so the first token is no
    // longer resolvable; a never-issued token fails the same way.
    let _fresh = login(&mut store, &login_body("ada", "pw")).unwrap();
    let stale_outcome = Auth::authenticate(&store, Some(&stale));
    let junk = "not-a-token".to_string();
    let junk_outcome = Auth::authenticate(&store, Some(&junk));
    assert!(matches!(stale_outcome, Err(AuthError::Unauthorized)));
    assert!(matches!(junk_outcome, Err(AuthError::Unauthorized)));
}
