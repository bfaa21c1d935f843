use stargram::user::{create, get, CreateUserBody, CreateUserError};
use stargram::Store;

fn body(username: &str, password: &str) -> CreateUserBody {
    CreateUserBody { username: username.to_string(), password: password.to_string() }
}

#[test]
fn register_then_look_up() {
    let mut store = Store::new();
    let created = create(&mut store, &body("ada", "pw")).unwrap();
    assert_eq!(created.username, "ada");
    assert_eq!(created.password, "pw");

    let fetched = get(&store, &"ada".to_string()).unwrap();
    assert_eq!(fetched.id, created.id);
    assert_eq!(fetched.username, "ada");
}

#[test]
fn register_taken_username_conflicts() {
    let mut store = Store::new();
    create(&mut store, &body("ada", "pw")).unwrap();
    let second = create(&mut store, &body("ada", "other"));
    assert!(matches!(second, Err(CreateUserError::Conflict)));
}

#[test]
fn look_up_unknown_username_fails() {
    let store = Store::new();
    assert!(get(&store, &"ghost".to_string()).is_err());
}

#[test]
fn store_rejects_duplicate_username_directly() {
    let mut store = Store::new();
    store.create_user("ada".to_string(), "pw".to_string()).unwrap();
    let second = store.create_user("ada".to_string(), "other".to_string());
    assert!(matches!(second, Err(stargram::StoreError::Conflict)));
}

#[test]
fn registered_users_get_distinct_ids() {
    let mut store = Store::new();
    let a = create(&mut store, &body("ada", "pw")).unwrap();
    let b = create(&mut store, &body("bob", "pw")).unwrap();
    assert_ne!(a.id, b.id);
}
