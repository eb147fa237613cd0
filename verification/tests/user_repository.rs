use cdn::connection::ConnectionManager;
use cdn::error::DatabaseError;
use cdn::hash::verify_password;
use cdn::user::{UserCreation, UserModel, UserUpdate};

fn creation(username: &str, password: &str, email: &str) -> UserCreation {
    UserCreation {
        username: String::from(username),
        password: String::from(password),
        email: String::from(email),
    }
}

fn no_update() -> UserUpdate {
    UserUpdate { username: None, email: None, old_password: None, new_password: None }
}

#[test]
fn create_round_trip() {
    let mut m = ConnectionManager::new();
    m.set_clock(1234);
    let u = UserModel::create_new(&mut m, creation("a", "p1", "a@x.com")).unwrap();
    assert_eq!(u.username, "a");
    assert_eq!(u.email, "a@x.com");
    assert_ne!(u.password, "p1");
    assert_eq!(u.id, 1);
    assert_eq!(u.created_at, 1234);
}

#[test]
fn get_returns_the_stored_record() {
    let mut m = ConnectionManager::new();
    m.set_clock(7);
    let u = UserModel::create_new(&mut m, creation("bob", "pw", "b@x.com")).unwrap();
    let fetched = UserModel::get(&mut m, u.id).unwrap();
    assert_eq!(fetched.id, u.id);
    assert_eq!(fetched.username, "bob");
    assert_eq!(fetched.email, "b@x.com");
    assert_eq!(fetched.password, u.password);
    assert_eq!(fetched.created_at, 7);
}

#[test]
fn get_unknown_id_is_not_found() {
    let mut m = ConnectionManager::new();
    let r = UserModel::get(&mut m, 42);
    assert_eq!(r.unwrap_err(), DatabaseError::ModelNotFound("user"));
}

#[test]
fn get_unknown_id_after_creates_is_not_found() {
    let mut m = ConnectionManager::new();
    let _ = UserModel::create_new(&mut m, creation("a", "p", "a@x.com")).unwrap();
    let r = UserModel::get(&mut m, 999);
    assert_eq!(r.unwrap_err(), DatabaseError::ModelNotFound("user"));
}

#[test]
fn authenticated_password_change() {
    let mut m = ConnectionManager::new();
    let u = UserModel::create_new(&mut m, creation("a", "old", "a@x.com")).unwrap();
    let update = UserUpdate {
        old_password: Some(String::from("old")),
        new_password: Some(String::from("new")),
        ..no_update()
    };
    let u2 = u.edit(&mut m, update).unwrap();
    assert!(verify_password("new", u2.password.as_str()));
    assert!(!verify_password("old", u2.password.as_str()));
    assert_ne!(u2.password, u.password);
}

#[test]
fn wrong_password_rejection_leaves_row_untouched() {
    let mut m = ConnectionManager::new();
    let u = UserModel::create_new(&mut m, creation("a", "right", "a@x.com")).unwrap();
    let update = UserUpdate {
        username: Some(String::from("changed")),
        old_password: Some(String::from("wrong")),
        new_password: Some(String::from("new")),
        ..no_update()
    };
    let r = u.edit(&mut m, update);
    assert_eq!(r.unwrap_err(), DatabaseError::ModelNotFound("user"));
    let fresh = UserModel::get(&mut m, u.id).unwrap();
    assert_eq!(fresh.username, "a");
    assert_eq!(fresh.password, u.password);
    assert_eq!(fresh.email, "a@x.com");
}

#[test]
fn partial_update_bypasses_password_check() {
    let mut m = ConnectionManager::new();
    let u = UserModel::create_new(&mut m, creation("a", "secret", "a@x.com")).unwrap();
    let update = UserUpdate { email: Some(String::from("b@x.com")), ..no_update() };
    let u2 = u.edit(&mut m, update).unwrap();
    assert_eq!(u2.email, "b@x.com");
    assert_eq!(u2.username, "a");
    assert_eq!(u2.password, u.password);
    assert_eq!(u2.id, u.id);
    assert_eq!(u2.created_at, u.created_at);
}

#[test]
fn partial_update_with_username_only() {
    let mut m = ConnectionManager::new();
    let u = UserModel::create_new(&mut m, creation("a", "secret", "a@x.com")).unwrap();
    let update = UserUpdate { username: Some(String::from("renamed")), ..no_update() };
    let u2 = u.edit(&mut m, update).unwrap();
    assert_eq!(u2.username, "renamed");
    assert_eq!(u2.email, "a@x.com");
    assert_eq!(u2.password, u.password);
}

#[test]
fn new_password_without_old_is_ignored_but_row_still_updates() {
    let mut m = ConnectionManager::new();
    let u = UserModel::create_new(&mut m, creation("a", "secret", "a@x.com")).unwrap();
    let update = UserUpdate {
        email: Some(String::from("c@x.com")),
        new_password: Some(String::from("sneaky")),
        ..no_update()
    };
    let u2 = u.edit(&mut m, update).unwrap();
    assert_eq!(u2.email, "c@x.com");
    assert_eq!(u2.password, u.password);
    assert!(!verify_password("sneaky", u2.password.as_str()));
    assert!(verify_password("secret", u2.password.as_str()));
}

#[test]
fn edit_unknown_id_is_not_found() {
    let mut m = ConnectionManager::new();
    let u = UserModel::create_new(&mut m, creation("a", "p", "a@x.com")).unwrap();
    // a record whose row was never stored under this id
    let ghost_row = UserModel { id: u.id + 100, ..u };
    let r = ghost_row.edit(&mut m, no_update());
    assert_eq!(r.unwrap_err(), DatabaseError::ModelNotFound("user"));
}

#[test]
fn hash_uniqueness_across_creates() {
    let mut m = ConnectionManager::new();
    let u1 = UserModel::create_new(&mut m, creation("a", "same", "a@x.com")).unwrap();
    let u2 = UserModel::create_new(&mut m, creation("b", "same", "b@x.com")).unwrap();
    assert_ne!(u1.password, u2.password);
    assert!(verify_password("same", u1.password.as_str()));
    assert!(verify_password("same", u2.password.as_str()));
}

#[test]
fn into_result_projects_public_fields() {
    let mut m = ConnectionManager::new();
    m.set_clock(99);
    let u = UserModel::create_new(&mut m, creation("a", "p", "a@x.com")).unwrap();
    let r = u.into_result();
    assert_eq!(r.id, u.id);
    assert_eq!(r.username, "a");
    assert_eq!(r.created_at, 99);
}

#[test]
fn ids_are_sequential_and_distinct() {
    let mut m = ConnectionManager::new();
    let u1 = UserModel::create_new(&mut m, creation("a", "p", "a@x.com")).unwrap();
    let u2 = UserModel::create_new(&mut m, creation("b", "p", "b@x.com")).unwrap();
    let u3 = UserModel::create_new(&mut m, creation("c", "p", "c@x.com")).unwrap();
    assert_eq!(u1.id, 1);
    assert_eq!(u2.id, 2);
    assert_eq!(u3.id, 3);
}
