use cdn::connection::{get_db_connection, ConnectionManager, Pool};
use cdn::user::{UserCreation, UserModel};

#[test]
fn lazy_init_runs_migrations_exactly_once() {
    let mut m = ConnectionManager::new();
    assert!(!m.has_connection());
    assert_eq!(m.migration_runs(), 0);
    assert!(get_db_connection(&mut m).is_ok());
    assert!(m.has_connection());
    assert_eq!(m.migration_runs(), 1);
    assert!(get_db_connection(&mut m).is_ok());
    assert_eq!(m.migration_runs(), 1);
}

#[test]
fn reacquire_returns_the_same_pool() {
    let mut m = ConnectionManager::new();
    let creation = UserCreation {
        username: String::from("a"),
        password: String::from("p"),
        email: String::from("a@x.com"),
    };
    let u = UserModel::create_new(&mut m, creation).unwrap();
    // acquiring again must hand back the already-published pool, not a
    // fresh one: the stored row is still there and no migration reran
    assert!(get_db_connection(&mut m).is_ok());
    assert_eq!(m.migration_runs(), 1);
    let fetched = UserModel::get(&mut m, u.id).unwrap();
    assert_eq!(fetched.username, "a");
}

#[test]
fn losing_publication_is_discarded() {
    let mut m = ConnectionManager::new();
    // two racers each build a candidate pool before either publishes
    let c1 = Pool::new();
    let c2 = Pool::new();
    assert!(m.publish_pool(c1));
    // the second publication loses: its pool is dropped unused and the
    // published state is untouched
    assert!(!m.publish_pool(c2));
    assert!(m.has_connection());
}

#[test]
fn publication_after_init_does_not_replace_the_pool() {
    let mut m = ConnectionManager::new();
    let creation = UserCreation {
        username: String::from("a"),
        password: String::from("p"),
        email: String::from("a@x.com"),
    };
    let u = UserModel::create_new(&mut m, creation).unwrap();
    let late = Pool::new();
    assert!(!m.publish_pool(late));
    let fetched = UserModel::get(&mut m, u.id).unwrap();
    assert_eq!(fetched.username, "a");
}

#[test]
fn repository_operations_trigger_lazy_init() {
    let mut m = ConnectionManager::new();
    assert_eq!(m.migration_runs(), 0);
    let _ = UserModel::get(&mut m, 1);
    assert!(m.has_connection());
    assert_eq!(m.migration_runs(), 1);
}

#[test]
fn fresh_manager_is_not_exhausted() {
    let m = ConnectionManager::new();
    assert!(!m.exhausted());
}

#[test]
fn clock_is_stamped_onto_new_rows() {
    let mut m = ConnectionManager::new();
    m.set_clock(1700000000);
    let creation = UserCreation {
        username: String::from("t"),
        password: String::from("p"),
        email: String::from("t@x.com"),
    };
    let u = UserModel::create_new(&mut m, creation).unwrap();
    assert_eq!(u.created_at, 1700000000);
}

#[test]
fn pool_is_opened_with_the_fixed_capacity() {
    let mut m = ConnectionManager::new();
    assert!(get_db_connection(&mut m).is_ok());
    assert_eq!(m.connection.as_ref().unwrap().max_connections, 5);
}
