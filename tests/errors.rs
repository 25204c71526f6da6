use mangga::error::Error;
use mangga::registry::Registry;

fn s(x: &str) -> String {
    x.to_string()
}

fn db(code: Option<i32>) -> Error {
    Error::Database { code, message: s("write failed") }
}

#[test]
fn duplicate_key_is_a_conflict() {
    // a second insert with the same value under a unique index fails with code 11000
    assert!(db(Some(11000)).is_conflict());
    assert!(db(Some(40)).is_conflict());
    assert!(db(Some(112)).is_conflict());
}

#[test]
fn other_failures_are_not_conflicts() {
    assert!(!db(Some(13)).is_conflict());
    assert!(!db(None).is_conflict());
    assert!(!Error::NotFound.is_conflict());
    assert!(!Error::Uninitialized.is_conflict());
    assert!(!Error::UnknownDatabase(s("x")).is_conflict());
    assert!(!Error::Serialization(s("x")).is_conflict());
    assert!(!Error::InitializationConflict.is_conflict());
}

#[test]
fn lookup_before_registration_fails() {
    let r: Registry<u32> = Registry::new();
    assert_eq!(r.get_database("db1"), Err(Error::Uninitialized));
}

#[test]
fn registered_databases_are_found_by_name() {
    let mut r: Registry<u32> = Registry::new();
    assert_eq!(r.connect_database(vec![(s("db1"), 1), (s("db2"), 2)]), Ok(()));
    assert_eq!(r.get_database("db1"), Ok(&1));
    assert_eq!(r.get_database("db2"), Ok(&2));
    assert_eq!(r.get_database("db3"), Err(Error::UnknownDatabase(s("db3"))));
}

#[test]
fn second_registration_fails_and_keeps_the_first() {
    let mut r: Registry<u32> = Registry::new();
    r.connect_database(vec![(s("db1"), 1)]).unwrap();
    assert_eq!(r.connect_database(vec![(s("db1"), 9)]), Err(Error::InitializationConflict));
    assert_eq!(r.get_database("db1"), Ok(&1));
}

#[test]
fn name_listed_twice_keeps_last_handle() {
    let mut r: Registry<u32> = Registry::new();
    r.connect_database(vec![(s("db1"), 1), (s("db1"), 5)]).unwrap();
    assert_eq!(r.get_database("db1"), Ok(&5));
}
