use helix_user_domain::entities::{AppUser, Person};
use helix_user_domain::memory::MemoryStorage;
use helix_user_domain::storage::{StorageError, StorageTrait};

fn person(firstname: &str, lastname: &str, email: &str, phone: &str) -> Person {
    Person::new(
        0,
        None,
        firstname.to_string(),
        lastname.to_string(),
        email.to_string(),
        phone.to_string(),
        None,
        None,
    )
}

fn user(login: &str, password: &str, person: Person) -> AppUser {
    AppUser::new(
        0,
        None,
        login.to_string(),
        password.to_string(),
        None,
        None,
        None,
        None,
        person,
    )
}

#[test]
fn create_person_assigns_backend_keys() {
    let mut storage = MemoryStorage::new();
    let mut payload = person("Ada", "Lovelace", "ada@x.io", "000");
    payload.id = 999;
    payload.uuid = Some(424242);
    payload.updated_on = Some(5);
    let created = storage.create_person(payload).unwrap();
    assert_ne!(created.id, 999);
    assert_ne!(created.uuid, Some(424242));
    assert!(created.uuid.is_some());
    assert!(created.created_on.is_some());
    assert_eq!(created.updated_on, None);
}

#[test]
fn person_round_trip_by_uuid() {
    let mut storage = MemoryStorage::new();
    let created = storage
        .create_person(person("Ada", "Lovelace", "ada@x.io", "000"))
        .unwrap();
    let fetched = storage
        .get_person_by_uuid(created.uuid.unwrap())
        .unwrap()
        .unwrap();
    assert_eq!(fetched.id, created.id);
    assert_eq!(fetched.uuid, created.uuid);
    assert_eq!(fetched.firstname, created.firstname);
    assert_eq!(fetched.lastname, created.lastname);
    assert_eq!(fetched.email, created.email);
    assert_eq!(fetched.phone, created.phone);
    assert_eq!(fetched.created_on, created.created_on);
    assert_eq!(fetched.updated_on, None);
    assert_eq!(created.updated_on, None);
}

#[test]
fn two_creates_with_identical_fields_yield_distinct_keys() {
    let mut storage = MemoryStorage::new();
    let first = storage
        .create_person(person("Ada", "Lovelace", "ada@x.io", "000"))
        .unwrap();
    let second = storage
        .create_person(person("Ada", "Lovelace", "ada@x.io", "000"))
        .unwrap();
    assert_ne!(first.id, second.id);
    assert_ne!(first.uuid, second.uuid);
}

#[test]
fn delete_referenced_person_is_a_constraint_violation_and_changes_nothing() {
    let mut storage = MemoryStorage::new();
    let p = storage
        .create_person(person("Ada", "Lovelace", "ada@x.io", "000"))
        .unwrap();
    let u = storage
        .create_user(user("ada", "key", p.duplicate()))
        .unwrap();

    let outcome = storage.delete_person(p.duplicate());
    assert_eq!(outcome, Err(StorageError::ConstraintViolation));

    // both rows are still there, unchanged
    let still_person = storage.get_person_by_uuid(p.uuid.unwrap()).unwrap();
    assert!(still_person.is_some());
    assert_eq!(still_person.unwrap().firstname, "Ada");
    let still_user = storage.get_user(u.uuid.unwrap()).unwrap();
    assert!(still_user.is_some());
    assert_eq!(still_user.unwrap().login, "ada");
}

#[test]
fn delete_person_succeeds_once_unreferenced() {
    let mut storage = MemoryStorage::new();
    let p = storage
        .create_person(person("Ada", "Lovelace", "ada@x.io", "000"))
        .unwrap();
    let u = storage
        .create_user(user("ada", "key", p.duplicate()))
        .unwrap();
    storage.delete_user(u).unwrap();
    storage.delete_person(p.duplicate()).unwrap();
    assert!(storage.get_person_by_uuid(p.uuid.unwrap()).unwrap().is_none());
}

#[test]
fn create_user_requires_existing_person() {
    let mut storage = MemoryStorage::new();
    let mut ghost_person = person("No", "Body", "nobody@x.io", "1");
    ghost_person.id = 77;
    let outcome = storage.create_user(user("nobody", "key", ghost_person));
    assert_eq!(outcome.err(), Some(StorageError::ConstraintViolation));
}

#[test]
fn create_user_rejects_taken_login() {
    let mut storage = MemoryStorage::new();
    let p = storage
        .create_person(person("Ada", "Lovelace", "ada@x.io", "000"))
        .unwrap();
    storage
        .create_user(user("ada", "key1", p.duplicate()))
        .unwrap();
    let outcome = storage.create_user(user("ada", "key2", p));
    assert_eq!(outcome.err(), Some(StorageError::ConstraintViolation));
}

#[test]
fn login_matches_exact_stored_credential_and_blanks_password() {
    let mut storage = MemoryStorage::new();
    let p = storage
        .create_person(person("Ada", "Lovelace", "ada@x.io", "000"))
        .unwrap();
    storage
        .create_user(user("ada", "stored-credential", p))
        .unwrap();

    let found = storage
        .login("stored-credential".to_string())
        .unwrap()
        .unwrap();
    assert_eq!(found.login, "ada");
    assert_eq!(found.password, "");
    assert_eq!(found.person.firstname, "Ada");

    let missed = storage.login("other-credential".to_string()).unwrap();
    assert!(missed.is_none());
}

#[test]
fn get_all_person_orders_by_firstname() {
    let mut storage = MemoryStorage::new();
    storage
        .create_person(person("Charles", "Babbage", "cb@x.io", "2"))
        .unwrap();
    storage
        .create_person(person("Ada", "Lovelace", "ada@x.io", "0"))
        .unwrap();
    storage
        .create_person(person("Blaise", "Pascal", "bp@x.io", "1"))
        .unwrap();
    let all = storage.get_all_person().unwrap();
    let names: Vec<String> = all.iter().map(|p| p.firstname.clone()).collect();
    assert_eq!(names, vec!["Ada", "Blaise", "Charles"]);
}

#[test]
fn get_all_users_orders_by_login_and_keeps_only_linked_users() {
    let mut storage = MemoryStorage::new();
    let p1 = storage
        .create_person(person("Ada", "Lovelace", "ada@x.io", "0"))
        .unwrap();
    let p2 = storage
        .create_person(person("Charles", "Babbage", "cb@x.io", "2"))
        .unwrap();
    storage.create_user(user("bob", "k1", p2)).unwrap();
    storage.create_user(user("alice", "k2", p1)).unwrap();
    // a third user whose person does not exist is rejected, so it never shows up
    let mut missing = person("No", "Body", "nobody@x.io", "1");
    missing.id = 4242;
    assert_eq!(
        storage.create_user(user("carol", "k3", missing)).err(),
        Some(StorageError::ConstraintViolation)
    );

    let all = storage.get_all_users().unwrap();
    let logins: Vec<String> = all.iter().map(|u| u.login.clone()).collect();
    assert_eq!(logins, vec!["alice", "bob"]);
}

#[test]
fn update_person_stamps_updated_on_and_rewrites_text_fields() {
    let mut storage = MemoryStorage::new();
    let created = storage
        .create_person(person("Ada", "Lovelace", "ada@x.io", "000"))
        .unwrap();
    let mut changed = created.duplicate();
    changed.email = "countess@x.io".to_string();
    let updated = storage.update_person(changed).unwrap();
    assert!(updated.updated_on.is_some());
    assert_eq!(updated.email, "countess@x.io");

    let fetched = storage
        .get_person_by_uuid(created.uuid.unwrap())
        .unwrap()
        .unwrap();
    assert_eq!(fetched.email, "countess@x.io");
    assert!(fetched.updated_on.is_some());
    // the row keeps its identity and creation stamp
    assert_eq!(fetched.id, created.id);
    assert_eq!(fetched.uuid, created.uuid);
    assert_eq!(fetched.created_on, created.created_on);
}

#[test]
fn update_person_with_unknown_id_updates_nothing() {
    let mut storage = MemoryStorage::new();
    let created = storage
        .create_person(person("Ada", "Lovelace", "ada@x.io", "000"))
        .unwrap();
    let mut stranger = person("Grace", "Hopper", "gh@x.io", "9");
    stranger.id = 4242;
    let outcome = storage.update_person(stranger);
    assert!(outcome.is_ok());
    let fetched = storage
        .get_person_by_uuid(created.uuid.unwrap())
        .unwrap()
        .unwrap();
    assert_eq!(fetched.firstname, "Ada");
}

#[test]
fn update_user_rejects_login_taken_by_another_user() {
    let mut storage = MemoryStorage::new();
    let p1 = storage
        .create_person(person("Ada", "Lovelace", "ada@x.io", "0"))
        .unwrap();
    let p2 = storage
        .create_person(person("Charles", "Babbage", "cb@x.io", "2"))
        .unwrap();
    storage.create_user(user("alice", "k1", p1)).unwrap();
    let bob = storage.create_user(user("bob", "k2", p2)).unwrap();

    let mut renamed = bob;
    renamed.login = "alice".to_string();
    let outcome = storage.update_user(renamed);
    assert_eq!(outcome.err(), Some(StorageError::ConstraintViolation));
}

#[test]
fn delete_user_then_login_fails() {
    let mut storage = MemoryStorage::new();
    let p = storage
        .create_person(person("Ada", "Lovelace", "ada@x.io", "000"))
        .unwrap();
    let u = storage.create_user(user("ada", "key", p)).unwrap();
    storage.delete_user(u).unwrap();
    assert!(storage.login("key".to_string()).unwrap().is_none());
}

#[test]
fn update_user_rejects_uuid_taken_by_another_user() {
    let mut storage = MemoryStorage::new();
    let p1 = storage
        .create_person(person("Ada", "Lovelace", "ada@x.io", "0"))
        .unwrap();
    let p2 = storage
        .create_person(person("Charles", "Babbage", "cb@x.io", "2"))
        .unwrap();
    let alice = storage.create_user(user("alice", "k1", p1)).unwrap();
    let bob = storage.create_user(user("bob", "k2", p2)).unwrap();

    let mut forged = bob;
    forged.uuid = alice.uuid;
    let outcome = storage.update_user(forged);
    assert_eq!(outcome.err(), Some(StorageError::ConstraintViolation));
}

#[test]
fn update_user_rejects_dangling_person_link() {
    let mut storage = MemoryStorage::new();
    let p = storage
        .create_person(person("Ada", "Lovelace", "ada@x.io", "0"))
        .unwrap();
    let created = storage.create_user(user("ada", "k1", p)).unwrap();

    let mut moved = created;
    moved.person.id = 4242;
    let outcome = storage.update_user(moved);
    assert_eq!(outcome.err(), Some(StorageError::ConstraintViolation));
}
