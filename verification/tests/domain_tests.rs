use helix_user_domain::domain::{UserDomain, UserDomainError};
use helix_user_domain::entities::{AppUser, Person};
use helix_user_domain::memory::MemoryStorage;

fn person(firstname: &str, lastname: &str, email: &str, phone: &str) -> Person {
    Person::new(
        0,
        None,
        firstname.to_string(),
        lastname.to_string(),
        email.to_string(),
        phone.to_string(),
        None,
        None,
    )
}

fn user(login: &str, password: &str, person: Person) -> AppUser {
    AppUser::new(
        0,
        None,
        login.to_string(),
        password.to_string(),
        None,
        None,
        None,
        None,
        person,
    )
}

#[test]
fn login_with_unknown_credentials_is_invalid_credentials() {
    let domain = UserDomain::new(MemoryStorage::new());
    let outcome = domain.login(&"ada".to_string(), &"secret".to_string());
    assert_eq!(outcome.err(), Some(UserDomainError::InvalidCredentials));
}

#[test]
fn end_to_end_create_then_login() {
    let mut domain = UserDomain::new(MemoryStorage::new());

    let ada = domain
        .create_person(person("Ada", "Lovelace", "ada@x.io", "000"))
        .unwrap();

    // the stored credential column holds the derived lookup key, never the
    // plaintext password: the backend only ever sees the key
    let key = domain.generate_user_auth_key(&"ada".to_string(), &"secret".to_string());
    let created = domain.create_user(user("ada", &key, ada)).unwrap();
    assert!(created.uuid.is_some());

    let logged_in = domain
        .login(&"ada".to_string(), &"secret".to_string())
        .unwrap();
    assert_eq!(logged_in.login, "ada");
    assert_eq!(logged_in.password, "");
    assert_eq!(logged_in.uuid, created.uuid);
    assert_eq!(logged_in.person.firstname, "Ada");

    let rejected = domain.login(&"ada".to_string(), &"wrong".to_string());
    assert_eq!(rejected.err(), Some(UserDomainError::InvalidCredentials));
}

#[test]
fn domain_person_round_trip() {
    let mut domain = UserDomain::new(MemoryStorage::new());
    let created = domain
        .create_person(person("Ada", "Lovelace", "ada@x.io", "000"))
        .unwrap();
    let fetched = domain
        .get_person(created.uuid.unwrap())
        .unwrap()
        .unwrap();
    assert_eq!(fetched.firstname, created.firstname);
    assert_eq!(fetched.lastname, created.lastname);
    assert_eq!(fetched.email, created.email);
    assert_eq!(fetched.phone, created.phone);
    assert_eq!(fetched.id, created.id);
    assert_eq!(fetched.uuid, created.uuid);
    assert_eq!(fetched.created_on, created.created_on);
    assert_eq!(fetched.updated_on, None);
}

#[test]
fn domain_delete_referenced_person_surfaces_constraint() {
    let mut domain = UserDomain::new(MemoryStorage::new());
    let p = domain
        .create_person(person("Ada", "Lovelace", "ada@x.io", "000"))
        .unwrap();
    domain.create_user(user("ada", "key", p.duplicate())).unwrap();
    let outcome = domain.delete_person(p.duplicate());
    assert!(matches!(
        outcome,
        Err(UserDomainError::Storage(
            helix_user_domain::storage::StorageError::ConstraintViolation
        ))
    ));
    // nothing was deleted
    assert!(domain.get_person(p.uuid.unwrap()).unwrap().is_some());
}

#[test]
fn domain_update_user_repersists_person_then_user() {
    let mut domain = UserDomain::new(MemoryStorage::new());
    let p = domain
        .create_person(person("Ada", "Lovelace", "ada@x.io", "000"))
        .unwrap();
    let created = domain.create_user(user("ada", "key", p)).unwrap();

    let mut changed = created.duplicate();
    changed.person.email = "countess@x.io".to_string();
    let updated = domain.update_user(changed).unwrap();
    assert!(updated.updated_on.is_some());

    let fetched = domain.get_user(created.uuid.unwrap()).unwrap().unwrap();
    assert_eq!(fetched.person.email, "countess@x.io");
    assert!(fetched.updated_on.is_some());
    // the person row carries its own update stamp from the first write
    assert!(fetched.person.updated_on.is_some());
}

#[test]
fn domain_lists_users_by_login() {
    let mut domain = UserDomain::new(MemoryStorage::new());
    let p1 = domain
        .create_person(person("Ada", "Lovelace", "ada@x.io", "0"))
        .unwrap();
    let p2 = domain
        .create_person(person("Charles", "Babbage", "cb@x.io", "2"))
        .unwrap();
    domain.create_user(user("bob", "k1", p2)).unwrap();
    domain.create_user(user("alice", "k2", p1)).unwrap();
    let all = domain.get_all_users().unwrap();
    let logins: Vec<String> = all.iter().map(|u| u.login.clone()).collect();
    assert_eq!(logins, vec!["alice", "bob"]);
}

#[test]
fn domain_lists_persons_by_firstname() {
    let mut domain = UserDomain::new(MemoryStorage::new());
    domain
        .create_person(person("Charles", "Babbage", "cb@x.io", "2"))
        .unwrap();
    domain
        .create_person(person("Ada", "Lovelace", "ada@x.io", "0"))
        .unwrap();
    let all = domain.get_all_persons().unwrap();
    let names: Vec<String> = all.iter().map(|p| p.firstname.clone()).collect();
    assert_eq!(names, vec!["Ada", "Charles"]);
}
