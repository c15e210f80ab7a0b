use helix_user_domain::hash::generate_user_auth_key;

#[test]
fn derive_key_is_deterministic() {
    let login = String::from("ada");
    let password = String::from("secret");
    let k1 = generate_user_auth_key(&login, &password);
    let k2 = generate_user_auth_key(&login, &password);
    assert_eq!(k1, k2);
}

#[test]
fn derive_key_exact_value() {
    let login = String::from("ada");
    let password = String::from("secret");
    let key = generate_user_auth_key(&login, &password);
    assert_eq!(
        key,
        "ada:73a29cccd8dc0de10ae0332736cd2f3a19c2e3201bfd2f0d86dc1befdc68e7d9"
    );
}

#[test]
fn derive_key_second_exact_value() {
    let login = String::from("bob");
    let password = String::from("hunter2");
    let key = generate_user_auth_key(&login, &password);
    assert_eq!(
        key,
        "bob:ef1c1f262b3ad0f1837164860bf9e31de331718f895b75512a193e7491266240"
    );
}

#[test]
fn derive_key_changes_with_password() {
    let login = String::from("ada");
    let k1 = generate_user_auth_key(&login, &String::from("secret"));
    let k2 = generate_user_auth_key(&login, &String::from("Secret"));
    assert_ne!(k1, k2);
}

#[test]
fn derive_key_changes_with_login() {
    let password = String::from("secret");
    let k1 = generate_user_auth_key(&String::from("ada"), &password);
    let k2 = generate_user_auth_key(&String::from("bob"), &password);
    assert_ne!(k1, k2);
}

#[test]
fn derive_key_distinct_logins_never_collide_even_with_separator() {
    // The login is a verbatim prefix and the digest has a fixed length, so
    // even a login containing the separator cannot make two keys coincide.
    let k1 = generate_user_auth_key(&String::from("a"), &String::from("p"));
    let k2 = generate_user_auth_key(&String::from("a:b"), &String::from("p"));
    assert_ne!(k1, k2);
}

#[test]
fn derive_key_shape() {
    let key = generate_user_auth_key(&String::from("ada"), &String::from("secret"));
    assert!(key.starts_with("ada:"));
    assert_eq!(key.len(), "ada".len() + 1 + 64);
}
