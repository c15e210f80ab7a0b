use helix_user_domain::api::{AccessToken, LoginData, RefreshToken, get_exception_uri};

#[test]
fn exception_uris_are_the_unauthenticated_routes() {
    let uris = get_exception_uri();
    assert_eq!(uris, vec!["/api/_", "/api/version", "/api/login"]);
}

#[test]
fn api_payload_shapes_carry_their_fields() {
    let login = LoginData {
        login: "ada".to_string(),
        password: "secret".to_string(),
    };
    assert_eq!(login.login, "ada");
    assert_eq!(login.password, "secret");

    let tokens = AccessToken {
        access_token: "a".to_string(),
        refresh_token: "r".to_string(),
    };
    assert_eq!(tokens.access_token, "a");
    assert_eq!(tokens.refresh_token, "r");

    let refresh = RefreshToken {
        refresh_token: "r2".to_string(),
    };
    assert_eq!(refresh.refresh_token, "r2");
}
