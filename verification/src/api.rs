//! Value shapes exchanged with the transport layer, and the request paths the
//! transport serves without an authenticated caller.

use vstd::prelude::*;
use vstd::string::StringExecFns;

verus! {

/// A login request payload.
pub struct LoginData {
    pub login: String,
    pub password: String,
}

/// A freshly issued token pair.
pub struct AccessToken {
    pub access_token: String,
    pub refresh_token: String,
}

/// A token-refresh request payload.
pub struct RefreshToken {
    pub refresh_token: String,
}

/// The request paths served without an authenticated caller: the health
/// check, the version report and the login itself.
pub fn get_exception_uri() -> (r: Vec<String>)
    ensures
        r@.len() == 3,
        r@[0]@ == "/api/_"@,
        r@[1]@ == "/api/version"@,
        r@[2]@ == "/api/login"@,
{
    let mut exception_uri: Vec<String> = Vec::new();
    exception_uri.push(String::from_str("/api/_"));
    exception_uri.push(String::from_str("/api/version"));
    exception_uri.push(String::from_str("/api/login"));
    exception_uri
}

} // verus!
