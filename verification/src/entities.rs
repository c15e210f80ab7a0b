//! The two persisted entities.
//!
//! A `Person` is a directory record; an `AppUser` is an account that owns
//! exactly one `Person`. Both carry a backend-assigned surrogate key (`id`),
//! an externally stable identifier (`uuid`, the 128-bit value of the
//! backend's uuid column), and timestamps in milliseconds since the Unix
//! epoch. `id` and `uuid` are backend-owned: values supplied by a caller on
//! create are discarded and replaced by the backend.

use vstd::prelude::*;

verus! {

/// Mathematical view of a `Person`.
#[verifier::ext_equal]
pub struct PersonV {
    pub id: int,
    pub uuid: Option<u128>,
    pub firstname: Seq<char>,
    pub lastname: Seq<char>,
    pub email: Seq<char>,
    pub phone: Seq<char>,
    pub created_on: Option<i64>,
    pub updated_on: Option<i64>,
}

/// Mathematical view of an `AppUser`, with its owned person embedded.
#[verifier::ext_equal]
pub struct AppUserV {
    pub id: int,
    pub uuid: Option<u128>,
    pub login: Seq<char>,
    pub password: Seq<char>,
    pub photo: Option<Seq<char>>,
    pub created_on: Option<i64>,
    pub updated_on: Option<i64>,
    pub last_login_on: Option<i64>,
    pub person: PersonV,
}

pub struct Person {
    pub id: i32,
    pub uuid: Option<u128>,
    pub firstname: String,
    pub lastname: String,
    pub email: String,
    pub phone: String,
    pub created_on: Option<i64>,
    pub updated_on: Option<i64>,
}

pub struct AppUser {
    pub id: i32,
    pub uuid: Option<u128>,
    pub login: String,
    pub password: String,
    pub photo: Option<String>,
    pub created_on: Option<i64>,
    pub updated_on: Option<i64>,
    pub last_login_on: Option<i64>,
    pub person: Person,
}

/// View of an optional text field.
pub open spec fn opt_str_view(o: Option<String>) -> Option<Seq<char>> {
    match o {
        Some(s) => Some(s@),
        None => None,
    }
}

impl View for Person {
    type V = PersonV;

    open spec fn view(&self) -> PersonV {
        PersonV {
            id: self.id as int,
            uuid: self.uuid,
            firstname: self.firstname@,
            lastname: self.lastname@,
            email: self.email@,
            phone: self.phone@,
            created_on: self.created_on,
            updated_on: self.updated_on,
        }
    }
}

impl View for AppUser {
    type V = AppUserV;

    open spec fn view(&self) -> AppUserV {
        AppUserV {
            id: self.id as int,
            uuid: self.uuid,
            login: self.login@,
            password: self.password@,
            photo: opt_str_view(self.photo),
            created_on: self.created_on,
            updated_on: self.updated_on,
            last_login_on: self.last_login_on,
            person: self.person@,
        }
    }
}

impl Person {
    pub fn new(
        id: i32,
        uuid: Option<u128>,
        firstname: String,
        lastname: String,
        email: String,
        phone: String,
        created_on: Option<i64>,
        updated_on: Option<i64>,
    ) -> (r: Person)
        ensures
            r@ == (PersonV {
                id: id as int,
                uuid,
                firstname: firstname@,
                lastname: lastname@,
                email: email@,
                phone: phone@,
                created_on,
                updated_on,
            }),
    {
        Person { id, uuid, firstname, lastname, email, phone, created_on, updated_on }
    }

    /// Field-by-field copy.
    pub fn duplicate(&self) -> (r: Person)
        ensures
            r@ == self@,
    {
        Person {
            id: self.id,
            uuid: self.uuid,
            firstname: self.firstname.clone(),
            lastname: self.lastname.clone(),
            email: self.email.clone(),
            phone: self.phone.clone(),
            created_on: self.created_on,
            updated_on: self.updated_on,
        }
    }
}

impl AppUser {
    pub fn new(
        id: i32,
        uuid: Option<u128>,
        login: String,
        password: String,
        photo: Option<String>,
        created_on: Option<i64>,
        updated_on: Option<i64>,
        last_login_on: Option<i64>,
        person: Person,
    ) -> (r: AppUser)
        ensures
            r@ == (AppUserV {
                id: id as int,
                uuid,
                login: login@,
                password: password@,
                photo: opt_str_view(photo),
                created_on,
                updated_on,
                last_login_on,
                person: person@,
            }),
    {
        AppUser { id, uuid, login, password, photo, created_on, updated_on, last_login_on, person }
    }

    /// Field-by-field copy.
    pub fn duplicate(&self) -> (r: AppUser)
        ensures
            r@ == self@,
    {
        AppUser {
            id: self.id,
            uuid: self.uuid,
            login: self.login.clone(),
            password: self.password.clone(),
            photo: self.photo.clone(),
            created_on: self.created_on,
            updated_on: self.updated_on,
            last_login_on: self.last_login_on,
            person: self.person.duplicate(),
        }
    }
}

} // verus!
