//! Mathematical model of the relational store.
//!
//! The store is two tables: `person` rows and `applicationuser` rows, the
//! latter holding a nullable foreign key `person_id` into the former. The
//! storage port's contracts are stated over this model: lookups mirror the
//! adapter's row loops (the last matching row wins), writes are the row
//! transformations the SQL statements perform, and the well-formedness
//! predicate captures the backend's key and uniqueness constraints.

use vstd::prelude::*;
use crate::entities::{AppUserV, PersonV};

verus! {

/// A row of the person table. `id`, `uuid` and `created_on` are filled by the
/// backend at insert time and are never absent in a stored row.
#[verifier::ext_equal]
pub struct PersonRowV {
    pub id: int,
    pub uuid: u128,
    pub firstname: Seq<char>,
    pub lastname: Seq<char>,
    pub email: Seq<char>,
    pub phone: Seq<char>,
    pub created_on: i64,
    pub updated_on: Option<i64>,
}

/// A row of the application-user table. `password` holds the stored
/// credential (the derived lookup key), never a plaintext password.
#[verifier::ext_equal]
pub struct UserRowV {
    pub id: int,
    pub uuid: u128,
    pub login: Seq<char>,
    pub password: Seq<char>,
    pub photo: Option<Seq<char>>,
    pub created_on: i64,
    pub updated_on: Option<i64>,
    pub last_login_on: Option<i64>,
    pub person_id: Option<int>,
}

/// The whole relational store.
#[verifier::ext_equal]
pub struct StoreModel {
    pub persons: Seq<PersonRowV>,
    pub users: Seq<UserRowV>,
}

impl StoreModel {
    pub open spec fn empty() -> StoreModel {
        StoreModel { persons: Seq::empty(), users: Seq::empty() }
    }
}

// ---------------------------------------------------------------------------
// Row lookups. Each mirrors a `select` followed by a row loop that overwrites
// the result on every match, so the last matching row decides.
// ---------------------------------------------------------------------------

pub open spec fn find_person_by_id(persons: Seq<PersonRowV>, id: int) -> Option<PersonRowV>
    decreases persons.len(),
{
    if persons.len() == 0 {
        None
    } else if persons.last().id == id {
        Some(persons.last())
    } else {
        find_person_by_id(persons.drop_last(), id)
    }
}

pub open spec fn find_person_by_uuid(persons: Seq<PersonRowV>, uuid: u128) -> Option<PersonRowV>
    decreases persons.len(),
{
    if persons.len() == 0 {
        None
    } else if persons.last().uuid == uuid {
        Some(persons.last())
    } else {
        find_person_by_uuid(persons.drop_last(), uuid)
    }
}

pub open spec fn find_user_by_uuid(users: Seq<UserRowV>, uuid: u128) -> Option<UserRowV>
    decreases users.len(),
{
    if users.len() == 0 {
        None
    } else if users.last().uuid == uuid {
        Some(users.last())
    } else {
        find_user_by_uuid(users.drop_last(), uuid)
    }
}

/// The credential lookup behind `login`: the row whose stored credential
/// column equals the derived key exactly.
pub open spec fn find_user_by_password(users: Seq<UserRowV>, key: Seq<char>) -> Option<UserRowV>
    decreases users.len(),
{
    if users.len() == 0 {
        None
    } else if users.last().password == key {
        Some(users.last())
    } else {
        find_user_by_password(users.drop_last(), key)
    }
}

// ---------------------------------------------------------------------------
// Entity views of rows.
// ---------------------------------------------------------------------------

/// The entity a stored person row reads back as.
pub open spec fn person_entity(row: PersonRowV) -> PersonV {
    PersonV {
        id: row.id,
        uuid: Some(row.uuid),
        firstname: row.firstname,
        lastname: row.lastname,
        email: row.email,
        phone: row.phone,
        created_on: Some(row.created_on),
        updated_on: row.updated_on,
    }
}

/// The entity a stored user row reads back as, joined with its person row.
/// Read operations never restitute the stored credential: the password field
/// of the result is always the empty string.
pub open spec fn user_entity(row: UserRowV, person: PersonRowV) -> AppUserV {
    AppUserV {
        id: row.id,
        uuid: Some(row.uuid),
        login: row.login,
        password: Seq::empty(),
        photo: row.photo,
        created_on: Some(row.created_on),
        updated_on: row.updated_on,
        last_login_on: row.last_login_on,
        person: person_entity(person),
    }
}

/// Join a user row to its owned person. A row with no person link, or whose
/// link does not resolve, joins to nothing and reads back as not-found.
pub open spec fn join_user(s: StoreModel, row: UserRowV) -> Option<AppUserV> {
    match row.person_id {
        None => None,
        Some(pid) => match find_person_by_id(s.persons, pid) {
            None => None,
            Some(p) => Some(user_entity(row, p)),
        },
    }
}

/// What `login(key)` returns on a given store.
pub open spec fn login_view(s: StoreModel, key: Seq<char>) -> Option<AppUserV> {
    match find_user_by_password(s.users, key) {
        None => None,
        Some(row) => join_user(s, row),
    }
}

/// What `get_user(uuid)` returns on a given store.
pub open spec fn user_by_uuid_view(s: StoreModel, uuid: u128) -> Option<AppUserV> {
    match find_user_by_uuid(s.users, uuid) {
        None => None,
        Some(row) => join_user(s, row),
    }
}

/// What `get_person_by_uuid(uuid)` returns on a given store.
pub open spec fn person_by_uuid_view(s: StoreModel, uuid: u128) -> Option<PersonV> {
    match find_person_by_uuid(s.persons, uuid) {
        None => None,
        Some(row) => Some(person_entity(row)),
    }
}

/// What `get_person_by_id(id)` returns on a given store.
pub open spec fn person_by_id_view(s: StoreModel, id: int) -> Option<PersonV> {
    match find_person_by_id(s.persons, id) {
        None => None,
        Some(row) => Some(person_entity(row)),
    }
}

/// Every person entity in row order (`get_all_person` before ordering).
pub open spec fn all_persons_view(s: StoreModel) -> Seq<PersonV> {
    s.persons.map_values(|r: PersonRowV| person_entity(r))
}

/// Every user entity whose person link resolves, in row order
/// (`get_all_users` before ordering): rows with a null or dangling link are
/// left out.
pub open spec fn joined_users(s: StoreModel, users: Seq<UserRowV>) -> Seq<AppUserV>
    decreases users.len(),
{
    if users.len() == 0 {
        Seq::empty()
    } else {
        let rest = joined_users(s, users.drop_last());
        match join_user(s, users.last()) {
            Some(u) => rest.push(u),
            None => rest,
        }
    }
}

pub open spec fn all_users_view(s: StoreModel) -> Seq<AppUserV> {
    joined_users(s, s.users)
}

// ---------------------------------------------------------------------------
// Key and constraint predicates.
// ---------------------------------------------------------------------------

pub open spec fn person_id_taken(s: StoreModel, id: int) -> bool {
    exists|i: int| 0 <= i < s.persons.len() && s.persons[i].id == id
}

pub open spec fn person_uuid_taken(s: StoreModel, uuid: u128) -> bool {
    exists|i: int| 0 <= i < s.persons.len() && s.persons[i].uuid == uuid
}

pub open spec fn user_id_taken(s: StoreModel, id: int) -> bool {
    exists|i: int| 0 <= i < s.users.len() && s.users[i].id == id
}

pub open spec fn user_uuid_taken(s: StoreModel, uuid: u128) -> bool {
    exists|i: int| 0 <= i < s.users.len() && s.users[i].uuid == uuid
}

pub open spec fn login_taken(s: StoreModel, login: Seq<char>) -> bool {
    exists|i: int| 0 <= i < s.users.len() && s.users[i].login == login
}

/// Some user row still references this person (the foreign-key constraint
/// that makes deleting the person fail).
pub open spec fn person_referenced(s: StoreModel, id: int) -> bool {
    exists|i: int| 0 <= i < s.users.len() && s.users[i].person_id == Some(id)
}

/// Backend invariants: primary keys, uuids and logins are unique, and every
/// person link points at an existing person row.
pub open spec fn store_inv(s: StoreModel) -> bool {
    &&& forall|i: int, j: int|
        0 <= i < j < s.persons.len() ==> s.persons[i].id != s.persons[j].id
    &&& forall|i: int, j: int|
        0 <= i < j < s.persons.len() ==> s.persons[i].uuid != s.persons[j].uuid
    &&& forall|i: int, j: int| 0 <= i < j < s.users.len() ==> s.users[i].id != s.users[j].id
    &&& forall|i: int, j: int| 0 <= i < j < s.users.len() ==> s.users[i].uuid != s.users[j].uuid
    &&& forall|i: int, j: int| 0 <= i < j < s.users.len() ==> s.users[i].login != s.users[j].login
    &&& forall|i: int|
        0 <= i < s.users.len() ==> match (#[trigger] s.users[i]).person_id {
            Some(pid) => person_id_taken(s, pid),
            None => true,
        }
}

// ---------------------------------------------------------------------------
// Write transitions: the row transformation each SQL statement performs.
// ---------------------------------------------------------------------------

/// The row an insert builds for a person payload: `id` and `uuid` are
/// backend-assigned, `created_on` is stamped now, `updated_on` starts absent;
/// whatever the caller put in those fields is discarded.
pub open spec fn created_person_row(p: PersonV, id: int, uuid: u128, now: i64) -> PersonRowV {
    PersonRowV {
        id,
        uuid,
        firstname: p.firstname,
        lastname: p.lastname,
        email: p.email,
        phone: p.phone,
        created_on: now,
        updated_on: None,
    }
}

/// The row an insert builds for a user payload. The stored credential column
/// takes the payload's password field verbatim; the person link takes the
/// embedded person's id.
pub open spec fn created_user_row(u: AppUserV, id: int, uuid: u128, now: i64) -> UserRowV {
    UserRowV {
        id,
        uuid,
        login: u.login,
        password: u.password,
        photo: u.photo,
        created_on: now,
        updated_on: None,
        last_login_on: None,
        person_id: Some(u.person.id),
    }
}

pub open spec fn insert_person(s: StoreModel, row: PersonRowV) -> StoreModel {
    StoreModel { persons: s.persons.push(row), users: s.users }
}

pub open spec fn insert_user(s: StoreModel, row: UserRowV) -> StoreModel {
    StoreModel { persons: s.persons, users: s.users.push(row) }
}

/// A person row after `update_person`: the four text columns and `updated_on`
/// are rewritten; `id`, `uuid` and `created_on` are not touched.
pub open spec fn updated_person_row(row: PersonRowV, p: PersonV, now: i64) -> PersonRowV {
    PersonRowV {
        id: row.id,
        uuid: row.uuid,
        firstname: p.firstname,
        lastname: p.lastname,
        email: p.email,
        phone: p.phone,
        created_on: row.created_on,
        updated_on: Some(now),
    }
}

/// `update_person`: a full-row update by primary key; rows whose id does not
/// match are untouched, and an id that matches nothing updates nothing.
pub open spec fn update_person_rows(s: StoreModel, p: PersonV, now: i64) -> StoreModel {
    StoreModel {
        persons: s.persons.map_values(
            |r: PersonRowV| if r.id == p.id { updated_person_row(r, p, now) } else { r },
        ),
        users: s.users,
    }
}

/// A user row after `update_user`: every column but the primary key is
/// rewritten from the payload, with `updated_on` stamped now.
pub open spec fn updated_user_row(row: UserRowV, u: AppUserV, now: i64) -> UserRowV {
    UserRowV {
        id: row.id,
        uuid: u.uuid.unwrap(),
        login: u.login,
        password: u.password,
        photo: u.photo,
        created_on: u.created_on.unwrap(),
        updated_on: Some(now),
        last_login_on: u.last_login_on,
        person_id: Some(u.person.id),
    }
}

/// `update_user`: a full-row update by primary key.
pub open spec fn update_user_rows(s: StoreModel, u: AppUserV, now: i64) -> StoreModel {
    StoreModel {
        persons: s.persons,
        users: s.users.map_values(
            |r: UserRowV| if r.id == u.id { updated_user_row(r, u, now) } else { r },
        ),
    }
}

/// `delete_person`: every row with the given primary key is removed (the SQL
/// delete's where-clause semantics).
pub open spec fn remove_person(s: StoreModel, id: int) -> StoreModel {
    StoreModel { persons: s.persons.filter(|r: PersonRowV| r.id != id), users: s.users }
}

/// `delete_user`.
pub open spec fn remove_user(s: StoreModel, id: int) -> StoreModel {
    StoreModel { persons: s.persons, users: s.users.filter(|r: UserRowV| r.id != id) }
}

/// An `update_user` write hits a constraint when a row matches the id and the
/// rewrite would break a unique column or the person link.
pub open spec fn user_update_conflict(s: StoreModel, u: AppUserV) -> bool {
    user_id_taken(s, u.id) && {
        ||| exists|i: int|
            0 <= i < s.users.len() && s.users[i].id != u.id && s.users[i].login == u.login
        ||| exists|i: int|
            0 <= i < s.users.len() && s.users[i].id != u.id && s.users[i].uuid == u.uuid.unwrap()
        ||| !person_id_taken(s, u.person.id)
    }
}

} // verus!
