//! The storage port: the abstract persistence contract the domain consumes.
//!
//! Any backend — the in-memory one in this crate, or a relational adapter —
//! must satisfy exactly these contracts, stated over the store model. Every
//! operation may suspend on a pooled connection and may fail with a
//! `StorageError`; a backend never swallows its own errors. Each operation is
//! a single statement against the backend, so a failed operation leaves the
//! rows unchanged.

use vstd::prelude::*;
use crate::entities::{AppUser, AppUserV, Person, PersonV};
use crate::model::{
    StoreModel, all_persons_view, all_users_view, created_person_row, created_user_row,
    insert_person, insert_user, login_taken, login_view, person_by_id_view, person_by_uuid_view,
    person_id_taken, person_referenced, person_uuid_taken, remove_person, remove_user,
    update_person_rows, update_user_rows, user_by_uuid_view, user_id_taken,
    user_update_conflict, user_uuid_taken,
};
use crate::order::{persons_sorted, users_sorted};

verus! {

/// How a storage operation fails. Absence of a row is not an error: reads
/// return `None` for it.
#[derive(Clone, Copy, Debug, PartialEq, Eq, Structural)]
pub enum StorageError {
    /// The backend could not be reached or served no connection.
    BackendUnavailable,
    /// A unique or foreign-key constraint rejected the write.
    ConstraintViolation,
    /// The backend does not implement this operation yet; it fails loudly
    /// rather than silently doing nothing.
    Unimplemented,
}

pub type StorageResult<T> = Result<T, StorageError>;

pub open spec fn opt_user_view(o: Option<AppUser>) -> Option<AppUserV> {
    match o {
        Some(u) => Some(u@),
        None => None,
    }
}

pub open spec fn opt_person_view(o: Option<Person>) -> Option<PersonV> {
    match o {
        Some(p) => Some(p@),
        None => None,
    }
}

pub open spec fn users_view(v: Seq<AppUser>) -> Seq<AppUserV> {
    v.map_values(|u: AppUser| u@)
}

pub open spec fn persons_view(v: Seq<Person>) -> Seq<PersonV> {
    v.map_values(|p: Person| p@)
}

/// The persistence operations the domain needs, for both entities.
///
/// `store()` is the backend's current rows; `inv()` is its well-formedness,
/// which every operation preserves. Reads never report a constraint
/// violation; writes report exactly the constraint they hit, and a failed
/// write changes nothing.
pub trait StorageTrait: Sized {
    /// The rows the backend currently holds.
    spec fn store(&self) -> StoreModel;

    /// Backend well-formedness (unique keys, resolving person links).
    spec fn inv(&self) -> bool;

    /// Select the user whose stored credential equals `key`, joined with its
    /// owned person; the stored credential is never restituted.
    fn login(&self, key: String) -> (r: StorageResult<Option<AppUser>>)
        requires
            self.inv(),
        ensures
            (match r {
                Ok(opt) => opt_user_view(opt) == login_view(self.store(), key@),
                Err(e) => e != StorageError::ConstraintViolation,
            }),
    ;

    /// Select a user by stable identifier, joined with its owned person.
    fn get_user(&self, uuid: u128) -> (r: StorageResult<Option<AppUser>>)
        requires
            self.inv(),
        ensures
            (match r {
                Ok(opt) => opt_user_view(opt) == user_by_uuid_view(self.store(), uuid),
                Err(e) => e != StorageError::ConstraintViolation,
            }),
    ;

    /// All users that have a linked person, ordered by login ascending.
    fn get_all_users(&self) -> (r: StorageResult<Vec<AppUser>>)
        requires
            self.inv(),
        ensures
            (match r {
                Ok(list) => {
                    &&& users_view(list@).to_multiset() == all_users_view(
                        self.store(),
                    ).to_multiset()
                    &&& users_sorted(users_view(list@))
                },
                Err(e) => e != StorageError::ConstraintViolation,
            }),
    ;

    /// Insert a user row. The backend assigns `id` and `uuid` and stamps
    /// `created_on`; the caller-supplied values for those fields are
    /// discarded. Fails on a taken login or a person link that resolves to
    /// nothing.
    fn create_user(&mut self, user: AppUser) -> (r: StorageResult<AppUser>)
        requires
            old(self).inv(),
        ensures
            final(self).inv(),
            (match r {
                Ok(u) => {
                    &&& u@.uuid is Some
                    &&& u@.created_on is Some
                    &&& u@ == (AppUserV {
                        id: u@.id,
                        uuid: u@.uuid,
                        created_on: u@.created_on,
                        updated_on: None,
                        last_login_on: None,
                        ..user@
                    })
                    &&& !user_id_taken(old(self).store(), u@.id)
                    &&& !user_uuid_taken(old(self).store(), u@.uuid.unwrap())
                    &&& !login_taken(old(self).store(), user@.login)
                    &&& person_id_taken(old(self).store(), user@.person.id)
                    &&& final(self).store() == insert_user(
                        old(self).store(),
                        created_user_row(user@, u@.id, u@.uuid.unwrap(), u@.created_on.unwrap()),
                    )
                },
                Err(e) => {
                    &&& final(self).store() == old(self).store()
                    &&& (e == StorageError::ConstraintViolation ==> login_taken(
                        old(self).store(),
                        user@.login,
                    ) || !person_id_taken(old(self).store(), user@.person.id))
                },
            }),
    ;

    /// Full-row update of a user by primary key, stamping `updated_on`. An id
    /// that matches no row updates nothing and is not an error. The updated
    /// entity is re-persisted as previously read, so its `uuid` and
    /// `created_on` are present.
    fn update_user(&mut self, user: AppUser) -> (r: StorageResult<AppUser>)
        requires
            old(self).inv(),
            user@.uuid is Some,
            user@.created_on is Some,
        ensures
            final(self).inv(),
            (match r {
                Ok(u) => {
                    &&& u@.updated_on is Some
                    &&& u@ == (AppUserV { updated_on: u@.updated_on, ..user@ })
                    &&& !user_update_conflict(old(self).store(), user@)
                    &&& final(self).store() == update_user_rows(
                        old(self).store(),
                        user@,
                        u@.updated_on.unwrap(),
                    )
                },
                Err(e) => {
                    &&& final(self).store() == old(self).store()
                    &&& (e == StorageError::ConstraintViolation ==> user_update_conflict(
                        old(self).store(),
                        user@,
                    ))
                },
            }),
    ;

    /// Delete a user by primary key; an id that matches nothing deletes
    /// nothing and is not an error.
    fn delete_user(&mut self, user: AppUser) -> (r: StorageResult<()>)
        requires
            old(self).inv(),
        ensures
            final(self).inv(),
            (match r {
                Ok(_) => final(self).store() == remove_user(old(self).store(), user@.id),
                Err(e) => final(self).store() == old(self).store() && e
                    != StorageError::ConstraintViolation,
            }),
    ;

    /// Insert a person row. The backend assigns `id` and `uuid` and stamps
    /// `created_on`; the caller-supplied values for those fields are
    /// discarded and `updated_on` starts absent.
    fn create_person(&mut self, person: Person) -> (r: StorageResult<Person>)
        requires
            old(self).inv(),
        ensures
            final(self).inv(),
            (match r {
                Ok(p) => {
                    &&& p@.uuid is Some
                    &&& p@.created_on is Some
                    &&& p@ == (PersonV {
                        id: p@.id,
                        uuid: p@.uuid,
                        created_on: p@.created_on,
                        updated_on: None,
                        ..person@
                    })
                    &&& !person_id_taken(old(self).store(), p@.id)
                    &&& !person_uuid_taken(old(self).store(), p@.uuid.unwrap())
                    &&& final(self).store() == insert_person(
                        old(self).store(),
                        created_person_row(
                            person@,
                            p@.id,
                            p@.uuid.unwrap(),
                            p@.created_on.unwrap(),
                        ),
                    )
                },
                Err(e) => final(self).store() == old(self).store() && e
                    != StorageError::ConstraintViolation,
            }),
    ;

    /// Full-row update of a person by primary key, stamping `updated_on`;
    /// the row's own `uuid` and `created_on` columns are not touched.
    fn update_person(&mut self, person: Person) -> (r: StorageResult<Person>)
        requires
            old(self).inv(),
        ensures
            final(self).inv(),
            (match r {
                Ok(p) => {
                    &&& p@.updated_on is Some
                    &&& p@ == (PersonV { updated_on: p@.updated_on, ..person@ })
                    &&& final(self).store() == update_person_rows(
                        old(self).store(),
                        person@,
                        p@.updated_on.unwrap(),
                    )
                },
                Err(e) => final(self).store() == old(self).store() && e
                    != StorageError::ConstraintViolation,
            }),
    ;

    /// Delete a person by primary key. Fails with `ConstraintViolation` while
    /// an `AppUser` still references the person, leaving every row unchanged.
    fn delete_person(&mut self, person: Person) -> (r: StorageResult<()>)
        requires
            old(self).inv(),
        ensures
            final(self).inv(),
            (match r {
                Ok(_) => {
                    &&& !person_referenced(old(self).store(), person@.id)
                    &&& final(self).store() == remove_person(old(self).store(), person@.id)
                },
                Err(e) => {
                    &&& final(self).store() == old(self).store()
                    &&& (e == StorageError::ConstraintViolation ==> person_referenced(
                        old(self).store(),
                        person@.id,
                    ))
                },
            }),
    ;

    /// Select a person by stable identifier.
    fn get_person_by_uuid(&self, uuid: u128) -> (r: StorageResult<Option<Person>>)
        requires
            self.inv(),
        ensures
            (match r {
                Ok(opt) => opt_person_view(opt) == person_by_uuid_view(self.store(), uuid),
                Err(e) => e != StorageError::ConstraintViolation,
            }),
    ;

    /// Select a person by surrogate key.
    fn get_person_by_id(&self, id: i32) -> (r: StorageResult<Option<Person>>)
        requires
            self.inv(),
        ensures
            (match r {
                Ok(opt) => opt_person_view(opt) == person_by_id_view(self.store(), id as int),
                Err(e) => e != StorageError::ConstraintViolation,
            }),
    ;

    /// All persons, ordered by first name ascending.
    fn get_all_person(&self) -> (r: StorageResult<Vec<Person>>)
        requires
            self.inv(),
        ensures
            (match r {
                Ok(list) => {
                    &&& persons_view(list@).to_multiset() == all_persons_view(
                        self.store(),
                    ).to_multiset()
                    &&& persons_sorted(persons_view(list@))
                },
                Err(e) => e != StorageError::ConstraintViolation,
            }),
    ;
}

} // verus!
