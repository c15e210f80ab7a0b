//! The user domain service.
//!
//! It owns a storage backend, injected at construction. Login derives the
//! credential lookup key and collapses the storage outcome so that a missing
//! user and a backend failure are indistinguishable to the caller; updating a
//! user first re-persists its embedded person and then the user row — two
//! independent writes, not one transaction, so a failure between them leaves
//! the person updated and the user not (stated below, not masked). Every
//! other operation passes through to the storage port unchanged, surfacing
//! storage errors verbatim and never retrying.

use vstd::prelude::*;
use crate::entities::{AppUser, AppUserV, Person, PersonV};
use crate::hash::key_of;
use crate::model::{
    StoreModel, all_persons_view, all_users_view, created_person_row, created_user_row,
    insert_person, insert_user, login_taken, login_view, person_by_uuid_view, person_id_taken,
    person_referenced, person_uuid_taken, remove_person, remove_user, update_person_rows,
    update_user_rows, user_by_uuid_view, user_id_taken, user_uuid_taken,
};
use crate::order::{persons_sorted, users_sorted};
use crate::storage::{
    StorageError, StorageResult, StorageTrait, opt_person_view, opt_user_view, persons_view,
    users_view,
};

verus! {

/// How a domain operation fails.
#[derive(Clone, Copy, Debug, PartialEq, Eq, Structural)]
pub enum UserDomainError {
    /// Login rejected. Deliberately opaque: the caller cannot tell a wrong
    /// credential from a backend failure.
    InvalidCredentials,
    /// A storage failure, surfaced verbatim by a pass-through operation.
    Storage(StorageError),
}

pub type UserDomainResult<T> = Result<T, UserDomainError>;

/// Collapse a storage login outcome: only a present user logs in; an absent
/// user and a backend error both become `InvalidCredentials`, so the caller
/// learns nothing about which it was.
pub fn collapse_login(outcome: StorageResult<Option<AppUser>>) -> (r: UserDomainResult<AppUser>)
    ensures
        (match r {
            Ok(u) => outcome == Ok::<Option<AppUser>, StorageError>(Some(u)),
            Err(e) => {
                &&& e == UserDomainError::InvalidCredentials
                &&& match outcome {
                    Ok(opt) => opt is None,
                    Err(_) => true,
                }
            },
        }),
{
    match outcome {
        Ok(Some(user)) => Ok(user),
        Ok(None) => Err(UserDomainError::InvalidCredentials),
        Err(_) => Err(UserDomainError::InvalidCredentials),
    }
}

/// The user domain service over a storage backend.
pub struct UserDomain<S: StorageTrait> {
    storage: S,
}

impl<S: StorageTrait> UserDomain<S> {
    pub closed spec fn store(&self) -> StoreModel {
        self.storage.store()
    }

    pub closed spec fn inv(&self) -> bool {
        self.storage.inv()
    }

    /// Construct the service around an injected backend.
    pub fn new(storage: S) -> (r: UserDomain<S>)
        ensures
            r.store() == storage.store(),
            r.inv() == storage.inv(),
    {
        UserDomain { storage }
    }

    /// Derive the credential lookup key for a login/password pair.
    /// Deterministic and pure; see `crate::hash`.
    pub fn generate_user_auth_key(&self, login: &String, password: &String) -> (key: String)
        ensures
            key@ == key_of(login@, password@),
    {
        crate::hash::generate_user_auth_key(login, password)
    }

    /// Authenticate: derive the key, look it up, collapse the outcome. A key
    /// that matches no stored credential, a user with no linked person, and a
    /// backend failure all come back as `InvalidCredentials` — never as a
    /// backend error.
    pub fn login(&self, login: &String, password: &String) -> (r: UserDomainResult<AppUser>)
        requires
            self.inv(),
        ensures
            (match r {
                Ok(u) => login_view(self.store(), key_of(login@, password@)) == Some(u@),
                Err(e) => e == UserDomainError::InvalidCredentials,
            }),
            login_view(self.store(), key_of(login@, password@)) is None ==> r is Err,
    {
        let key = crate::hash::generate_user_auth_key(login, password);
        collapse_login(self.storage.login(key))
    }

    /// Pass-through to the storage port.
    pub fn get_all_users(&self) -> (r: UserDomainResult<Vec<AppUser>>)
        requires
            self.inv(),
        ensures
            (match r {
                Ok(list) => {
                    &&& users_view(list@).to_multiset() == all_users_view(
                        self.store(),
                    ).to_multiset()
                    &&& users_sorted(users_view(list@))
                },
                Err(e) => e matches UserDomainError::Storage(se) && se
                    != StorageError::ConstraintViolation,
            }),
    {
        match self.storage.get_all_users() {
            Ok(list) => Ok(list),
            Err(e) => Err(UserDomainError::Storage(e)),
        }
    }

    /// Pass-through to the storage port.
    pub fn get_user(&self, uuid: u128) -> (r: UserDomainResult<Option<AppUser>>)
        requires
            self.inv(),
        ensures
            (match r {
                Ok(opt) => opt_user_view(opt) == user_by_uuid_view(self.store(), uuid),
                Err(e) => e matches UserDomainError::Storage(se) && se
                    != StorageError::ConstraintViolation,
            }),
    {
        match self.storage.get_user(uuid) {
            Ok(opt) => Ok(opt),
            Err(e) => Err(UserDomainError::Storage(e)),
        }
    }

    /// Pass-through to the storage port.
    pub fn create_user(&mut self, user: AppUser) -> (r: UserDomainResult<AppUser>)
        requires
            old(self).inv(),
        ensures
            final(self).inv(),
            (match r {
                Ok(u) => {
                    &&& u@.uuid is Some
                    &&& u@.created_on is Some
                    &&& u@ == (AppUserV {
                        id: u@.id,
                        uuid: u@.uuid,
                        created_on: u@.created_on,
                        updated_on: None,
                        last_login_on: None,
                        ..user@
                    })
                    &&& !user_id_taken(old(self).store(), u@.id)
                    &&& !user_uuid_taken(old(self).store(), u@.uuid.unwrap())
                    &&& !login_taken(old(self).store(), user@.login)
                    &&& person_id_taken(old(self).store(), user@.person.id)
                    &&& final(self).store() == insert_user(
                        old(self).store(),
                        created_user_row(user@, u@.id, u@.uuid.unwrap(), u@.created_on.unwrap()),
                    )
                },
                Err(e) => {
                    &&& final(self).store() == old(self).store()
                    &&& e matches UserDomainError::Storage(se)
                    &&& (e == UserDomainError::Storage(StorageError::ConstraintViolation)
                        ==> login_taken(old(self).store(), user@.login) || !person_id_taken(
                        old(self).store(),
                        user@.person.id,
                    ))
                },
            }),
    {
        match self.storage.create_user(user) {
            Ok(u) => Ok(u),
            Err(e) => Err(UserDomainError::Storage(e)),
        }
    }

    /// Update a user: first re-persist its embedded person, then the user row.
    /// Two independent writes, not a transaction: if the second fails, the
    /// person rows keep the first write and the user rows are untouched.
    pub fn update_user(&mut self, user: AppUser) -> (r: UserDomainResult<AppUser>)
        requires
            old(self).inv(),
            user@.uuid is Some,
            user@.created_on is Some,
        ensures
            final(self).inv(),
            (match r {
                Ok(u) => {
                    &&& u@.updated_on is Some
                    &&& u@ == (AppUserV { updated_on: u@.updated_on, ..user@ })
                    &&& exists|pnow: i64|
                        final(self).store() == #[trigger] update_user_rows(
                            update_person_rows(old(self).store(), user@.person, pnow),
                            user@,
                            u@.updated_on.unwrap(),
                        )
                },
                Err(e) => {
                    &&& e matches UserDomainError::Storage(se)
                    &&& (final(self).store() == old(self).store() || exists|pnow: i64|
                        final(self).store() == #[trigger] update_person_rows(
                            old(self).store(),
                            user@.person,
                            pnow,
                        ))
                },
            }),
    {
        let person = user.person.duplicate();
        let ghost mut pnow0: i64 = 0;
        match self.storage.update_person(person) {
            Err(e) => {
                return Err(UserDomainError::Storage(e));
            },
            Ok(p) => {
                proof {
                    pnow0 = p@.updated_on.unwrap();
                }
            },
        }
        proof {
            assert(self.store() == update_person_rows(old(self).store(), user@.person, pnow0));
        }
        match self.storage.update_user(user) {
            Ok(u) => {
                proof {
                    assert(self.store() == update_user_rows(
                        update_person_rows(old(self).store(), user@.person, pnow0),
                        user@,
                        u@.updated_on.unwrap(),
                    ));
                }
                Ok(u)
            },
            Err(e) => {
                proof {
                    assert(self.store() == update_person_rows(
                        old(self).store(),
                        user@.person,
                        pnow0,
                    ));
                }
                Err(UserDomainError::Storage(e))
            },
        }
    }

    /// Pass-through to the storage port.
    pub fn delete_user(&mut self, user: AppUser) -> (r: UserDomainResult<()>)
        requires
            old(self).inv(),
        ensures
            final(self).inv(),
            (match r {
                Ok(_) => final(self).store() == remove_user(old(self).store(), user@.id),
                Err(e) => {
                    &&& final(self).store() == old(self).store()
                    &&& e matches UserDomainError::Storage(se) && se
                        != StorageError::ConstraintViolation
                },
            }),
    {
        match self.storage.delete_user(user) {
            Ok(_) => Ok(()),
            Err(e) => Err(UserDomainError::Storage(e)),
        }
    }

    /// Pass-through to the storage port.
    pub fn get_all_persons(&self) -> (r: UserDomainResult<Vec<Person>>)
        requires
            self.inv(),
        ensures
            (match r {
                Ok(list) => {
                    &&& persons_view(list@).to_multiset() == all_persons_view(
                        self.store(),
                    ).to_multiset()
                    &&& persons_sorted(persons_view(list@))
                },
                Err(e) => e matches UserDomainError::Storage(se) && se
                    != StorageError::ConstraintViolation,
            }),
    {
        match self.storage.get_all_person() {
            Ok(list) => Ok(list),
            Err(e) => Err(UserDomainError::Storage(e)),
        }
    }

    /// Pass-through to the storage port (lookup by stable identifier).
    pub fn get_person(&self, uuid: u128) -> (r: UserDomainResult<Option<Person>>)
        requires
            self.inv(),
        ensures
            (match r {
                Ok(opt) => opt_person_view(opt) == person_by_uuid_view(self.store(), uuid),
                Err(e) => e matches UserDomainError::Storage(se) && se
                    != StorageError::ConstraintViolation,
            }),
    {
        match self.storage.get_person_by_uuid(uuid) {
            Ok(opt) => Ok(opt),
            Err(e) => Err(UserDomainError::Storage(e)),
        }
    }

    /// Pass-through to the storage port.
    pub fn create_person(&mut self, person: Person) -> (r: UserDomainResult<Person>)
        requires
            old(self).inv(),
        ensures
            final(self).inv(),
            (match r {
                Ok(p) => {
                    &&& p@.uuid is Some
                    &&& p@.created_on is Some
                    &&& p@ == (PersonV {
                        id: p@.id,
                        uuid: p@.uuid,
                        created_on: p@.created_on,
                        updated_on: None,
                        ..person@
                    })
                    &&& !person_id_taken(old(self).store(), p@.id)
                    &&& !person_uuid_taken(old(self).store(), p@.uuid.unwrap())
                    &&& final(self).store() == insert_person(
                        old(self).store(),
                        created_person_row(
                            person@,
                            p@.id,
                            p@.uuid.unwrap(),
                            p@.created_on.unwrap(),
                        ),
                    )
                },
                Err(e) => {
                    &&& final(self).store() == old(self).store()
                    &&& e matches UserDomainError::Storage(se) && se
                        != StorageError::ConstraintViolation
                },
            }),
    {
        match self.storage.create_person(person) {
            Ok(p) => Ok(p),
            Err(e) => Err(UserDomainError::Storage(e)),
        }
    }

    /// Pass-through to the storage port.
    pub fn update_person(&mut self, person: Person) -> (r: UserDomainResult<Person>)
        requires
            old(self).inv(),
        ensures
            final(self).inv(),
            (match r {
                Ok(p) => {
                    &&& p@.updated_on is Some
                    &&& p@ == (PersonV { updated_on: p@.updated_on, ..person@ })
                    &&& final(self).store() == update_person_rows(
                        old(self).store(),
                        person@,
                        p@.updated_on.unwrap(),
                    )
                },
                Err(e) => {
                    &&& final(self).store() == old(self).store()
                    &&& e matches UserDomainError::Storage(se) && se
                        != StorageError::ConstraintViolation
                },
            }),
    {
        match self.storage.update_person(person) {
            Ok(p) => Ok(p),
            Err(e) => Err(UserDomainError::Storage(e)),
        }
    }

    /// Pass-through to the storage port: fails with `ConstraintViolation`,
    /// changing nothing, while an `AppUser` still references the person.
    pub fn delete_person(&mut self, person: Person) -> (r: UserDomainResult<()>)
        requires
            old(self).inv(),
        ensures
            final(self).inv(),
            (match r {
                Ok(_) => {
                    &&& !person_referenced(old(self).store(), person@.id)
                    &&& final(self).store() == remove_person(old(self).store(), person@.id)
                },
                Err(e) => {
                    &&& final(self).store() == old(self).store()
                    &&& e matches UserDomainError::Storage(se)
                    &&& (e == UserDomainError::Storage(StorageError::ConstraintViolation)
                        ==> person_referenced(old(self).store(), person@.id))
                },
            }),
    {
        match self.storage.delete_person(person) {
            Ok(_) => Ok(()),
            Err(e) => Err(UserDomainError::Storage(e)),
        }
    }
}

} // verus!
