//! An in-memory backend satisfying the storage port.
//!
//! It holds the two tables as vectors of rows and assigns surrogate keys and
//! stable identifiers from private counters, so every contract of the port —
//! uniqueness, the person link, ordering of listings, constraint failures —
//! is verified against the same model a relational adapter is held to. It
//! backs domain tests without a live database.

use vstd::prelude::*;
use vstd::pervasive::VecAdditionalExecFns;
use vstd::string::StringExecFns;
use crate::entities::{AppUser, AppUserV, Person, PersonV};
use crate::model::{
    PersonRowV, StoreModel, UserRowV, all_persons_view, created_person_row, created_user_row,
    find_person_by_id, find_person_by_uuid, find_user_by_password, find_user_by_uuid,
    insert_person, insert_user, join_user, joined_users, login_taken, person_entity,
    person_id_taken, person_referenced, person_uuid_taken, remove_person, remove_user, store_inv,
    update_person_rows, update_user_rows, updated_person_row, updated_user_row, user_entity,
    user_id_taken, user_update_conflict, user_uuid_taken,
};
use crate::order::{lemma_lex_le_refl, lemma_lex_le_total, lemma_lex_le_trans, lex_le, persons_sorted, str_lex_le, users_sorted};
use crate::storage::{StorageError, StorageResult, StorageTrait, persons_view, users_view};

verus! {

broadcast use vstd::seq_lib::group_to_multiset_ensures;

/// A stored person row; `id`, `uuid` and `created_on` are backend-filled.
struct PersonRow {
    id: i32,
    uuid: u128,
    firstname: String,
    lastname: String,
    email: String,
    phone: String,
    created_on: i64,
    updated_on: Option<i64>,
}

impl View for PersonRow {
    type V = PersonRowV;

    closed spec fn view(&self) -> PersonRowV {
        PersonRowV {
            id: self.id as int,
            uuid: self.uuid,
            firstname: self.firstname@,
            lastname: self.lastname@,
            email: self.email@,
            phone: self.phone@,
            created_on: self.created_on,
            updated_on: self.updated_on,
        }
    }
}

/// A stored user row; the `password` column holds the stored credential.
struct UserRow {
    id: i32,
    uuid: u128,
    login: String,
    password: String,
    photo: Option<String>,
    created_on: i64,
    updated_on: Option<i64>,
    last_login_on: Option<i64>,
    person_id: Option<i32>,
}

impl View for UserRow {
    type V = UserRowV;

    closed spec fn view(&self) -> UserRowV {
        UserRowV {
            id: self.id as int,
            uuid: self.uuid,
            login: self.login@,
            password: self.password@,
            photo: crate::entities::opt_str_view(self.photo),
            created_on: self.created_on,
            updated_on: self.updated_on,
            last_login_on: self.last_login_on,
            person_id: match self.person_id {
                Some(pid) => Some(pid as int),
                None => None,
            },
        }
    }
}

spec fn person_rows_view(rows: Seq<PersonRow>) -> Seq<PersonRowV> {
    rows.map_values(|r: PersonRow| r@)
}

spec fn user_rows_view(rows: Seq<UserRow>) -> Seq<UserRowV> {
    rows.map_values(|r: UserRow| r@)
}

/// Relies on chrono's `Utc::now`: the current wall-clock instant as
/// milliseconds since the Unix epoch. The value depends on the clock, so
/// nothing is promised of it. Caveat: `Utc::now` panics on a system clock
/// set before the Unix epoch, and the operations that stamp timestamps
/// inherit that on such a machine.
#[verifier::external_body]
fn now_millis() -> i64 {
    chrono::Utc::now().timestamp_millis()
}

/// Index of the row `find_person_by_id` selects (the last match).
fn find_person_idx_by_id(persons: &Vec<PersonRow>, id: i32) -> (r: Option<usize>)
    ensures
        (match r {
            Some(i) => i < persons@.len() && find_person_by_id(person_rows_view(persons@), id as int)
                == Some(persons@[i as int]@),
            None => find_person_by_id(person_rows_view(persons@), id as int) is None,
        }),
{
    let rows = Ghost(person_rows_view(persons@));
    let mut k: usize = persons.len();
    proof {
        assert(rows@.take(k as int) =~= rows@);
    }
    loop
        invariant
            k <= persons@.len(),
            rows@ == person_rows_view(persons@),
            find_person_by_id(rows@, id as int) == find_person_by_id(
                rows@.take(k as int),
                id as int,
            ),
        decreases k,
    {
        if k == 0 {
            return None;
        }
        k = k - 1;
        if persons[k].id == id {
            proof {
                assert(rows@.take(k + 1).last() == persons@[k as int]@);
            }
            return Some(k);
        }
        proof {
            assert(rows@.take(k + 1).last() == persons@[k as int]@);
            assert(rows@.take(k + 1).drop_last() =~= rows@.take(k as int));
        }
    }
}

/// Index of the row `find_person_by_uuid` selects (the last match).
fn find_person_idx_by_uuid(persons: &Vec<PersonRow>, uuid: u128) -> (r: Option<usize>)
    ensures
        (match r {
            Some(i) => i < persons@.len() && find_person_by_uuid(person_rows_view(persons@), uuid)
                == Some(persons@[i as int]@),
            None => find_person_by_uuid(person_rows_view(persons@), uuid) is None,
        }),
{
    let rows = Ghost(person_rows_view(persons@));
    let mut k: usize = persons.len();
    proof {
        assert(rows@.take(k as int) =~= rows@);
    }
    loop
        invariant
            k <= persons@.len(),
            rows@ == person_rows_view(persons@),
            find_person_by_uuid(rows@, uuid) == find_person_by_uuid(rows@.take(k as int), uuid),
        decreases k,
    {
        if k == 0 {
            return None;
        }
        k = k - 1;
        if persons[k].uuid == uuid {
            proof {
                assert(rows@.take(k + 1).last() == persons@[k as int]@);
            }
            return Some(k);
        }
        proof {
            assert(rows@.take(k + 1).last() == persons@[k as int]@);
            assert(rows@.take(k + 1).drop_last() =~= rows@.take(k as int));
        }
    }
}

/// Index of the row `find_user_by_uuid` selects (the last match).
fn find_user_idx_by_uuid(users: &Vec<UserRow>, uuid: u128) -> (r: Option<usize>)
    ensures
        (match r {
            Some(i) => i < users@.len() && find_user_by_uuid(user_rows_view(users@), uuid) == Some(
                users@[i as int]@,
            ),
            None => find_user_by_uuid(user_rows_view(users@), uuid) is None,
        }),
{
    let rows = Ghost(user_rows_view(users@));
    let mut k: usize = users.len();
    proof {
        assert(rows@.take(k as int) =~= rows@);
    }
    loop
        invariant
            k <= users@.len(),
            rows@ == user_rows_view(users@),
            find_user_by_uuid(rows@, uuid) == find_user_by_uuid(rows@.take(k as int), uuid),
        decreases k,
    {
        if k == 0 {
            return None;
        }
        k = k - 1;
        if users[k].uuid == uuid {
            proof {
                assert(rows@.take(k + 1).last() == users@[k as int]@);
            }
            return Some(k);
        }
        proof {
            assert(rows@.take(k + 1).last() == users@[k as int]@);
            assert(rows@.take(k + 1).drop_last() =~= rows@.take(k as int));
        }
    }
}

/// Index of the row `find_user_by_password` selects (the last match).
fn find_user_idx_by_password(users: &Vec<UserRow>, key: &String) -> (r: Option<usize>)
    ensures
        (match r {
            Some(i) => i < users@.len() && find_user_by_password(user_rows_view(users@), key@)
                == Some(users@[i as int]@),
            None => find_user_by_password(user_rows_view(users@), key@) is None,
        }),
{
    let rows = Ghost(user_rows_view(users@));
    let mut k: usize = users.len();
    proof {
        assert(rows@.take(k as int) =~= rows@);
    }
    loop
        invariant
            k <= users@.len(),
            rows@ == user_rows_view(users@),
            find_user_by_password(rows@, key@) == find_user_by_password(
                rows@.take(k as int),
                key@,
            ),
        decreases k,
    {
        if k == 0 {
            return None;
        }
        k = k - 1;
        if users[k].password == *key {
            proof {
                assert(rows@.take(k + 1).last() == users@[k as int]@);
            }
            return Some(k);
        }
        proof {
            assert(rows@.take(k + 1).last() == users@[k as int]@);
            assert(rows@.take(k + 1).drop_last() =~= rows@.take(k as int));
        }
    }
}

/// A person lookup by id succeeds exactly when some row carries the id.
proof fn lemma_find_person_by_id_iff_taken(persons: Seq<PersonRowV>, id: int)
    ensures
        (find_person_by_id(persons, id) is Some) <==> exists|i: int|
            0 <= i < persons.len() && persons[i].id == id,
    decreases persons.len(),
{
    if persons.len() > 0 {
        if persons.last().id == id {
            assert(persons[persons.len() - 1].id == id);
        } else {
            lemma_find_person_by_id_iff_taken(persons.drop_last(), id);
            if exists|i: int| 0 <= i < persons.len() && persons[i].id == id {
                let i = choose|i: int| 0 <= i < persons.len() && persons[i].id == id;
                assert(persons.drop_last()[i] == persons[i]);
            }
        }
    }
}

/// Sort persons ascending by first name, keeping exactly the same entities.
fn sort_persons(input: Vec<Person>) -> (out: Vec<Person>)
    ensures
        persons_view(out@).to_multiset() == persons_view(input@).to_multiset(),
        persons_sorted(persons_view(out@)),
{
    let mut src = input;
    let ghost all = persons_view(src@).to_multiset();
    let mut out: Vec<Person> = Vec::new();
    proof {
        assert(persons_view(out@) =~= Seq::<crate::entities::PersonV>::empty());
        assert(persons_view(out@).to_multiset().add(persons_view(src@).to_multiset()) =~= all);
    }
    while src.len() > 0
        invariant
            persons_view(out@).to_multiset().add(persons_view(src@).to_multiset()) == all,
            persons_sorted(persons_view(out@)),
            forall|i: int, j: int|
                0 <= i < out@.len() && 0 <= j < src@.len() ==> lex_le(
                    out@[i]@.firstname,
                    src@[j]@.firstname,
                ),
        decreases src.len(),
    {
        let mut m: usize = 0;
        let mut k: usize = 1;
        proof {
            lemma_lex_le_refl(src@[0]@.firstname);
        }
        while k < src.len()
            invariant
                m < k <= src@.len(),
                src@.len() > 0,
                forall|j: int| 0 <= j < k ==> lex_le(src@[m as int]@.firstname, src@[j]@.firstname),
            decreases src.len() - k,
        {
            if str_lex_le(src[k].firstname.as_str(), src[m].firstname.as_str()) {
                proof {
                    assert forall|j: int| 0 <= j < k + 1 implies lex_le(
                        src@[k as int]@.firstname,
                        src@[j]@.firstname,
                    ) by {
                        if j < k {
                            lemma_lex_le_trans(
                                src@[k as int]@.firstname,
                                src@[m as int]@.firstname,
                                src@[j]@.firstname,
                            );
                        } else {
                            lemma_lex_le_total(src@[k as int]@.firstname, src@[j]@.firstname);
                        }
                    }
                }
                m = k;
            } else {
                proof {
                    lemma_lex_le_total(src@[k as int]@.firstname, src@[m as int]@.firstname);
                }
            }
            k = k + 1;
        }
        let ghost old_src = src@;
        let ghost old_out = out@;
        let x = src.remove(m);
        out.push(x);
        proof {
            assert(persons_view(old_src.remove(m as int)) =~= persons_view(old_src).remove(
                m as int,
            ));
            assert(persons_view(old_out.push(x)) =~= persons_view(old_out).push(x@));
            assert(persons_view(old_src)[m as int] == x@);
            assert(persons_view(src@).to_multiset().insert(x@) =~= persons_view(
                old_src,
            ).to_multiset());
            assert(persons_view(out@).to_multiset().add(persons_view(src@).to_multiset()) =~= all);
        }
    }
    out
}

/// Sort users ascending by login, keeping exactly the same entities.
fn sort_users(input: Vec<AppUser>) -> (out: Vec<AppUser>)
    ensures
        users_view(out@).to_multiset() == users_view(input@).to_multiset(),
        users_sorted(users_view(out@)),
{
    let mut src = input;
    let ghost all = users_view(src@).to_multiset();
    let mut out: Vec<AppUser> = Vec::new();
    proof {
        assert(users_view(out@) =~= Seq::<crate::entities::AppUserV>::empty());
        assert(users_view(out@).to_multiset().add(users_view(src@).to_multiset()) =~= all);
    }
    while src.len() > 0
        invariant
            users_view(out@).to_multiset().add(users_view(src@).to_multiset()) == all,
            users_sorted(users_view(out@)),
            forall|i: int, j: int|
                0 <= i < out@.len() && 0 <= j < src@.len() ==> lex_le(
                    out@[i]@.login,
                    src@[j]@.login,
                ),
        decreases src.len(),
    {
        let mut m: usize = 0;
        let mut k: usize = 1;
        proof {
            lemma_lex_le_refl(src@[0]@.login);
        }
        while k < src.len()
            invariant
                m < k <= src@.len(),
                src@.len() > 0,
                forall|j: int| 0 <= j < k ==> lex_le(src@[m as int]@.login, src@[j]@.login),
            decreases src.len() - k,
        {
            if str_lex_le(src[k].login.as_str(), src[m].login.as_str()) {
                proof {
                    assert forall|j: int| 0 <= j < k + 1 implies lex_le(
                        src@[k as int]@.login,
                        src@[j]@.login,
                    ) by {
                        if j < k {
                            lemma_lex_le_trans(
                                src@[k as int]@.login,
                                src@[m as int]@.login,
                                src@[j]@.login,
                            );
                        } else {
                            lemma_lex_le_total(src@[k as int]@.login, src@[j]@.login);
                        }
                    }
                }
                m = k;
            } else {
                proof {
                    lemma_lex_le_total(src@[k as int]@.login, src@[m as int]@.login);
                }
            }
            k = k + 1;
        }
        let ghost old_src = src@;
        let ghost old_out = out@;
        let x = src.remove(m);
        out.push(x);
        proof {
            assert(users_view(old_src.remove(m as int)) =~= users_view(old_src).remove(m as int));
            assert(users_view(old_out.push(x)) =~= users_view(old_out).push(x@));
            assert(users_view(old_src)[m as int] == x@);
            assert(users_view(src@).to_multiset().insert(x@) =~= users_view(old_src).to_multiset());
            assert(users_view(out@).to_multiset().add(users_view(src@).to_multiset()) =~= all);
        }
    }
    out
}


/// An element of a filtered sequence is an element of the original.
proof fn lemma_filter_element_index<A>(s: Seq<A>, pred: spec_fn(A) -> bool, i: int)
    requires
        0 <= i < s.filter(pred).len(),
    ensures
        exists|j: int| 0 <= j < s.len() && s[j] == s.filter(pred)[i],
    decreases s.len(),
{
    reveal(Seq::filter);
    if s.len() > 0 {
        let d = s.drop_last();
        if pred(s.last()) && i == s.filter(pred).len() - 1 {
            assert(s[s.len() - 1] == s.filter(pred)[i]);
        } else {
            lemma_filter_element_index(d, pred, i);
            let j = choose|j: int| 0 <= j < d.len() && d[j] == d.filter(pred)[i];
            assert(s[j] == s.filter(pred)[i]);
        }
    }
}

/// Filtering keeps any pairwise distinctness of a sequence's elements.
proof fn lemma_filter_pairwise<A>(s: Seq<A>, pred: spec_fn(A) -> bool, distinct: spec_fn(A, A) -> bool)
    requires
        forall|i: int, j: int| 0 <= i < j < s.len() ==> #[trigger] distinct(s[i], s[j]),
    ensures
        forall|i: int, j: int|
            0 <= i < j < s.filter(pred).len() ==> #[trigger] distinct(
                s.filter(pred)[i],
                s.filter(pred)[j],
            ),
    decreases s.len(),
{
    reveal(Seq::filter);
    if s.len() > 0 {
        let d = s.drop_last();
        assert(forall|i: int, j: int|
            0 <= i < j < d.len() ==> #[trigger] distinct(d[i], d[j]));
        lemma_filter_pairwise(d, pred, distinct);
        let fd = d.filter(pred);
        if pred(s.last()) {
            assert forall|i: int, j: int|
                0 <= i < j < s.filter(pred).len() implies #[trigger] distinct(
                s.filter(pred)[i],
                s.filter(pred)[j],
            ) by {
                if j < fd.len() {
                    assert(distinct(fd[i], fd[j]));
                } else {
                    lemma_filter_element_index(d, pred, i);
                    let w = choose|w: int| 0 <= w < d.len() && d[w] == fd[i];
                    assert(distinct(s[w], s[s.len() - 1]));
                }
            }
        }
    }
}

/// Read a person row back as an entity.
fn person_from_row(row: &PersonRow) -> (r: Person)
    ensures
        r@ == person_entity(row@),
{
    let r = Person {
        id: row.id,
        uuid: Some(row.uuid),
        firstname: row.firstname.clone(),
        lastname: row.lastname.clone(),
        email: row.email.clone(),
        phone: row.phone.clone(),
        created_on: Some(row.created_on),
        updated_on: row.updated_on,
    };
    proof {
        assert(r@ =~= person_entity(row@));
    }
    r
}

/// Read a user row back as an entity, joined with its owned person; the
/// stored credential is not restituted.
fn join_rows(row: &UserRow, person: &PersonRow) -> (r: AppUser)
    ensures
        r@ == user_entity(row@, person@),
{
    let p = person_from_row(person);
    let r = AppUser {
        id: row.id,
        uuid: Some(row.uuid),
        login: row.login.clone(),
        password: String::new(),
        photo: row.photo.clone(),
        created_on: Some(row.created_on),
        updated_on: row.updated_on,
        last_login_on: row.last_login_on,
        person: p,
    };
    proof {
        assert(r@ =~= user_entity(row@, person@));
    }
    r
}

/// The in-memory backend: both tables as vectors of rows, with private
/// counters handing out surrogate keys and stable identifiers.
pub struct MemoryStorage {
    persons: Vec<PersonRow>,
    users: Vec<UserRow>,
    next_person_id: i32,
    next_user_id: i32,
    next_uuid: u128,
}

impl MemoryStorage {
    /// The counters stay strictly ahead of every stored key, so a key the
    /// backend assigns is always fresh.
    spec fn counters_ok(&self) -> bool {
        &&& forall|i: int|
            0 <= i < self.persons@.len() ==> (#[trigger] self.persons@[i])@.id
                < self.next_person_id as int
        &&& forall|i: int|
            0 <= i < self.persons@.len() ==> (#[trigger] self.persons@[i])@.uuid < self.next_uuid
        &&& forall|i: int|
            0 <= i < self.users@.len() ==> (#[trigger] self.users@[i])@.id
                < self.next_user_id as int
        &&& forall|i: int|
            0 <= i < self.users@.len() ==> (#[trigger] self.users@[i])@.uuid < self.next_uuid
    }

    /// Fresh keys remain available: the private counters have headroom, so
    /// the next create is owed success once its constraint checks pass.
    pub closed spec fn can_assign(&self) -> bool {
        self.next_person_id < i32::MAX && self.next_user_id < i32::MAX && self.next_uuid
            < u128::MAX
    }

    /// A fresh, empty store.
    pub fn new() -> (r: MemoryStorage)
        ensures
            r.inv(),
            r.store() == StoreModel::empty(),
            r.can_assign(),
    {
        let r = MemoryStorage {
            persons: Vec::new(),
            users: Vec::new(),
            next_person_id: 1,
            next_user_id: 1,
            next_uuid: 1,
        };
        proof {
            assert(person_rows_view(r.persons@) =~= Seq::<PersonRowV>::empty());
            assert(user_rows_view(r.users@) =~= Seq::<UserRowV>::empty());
            assert(r.store() =~= StoreModel::empty());
        }
        r
    }
}

impl StorageTrait for MemoryStorage {
    closed spec fn store(&self) -> StoreModel {
        StoreModel {
            persons: person_rows_view(self.persons@),
            users: user_rows_view(self.users@),
        }
    }

    closed spec fn inv(&self) -> bool {
        store_inv(self.store()) && self.counters_ok()
    }

    fn login(&self, key: String) -> (r: StorageResult<Option<AppUser>>)
        ensures
            r is Ok,
    {
        match find_user_idx_by_password(&self.users, &key) {
            None => Ok(None),
            Some(i) => match self.users[i].person_id {
                None => Ok(None),
                Some(pid) => match find_person_idx_by_id(&self.persons, pid) {
                    None => Ok(None),
                    Some(pi) => Ok(Some(join_rows(&self.users[i], &self.persons[pi]))),
                },
            },
        }
    }

    fn get_user(&self, uuid: u128) -> (r: StorageResult<Option<AppUser>>)
        ensures
            r is Ok,
    {
        match find_user_idx_by_uuid(&self.users, uuid) {
            None => Ok(None),
            Some(i) => match self.users[i].person_id {
                None => Ok(None),
                Some(pid) => match find_person_idx_by_id(&self.persons, pid) {
                    None => Ok(None),
                    Some(pi) => Ok(Some(join_rows(&self.users[i], &self.persons[pi]))),
                },
            },
        }
    }

    fn get_all_users(&self) -> (r: StorageResult<Vec<AppUser>>)
        ensures
            r is Ok,
    {
        let ghost s = self.store();
        let mut items: Vec<AppUser> = Vec::new();
        let mut i: usize = 0;
        proof {
            assert(s.users.take(0) =~= Seq::<UserRowV>::empty());
            assert(users_view(items@) =~= joined_users(s, s.users.take(0)));
        }
        while i < self.users.len()
            invariant
                i <= self.users@.len(),
                s == self.store(),
                s.users.len() == self.users@.len(),
                users_view(items@) == joined_users(s, s.users.take(i as int)),
            decreases self.users@.len() - i,
        {
            let ghost prefix = s.users.take(i as int);
            proof {
                assert(s.users.take(i + 1).drop_last() =~= prefix);
                assert(s.users.take(i + 1).last() == s.users[i as int]);
            }
            match self.users[i].person_id {
                None => {
                    proof {
                        assert(joined_users(s, s.users.take(i + 1)) == joined_users(s, prefix));
                    }
                },
                Some(pid) => match find_person_idx_by_id(&self.persons, pid) {
                    None => {
                        proof {
                            assert(join_user(s, s.users[i as int]) is None);
                            assert(joined_users(s, s.users.take(i + 1)) == joined_users(s, prefix));
                        }
                    },
                    Some(pi) => {
                        let u = join_rows(&self.users[i], &self.persons[pi]);
                        items.push(u);
                        proof {
                            assert(join_user(s, s.users[i as int]) == Some(u@));
                            assert(users_view(items@) =~= joined_users(s, prefix).push(u@));
                        }
                    },
                },
            }
            i = i + 1;
        }
        proof {
            assert(s.users.take(self.users@.len() as int) =~= s.users);
        }
        Ok(sort_users(items))
    }

    fn create_user(&mut self, user: AppUser) -> (r: StorageResult<AppUser>)
        ensures
            old(self).can_assign() && !login_taken(old(self).store(), user@.login)
                && person_id_taken(old(self).store(), user@.person.id) ==> r is Ok,
            (r == Err::<AppUser, StorageError>(StorageError::ConstraintViolation)) <==> (
            login_taken(old(self).store(), user@.login) || !person_id_taken(
                old(self).store(),
                user@.person.id,
            )),
    {
        let ghost old_s = self.store();
        // The person link must resolve (foreign key).
        match find_person_idx_by_id(&self.persons, user.person.id) {
            None => {
                proof {
                    lemma_find_person_by_id_iff_taken(
                        person_rows_view(self.persons@),
                        user.person.id as int,
                    );
                }
                return Err(StorageError::ConstraintViolation);
            },
            Some(_) => {},
        }
        proof {
            lemma_find_person_by_id_iff_taken(
                person_rows_view(self.persons@),
                user.person.id as int,
            );
        }
        // The login must be free (unique column).
        let mut i: usize = 0;
        while i < self.users.len()
            invariant
                i <= self.users@.len(),
                *self == *old(self),
                old(self).inv(),
                old_s == self.store(),
                forall|j: int| 0 <= j < i ==> (#[trigger] self.users@[j])@.login != user@.login,
            decreases self.users@.len() - i,
        {
            if self.users[i].login == user.login {
                proof {
                    assert(old_s.users[i as int].login == user@.login);
                }
                return Err(StorageError::ConstraintViolation);
            }
            i = i + 1;
        }
        // Fresh keys must remain available.
        if self.next_user_id == i32::MAX || self.next_uuid == u128::MAX {
            return Err(StorageError::BackendUnavailable);
        }
        let id = self.next_user_id;
        let uuid = self.next_uuid;
        let now = now_millis();
        self.next_user_id = id + 1;
        self.next_uuid = uuid + 1;
        let row = UserRow {
            id,
            uuid,
            login: user.login.clone(),
            password: user.password.clone(),
            photo: user.photo.clone(),
            created_on: now,
            updated_on: None,
            last_login_on: None,
            person_id: Some(user.person.id),
        };
        let ghost row_v = row@;
        self.users.push(row);
        let result = AppUser {
            id,
            uuid: Some(uuid),
            login: user.login,
            password: user.password,
            photo: user.photo,
            created_on: Some(now),
            updated_on: None,
            last_login_on: None,
            person: user.person,
        };
        proof {
            assert(row_v =~= created_user_row(user@, id as int, uuid, now));
            assert(user_rows_view(self.users@) =~= old_s.users.push(row_v));
            assert(self.store() =~= insert_user(old_s, row_v));
            assert(result@ =~= (AppUserV {
                id: id as int,
                uuid: Some(uuid),
                created_on: Some(now),
                updated_on: None,
                last_login_on: None,
                ..user@
            }));
            // the assigned keys are fresh
            assert(!user_id_taken(old_s, id as int)) by {
                if user_id_taken(old_s, id as int) {
                    let w = choose|w: int|
                        0 <= w < old_s.users.len() && old_s.users[w].id == id as int;
                    assert((old(self).users@[w])@.id < id as int);
                }
            }
            assert(!user_uuid_taken(old_s, uuid)) by {
                if user_uuid_taken(old_s, uuid) {
                    let w = choose|w: int|
                        0 <= w < old_s.users.len() && old_s.users[w].uuid == uuid;
                    assert((old(self).users@[w])@.uuid < uuid);
                }
            }
            assert(!login_taken(old_s, user@.login)) by {
                if login_taken(old_s, user@.login) {
                    let w = choose|w: int|
                        0 <= w < old_s.users.len() && old_s.users[w].login == user@.login;
                    assert((old(self).users@[w])@.login != user@.login);
                }
            }
            // well-formedness is preserved
            let ns = self.store();
            assert forall|a: int, b: int| 0 <= a < b < ns.users.len() implies ns.users[a].id
                != ns.users[b].id && ns.users[a].uuid != ns.users[b].uuid && ns.users[a].login
                != ns.users[b].login by {
                if b == ns.users.len() - 1 {
                    assert(ns.users[a] == old_s.users[a]);
                }
            }
            assert forall|a: int| 0 <= a < ns.users.len() implies match (
            #[trigger] ns.users[a]).person_id {
                Some(pid) => person_id_taken(ns, pid),
                None => true,
            } by {
                if a < ns.users.len() - 1 {
                    assert(ns.users[a] == old_s.users[a]);
                    match old_s.users[a].person_id {
                        Some(pid) => {
                            let w = choose|w: int|
                                0 <= w < old_s.persons.len() && old_s.persons[w].id == pid;
                            assert(ns.persons[w].id == pid);
                        },
                        None => {},
                    }
                } else {
                    assert(ns.users[a].person_id == Some(user@.person.id));
                    let w = choose|w: int|
                        0 <= w < old_s.persons.len() && old_s.persons[w].id == user@.person.id;
                    assert(ns.persons[w].id == user@.person.id);
                }
            }
            assert(store_inv(ns));
            // the counters still bound every stored key
            assert forall|a: int| 0 <= a < self.users@.len() implies (
            #[trigger] self.users@[a])@.id < self.next_user_id as int && self.users@[a]@.uuid
                < self.next_uuid by {
                if a < self.users@.len() - 1 {
                    assert(self.users@[a] == old(self).users@[a]);
                } else {
                    assert(self.users@[a]@ == row_v);
                }
            }
        }
        Ok(result)
    }

    fn update_user(&mut self, user: AppUser) -> (r: StorageResult<AppUser>)
        ensures
            user_update_conflict(old(self).store(), user@) ==> r is Err,
            !user_update_conflict(old(self).store(), user@) && user@.uuid != Some(u128::MAX)
                ==> r is Ok,
    {
        let ghost old_s = self.store();
        let uu = match user.uuid {
            Some(u) => u,
            None => vstd::pervasive::unreached(),
        };
        let created = match user.created_on {
            Some(c) => c,
            None => vstd::pervasive::unreached(),
        };
        // Does any row match the primary key?
        let mut applies = false;
        let mut i: usize = 0;
        while i < self.users.len()
            invariant
                i <= self.users@.len(),
                *self == *old(self),
                old(self).inv(),
                old_s == self.store(),
                applies == exists|j: int|
                    0 <= j < i && (#[trigger] old_s.users[j]).id == user@.id,
            decreases self.users@.len() - i,
        {
            if self.users[i].id == user.id {
                proof {
                    assert(old_s.users[i as int].id == user@.id);
                }
                applies = true;
            }
            i = i + 1;
        }
        if applies {
            if uu == u128::MAX {
                return Err(StorageError::BackendUnavailable);
            }
            // Unique columns against the other rows.
            let mut j: usize = 0;
            while j < self.users.len()
                invariant
                    j <= self.users@.len(),
                    *self == *old(self),
                    old(self).inv(),
                    old_s == self.store(),
                    user@.uuid == Some(uu),
                    applies,
                    user_id_taken(old_s, user@.id),
                    forall|a: int|
                        0 <= a < j ==> ((#[trigger] old_s.users[a]).id == user@.id
                            || (old_s.users[a].login != user@.login && old_s.users[a].uuid != uu)),
                decreases self.users@.len() - j,
            {
                if self.users[j].id != user.id && (self.users[j].login == user.login
                    || self.users[j].uuid == uu) {
                    proof {
                        assert(old_s.users[j as int].id != user@.id);
                        assert(old_s.users[j as int].login == user@.login || old_s.users[
                            j as int
                        ].uuid == uu);
                        assert(user_update_conflict(old_s, user@));
                    }
                    return Err(StorageError::ConstraintViolation);
                }
                j = j + 1;
            }
            // The person link must resolve.
            match find_person_idx_by_id(&self.persons, user.person.id) {
                None => {
                    proof {
                        lemma_find_person_by_id_iff_taken(
                            person_rows_view(self.persons@),
                            user.person.id as int,
                        );
                    }
                    return Err(StorageError::ConstraintViolation);
                },
                Some(_) => {},
            }
            proof {
                lemma_find_person_by_id_iff_taken(
                    person_rows_view(self.persons@),
                    user.person.id as int,
                );
            }
        }
        let now = now_millis();
        let ghost old_rows = self.users@;
        let mut i: usize = 0;
        while i < self.users.len()
            invariant
                i <= self.users@.len(),
                self.users@.len() == old_rows.len(),
                self.persons@ == old(self).persons@,
                self.next_person_id == old(self).next_person_id,
                self.next_user_id == old(self).next_user_id,
                self.next_uuid == old(self).next_uuid,
                old_rows == old(self).users@,
                user@.uuid == Some(uu),
                user@.created_on == Some(created),
                forall|a: int|
                    0 <= a < i ==> (#[trigger] self.users@[a])@ == (if old_rows[a]@.id == user@.id {
                        updated_user_row(old_rows[a]@, user@, now)
                    } else {
                        old_rows[a]@
                    }),
                forall|a: int| i <= a < old_rows.len() ==> #[trigger] self.users@[a] == old_rows[a],
            decreases self.users@.len() - i,
        {
            if self.users[i].id == user.id {
                let cur_id = self.users[i].id;
                let newrow = UserRow {
                    id: cur_id,
                    uuid: uu,
                    login: user.login.clone(),
                    password: user.password.clone(),
                    photo: user.photo.clone(),
                    created_on: created,
                    updated_on: Some(now),
                    last_login_on: user.last_login_on,
                    person_id: Some(user.person.id),
                };
                proof {
                    assert(newrow@ =~= updated_user_row(old_rows[i as int]@, user@, now));
                }
                self.users.set(i, newrow);
            }
            i = i + 1;
        }
        if applies && uu >= self.next_uuid {
            self.next_uuid = uu + 1;
        }
        let result = AppUser {
            id: user.id,
            uuid: user.uuid,
            login: user.login,
            password: user.password,
            photo: user.photo,
            created_on: user.created_on,
            updated_on: Some(now),
            last_login_on: user.last_login_on,
            person: user.person,
        };
        proof {
            let ns = self.store();
            assert(ns.users =~= update_user_rows(old_s, user@, now).users);
            assert(ns.persons =~= old_s.persons);
            assert(ns =~= update_user_rows(old_s, user@, now));
            assert(result@ =~= (AppUserV { updated_on: Some(now), ..user@ }));
            assert(!user_update_conflict(old_s, user@)) by {
                if user_id_taken(old_s, user@.id) {
                    let w = choose|w: int|
                        0 <= w < old_s.users.len() && old_s.users[w].id == user@.id;
                    assert(applies);
                }
            }
            // well-formedness is preserved
            assert forall|a: int, b: int| 0 <= a < b < ns.users.len() implies ns.users[a].id
                != ns.users[b].id && ns.users[a].uuid != ns.users[b].uuid && ns.users[a].login
                != ns.users[b].login by {
                assert(old_s.users[a].id != old_s.users[b].id);
                if old_s.users[a].id == user@.id {
                    assert(ns.users[a] == updated_user_row(old_s.users[a], user@, now));
                    assert(old_s.users[b].login != user@.login && old_s.users[b].uuid != uu);
                } else if old_s.users[b].id == user@.id {
                    assert(ns.users[b] == updated_user_row(old_s.users[b], user@, now));
                    assert(old_s.users[a].login != user@.login && old_s.users[a].uuid != uu);
                }
            }
            assert forall|a: int| 0 <= a < ns.users.len() implies match (
            #[trigger] ns.users[a]).person_id {
                Some(pid) => person_id_taken(ns, pid),
                None => true,
            } by {
                let pid_opt = if old_s.users[a].id == user@.id {
                    Some(user@.person.id)
                } else {
                    old_s.users[a].person_id
                };
                if old_s.users[a].id == user@.id {
                    assert(person_id_taken(old_s, user@.person.id));
                } else {
                    assert(ns.users[a] == old_s.users[a]);
                }
                match pid_opt {
                    Some(pid) => {
                        assert(person_id_taken(old_s, pid));
                        let w = choose|w: int|
                            0 <= w < old_s.persons.len() && old_s.persons[w].id == pid;
                        assert(ns.persons[w].id == pid);
                    },
                    None => {},
                }
            }
            assert(store_inv(ns));
            // the counters still bound every stored key
            assert forall|a: int| 0 <= a < self.users@.len() implies (
            #[trigger] self.users@[a])@.id < self.next_user_id as int && self.users@[a]@.uuid
                < self.next_uuid by {
                if old_rows[a]@.id == user@.id {
                    assert(self.users@[a]@ == updated_user_row(old_rows[a]@, user@, now));
                    assert(old_s.users[a].id == user@.id);
                    assert(applies);
                } else {
                    assert(self.users@[a]@ == old_rows[a]@);
                }
            }
        }
        Ok(result)
    }

    fn delete_user(&mut self, user: AppUser) -> (r: StorageResult<()>)
        ensures
            r is Ok,
    {
        let ghost old_s = self.store();
        let mut old_vec: Vec<UserRow> = Vec::new();
        core::mem::swap(&mut self.users, &mut old_vec);
        let ghost orig = old_vec@;
        let ghost mut done: int = 0;
        proof {
            assert(orig.skip(0) =~= orig);
            reveal(Seq::filter);
            assert(user_rows_view(orig.take(0)) =~= Seq::<UserRowV>::empty());
            assert(user_rows_view(self.users@) =~= user_rows_view(orig.take(0)).filter((|r: UserRowV| r.id != user@.id)));
        }
        while old_vec.len() > 0
            invariant
                0 <= done <= orig.len(),
                old_vec@ == orig.skip(done),
                self.persons@ == old(self).persons@,
                self.next_person_id == old(self).next_person_id,
                self.next_user_id == old(self).next_user_id,
                self.next_uuid == old(self).next_uuid,
                orig == old(self).users@,
                user_rows_view(self.users@) == user_rows_view(orig.take(done)).filter((|r: UserRowV| r.id != user@.id)),
            decreases old_vec@.len(),
        {
            let row = old_vec.remove(0);
            proof {
                reveal(Seq::filter);
                assert(orig.skip(done).remove(0) =~= orig.skip(done + 1));
                assert(orig.skip(done)[0] == orig[done]);
                assert(row == orig[done]);
                assert(row@ == orig[done]@);
                assert(user_rows_view(orig.take(done + 1)).drop_last() =~= user_rows_view(
                    orig.take(done),
                ));
                assert(user_rows_view(orig.take(done + 1)).last() == orig[done]@);
            }
            if row.id != user.id {
                self.users.push(row);
                proof {
                    reveal(Seq::filter);
                    assert((|r: UserRowV| r.id != user@.id)(orig[done]@));
                    assert(user_rows_view(orig.take(done + 1)).filter((|r: UserRowV| r.id != user@.id)) =~= user_rows_view(
                        orig.take(done),
                    ).filter((|r: UserRowV| r.id != user@.id)).push(orig[done]@));
                    assert(user_rows_view(self.users@) =~= user_rows_view(orig.take(done)).filter((|r: UserRowV| r.id != user@.id)).push(orig[done]@));
                }
            } else {
                proof {
                    reveal(Seq::filter);
                    assert(!(|r: UserRowV| r.id != user@.id)(orig[done]@));
                    assert(user_rows_view(orig.take(done + 1)).filter((|r: UserRowV| r.id != user@.id)) =~= user_rows_view(
                        orig.take(done),
                    ).filter((|r: UserRowV| r.id != user@.id)));
                }
            }
            proof {
                done = done + 1;
            }
        }
        proof {
            assert(orig.take(done) =~= orig);
            let ghost full = user_rows_view(orig);
            assert(user_rows_view(self.users@) == full.filter((|r: UserRowV| r.id != user@.id)));
            assert(old_s.users.filter(|r: UserRowV| r.id != user@.id) == full.filter((|r: UserRowV| r.id != user@.id)));
            assert(self.store() =~= remove_user(old_s, user@.id));
            // well-formedness is preserved
            let ns = self.store();
            let did = |x: UserRowV, y: UserRowV| x.id != y.id;
            let duu = |x: UserRowV, y: UserRowV| x.uuid != y.uuid;
            let dlg = |x: UserRowV, y: UserRowV| x.login != y.login;
            lemma_filter_pairwise(full, |r: UserRowV| r.id != user@.id, did);
            lemma_filter_pairwise(full, |r: UserRowV| r.id != user@.id, duu);
            lemma_filter_pairwise(full, |r: UserRowV| r.id != user@.id, dlg);
            assert(ns.users == full.filter((|r: UserRowV| r.id != user@.id)));
            assert forall|a: int, b: int| 0 <= a < b < ns.users.len() implies ns.users[a].id
                != ns.users[b].id && ns.users[a].uuid != ns.users[b].uuid && ns.users[a].login
                != ns.users[b].login by {
                assert(did(full.filter((|r: UserRowV| r.id != user@.id))[a], full.filter((|r: UserRowV| r.id != user@.id))[b]));
                assert(duu(full.filter((|r: UserRowV| r.id != user@.id))[a], full.filter((|r: UserRowV| r.id != user@.id))[b]));
                assert(dlg(full.filter((|r: UserRowV| r.id != user@.id))[a], full.filter((|r: UserRowV| r.id != user@.id))[b]));
            }
            assert forall|a: int| 0 <= a < ns.users.len() implies match (
            #[trigger] ns.users[a]).person_id {
                Some(pid) => person_id_taken(ns, pid),
                None => true,
            } by {
                lemma_filter_element_index(full, |r: UserRowV| r.id != user@.id, a);
                let w = choose|w: int| 0 <= w < full.len() && full[w] == ns.users[a];
                match full[w].person_id {
                    Some(pid) => {
                        assert(person_id_taken(old_s, pid));
                        let v = choose|v: int|
                            0 <= v < old_s.persons.len() && old_s.persons[v].id == pid;
                        assert(ns.persons[v].id == pid);
                    },
                    None => {},
                }
            }
            assert(store_inv(ns));
            // the counters still bound every stored key
            assert forall|a: int| 0 <= a < self.users@.len() implies (
            #[trigger] self.users@[a])@.id < self.next_user_id as int && self.users@[a]@.uuid
                < self.next_uuid by {
                lemma_filter_element_index(full, |r: UserRowV| r.id != user@.id, a);
                let w = choose|w: int| 0 <= w < full.len() && full[w] == self.users@[a]@;
                assert((old(self).users@[w])@ == full[w]);
            }
        }
        Ok(())
    }

    fn create_person(&mut self, person: Person) -> (r: StorageResult<Person>)
        ensures
            old(self).can_assign() ==> r is Ok,
            r is Err ==> r == Err::<Person, StorageError>(StorageError::BackendUnavailable),
    {
        let ghost old_s = self.store();
        if self.next_person_id == i32::MAX || self.next_uuid == u128::MAX {
            return Err(StorageError::BackendUnavailable);
        }
        let id = self.next_person_id;
        let uuid = self.next_uuid;
        let now = now_millis();
        self.next_person_id = id + 1;
        self.next_uuid = uuid + 1;
        let row = PersonRow {
            id,
            uuid,
            firstname: person.firstname,
            lastname: person.lastname,
            email: person.email,
            phone: person.phone,
            created_on: now,
            updated_on: None,
        };
        let result = person_from_row(&row);
        let ghost row_v = row@;
        let ghost person_v = PersonV {
            id: person@.id,
            uuid: person@.uuid,
            firstname: row_v.firstname,
            lastname: row_v.lastname,
            email: row_v.email,
            phone: row_v.phone,
            created_on: person@.created_on,
            updated_on: person@.updated_on,
        };
        self.persons.push(row);
        proof {
            assert(person_v == person@);
            assert(row_v =~= created_person_row(person@, id as int, uuid, now));
            assert(person_rows_view(self.persons@) =~= old_s.persons.push(row_v));
            assert(self.store() =~= insert_person(old_s, row_v));
            assert(result@ =~= (PersonV {
                id: id as int,
                uuid: Some(uuid),
                created_on: Some(now),
                updated_on: None,
                ..person@
            }));
            assert(!person_id_taken(old_s, id as int)) by {
                if person_id_taken(old_s, id as int) {
                    let w = choose|w: int|
                        0 <= w < old_s.persons.len() && old_s.persons[w].id == id as int;
                    assert((old(self).persons@[w])@.id < id as int);
                }
            }
            assert(!person_uuid_taken(old_s, uuid)) by {
                if person_uuid_taken(old_s, uuid) {
                    let w = choose|w: int|
                        0 <= w < old_s.persons.len() && old_s.persons[w].uuid == uuid;
                    assert((old(self).persons@[w])@.uuid < uuid);
                }
            }
            // well-formedness is preserved
            let ns = self.store();
            assert forall|a: int, b: int| 0 <= a < b < ns.persons.len() implies ns.persons[a].id
                != ns.persons[b].id && ns.persons[a].uuid != ns.persons[b].uuid by {
                if b == ns.persons.len() - 1 {
                    assert(ns.persons[a] == old_s.persons[a]);
                }
            }
            assert forall|a: int| 0 <= a < ns.users.len() implies match (
            #[trigger] ns.users[a]).person_id {
                Some(pid) => person_id_taken(ns, pid),
                None => true,
            } by {
                assert(ns.users[a] == old_s.users[a]);
                match old_s.users[a].person_id {
                    Some(pid) => {
                        let w = choose|w: int|
                            0 <= w < old_s.persons.len() && old_s.persons[w].id == pid;
                        assert(ns.persons[w].id == pid);
                    },
                    None => {},
                }
            }
            assert(store_inv(ns));
            // the counters still bound every stored key
            assert forall|a: int| 0 <= a < self.persons@.len() implies (
            #[trigger] self.persons@[a])@.id < self.next_person_id as int
                && self.persons@[a]@.uuid < self.next_uuid by {
                if a < self.persons@.len() - 1 {
                    assert(self.persons@[a] == old(self).persons@[a]);
                } else {
                    assert(self.persons@[a]@ == row_v);
                }
            }
        }
        Ok(result)
    }

    fn update_person(&mut self, person: Person) -> (r: StorageResult<Person>)
        ensures
            r is Ok,
    {
        let ghost old_s = self.store();
        let now = now_millis();
        let ghost old_rows = self.persons@;
        let mut i: usize = 0;
        while i < self.persons.len()
            invariant
                i <= self.persons@.len(),
                self.persons@.len() == old_rows.len(),
                self.users@ == old(self).users@,
                self.next_person_id == old(self).next_person_id,
                self.next_user_id == old(self).next_user_id,
                self.next_uuid == old(self).next_uuid,
                old_rows == old(self).persons@,
                forall|a: int|
                    0 <= a < i ==> (#[trigger] self.persons@[a])@ == (if old_rows[a]@.id
                        == person@.id {
                        updated_person_row(old_rows[a]@, person@, now)
                    } else {
                        old_rows[a]@
                    }),
                forall|a: int|
                    i <= a < old_rows.len() ==> #[trigger] self.persons@[a] == old_rows[a],
            decreases self.persons@.len() - i,
        {
            if self.persons[i].id == person.id {
                let cur_id = self.persons[i].id;
                let cur_uuid = self.persons[i].uuid;
                let cur_created = self.persons[i].created_on;
                let newrow = PersonRow {
                    id: cur_id,
                    uuid: cur_uuid,
                    firstname: person.firstname.clone(),
                    lastname: person.lastname.clone(),
                    email: person.email.clone(),
                    phone: person.phone.clone(),
                    created_on: cur_created,
                    updated_on: Some(now),
                };
                proof {
                    assert(newrow@ =~= updated_person_row(old_rows[i as int]@, person@, now));
                }
                self.persons.set(i, newrow);
            }
            i = i + 1;
        }
        let result = Person {
            id: person.id,
            uuid: person.uuid,
            firstname: person.firstname,
            lastname: person.lastname,
            email: person.email,
            phone: person.phone,
            created_on: person.created_on,
            updated_on: Some(now),
        };
        proof {
            let ns = self.store();
            assert(ns.persons =~= update_person_rows(old_s, person@, now).persons);
            assert(ns =~= update_person_rows(old_s, person@, now));
            assert(result@ =~= (PersonV { updated_on: Some(now), ..person@ }));
            // well-formedness is preserved: every key is unchanged row by row
            assert forall|a: int, b: int| 0 <= a < b < ns.persons.len() implies ns.persons[a].id
                != ns.persons[b].id && ns.persons[a].uuid != ns.persons[b].uuid by {
                assert(ns.persons[a].id == old_s.persons[a].id && ns.persons[a].uuid
                    == old_s.persons[a].uuid);
                assert(ns.persons[b].id == old_s.persons[b].id && ns.persons[b].uuid
                    == old_s.persons[b].uuid);
            }
            assert forall|a: int| 0 <= a < ns.users.len() implies match (
            #[trigger] ns.users[a]).person_id {
                Some(pid) => person_id_taken(ns, pid),
                None => true,
            } by {
                assert(ns.users[a] == old_s.users[a]);
                match old_s.users[a].person_id {
                    Some(pid) => {
                        let w = choose|w: int|
                            0 <= w < old_s.persons.len() && old_s.persons[w].id == pid;
                        assert(ns.persons[w].id == pid);
                    },
                    None => {},
                }
            }
            assert(store_inv(ns));
            // the counters still bound every stored key
            assert forall|a: int| 0 <= a < self.persons@.len() implies (
            #[trigger] self.persons@[a])@.id < self.next_person_id as int
                && self.persons@[a]@.uuid < self.next_uuid by {
                assert(self.persons@[a]@.id == (old(self).persons@[a])@.id);
                assert(self.persons@[a]@.uuid == (old(self).persons@[a])@.uuid);
            }
        }
        Ok(result)
    }

    fn delete_person(&mut self, person: Person) -> (r: StorageResult<()>)
        ensures
            r == (if person_referenced(old(self).store(), person@.id) {
                Err::<(), StorageError>(StorageError::ConstraintViolation)
            } else {
                Ok::<(), StorageError>(())
            }),
    {
        let ghost old_s = self.store();
        // The foreign key: reject the delete while a user references the row.
        let mut i: usize = 0;
        while i < self.users.len()
            invariant
                i <= self.users@.len(),
                *self == *old(self),
                old(self).inv(),
                old_s == self.store(),
                forall|j: int|
                    0 <= j < i ==> (#[trigger] old_s.users[j]).person_id != Some(
                        person@.id,
                    ),
            decreases self.users@.len() - i,
        {
            let linked = match self.users[i].person_id {
                Some(pid) => pid == person.id,
                None => false,
            };
            if linked {
                proof {
                    assert(old_s.users[i as int].person_id == Some(person@.id));
                }
                return Err(StorageError::ConstraintViolation);
            }
            i = i + 1;
        }
        let mut old_vec: Vec<PersonRow> = Vec::new();
        core::mem::swap(&mut self.persons, &mut old_vec);
        let ghost orig = old_vec@;
        let ghost mut done: int = 0;
        proof {
            assert(orig.skip(0) =~= orig);
            reveal(Seq::filter);
            assert(person_rows_view(orig.take(0)) =~= Seq::<PersonRowV>::empty());
            assert(person_rows_view(self.persons@) =~= person_rows_view(orig.take(0)).filter((|r: PersonRowV| r.id != person@.id)));
        }
        while old_vec.len() > 0
            invariant
                0 <= done <= orig.len(),
                old_vec@ == orig.skip(done),
                self.users@ == old(self).users@,
                self.next_person_id == old(self).next_person_id,
                self.next_user_id == old(self).next_user_id,
                self.next_uuid == old(self).next_uuid,
                orig == old(self).persons@,
                person_rows_view(self.persons@) == person_rows_view(orig.take(done)).filter((|r: PersonRowV| r.id != person@.id)),
            decreases old_vec@.len(),
        {
            let row = old_vec.remove(0);
            proof {
                reveal(Seq::filter);
                assert(orig.skip(done).remove(0) =~= orig.skip(done + 1));
                assert(orig.skip(done)[0] == orig[done]);
                assert(row == orig[done]);
                assert(row@ == orig[done]@);
                assert(person_rows_view(orig.take(done + 1)).drop_last() =~= person_rows_view(
                    orig.take(done),
                ));
                assert(person_rows_view(orig.take(done + 1)).last() == orig[done]@);
            }
            if row.id != person.id {
                self.persons.push(row);
                proof {
                    reveal(Seq::filter);
                    assert((|r: PersonRowV| r.id != person@.id)(orig[done]@));
                    assert(person_rows_view(orig.take(done + 1)).filter((|r: PersonRowV| r.id != person@.id)) =~= person_rows_view(
                        orig.take(done),
                    ).filter((|r: PersonRowV| r.id != person@.id)).push(orig[done]@));
                    assert(person_rows_view(self.persons@) =~= person_rows_view(
                        orig.take(done),
                    ).filter((|r: PersonRowV| r.id != person@.id)).push(orig[done]@));
                }
            } else {
                proof {
                    reveal(Seq::filter);
                    assert(!(|r: PersonRowV| r.id != person@.id)(orig[done]@));
                    assert(person_rows_view(orig.take(done + 1)).filter((|r: PersonRowV| r.id != person@.id)) =~= person_rows_view(
                        orig.take(done),
                    ).filter((|r: PersonRowV| r.id != person@.id)));
                }
            }
            proof {
                done = done + 1;
            }
        }
        proof {
            assert(orig.take(done) =~= orig);
            let ghost full = person_rows_view(orig);
            assert(person_rows_view(self.persons@) == full.filter((|r: PersonRowV| r.id != person@.id)));
            assert(old_s.persons.filter(|r: PersonRowV| r.id != person@.id) == full.filter((|r: PersonRowV| r.id != person@.id)));
            assert(self.store() =~= remove_person(old_s, person@.id));
            assert(!person_referenced(old_s, person@.id)) by {
                if person_referenced(old_s, person@.id) {
                    let w = choose|w: int|
                        0 <= w < old_s.users.len() && old_s.users[w].person_id == Some(person@.id);
                }
            }
            // well-formedness is preserved
            let ns = self.store();
            let did = |x: PersonRowV, y: PersonRowV| x.id != y.id;
            let duu = |x: PersonRowV, y: PersonRowV| x.uuid != y.uuid;
            lemma_filter_pairwise(full, |r: PersonRowV| r.id != person@.id, did);
            lemma_filter_pairwise(full, |r: PersonRowV| r.id != person@.id, duu);
            assert(ns.persons == full.filter((|r: PersonRowV| r.id != person@.id)));
            assert forall|a: int, b: int| 0 <= a < b < ns.persons.len() implies ns.persons[a].id
                != ns.persons[b].id && ns.persons[a].uuid != ns.persons[b].uuid by {
                assert(did(full.filter((|r: PersonRowV| r.id != person@.id))[a], full.filter((|r: PersonRowV| r.id != person@.id))[b]));
                assert(duu(full.filter((|r: PersonRowV| r.id != person@.id))[a], full.filter((|r: PersonRowV| r.id != person@.id))[b]));
            }
            assert forall|a: int| 0 <= a < ns.users.len() implies match (
            #[trigger] ns.users[a]).person_id {
                Some(pid) => person_id_taken(ns, pid),
                None => true,
            } by {
                assert(ns.users[a] == old_s.users[a]);
                match old_s.users[a].person_id {
                    Some(pid) => {
                        assert(pid != person@.id);
                        let w = choose|w: int|
                            0 <= w < old_s.persons.len() && old_s.persons[w].id == pid;
                        assert((|r: PersonRowV| r.id != person@.id)(full[w]));
                        full.lemma_filter_contains(|r: PersonRowV| r.id != person@.id, w);
                        let v = choose|v: int|
                            0 <= v < ns.persons.len() && ns.persons[v] == full[w];
                    },
                    None => {},
                }
            }
            assert(store_inv(ns));
            // the counters still bound every stored key
            assert forall|a: int| 0 <= a < self.persons@.len() implies (
            #[trigger] self.persons@[a])@.id < self.next_person_id as int
                && self.persons@[a]@.uuid < self.next_uuid by {
                lemma_filter_element_index(full, |r: PersonRowV| r.id != person@.id, a);
                let w = choose|w: int| 0 <= w < full.len() && full[w] == self.persons@[a]@;
                assert((old(self).persons@[w])@ == full[w]);
            }
        }
        Ok(())
    }

    fn get_person_by_uuid(&self, uuid: u128) -> (r: StorageResult<Option<Person>>)
        ensures
            r is Ok,
    {
        match find_person_idx_by_uuid(&self.persons, uuid) {
            None => Ok(None),
            Some(i) => Ok(Some(person_from_row(&self.persons[i]))),
        }
    }

    fn get_person_by_id(&self, id: i32) -> (r: StorageResult<Option<Person>>)
        ensures
            r is Ok,
    {
        match find_person_idx_by_id(&self.persons, id) {
            None => Ok(None),
            Some(i) => Ok(Some(person_from_row(&self.persons[i]))),
        }
    }

    fn get_all_person(&self) -> (r: StorageResult<Vec<Person>>)
        ensures
            r is Ok,
    {
        let mut items: Vec<Person> = Vec::new();
        let mut i: usize = 0;
        proof {
            assert(persons_view(items@) =~= all_persons_view(self.store()).take(0));
        }
        while i < self.persons.len()
            invariant
                i <= self.persons@.len(),
                all_persons_view(self.store()).len() == self.persons@.len(),
                persons_view(items@) == all_persons_view(self.store()).take(i as int),
            decreases self.persons@.len() - i,
        {
            let p = person_from_row(&self.persons[i]);
            let ghost pv = p@;
            proof {
                assert(persons_view(items@).len() == items@.len());
                assert(items@.len() == i);
            }
            items.push(p);
            proof {
                assert(person_rows_view(self.persons@)[i as int] == self.persons@[i as int]@);
                assert(self.store().persons[i as int] == self.persons@[i as int]@);
                assert(all_persons_view(self.store())[i as int] == person_entity(
                    self.store().persons[i as int],
                ));
                assert(items@.len() == i + 1);
                assert(items@[i as int]@ == pv);
                assert(persons_view(items@)[i as int] == pv);
                assert(persons_view(items@) =~= all_persons_view(self.store()).take(i + 1));
            }
            i = i + 1;
        }
        proof {
            assert(all_persons_view(self.store()).take(self.persons@.len() as int)
                =~= all_persons_view(self.store()));
        }
        Ok(sort_persons(items))
    }
}

} // verus!
