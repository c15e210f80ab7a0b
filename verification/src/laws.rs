//! Laws that hold across storage operations, stated over the store model the
//! port's contracts use.

use vstd::prelude::*;
use crate::entities::PersonV;
use crate::model::{
    StoreModel, created_person_row, insert_person, person_by_uuid_view, person_entity,
    person_id_taken, person_uuid_taken,
};

verus! {

/// Round trip: creating a person and immediately fetching it by the returned
/// stable identifier yields exactly the entity the create returned — the
/// caller's text fields, the backend-assigned keys, `created_on` stamped, and
/// `updated_on` absent on both sides.
pub proof fn lemma_person_create_round_trip(
    s: StoreModel,
    p: PersonV,
    id: int,
    uuid: u128,
    now: i64,
)
    ensures
        person_by_uuid_view(insert_person(s, created_person_row(p, id, uuid, now)), uuid) == Some(
            person_entity(created_person_row(p, id, uuid, now)),
        ),
{
    let row = created_person_row(p, id, uuid, now);
    let ns = insert_person(s, row);
    assert(ns.persons.last() == row);
}

/// Creation is not idempotent: the keys a create assigns are fresh for the
/// store it runs against, so two consecutive creates — even with identical
/// field values — produce rows with distinct ids and distinct stable
/// identifiers. The premises are exactly what the second create's contract
/// states about the store the first one left behind.
pub proof fn lemma_creates_assign_distinct_keys(
    s: StoreModel,
    p1: PersonV,
    id1: int,
    uuid1: u128,
    now1: i64,
    id2: int,
    uuid2: u128,
)
    requires
        !person_id_taken(insert_person(s, created_person_row(p1, id1, uuid1, now1)), id2),
        !person_uuid_taken(insert_person(s, created_person_row(p1, id1, uuid1, now1)), uuid2),
    ensures
        id1 != id2,
        uuid1 != uuid2,
{
    let ns = insert_person(s, created_person_row(p1, id1, uuid1, now1));
    assert(ns.persons[s.persons.len() as int].id == id1);
    assert(ns.persons[s.persons.len() as int].uuid == uuid1);
}

} // verus!
