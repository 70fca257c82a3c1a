//! The write endpoints as the service runs them: each draws a fresh random
//! identifier (and the current instant) and applies the matching store
//! operation.
//!
//! Nothing can be promised of a random identifier or of the clock, so each
//! endpoint states what holds whatever values were drawn: the returned
//! record carries the values used, success implies the drawn id was unused,
//! and every failure leaves the store untouched. Success is still owed where
//! no drawn id can collide: each endpoint promises `Ok` when the table it
//! draws ids for is empty and its references resolve.

use vstd::prelude::*;

use crate::model::Activity;
use crate::model::CreateActivityInput;
use crate::model::CreateGroupInput;
use crate::model::CreateUserInput;
use crate::model::Group;
use crate::model::JoinGroupInput;
use crate::model::ServiceError;
use crate::model::User;
use crate::store::Store;
use crate::store::email_taken;
use crate::store::group_id_taken;
use crate::store::pair_count;
use crate::store::pair_present;
use crate::store::user_id_taken;

verus! {

/// Relies on uuid::Uuid::new_v4, converted through Uuid::as_u128: a freshly
/// drawn random version-4 identifier. Nothing is promised of the value;
/// callers handle every outcome. The call aborts only if the operating
/// system's randomness source fails — an environmental failure no
/// precondition could exclude.
#[verifier::external_body]
fn fresh_id() -> u128 {
    uuid::Uuid::new_v4().as_u128()
}

/// Relies on chrono::Utc::now, converted through DateTime::timestamp_millis:
/// the current instant in milliseconds. Nothing is promised of the value;
/// callers handle every outcome. The call aborts only if the system clock
/// reads before the Unix epoch — an environmental failure no precondition
/// could exclude.
#[verifier::external_body]
fn current_millis() -> i64 {
    chrono::Utc::now().timestamp_millis()
}

/// Create a user under a fresh random id at the current instant.
pub fn create_user(store: &mut Store, input: CreateUserInput) -> (r: Result<
    User,
    ServiceError,
>)
    requires
        old(store).wf(),
    ensures
        final(store).wf(),
        r matches Ok(u) ==> u.email == input.email && u.name == input.name && !user_id_taken(
            old(store).users@,
            u.id,
        ) && !email_taken(old(store).users@, input.email@) && final(store).users@ == old(store).users@.push(u),
        r is Err ==> final(store).users@ == old(store).users@,
        email_taken(old(store).users@, input.email@) ==> r is Err,
        old(store).users@.len() == 0 ==> r is Ok,
        final(store).groups@ == old(store).groups@,
        final(store).memberships@ == old(store).memberships@,
        final(store).activities@ == old(store).activities@,
{
    let id = fresh_id();
    let now = current_millis();
    store.insert_user(id, input.email, input.name, now)
}

/// Create a group under fresh random ids at the current instant, enrolling
/// the owner in the same atomic step.
pub fn create_group(store: &mut Store, input: CreateGroupInput) -> (r: Result<
    Group,
    ServiceError,
>)
    requires
        old(store).wf(),
    ensures
        final(store).wf(),
        r matches Ok(g) ==> g.name == input.name && g.owner_id == input.owner_id && g.goal_days
            == input.goal_days && final(store).groups@ == old(store).groups@.push(g) && final(
            store).memberships@
            == old(store).memberships@.push(final(store).memberships@.last()) && final(store).memberships@.last().user_id == input.owner_id && final(store).memberships@.last().group_id
            == g.id && final(store).memberships@.last().created_at == g.created_at,
        r is Ok ==> user_id_taken(old(store).users@, input.owner_id),
        !user_id_taken(old(store).users@, input.owner_id) ==> r is Err,
        old(store).groups@.len() == 0 && old(store).memberships@.len() == 0 && user_id_taken(
            old(store).users@,
            input.owner_id,
        ) ==> r is Ok,
        r is Err ==> final(store).groups@ == old(store).groups@ && final(store).memberships@ == old(store).memberships@,
        final(store).users@ == old(store).users@,
        final(store).activities@ == old(store).activities@,
{
    let group_id = fresh_id();
    let membership_id = fresh_id();
    let now = current_millis();
    store.create_group(group_id, membership_id, input.name, input.owner_id, input.goal_days, now)
}

/// Join a group under a fresh random membership id at the current instant.
/// A pair already enrolled is absorbed silently; after any success exactly
/// one membership row links the pair.
pub fn join_group(store: &mut Store, group_id: u128, input: JoinGroupInput) -> (r: Result<
    (),
    ServiceError,
>)
    requires
        old(store).wf(),
    ensures
        final(store).wf(),
        pair_present(old(store).memberships@, input.user_id, group_id) ==> r is Ok && final(store).memberships@ == old(store).memberships@,
        r is Ok ==> pair_present(final(store).memberships@, input.user_id, group_id),
        r is Ok ==> pair_count(final(store).memberships@, input.user_id, group_id) == 1,
        r is Err ==> final(store).memberships@ == old(store).memberships@,
        old(store).memberships@.len() == 0 && user_id_taken(old(store).users@, input.user_id)
            && group_id_taken(old(store).groups@, group_id) ==> r is Ok,
        !pair_present(old(store).memberships@, input.user_id, group_id) && !user_id_taken(
            old(store).users@,
            input.user_id,
        ) ==> r is Err,
        !pair_present(old(store).memberships@, input.user_id, group_id) && !group_id_taken(
            old(store).groups@,
            group_id,
        ) ==> r is Err,
        r is Ok && !pair_present(old(store).memberships@, input.user_id, group_id) ==> final(store).memberships@ == old(store).memberships@.push(final(store).memberships@.last()) && final(store).memberships@.last().user_id == input.user_id && final(store).memberships@.last().group_id
            == group_id,
        final(store).users@ == old(store).users@,
        final(store).groups@ == old(store).groups@,
        final(store).activities@ == old(store).activities@,
{
    let membership_id = fresh_id();
    let now = current_millis();
    let r = store.insert_membership(membership_id, input.user_id, group_id, now);
    proof {
        if r is Ok {
            crate::store::lemma_unique_pair_count(store.memberships@, input.user_id, group_id);
        }
    }
    r
}

/// Log an activity under a fresh random id at the current instant.
pub fn create_activity(store: &mut Store, group_id: u128, input: CreateActivityInput) -> (r:
    Result<Activity, ServiceError>)
    requires
        old(store).wf(),
    ensures
        final(store).wf(),
        r matches Ok(a) ==> a.user_id == input.user_id && a.group_id == group_id && a.description
            == input.description && final(store).activities@ == old(store).activities@.push(a),
        r is Ok ==> user_id_taken(old(store).users@, input.user_id) && group_id_taken(
            old(store).groups@,
            group_id,
        ),
        !user_id_taken(old(store).users@, input.user_id) ==> r is Err,
        !group_id_taken(old(store).groups@, group_id) ==> r is Err,
        old(store).activities@.len() == 0 && user_id_taken(old(store).users@, input.user_id)
            && group_id_taken(old(store).groups@, group_id) ==> r is Ok,
        r is Err ==> final(store).activities@ == old(store).activities@,
        final(store).users@ == old(store).users@,
        final(store).groups@ == old(store).groups@,
        final(store).memberships@ == old(store).memberships@,
{
    let id = fresh_id();
    let now = current_millis();
    store.insert_activity(id, input.user_id, group_id, input.description, now)
}

} // verus!
