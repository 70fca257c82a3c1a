//! The relational store the service runs against, modelled as four
//! append-only tables with the schema's integrity rules as an invariant:
//! unique ids per table, unique emails, a unique (user, group) pair per
//! membership, and foreign keys from groups, memberships and activities
//! into the tables they reference.
//!
//! The mutating operations mirror the write paths of the service: creating
//! a user, the atomic create-group-and-enrol-owner transaction, the
//! conflict-tolerant (idempotent) join, and logging an activity. Each states
//! exactly when it succeeds and that a failed operation leaves the store
//! untouched.

use vstd::prelude::*;

use crate::model::Activity;
use crate::model::Group;
use crate::model::GroupMembership;
use crate::model::ServiceError;
use crate::model::User;

verus! {

/// Some user row carries this id.
pub open spec fn user_id_taken(users: Seq<User>, id: u128) -> bool {
    exists|i: int| 0 <= i < users.len() && users[i].id == id
}

/// Some user row carries this email.
pub open spec fn email_taken(users: Seq<User>, email: Seq<char>) -> bool {
    exists|i: int| 0 <= i < users.len() && users[i].email@ == email
}

/// Some group row carries this id.
pub open spec fn group_id_taken(groups: Seq<Group>, id: u128) -> bool {
    exists|i: int| 0 <= i < groups.len() && groups[i].id == id
}

/// Some membership row carries this id.
pub open spec fn membership_id_taken(ms: Seq<GroupMembership>, id: u128) -> bool {
    exists|i: int| 0 <= i < ms.len() && ms[i].id == id
}

/// Some activity row carries this id.
pub open spec fn activity_id_taken(acts: Seq<Activity>, id: u128) -> bool {
    exists|i: int| 0 <= i < acts.len() && acts[i].id == id
}

/// Some membership row links this user to this group.
pub open spec fn pair_present(ms: Seq<GroupMembership>, user_id: u128, group_id: u128) -> bool {
    exists|i: int| 0 <= i < ms.len() && ms[i].user_id == user_id && ms[i].group_id == group_id
}

/// How many membership rows link this user to this group.
pub open spec fn pair_count(ms: Seq<GroupMembership>, user_id: u128, group_id: u128) -> nat {
    ms.filter(|m: GroupMembership| m.user_id == user_id && m.group_id == group_id).len()
}

proof fn lemma_user_id_taken_push(users: Seq<User>, u: User, id: u128)
    ensures
        user_id_taken(users.push(u), id) == (user_id_taken(users, id) || u.id == id),
{
    if user_id_taken(users, id) {
        let i = choose|i: int| 0 <= i < users.len() && users[i].id == id;
        assert(users.push(u)[i].id == id);
    }
    if u.id == id {
        assert(users.push(u)[users.len() as int].id == id);
    }
    if user_id_taken(users.push(u), id) && u.id != id {
        let i = choose|i: int| 0 <= i < users.push(u).len() && users.push(u)[i].id == id;
        assert(0 <= i < users.len() && users[i].id == id);
    }
}

proof fn lemma_group_id_taken_push(groups: Seq<Group>, g: Group, id: u128)
    ensures
        group_id_taken(groups.push(g), id) == (group_id_taken(groups, id) || g.id == id),
{
    if group_id_taken(groups, id) {
        let i = choose|i: int| 0 <= i < groups.len() && groups[i].id == id;
        assert(groups.push(g)[i].id == id);
    }
    if g.id == id {
        assert(groups.push(g)[groups.len() as int].id == id);
    }
    if group_id_taken(groups.push(g), id) && g.id != id {
        let i = choose|i: int| 0 <= i < groups.push(g).len() && groups.push(g)[i].id == id;
        assert(0 <= i < groups.len() && groups[i].id == id);
    }
}

/// Membership rows that obey the pair-uniqueness rule hold exactly one row
/// for a present (user, group) pair and none for an absent one.
pub proof fn lemma_unique_pair_count(ms: Seq<GroupMembership>, user_id: u128, group_id: u128)
    requires
        forall|i: int, j: int|
            0 <= i < j < ms.len() ==> !(ms[i].user_id == ms[j].user_id && ms[i].group_id
                == ms[j].group_id),
    ensures
        pair_count(ms, user_id, group_id) == if pair_present(ms, user_id, group_id) {
            1nat
        } else {
            0nat
        },
    decreases ms.len(),
{
    let pred = |m: GroupMembership| m.user_id == user_id && m.group_id == group_id;
    if ms.len() == 0 {
        ms.lemma_filter_len(pred);
    } else {
        let front = ms.drop_last();
        let last = ms.last();
        assert(ms =~= front.push(last));
        front.lemma_filter_push(last, pred);
        assert forall|i: int, j: int|
            0 <= i < j < front.len() implies !(front[i].user_id == front[j].user_id
            && front[i].group_id == front[j].group_id) by {
            assert(front[i] == ms[i] && front[j] == ms[j]);
        }
        lemma_unique_pair_count(front, user_id, group_id);
        if last.user_id == user_id && last.group_id == group_id {
            if pair_present(front, user_id, group_id) {
                let i = choose|i: int|
                    0 <= i < front.len() && front[i].user_id == user_id && front[i].group_id
                        == group_id;
                assert(ms[i] == front[i]);
                assert(false);
            }
            assert(ms[ms.len() - 1] == last);
        } else {
            if pair_present(ms, user_id, group_id) {
                let i = choose|i: int|
                    0 <= i < ms.len() && ms[i].user_id == user_id && ms[i].group_id == group_id;
                assert(i < ms.len() - 1);
                assert(front[i] == ms[i]);
                assert(pair_present(front, user_id, group_id));
            }
            if pair_present(front, user_id, group_id) {
                let i = choose|i: int|
                    0 <= i < front.len() && front[i].user_id == user_id && front[i].group_id
                        == group_id;
                assert(ms[i] == front[i]);
                assert(pair_present(ms, user_id, group_id));
            }
        }
    }
}

proof fn lemma_wf_after_user_insert(pre: Store, post: Store, u: User)
    requires
        pre.wf(),
        !user_id_taken(pre.users@, u.id),
        !email_taken(pre.users@, u.email@),
        post.users@ == pre.users@.push(u),
        post.groups@ == pre.groups@,
        post.memberships@ == pre.memberships@,
        post.activities@ == pre.activities@,
    ensures
        post.wf(),
{
    let us = post.users@;
    assert forall|i: int, j: int| 0 <= i < j < us.len() implies us[i].id != us[j].id by {
        if j == us.len() - 1 {
            assert(us[i] == pre.users@[i]);
            assert(pre.users@[i].id != u.id);
        } else {
            assert(us[i] == pre.users@[i] && us[j] == pre.users@[j]);
        }
    }
    assert forall|i: int, j: int| 0 <= i < j < us.len() implies us[i].email@ != us[j].email@ by {
        if j == us.len() - 1 {
            assert(us[i] == pre.users@[i]);
            assert(pre.users@[i].email@ != u.email@);
        } else {
            assert(us[i] == pre.users@[i] && us[j] == pre.users@[j]);
        }
    }
    assert forall|i: int|
        0 <= i < post.groups@.len() implies user_id_taken(us, post.groups@[i].owner_id) by {
        lemma_user_id_taken_push(pre.users@, u, post.groups@[i].owner_id);
    }
    assert forall|i: int|
        0 <= i < post.memberships@.len() implies user_id_taken(us, post.memberships@[i].user_id)
            && group_id_taken(post.groups@, post.memberships@[i].group_id) by {
        lemma_user_id_taken_push(pre.users@, u, post.memberships@[i].user_id);
    }
    assert forall|i: int|
        0 <= i < post.activities@.len() implies user_id_taken(us, post.activities@[i].user_id)
            && group_id_taken(post.groups@, post.activities@[i].group_id) by {
        lemma_user_id_taken_push(pre.users@, u, post.activities@[i].user_id);
    }
}

proof fn lemma_wf_after_group_insert(pre: Store, post: Store, g: Group, m: GroupMembership)
    requires
        pre.wf(),
        !group_id_taken(pre.groups@, g.id),
        !membership_id_taken(pre.memberships@, m.id),
        user_id_taken(pre.users@, g.owner_id),
        m.user_id == g.owner_id,
        m.group_id == g.id,
        post.users@ == pre.users@,
        post.groups@ == pre.groups@.push(g),
        post.memberships@ == pre.memberships@.push(m),
        post.activities@ == pre.activities@,
    ensures
        post.wf(),
{
    let gs = post.groups@;
    let ms = post.memberships@;
    assert forall|i: int, j: int| 0 <= i < j < gs.len() implies gs[i].id != gs[j].id by {
        if j == gs.len() - 1 {
            assert(gs[i] == pre.groups@[i]);
            assert(pre.groups@[i].id != g.id);
        } else {
            assert(gs[i] == pre.groups@[i] && gs[j] == pre.groups@[j]);
        }
    }
    assert forall|i: int, j: int| 0 <= i < j < ms.len() implies ms[i].id != ms[j].id by {
        if j == ms.len() - 1 {
            assert(ms[i] == pre.memberships@[i]);
            assert(pre.memberships@[i].id != m.id);
        } else {
            assert(ms[i] == pre.memberships@[i] && ms[j] == pre.memberships@[j]);
        }
    }
    assert forall|i: int, j: int|
        0 <= i < j < ms.len() implies !(ms[i].user_id == ms[j].user_id && ms[i].group_id
            == ms[j].group_id) by {
        if j == ms.len() - 1 {
            assert(ms[i] == pre.memberships@[i]);
            // The fresh group id is referenced by no existing membership.
            assert(group_id_taken(pre.groups@, pre.memberships@[i].group_id));
        } else {
            assert(ms[i] == pre.memberships@[i] && ms[j] == pre.memberships@[j]);
        }
    }
    assert forall|i: int|
        0 <= i < gs.len() implies user_id_taken(post.users@, gs[i].owner_id) by {
        if i < gs.len() - 1 {
            assert(gs[i] == pre.groups@[i]);
        }
    }
    assert forall|i: int|
        0 <= i < ms.len() implies user_id_taken(post.users@, ms[i].user_id) && group_id_taken(
            gs,
            ms[i].group_id,
        ) by {
        if i == ms.len() - 1 {
            assert(gs[pre.groups@.len() as int].id == g.id);
        } else {
            assert(ms[i] == pre.memberships@[i]);
            lemma_group_id_taken_push(pre.groups@, g, pre.memberships@[i].group_id);
        }
    }
    assert forall|i: int|
        0 <= i < post.activities@.len() implies user_id_taken(
            post.users@,
            post.activities@[i].user_id,
        ) && group_id_taken(gs, post.activities@[i].group_id) by {
        lemma_group_id_taken_push(pre.groups@, g, post.activities@[i].group_id);
    }
}

proof fn lemma_wf_after_membership_insert(pre: Store, post: Store, m: GroupMembership)
    requires
        pre.wf(),
        !membership_id_taken(pre.memberships@, m.id),
        !pair_present(pre.memberships@, m.user_id, m.group_id),
        user_id_taken(pre.users@, m.user_id),
        group_id_taken(pre.groups@, m.group_id),
        post.users@ == pre.users@,
        post.groups@ == pre.groups@,
        post.memberships@ == pre.memberships@.push(m),
        post.activities@ == pre.activities@,
    ensures
        post.wf(),
{
    let ms = post.memberships@;
    assert forall|i: int, j: int| 0 <= i < j < ms.len() implies ms[i].id != ms[j].id by {
        if j == ms.len() - 1 {
            assert(ms[i] == pre.memberships@[i]);
            assert(pre.memberships@[i].id != m.id);
        } else {
            assert(ms[i] == pre.memberships@[i] && ms[j] == pre.memberships@[j]);
        }
    }
    assert forall|i: int, j: int|
        0 <= i < j < ms.len() implies !(ms[i].user_id == ms[j].user_id && ms[i].group_id
            == ms[j].group_id) by {
        if j == ms.len() - 1 {
            assert(ms[i] == pre.memberships@[i]);
            assert(!(pre.memberships@[i].user_id == m.user_id && pre.memberships@[i].group_id
                == m.group_id));
        } else {
            assert(ms[i] == pre.memberships@[i] && ms[j] == pre.memberships@[j]);
        }
    }
    assert forall|i: int|
        0 <= i < ms.len() implies user_id_taken(post.users@, ms[i].user_id) && group_id_taken(
            post.groups@,
            ms[i].group_id,
        ) by {
        if i < ms.len() - 1 {
            assert(ms[i] == pre.memberships@[i]);
        }
    }
}

proof fn lemma_wf_after_activity_insert(pre: Store, post: Store, a: Activity)
    requires
        pre.wf(),
        !activity_id_taken(pre.activities@, a.id),
        user_id_taken(pre.users@, a.user_id),
        group_id_taken(pre.groups@, a.group_id),
        post.users@ == pre.users@,
        post.groups@ == pre.groups@,
        post.memberships@ == pre.memberships@,
        post.activities@ == pre.activities@.push(a),
    ensures
        post.wf(),
{
    let acts = post.activities@;
    assert forall|i: int, j: int| 0 <= i < j < acts.len() implies acts[i].id != acts[j].id by {
        if j == acts.len() - 1 {
            assert(acts[i] == pre.activities@[i]);
            assert(pre.activities@[i].id != a.id);
        } else {
            assert(acts[i] == pre.activities@[i] && acts[j] == pre.activities@[j]);
        }
    }
    assert forall|i: int|
        0 <= i < acts.len() implies user_id_taken(post.users@, acts[i].user_id) && group_id_taken(
            post.groups@,
            acts[i].group_id,
        ) by {
        if i < acts.len() - 1 {
            assert(acts[i] == pre.activities@[i]);
        }
    }
}

/// The four tables of the service.
pub struct Store {
    pub users: Vec<User>,
    pub groups: Vec<Group>,
    pub memberships: Vec<GroupMembership>,
    pub activities: Vec<Activity>,
}

impl Store {
    /// The schema's integrity rules: per-table id uniqueness, email
    /// uniqueness, uniqueness of the (user, group) membership pair, and
    /// every foreign key resolving.
    pub open spec fn wf(self) -> bool {
        &&& forall|i: int, j: int|
            0 <= i < j < self.users@.len() ==> self.users@[i].id != self.users@[j].id
        &&& forall|i: int, j: int|
            0 <= i < j < self.users@.len() ==> self.users@[i].email@ != self.users@[j].email@
        &&& forall|i: int, j: int|
            0 <= i < j < self.groups@.len() ==> self.groups@[i].id != self.groups@[j].id
        &&& forall|i: int, j: int|
            0 <= i < j < self.memberships@.len() ==> self.memberships@[i].id
                != self.memberships@[j].id
        &&& forall|i: int, j: int|
            0 <= i < j < self.memberships@.len() ==> !(self.memberships@[i].user_id
                == self.memberships@[j].user_id && self.memberships@[i].group_id
                == self.memberships@[j].group_id)
        &&& forall|i: int, j: int|
            0 <= i < j < self.activities@.len() ==> self.activities@[i].id
                != self.activities@[j].id
        &&& forall|i: int|
            0 <= i < self.groups@.len() ==> user_id_taken(self.users@, self.groups@[i].owner_id)
        &&& forall|i: int|
            0 <= i < self.memberships@.len() ==> user_id_taken(
                self.users@,
                self.memberships@[i].user_id,
            ) && group_id_taken(self.groups@, self.memberships@[i].group_id)
        &&& forall|i: int|
            0 <= i < self.activities@.len() ==> user_id_taken(
                self.users@,
                self.activities@[i].user_id,
            ) && group_id_taken(self.groups@, self.activities@[i].group_id)
    }

    /// An empty store is well formed.
    pub fn new() -> (s: Store)
        ensures
            s.wf(),
            s.users@.len() == 0,
            s.groups@.len() == 0,
            s.memberships@.len() == 0,
            s.activities@.len() == 0,
    {
        Store { users: Vec::new(), groups: Vec::new(), memberships: Vec::new(), activities: Vec::new() }
    }

    /// Whether a user row with this id exists.
    pub fn has_user_id(&self, id: u128) -> (r: bool)
        ensures
            r == user_id_taken(self.users@, id),
    {
        let mut i: usize = 0;
        while i < self.users.len()
            invariant
                i <= self.users@.len(),
                forall|k: int| 0 <= k < i ==> self.users@[k].id != id,
            decreases self.users@.len() - i,
        {
            if self.users[i].id == id {
                return true;
            }
            i += 1;
        }
        false
    }

    /// Whether a user row with this email exists.
    pub fn has_email(&self, email: &String) -> (r: bool)
        ensures
            r == email_taken(self.users@, email@),
    {
        let mut i: usize = 0;
        while i < self.users.len()
            invariant
                i <= self.users@.len(),
                forall|k: int| 0 <= k < i ==> self.users@[k].email@ != email@,
            decreases self.users@.len() - i,
        {
            if self.users[i].email == *email {
                return true;
            }
            i += 1;
        }
        false
    }

    /// Whether a group row with this id exists.
    pub fn has_group_id(&self, id: u128) -> (r: bool)
        ensures
            r == group_id_taken(self.groups@, id),
    {
        let mut i: usize = 0;
        while i < self.groups.len()
            invariant
                i <= self.groups@.len(),
                forall|k: int| 0 <= k < i ==> self.groups@[k].id != id,
            decreases self.groups@.len() - i,
        {
            if self.groups[i].id == id {
                return true;
            }
            i += 1;
        }
        false
    }

    /// Whether a membership row with this id exists.
    pub fn has_membership_id(&self, id: u128) -> (r: bool)
        ensures
            r == membership_id_taken(self.memberships@, id),
    {
        let mut i: usize = 0;
        while i < self.memberships.len()
            invariant
                i <= self.memberships@.len(),
                forall|k: int| 0 <= k < i ==> self.memberships@[k].id != id,
            decreases self.memberships@.len() - i,
        {
            if self.memberships[i].id == id {
                return true;
            }
            i += 1;
        }
        false
    }

    /// Whether an activity row with this id exists.
    pub fn has_activity_id(&self, id: u128) -> (r: bool)
        ensures
            r == activity_id_taken(self.activities@, id),
    {
        let mut i: usize = 0;
        while i < self.activities.len()
            invariant
                i <= self.activities@.len(),
                forall|k: int| 0 <= k < i ==> self.activities@[k].id != id,
            decreases self.activities@.len() - i,
        {
            if self.activities[i].id == id {
                return true;
            }
            i += 1;
        }
        false
    }

    /// Whether a membership row links this user to this group.
    pub fn has_pair(&self, user_id: u128, group_id: u128) -> (r: bool)
        ensures
            r == pair_present(self.memberships@, user_id, group_id),
    {
        let mut i: usize = 0;
        while i < self.memberships.len()
            invariant
                i <= self.memberships@.len(),
                forall|k: int|
                    0 <= k < i ==> !(self.memberships@[k].user_id == user_id
                        && self.memberships@[k].group_id == group_id),
            decreases self.memberships@.len() - i,
        {
            if self.memberships[i].user_id == user_id && self.memberships[i].group_id == group_id {
                return true;
            }
            i += 1;
        }
        false
    }

    /// Insert a user row. Succeeds exactly when the id and the email are
    /// both unused; on failure nothing changes.
    pub fn insert_user(&mut self, id: u128, email: String, name: String, now: i64) -> (r: Result<
        User,
        ServiceError,
    >)
        requires
            old(self).wf(),
        ensures
            final(self).wf(),
            r is Ok <==> !user_id_taken(old(self).users@, id) && !email_taken(
                old(self).users@,
                email@,
            ),
            r is Err ==> final(self).users@ == old(self).users@,
            r matches Ok(u) ==> u.id == id && u.email == email && u.name == name && u.created_at
                == now && final(self).users@ == old(self).users@.push(u),
            final(self).groups@ == old(self).groups@,
            final(self).memberships@ == old(self).memberships@,
            final(self).activities@ == old(self).activities@,
    {
        if self.has_user_id(id) {
            return Err(ServiceError {
                message: "duplicate key value violates unique constraint on users.id".to_owned(),
            });
        }
        if self.has_email(&email) {
            return Err(ServiceError {
                message: "duplicate key value violates unique constraint on users.email".to_owned(),
            });
        }
        let u = User { id, email, name, created_at: now };
        self.users.push(u.clone());
        proof {
            lemma_wf_after_user_insert(*old(self), *self, u);
        }
        Ok(u)
    }

    /// The create-group transaction: insert the group row and the owner's
    /// membership row as one atomic unit. Succeeds exactly when the group
    /// id and the membership id are unused and the owner exists; on any
    /// failure neither row persists.
    pub fn create_group(
        &mut self,
        group_id: u128,
        membership_id: u128,
        name: String,
        owner_id: u128,
        goal_days: i32,
        now: i64,
    ) -> (r: Result<Group, ServiceError>)
        requires
            old(self).wf(),
        ensures
            final(self).wf(),
            r is Ok <==> !group_id_taken(old(self).groups@, group_id) && !membership_id_taken(
                old(self).memberships@,
                membership_id,
            ) && user_id_taken(old(self).users@, owner_id),
            r is Err ==> final(self).groups@ == old(self).groups@ && final(self).memberships@ == old(
                self,
            ).memberships@,
            r matches Ok(g) ==> g.id == group_id && g.name == name && g.owner_id == owner_id
                && g.goal_days == goal_days && g.created_at == now && final(self).groups@ == old(
                self,
            ).groups@.push(g) && final(self).memberships@ == old(self).memberships@.push(
                (GroupMembership {
                    id: membership_id,
                    user_id: owner_id,
                    group_id: group_id,
                    created_at: now,
                }),
            ),
            final(self).users@ == old(self).users@,
            final(self).activities@ == old(self).activities@,
    {
        if self.has_group_id(group_id) {
            return Err(ServiceError {
                message: "duplicate key value violates unique constraint on groups.id".to_owned(),
            });
        }
        if self.has_membership_id(membership_id) {
            return Err(ServiceError {
                message: "duplicate key value violates unique constraint on group_memberships.id"
                    .to_owned(),
            });
        }
        if !self.has_user_id(owner_id) {
            return Err(ServiceError {
                message: "insert into groups violates foreign key constraint on owner_id"
                    .to_owned(),
            });
        }
        let g = Group { id: group_id, name, owner_id, goal_days, created_at: now };
        let m = GroupMembership { id: membership_id, user_id: owner_id, group_id, created_at: now };
        let ghost gm = m;
        self.groups.push(g.clone());
        self.memberships.push(m);
        proof {
            lemma_wf_after_group_insert(*old(self), *self, g, gm);
        }
        Ok(g)
    }

    /// The conflict-tolerant join: insert a membership row, treating a
    /// duplicate (user, group) pair as a silent no-op. Succeeds exactly when
    /// the pair is already present, or the membership id is unused and both
    /// references resolve. After any success exactly one row links the pair;
    /// on failure nothing changes.
    pub fn insert_membership(&mut self, id: u128, user_id: u128, group_id: u128, now: i64) -> (r:
        Result<(), ServiceError>)
        requires
            old(self).wf(),
        ensures
            final(self).wf(),
            r is Ok <==> pair_present(old(self).memberships@, user_id, group_id) || (
            !membership_id_taken(old(self).memberships@, id) && user_id_taken(
                old(self).users@,
                user_id,
            ) && group_id_taken(old(self).groups@, group_id)),
            pair_present(old(self).memberships@, user_id, group_id) ==> final(self).memberships@ == old(
                self,
            ).memberships@,
            r is Err ==> final(self).memberships@ == old(self).memberships@,
            r is Ok && !pair_present(old(self).memberships@, user_id, group_id)
                ==> final(self).memberships@ == old(self).memberships@.push(
                (GroupMembership { id, user_id, group_id, created_at: now }),
            ),
            r is Ok ==> pair_present(final(self).memberships@, user_id, group_id),
            final(self).users@ == old(self).users@,
            final(self).groups@ == old(self).groups@,
            final(self).activities@ == old(self).activities@,
    {
        if self.has_pair(user_id, group_id) {
            return Ok(());
        }
        if self.has_membership_id(id) {
            return Err(ServiceError {
                message: "duplicate key value violates unique constraint on group_memberships.id"
                    .to_owned(),
            });
        }
        if !self.has_user_id(user_id) {
            return Err(ServiceError {
                message: "insert into group_memberships violates foreign key constraint on user_id"
                    .to_owned(),
            });
        }
        if !self.has_group_id(group_id) {
            return Err(ServiceError {
                message:
                    "insert into group_memberships violates foreign key constraint on group_id"
                    .to_owned(),
            });
        }
        let m = GroupMembership { id, user_id, group_id, created_at: now };
        let ghost gm = m;
        self.memberships.push(m);
        proof {
            lemma_wf_after_membership_insert(*old(self), *self, gm);
            assert(self.memberships@[old(self).memberships@.len() as int] == gm);
        }
        Ok(())
    }

    /// Insert an activity row. Succeeds exactly when the id is unused and
    /// both references resolve; the acting user need not be a member of the
    /// group. On failure nothing changes.
    pub fn insert_activity(
        &mut self,
        id: u128,
        user_id: u128,
        group_id: u128,
        description: String,
        now: i64,
    ) -> (r: Result<Activity, ServiceError>)
        requires
            old(self).wf(),
        ensures
            final(self).wf(),
            r is Ok <==> !activity_id_taken(old(self).activities@, id) && user_id_taken(
                old(self).users@,
                user_id,
            ) && group_id_taken(old(self).groups@, group_id),
            r is Err ==> final(self).activities@ == old(self).activities@,
            r matches Ok(a) ==> a.id == id && a.user_id == user_id && a.group_id == group_id
                && a.description == description && a.created_at == now && final(self).activities@ == old(
                self,
            ).activities@.push(a),
            final(self).users@ == old(self).users@,
            final(self).groups@ == old(self).groups@,
            final(self).memberships@ == old(self).memberships@,
    {
        if self.has_activity_id(id) {
            return Err(ServiceError {
                message: "duplicate key value violates unique constraint on activities.id"
                    .to_owned(),
            });
        }
        if !self.has_user_id(user_id) {
            return Err(ServiceError {
                message: "insert into activities violates foreign key constraint on user_id"
                    .to_owned(),
            });
        }
        if !self.has_group_id(group_id) {
            return Err(ServiceError {
                message: "insert into activities violates foreign key constraint on group_id"
                    .to_owned(),
            });
        }
        let a = Activity { id, user_id, group_id, description, created_at: now };
        self.activities.push(a.clone());
        proof {
            lemma_wf_after_activity_insert(*old(self), *self, a);
        }
        Ok(a)
    }
}

} // verus!
