//! The read side of the service: the plain listings and the group summary
//! with its per-user ranking.
//!
//! Each listing is specified as a filter-and-join over the store's tables,
//! returned in a stated order: users, group activities and a user's groups
//! newest first; members oldest-joined first; the ranking by count
//! descending with byte-lexicographic name order breaking ties.

use vstd::prelude::*;

use crate::model::Activity;
use crate::model::ActivityWithUser;
use crate::model::Group;
use crate::model::GroupActivitiesSummary;
use crate::model::GroupMember;
use crate::model::GroupMembership;
use crate::model::User;
use crate::model::UserActivityCount;
use crate::model::UserGroup;
use crate::order::RowOrder;
use crate::order::lemma_lex_le_total;
use crate::order::lemma_lex_le_trans;
use crate::order::sort_rows;
use crate::order::sorted_rows;
use crate::order::str_le;
use crate::order::str_le_exec;
use crate::store::Store;
use crate::store::pair_present;
use crate::store::user_id_taken;

verus! {

// ---------------------------------------------------------------------------
// Row orders
// ---------------------------------------------------------------------------
/// Users are listed newest first.
impl RowOrder for User {
    open spec fn le_spec(self, other: Self) -> bool {
        self.created_at >= other.created_at
    }

    proof fn lemma_total(a: Self, b: Self) {
    }

    proof fn lemma_trans(a: Self, b: Self, c: Self) {
    }

    fn le(&self, other: &Self) -> (r: bool) {
        self.created_at >= other.created_at
    }
}

/// A user's groups are listed newest first.
impl RowOrder for UserGroup {
    open spec fn le_spec(self, other: Self) -> bool {
        self.created_at >= other.created_at
    }

    proof fn lemma_total(a: Self, b: Self) {
    }

    proof fn lemma_trans(a: Self, b: Self, c: Self) {
    }

    fn le(&self, other: &Self) -> (r: bool) {
        self.created_at >= other.created_at
    }
}

/// Annotated activities are listed newest first; rows of one instant are
/// ordered by activity id, so that the order is total over distinct rows
/// and the listing is a single well-defined sequence.
impl RowOrder for ActivityWithUser {
    open spec fn le_spec(self, other: Self) -> bool {
        self.created_at > other.created_at || (self.created_at == other.created_at && self.id
            <= other.id)
    }

    proof fn lemma_total(a: Self, b: Self) {
    }

    proof fn lemma_trans(a: Self, b: Self, c: Self) {
    }

    fn le(&self, other: &Self) -> (r: bool) {
        if self.created_at > other.created_at {
            true
        } else if self.created_at == other.created_at {
            self.id <= other.id
        } else {
            false
        }
    }
}

/// Members are listed oldest-joined first.
impl RowOrder for GroupMember {
    open spec fn le_spec(self, other: Self) -> bool {
        self.joined_at <= other.joined_at
    }

    proof fn lemma_total(a: Self, b: Self) {
    }

    proof fn lemma_trans(a: Self, b: Self, c: Self) {
    }

    fn le(&self, other: &Self) -> (r: bool) {
        self.joined_at <= other.joined_at
    }
}

/// Ranking rows are ordered by count descending, then name ascending.
impl RowOrder for UserActivityCount {
    open spec fn le_spec(self, other: Self) -> bool {
        self.activities_count > other.activities_count || (self.activities_count
            == other.activities_count && str_le(self.user_name@, other.user_name@))
    }

    proof fn lemma_total(a: Self, b: Self) {
        if a.activities_count == b.activities_count {
            lemma_lex_le_total(
                vstd::utf8::encode_utf8(a.user_name@),
                vstd::utf8::encode_utf8(b.user_name@),
            );
        }
    }

    proof fn lemma_trans(a: Self, b: Self, c: Self) {
        if a.activities_count == b.activities_count && b.activities_count == c.activities_count {
            lemma_lex_le_trans(
                vstd::utf8::encode_utf8(a.user_name@),
                vstd::utf8::encode_utf8(b.user_name@),
                vstd::utf8::encode_utf8(c.user_name@),
            );
        }
    }

    fn le(&self, other: &Self) -> (r: bool) {
        if self.activities_count > other.activities_count {
            true
        } else if self.activities_count == other.activities_count {
            str_le_exec(&self.user_name, &other.user_name)
        } else {
            false
        }
    }
}

// ---------------------------------------------------------------------------
// What each listing holds, as a specification
// ---------------------------------------------------------------------------
/// The index of the user row carrying this id.
pub open spec fn user_index(users: Seq<User>, uid: u128) -> int {
    choose|i: int| 0 <= i < users.len() && users[i].id == uid
}

/// The user row carrying this id.
pub open spec fn lookup_user(users: Seq<User>, uid: u128) -> User {
    users[user_index(users, uid)]
}

/// The activities of one group, in table order.
pub open spec fn acts_matching(acts: Seq<Activity>, gid: u128) -> Seq<Activity> {
    acts.filter(|a: Activity| a.group_id == gid)
}

/// An activity joined with the acting user's display name.
pub open spec fn awu_row(users: Seq<User>, a: Activity) -> ActivityWithUser {
    ActivityWithUser {
        id: a.id,
        user_id: a.user_id,
        user_name: lookup_user(users, a.user_id).name,
        group_id: a.group_id,
        description: a.description,
        created_at: a.created_at,
    }
}

/// The annotated activities of one group, in table order.
pub open spec fn activity_rows(s: Store, gid: u128) -> Seq<ActivityWithUser> {
    acts_matching(s.activities@, gid).map_values(|a: Activity| awu_row(s.users@, a))
}

/// The groups a user is a member of, in table order.
pub open spec fn user_group_rows(s: Store, uid: u128) -> Seq<UserGroup> {
    s.groups@.filter(|g: Group| pair_present(s.memberships@, uid, g.id)).map_values(
        |g: Group|
            UserGroup {
                id: g.id,
                name: g.name,
                owner_id: g.owner_id,
                goal_days: g.goal_days,
                created_at: g.created_at,
            },
    )
}

/// A membership joined with the member's name and email.
pub open spec fn member_row(users: Seq<User>, m: GroupMembership) -> GroupMember {
    GroupMember {
        user_id: m.user_id,
        name: lookup_user(users, m.user_id).name,
        email: lookup_user(users, m.user_id).email,
        joined_at: m.created_at,
    }
}

/// The members of one group, in table order.
pub open spec fn member_rows(s: Store, gid: u128) -> Seq<GroupMember> {
    s.memberships@.filter(|m: GroupMembership| m.group_id == gid).map_values(
        |m: GroupMembership| member_row(s.users@, m),
    )
}

/// Filtering a table with pairwise-distinct ids keeps its ids distinct.
proof fn lemma_matching_ids_distinct(acts: Seq<Activity>, gid: u128)
    requires
        forall|i: int, j: int| 0 <= i < j < acts.len() ==> acts[i].id != acts[j].id,
    ensures
        forall|i: int, j: int|
            0 <= i < j < acts_matching(acts, gid).len() ==> acts_matching(acts, gid)[i].id
                != acts_matching(acts, gid)[j].id,
    decreases acts.len(),
{
    if acts.len() > 0 {
        let front = acts.drop_last();
        let last = acts.last();
        assert forall|i: int, j: int| 0 <= i < j < front.len() implies front[i].id
            != front[j].id by {
            assert(front[i] == acts[i] && front[j] == acts[j]);
        }
        lemma_matching_ids_distinct(front, gid);
        assert(acts =~= front.push(last));
        front.lemma_filter_push(last, |a: Activity| a.group_id == gid);
        let fm = acts_matching(front, gid);
        let am = acts_matching(acts, gid);
        if last.group_id == gid {
            assert forall|i: int, j: int| 0 <= i < j < am.len() implies am[i].id != am[j].id by {
                if j == am.len() - 1 {
                    assert(am[i] == fm[i]);
                    assert(fm.contains(fm[i]));
                    front.lemma_filter_contains_rev(|a: Activity| a.group_id == gid, fm[i]);
                    let m = choose|m: int| 0 <= m < front.len() && front[m] == fm[i];
                    assert(acts[m] == fm[i]);
                    assert(acts[m].id != acts[acts.len() - 1].id);
                } else {
                    assert(am[i] == fm[i] && am[j] == fm[j]);
                }
            }
        }
    }
}

/// A rearrangement of rows with pairwise-distinct ids has pairwise-distinct
/// ids too.
proof fn lemma_distinct_ids_after_permutation(a: Seq<ActivityWithUser>, b: Seq<ActivityWithUser>)
    requires
        a.to_multiset() == b.to_multiset(),
        forall|i: int, j: int| 0 <= i < j < a.len() ==> a[i].id != a[j].id,
    ensures
        forall|i: int, j: int| 0 <= i < j < b.len() ==> b[i].id != b[j].id,
{
    broadcast use vstd::seq_lib::group_to_multiset_ensures;

    assert forall|i: int, j: int| 0 <= i < j < b.len() implies b[i].id != b[j].id by {
        if b[i].id == b[j].id {
            assert(b.contains(b[i]));
            assert(a.to_multiset().count(b[i]) > 0);
            assert(a.contains(b[i]));
            let p = choose|p: int| 0 <= p < a.len() && a[p] == b[i];
            if b[i] == b[j] {
                // the same row twice would be counted at least twice
                vstd::seq_lib::to_multiset_remove(b, i);
                b.remove_ensures(i);
                assert(b.remove(i)[j - 1] == b[j]);
                assert(b.remove(i).contains(b[j]));
                assert(b.remove(i).to_multiset().count(b[i]) > 0);
                assert(b.to_multiset().count(b[i]) >= 2);
                vstd::seq_lib::to_multiset_remove(a, p);
                assert(a.remove(p).to_multiset().count(b[i]) > 0);
                assert(a.remove(p).contains(b[i]));
                let r = choose|r: int| 0 <= r < a.remove(p).len() && a.remove(p)[r] == b[i];
                a.remove_ensures(p);
                if r < p {
                    assert(a[r] == b[i]);
                    assert(a[r].id != a[p].id);
                } else {
                    assert(a[r + 1] == b[i]);
                    assert(a[p].id != a[r + 1].id);
                }
                assert(false);
            } else {
                assert(b.contains(b[j]));
                assert(a.to_multiset().count(b[j]) > 0);
                assert(a.contains(b[j]));
                let q = choose|q: int| 0 <= q < a.len() && a[q] == b[j];
                assert(p != q);
                assert(a[p].id != a[q].id);
                assert(false);
            }
        }
    }
}

/// The ids of the acting users of these activities, in order of first
/// appearance.
pub open spec fn first_user_ids(acts: Seq<Activity>) -> Seq<u128>
    decreases acts.len(),
{
    if acts.len() == 0 {
        Seq::empty()
    } else {
        let front = first_user_ids(acts.drop_last());
        if front.contains(acts.last().user_id) {
            front
        } else {
            front.push(acts.last().user_id)
        }
    }
}

/// How many of these activities the user logged.
pub open spec fn count_for(acts: Seq<Activity>, uid: u128) -> nat {
    acts.filter(|a: Activity| a.user_id == uid).len()
}

/// One ranking row: a user with their display name and count over these
/// activities.
pub open spec fn rank_row(users: Seq<User>, acts: Seq<Activity>, uid: u128) -> UserActivityCount {
    UserActivityCount {
        user_id: uid,
        user_name: lookup_user(users, uid).name,
        activities_count: count_for(acts, uid) as u64,
    }
}

/// The ranking rows of these activities: one per distinct acting user, in
/// order of first appearance.
pub open spec fn rank_rows(users: Seq<User>, acts: Seq<Activity>) -> Seq<UserActivityCount> {
    first_user_ids(acts).map_values(|u: u128| rank_row(users, acts, u))
}

/// A user id stands among the first-appearance ids exactly when some
/// activity names it.
pub proof fn lemma_first_user_ids_occurs(acts: Seq<Activity>, uid: u128)
    ensures
        first_user_ids(acts).contains(uid) <==> exists|i: int|
            0 <= i < acts.len() && acts[i].user_id == uid,
    decreases acts.len(),
{
    if acts.len() > 0 {
        let front = first_user_ids(acts.drop_last());
        let whole = first_user_ids(acts);
        lemma_first_user_ids_occurs(acts.drop_last(), uid);
        assert(forall|i: int| 0 <= i < acts.len() - 1 ==> acts.drop_last()[i] == acts[i]);
        if acts.last().user_id == uid && !front.contains(uid) {
            assert(whole[front.len() as int] == uid);
            assert(whole.contains(uid));
        }
        if front.contains(uid) {
            let k = choose|k: int| 0 <= k < front.len() && front[k] == uid;
            assert(whole[k] == uid);
            assert(whole.contains(uid));
        }
        if whole.contains(uid) && !front.contains(uid) {
            let k = choose|k: int| 0 <= k < whole.len() && whole[k] == uid;
            if k < front.len() {
                assert(front[k] == uid);
                assert(front.contains(uid));
            }
            assert(acts[acts.len() - 1].user_id == uid);
        }
        if exists|i: int| 0 <= i < acts.len() && acts[i].user_id == uid {
            let i = choose|i: int| 0 <= i < acts.len() && acts[i].user_id == uid;
            if i < acts.len() - 1 {
                assert(acts.drop_last()[i].user_id == uid);
            }
            assert(whole.contains(uid));
        }
    }
}

/// The first-appearance ids are pairwise distinct.
pub proof fn lemma_first_user_ids_distinct(acts: Seq<Activity>)
    ensures
        forall|i: int, j: int|
            0 <= i < j < first_user_ids(acts).len() ==> first_user_ids(acts)[i]
                != first_user_ids(acts)[j],
    decreases acts.len(),
{
    if acts.len() > 0 {
        lemma_first_user_ids_distinct(acts.drop_last());
        let front = first_user_ids(acts.drop_last());
        let whole = first_user_ids(acts);
        if !front.contains(acts.last().user_id) {
            assert forall|i: int, j: int| 0 <= i < j < whole.len() implies whole[i]
                != whole[j] by {
                if j == whole.len() - 1 {
                    assert(whole[i] == front[i]);
                    assert(front.contains(front[i]));
                }
            }
        }
    }
}

/// A user named by no activity has a zero count.
pub proof fn lemma_count_zero(acts: Seq<Activity>, uid: u128)
    requires
        !(exists|i: int| 0 <= i < acts.len() && acts[i].user_id == uid),
    ensures
        count_for(acts, uid) == 0,
{
    let f = acts.filter(|a: Activity| a.user_id == uid);
    if f.len() > 0 {
        acts.lemma_filter_pred(|a: Activity| a.user_id == uid, 0);
        assert(f.contains(f[0]));
        acts.lemma_filter_contains_rev(|a: Activity| a.user_id == uid, f[0]);
        let i = choose|i: int| 0 <= i < acts.len() && acts[i] == f[0];
        assert(acts[i].user_id == uid);
        assert(false);
    }
}

/// Appending one activity raises exactly its own user's count by one.
pub proof fn lemma_count_for_push(acts: Seq<Activity>, x: Activity, uid: u128)
    ensures
        count_for(acts.push(x), uid) == count_for(acts, uid) + (if x.user_id == uid {
            1nat
        } else {
            0nat
        }),
{
    acts.lemma_filter_push(x, |a: Activity| a.user_id == uid);
}

/// A user's count never exceeds the number of activities.
pub proof fn lemma_count_le_len(acts: Seq<Activity>, uid: u128)
    ensures
        count_for(acts, uid) <= acts.len(),
{
    acts.lemma_filter_len(|a: Activity| a.user_id == uid);
}

impl Store {
    /// Find the user row carrying this id.
    fn user_by_id(&self, uid: u128) -> (r: &User)
        requires
            self.wf(),
            user_id_taken(self.users@, uid),
        ensures
            *r == lookup_user(self.users@, uid),
    {
        let mut i: usize = 0;
        while i < self.users.len()
            invariant
                i <= self.users@.len(),
                forall|k: int| 0 <= k < i ==> self.users@[k].id != uid,
                self.wf(),
            decreases self.users@.len() - i,
        {
            if self.users[i].id == uid {
                proof {
                    let j = user_index(self.users@, uid);
                    assert(0 <= j < self.users@.len() && self.users@[j].id == uid);
                    if i != j {
                        // two rows with one id would break the invariant
                        assert(false);
                    }
                }
                return &self.users[i];
            }
            i += 1;
        }
        // never reached: the id is taken, so the scan finds its row
        proof {
            assert(false);
        }
        &self.users[0]
    }

    /// The user listing: every user, newest first.
    pub fn list_users(&self) -> (r: Vec<User>)
        ensures
            r@.to_multiset() == self.users@.to_multiset(),
            r@.len() == self.users@.len(),
            sorted_rows(r@),
    {
        let mut rows: Vec<User> = Vec::new();
        let mut i: usize = 0;
        while i < self.users.len()
            invariant
                i <= self.users@.len(),
                rows@ == self.users@.take(i as int),
            decreases self.users@.len() - i,
        {
            rows.push(self.users[i].clone());
            proof {
                assert(self.users@.take(i + 1) =~= self.users@.take(i as int).push(
                    self.users@[i as int],
                ));
            }
            i += 1;
        }
        proof {
            assert(self.users@.take(self.users@.len() as int) =~= self.users@);
        }
        sort_rows(rows)
    }

    /// The matching activities of one group, in table order.
    fn activities_of_group(&self, group_id: u128) -> (r: Vec<Activity>)
        ensures
            r@ == acts_matching(self.activities@, group_id),
    {
        let mut rows: Vec<Activity> = Vec::new();
        let mut i: usize = 0;
        while i < self.activities.len()
            invariant
                i <= self.activities@.len(),
                rows@ == acts_matching(self.activities@.take(i as int), group_id),
            decreases self.activities@.len() - i,
        {
            let a = &self.activities[i];
            proof {
                assert(self.activities@.take(i + 1) =~= self.activities@.take(i as int).push(
                    self.activities@[i as int],
                ));
                self.activities@.take(i as int).lemma_filter_push(
                    self.activities@[i as int],
                    |a: Activity| a.group_id == group_id,
                );
            }
            if a.group_id == group_id {
                rows.push(a.clone());
            }
            i += 1;
        }
        proof {
            assert(self.activities@.take(self.activities@.len() as int) =~= self.activities@);
        }
        rows
    }

    /// The activity listing of one group: every activity annotated with the
    /// acting user's name, newest first.
    pub fn list_group_activities(&self, group_id: u128) -> (r: Vec<ActivityWithUser>)
        requires
            self.wf(),
        ensures
            r@.to_multiset() == activity_rows(*self, group_id).to_multiset(),
            r@.len() == acts_matching(self.activities@, group_id).len(),
            sorted_rows(r@),
            forall|i: int, j: int| 0 <= i < j < r@.len() ==> r@[i].id != r@[j].id,
    {
        let mut rows: Vec<ActivityWithUser> = Vec::new();
        let mut i: usize = 0;
        while i < self.activities.len()
            invariant
                i <= self.activities@.len(),
                self.wf(),
                rows@ == acts_matching(self.activities@.take(i as int), group_id).map_values(
                    |a: Activity| awu_row(self.users@, a),
                ),
            decreases self.activities@.len() - i,
        {
            let ghost pre = acts_matching(self.activities@.take(i as int), group_id);
            let a = &self.activities[i];
            proof {
                assert(self.activities@.take(i + 1) =~= self.activities@.take(i as int).push(
                    self.activities@[i as int],
                ));
                self.activities@.take(i as int).lemma_filter_push(
                    self.activities@[i as int],
                    |a: Activity| a.group_id == group_id,
                );
            }
            if a.group_id == group_id {
                let u = self.user_by_id(a.user_id);
                let row = ActivityWithUser {
                    id: a.id,
                    user_id: a.user_id,
                    user_name: u.name.clone(),
                    group_id: a.group_id,
                    description: a.description.clone(),
                    created_at: a.created_at,
                };
                rows.push(row);
                proof {
                    assert(pre.push(self.activities@[i as int]).map_values(
                        |a: Activity| awu_row(self.users@, a),
                    ) =~= pre.map_values(|a: Activity| awu_row(self.users@, a)).push(
                        awu_row(self.users@, self.activities@[i as int]),
                    ));
                }
            }
            i += 1;
        }
        let ghost built = rows@;
        proof {
            assert(self.activities@.take(self.activities@.len() as int) =~= self.activities@);
            lemma_matching_ids_distinct(self.activities@, group_id);
            assert forall|i: int, j: int| 0 <= i < j < built.len() implies built[i].id
                != built[j].id by {
                assert(built[i].id == acts_matching(self.activities@, group_id)[i].id);
                assert(built[j].id == acts_matching(self.activities@, group_id)[j].id);
            }
        }
        let sorted = sort_rows(rows);
        proof {
            lemma_distinct_ids_after_permutation(built, sorted@);
        }
        sorted
    }

    /// The group listing of one user: every group the user is a member of,
    /// newest first.
    pub fn list_user_groups(&self, user_id: u128) -> (r: Vec<UserGroup>)
        ensures
            r@.to_multiset() == user_group_rows(*self, user_id).to_multiset(),
            r@.len() == user_group_rows(*self, user_id).len(),
            sorted_rows(r@),
    {
        let mut rows: Vec<UserGroup> = Vec::new();
        let mut i: usize = 0;
        while i < self.groups.len()
            invariant
                i <= self.groups@.len(),
                rows@ == self.groups@.take(i as int).filter(
                    |g: Group| pair_present(self.memberships@, user_id, g.id),
                ).map_values(
                    |g: Group|
                        UserGroup {
                            id: g.id,
                            name: g.name,
                            owner_id: g.owner_id,
                            goal_days: g.goal_days,
                            created_at: g.created_at,
                        },
                ),
            decreases self.groups@.len() - i,
        {
            let ghost pre = self.groups@.take(i as int).filter(
                |g: Group| pair_present(self.memberships@, user_id, g.id),
            );
            let g = &self.groups[i];
            proof {
                assert(self.groups@.take(i + 1) =~= self.groups@.take(i as int).push(
                    self.groups@[i as int],
                ));
                self.groups@.take(i as int).lemma_filter_push(
                    self.groups@[i as int],
                    |g: Group| pair_present(self.memberships@, user_id, g.id),
                );
            }
            if self.has_pair(user_id, g.id) {
                let row = UserGroup {
                    id: g.id,
                    name: g.name.clone(),
                    owner_id: g.owner_id,
                    goal_days: g.goal_days,
                    created_at: g.created_at,
                };
                rows.push(row);
                proof {
                    assert(pre.push(self.groups@[i as int]).map_values(
                        |g: Group|
                            UserGroup {
                                id: g.id,
                                name: g.name,
                                owner_id: g.owner_id,
                                goal_days: g.goal_days,
                                created_at: g.created_at,
                            },
                    ) =~= pre.map_values(
                        |g: Group|
                            UserGroup {
                                id: g.id,
                                name: g.name,
                                owner_id: g.owner_id,
                                goal_days: g.goal_days,
                                created_at: g.created_at,
                            },
                    ).push(
                        (UserGroup {
                            id: self.groups@[i as int].id,
                            name: self.groups@[i as int].name,
                            owner_id: self.groups@[i as int].owner_id,
                            goal_days: self.groups@[i as int].goal_days,
                            created_at: self.groups@[i as int].created_at,
                        }),
                    ));
                }
            }
            i += 1;
        }
        proof {
            assert(self.groups@.take(self.groups@.len() as int) =~= self.groups@);
        }
        sort_rows(rows)
    }

    /// The member listing of one group: id, name, email and join instant of
    /// every member, oldest-joined first.
    pub fn list_group_members(&self, group_id: u128) -> (r: Vec<GroupMember>)
        requires
            self.wf(),
        ensures
            r@.to_multiset() == member_rows(*self, group_id).to_multiset(),
            r@.len() == member_rows(*self, group_id).len(),
            sorted_rows(r@),
    {
        let mut rows: Vec<GroupMember> = Vec::new();
        let mut i: usize = 0;
        while i < self.memberships.len()
            invariant
                i <= self.memberships@.len(),
                self.wf(),
                rows@ == self.memberships@.take(i as int).filter(
                    |m: GroupMembership| m.group_id == group_id,
                ).map_values(|m: GroupMembership| member_row(self.users@, m)),
            decreases self.memberships@.len() - i,
        {
            let ghost pre = self.memberships@.take(i as int).filter(
                |m: GroupMembership| m.group_id == group_id,
            );
            let m = &self.memberships[i];
            proof {
                assert(self.memberships@.take(i + 1) =~= self.memberships@.take(i as int).push(
                    self.memberships@[i as int],
                ));
                self.memberships@.take(i as int).lemma_filter_push(
                    self.memberships@[i as int],
                    |m: GroupMembership| m.group_id == group_id,
                );
            }
            if m.group_id == group_id {
                let u = self.user_by_id(m.user_id);
                let row = GroupMember {
                    user_id: m.user_id,
                    name: u.name.clone(),
                    email: u.email.clone(),
                    joined_at: m.created_at,
                };
                rows.push(row);
                proof {
                    assert(pre.push(self.memberships@[i as int]).map_values(
                        |m: GroupMembership| member_row(self.users@, m),
                    ) =~= pre.map_values(|m: GroupMembership| member_row(self.users@, m)).push(
                        member_row(self.users@, self.memberships@[i as int]),
                    ));
                }
            }
            i += 1;
        }
        proof {
            assert(self.memberships@.take(self.memberships@.len() as int) =~= self.memberships@);
        }
        sort_rows(rows)
    }

    /// The ranking rows of one group, one per distinct acting user, in
    /// first-appearance order.
    fn rank_of_group(&self, group_id: u128) -> (r: Vec<UserActivityCount>)
        requires
            self.wf(),
        ensures
            r@ == rank_rows(self.users@, acts_matching(self.activities@, group_id)),
    {
        let gacts = self.activities_of_group(group_id);
        let mut rows: Vec<UserActivityCount> = Vec::new();
        let mut i: usize = 0;
        while i < gacts.len()
            invariant
                self.wf(),
                gacts@ == acts_matching(self.activities@, group_id),
                i <= gacts@.len(),
                rows@ == rank_rows(self.users@, gacts@.take(i as int)),
            decreases gacts@.len() - i,
        {
            let ghost prefix = gacts@.take(i as int);
            let ghost fronts = first_user_ids(prefix);
            let ghost x = gacts@[i as int];
            let uid = gacts[i].user_id;
            proof {
                assert(gacts@.take(i + 1) =~= prefix.push(x));
                assert(prefix.push(x).drop_last() =~= prefix);
                // the acting user exists: the row came out of the activities
                // table, whose foreign keys the invariant resolves
                assert(gacts@.contains(x));
                self.activities@.lemma_filter_contains_rev(
                    |a: Activity| a.group_id == group_id,
                    x,
                );
                let k = choose|k: int|
                    0 <= k < self.activities@.len() && self.activities@[k] == x;
                assert(user_id_taken(self.users@, self.activities@[k].user_id));
                lemma_first_user_ids_distinct(prefix);
            }
            let mut j: usize = 0;
            while j < rows.len() && rows[j].user_id != uid
                invariant
                    j <= rows@.len(),
                    forall|k: int| 0 <= k < j ==> rows@[k].user_id != uid,
                decreases rows@.len() - j,
            {
                j += 1;
            }
            if j < rows.len() {
                // seen before: raise this user's count by one
                proof {
                    assert(fronts[j as int] == uid);
                    assert(fronts.contains(uid));
                    assert(first_user_ids(prefix.push(x)) == fronts);
                    lemma_count_le_len(prefix, uid);
                }
                let row = rows.remove(j);
                let ghost pre_rows = rank_rows(self.users@, prefix);
                let updated = UserActivityCount {
                    user_id: row.user_id,
                    user_name: row.user_name,
                    activities_count: row.activities_count + 1,
                };
                rows.insert(j, updated);
                proof {
                    lemma_count_for_push(prefix, x, uid);
                    assert forall|k: int|
                        0 <= k < fronts.len() && k != j implies rank_row(
                        self.users@,
                        prefix.push(x),
                        fronts[k],
                    ) == rank_row(self.users@, prefix, fronts[k]) by {
                        lemma_count_for_push(prefix, x, fronts[k]);
                    }
                    assert(updated == rank_row(self.users@, prefix.push(x), uid));
                    assert(rows@ =~= pre_rows.remove(j as int).insert(j as int, updated));
                    assert(rows@ =~= rank_rows(self.users@, gacts@.take(i + 1)));
                }
            } else {
                // first appearance: a fresh row with count one
                proof {
                    assert forall|k: int| 0 <= k < fronts.len() implies fronts[k] != uid by {
                        assert(rows@[k] == rank_row(self.users@, prefix, fronts[k]));
                        assert(rows@[k].user_id == fronts[k]);
                    }
                    if fronts.contains(uid) {
                        let k = choose|k: int| 0 <= k < fronts.len() && fronts[k] == uid;
                        assert(false);
                    }
                    assert(first_user_ids(prefix.push(x)) == fronts.push(uid));
                    lemma_first_user_ids_occurs(prefix, uid);
                    lemma_count_zero(prefix, uid);
                    lemma_count_for_push(prefix, x, uid);
                }
                let u = self.user_by_id(uid);
                let fresh = UserActivityCount {
                    user_id: uid,
                    user_name: u.name.clone(),
                    activities_count: 1,
                };
                rows.push(fresh);
                proof {
                    assert forall|k: int| 0 <= k < fronts.len() implies rank_row(
                        self.users@,
                        prefix.push(x),
                        fronts[k],
                    ) == rank_row(self.users@, prefix, fronts[k]) by {
                        lemma_count_for_push(prefix, x, fronts[k]);
                    }
                    assert(fresh == rank_row(self.users@, prefix.push(x), uid));
                    assert(rows@ =~= rank_rows(self.users@, gacts@.take(i + 1)));
                }
            }
            i += 1;
        }
        proof {
            assert(gacts@.take(gacts@.len() as int) =~= gacts@);
        }
        rows
    }

    /// The summary of one group: the total count, the annotated activity
    /// feed newest first, and the per-user ranking ordered by count
    /// descending with ties broken by name ascending. A group with no
    /// activities — an unknown group id included — yields a zero total and
    /// empty lists rather than an error.
    pub fn group_activities_summary(&self, group_id: u128) -> (r: GroupActivitiesSummary)
        requires
            self.wf(),
        ensures
            r.group_id == group_id,
            r.total_activities == acts_matching(self.activities@, group_id).len(),
            r.activities@.to_multiset() == activity_rows(*self, group_id).to_multiset(),
            r.activities@.len() == acts_matching(self.activities@, group_id).len(),
            sorted_rows(r.activities@),
            forall|i: int, j: int|
                0 <= i < j < r.activities@.len() ==> r.activities@[i].id != r.activities@[j].id,
            r.per_user@.to_multiset() == rank_rows(
                self.users@,
                acts_matching(self.activities@, group_id),
            ).to_multiset(),
            r.per_user@.len() == first_user_ids(acts_matching(self.activities@, group_id)).len(),
            sorted_rows(r.per_user@),
    {
        let activities = self.list_group_activities(group_id);
        let unranked = self.rank_of_group(group_id);
        let per_user = sort_rows(unranked);
        let total = activities.len() as u64;
        GroupActivitiesSummary { group_id, total_activities: total, activities, per_user }
    }
}

} // verus!
