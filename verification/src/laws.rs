//! Laws the service obeys across its operations, stated over the same
//! specifications the endpoint contracts use and proved once and for all.

use vstd::prelude::*;
use vstd::seq_lib::to_multiset_remove;

use crate::model::ActivityWithUser;
use crate::model::GroupActivitiesSummary;
use crate::model::User;
use crate::model::UserActivityCount;
use crate::queries::acts_matching;
use crate::queries::first_user_ids;
use crate::queries::lemma_count_for_push;
use crate::queries::lemma_count_le_len;
use crate::queries::lemma_count_zero;
use crate::queries::lemma_first_user_ids_distinct;
use crate::queries::lemma_first_user_ids_occurs;
use crate::order::RowOrder;
use crate::order::lemma_sorted_rows_pairwise;
use crate::order::sorted_rows;
use crate::queries::rank_row;
use crate::queries::rank_rows;
use crate::store::Store;

verus! {

/// The counts a ranking carries, added up.
pub open spec fn sum_counts(rows: Seq<UserActivityCount>) -> int
    decreases rows.len(),
{
    if rows.len() == 0 {
        0
    } else {
        sum_counts(rows.drop_last()) + rows.last().activities_count
    }
}

/// Taking one row out of a ranking lowers the sum by exactly its count.
proof fn lemma_sum_counts_remove(s: Seq<UserActivityCount>, j: int)
    requires
        0 <= j < s.len(),
    ensures
        sum_counts(s) == sum_counts(s.remove(j)) + s[j].activities_count,
    decreases s.len(),
{
    if j == s.len() - 1 {
        assert(s.remove(j) =~= s.drop_last());
    } else {
        assert(s.remove(j).drop_last() =~= s.drop_last().remove(j));
        assert(s.remove(j).last() == s.last());
        lemma_sum_counts_remove(s.drop_last(), j);
    }
}

/// Replacing one row of a ranking shifts the sum by the difference of the
/// two counts.
proof fn lemma_sum_counts_update(s: Seq<UserActivityCount>, j: int, y: UserActivityCount)
    requires
        0 <= j < s.len(),
    ensures
        sum_counts(s.update(j, y)) == sum_counts(s) - s[j].activities_count
            + y.activities_count,
    decreases s.len(),
{
    if j == s.len() - 1 {
        assert(s.update(j, y).drop_last() =~= s.drop_last());
        assert(s.update(j, y).last() == y);
    } else {
        assert(s.update(j, y).drop_last() =~= s.drop_last().update(j, y));
        assert(s.update(j, y).last() == s.last());
        lemma_sum_counts_update(s.drop_last(), j, y);
    }
}

/// Rankings holding the same rows have the same sum, whatever their order.
pub proof fn lemma_sum_counts_multiset(a: Seq<UserActivityCount>, b: Seq<UserActivityCount>)
    requires
        a.to_multiset() == b.to_multiset(),
    ensures
        sum_counts(a) == sum_counts(b),
    decreases a.len(),
{
    broadcast use vstd::seq_lib::group_to_multiset_ensures;

    if a.len() == 0 {
        assert(b.to_multiset().len() == 0);
        assert(b.len() == 0);
    } else {
        let x = a.last();
        assert(a[a.len() - 1] == x);
        assert(a.contains(x));
        assert(b.to_multiset().count(x) > 0);
        assert(b.contains(x));
        let j = choose|j: int| 0 <= j < b.len() && b[j] == x;
        to_multiset_remove(a, a.len() - 1);
        to_multiset_remove(b, j);
        assert(a.remove(a.len() - 1) =~= a.drop_last());
        lemma_sum_counts_multiset(a.drop_last(), b.remove(j));
        lemma_sum_counts_remove(b, j);
    }
}

/// The ranking rows of any activity table carry counts that add up to the
/// table's size: every activity is counted exactly once, under its acting
/// user.
pub proof fn lemma_rank_rows_sum(users: Seq<User>, acts: Seq<crate::model::Activity>)
    requires
        acts.len() <= u64::MAX,
    ensures
        sum_counts(rank_rows(users, acts)) == acts.len(),
    decreases acts.len(),
{
    if acts.len() == 0 {
        assert(rank_rows(users, acts) =~= Seq::<UserActivityCount>::empty());
    } else {
        let p = acts.drop_last();
        let x = acts.last();
        let uid = x.user_id;
        let fronts = first_user_ids(p);
        assert(p.push(x) =~= acts);
        lemma_rank_rows_sum(users, p);
        lemma_first_user_ids_distinct(p);
        lemma_count_for_push(p, x, uid);
        lemma_count_le_len(p, uid);
        lemma_count_le_len(acts, uid);
        assert forall|k: int|
            0 <= k < fronts.len() && fronts[k] != uid implies rank_row(users, acts, fronts[k])
            == rank_row(users, p, fronts[k]) by {
            lemma_count_for_push(p, x, fronts[k]);
        }
        if fronts.contains(uid) {
            assert(first_user_ids(acts) == fronts);
            let j = choose|j: int| 0 <= j < fronts.len() && fronts[j] == uid;
            let updated = rank_row(users, acts, uid);
            assert(rank_rows(users, acts) =~= rank_rows(users, p).update(j, updated));
            lemma_sum_counts_update(rank_rows(users, p), j, updated);
            assert(rank_rows(users, p)[j] == rank_row(users, p, uid));
            assert(updated.activities_count == rank_row(users, p, uid).activities_count + 1);
        } else {
            assert(first_user_ids(acts) == fronts.push(uid));
            lemma_first_user_ids_occurs(p, uid);
            lemma_count_zero(p, uid);
            let fresh = rank_row(users, acts, uid);
            assert(fresh.activities_count == 1);
            assert(rank_rows(users, acts) =~= rank_rows(users, p).push(fresh));
            assert(rank_rows(users, p).push(fresh).drop_last() =~= rank_rows(users, p));
            assert(sum_counts(rank_rows(users, p).push(fresh)) == sum_counts(
                rank_rows(users, p),
            ) + 1);
        }
    }
}

/// The summary's numbers agree: the per-user counts of a group's ranking
/// add up to the group's total activity count.
pub proof fn lemma_summary_counts_add_up(s: Store, r: GroupActivitiesSummary)
    requires
        r.total_activities == acts_matching(s.activities@, r.group_id).len(),
        r.per_user@.to_multiset() == rank_rows(
            s.users@,
            acts_matching(s.activities@, r.group_id),
        ).to_multiset(),
    ensures
        sum_counts(r.per_user@) == r.total_activities,
{
    let acts = acts_matching(s.activities@, r.group_id);
    assert(acts.len() <= u64::MAX);
    lemma_rank_rows_sum(s.users@, acts);
    lemma_sum_counts_multiset(r.per_user@, rank_rows(s.users@, acts));
}

/// Round-trip of creation and listing: once a user row is appended, any
/// listing holding exactly the new table shows that exact user.
pub proof fn lemma_new_user_listed(users: Seq<User>, u: User, listing: Seq<User>)
    requires
        listing.to_multiset() == users.push(u).to_multiset(),
    ensures
        exists|i: int| 0 <= i < listing.len() && listing[i] == u,
{
    broadcast use vstd::seq_lib::group_to_multiset_ensures;

    assert(users.push(u)[users.len() as int] == u);
    assert(users.push(u).contains(u));
    assert(listing.to_multiset().count(u) > 0);
    assert(listing.contains(u));
}

/// The plain activity listing and the summary's activity feed are the same
/// list, element for element: a listing sorted newest-first with ids
/// breaking ties is determined by the rows it holds, because its ids are
/// pairwise distinct. The hypotheses are exactly what the two read
/// endpoints ensure of their results against one store.
pub proof fn lemma_listing_matches_summary(
    listing: Seq<ActivityWithUser>,
    in_summary: Seq<ActivityWithUser>,
)
    requires
        sorted_rows(listing),
        sorted_rows(in_summary),
        listing.to_multiset() == in_summary.to_multiset(),
        forall|i: int, j: int| 0 <= i < j < listing.len() ==> listing[i].id != listing[j].id,
    ensures
        listing == in_summary,
    decreases listing.len(),
{
    broadcast use vstd::seq_lib::group_to_multiset_ensures;

    let a = listing;
    let b = in_summary;
    if a.len() == 0 {
        assert(b.to_multiset().len() == 0);
        assert(a =~= b);
    } else {
        assert(a.to_multiset().len() == a.len());
        assert(b.to_multiset().len() == b.len());
        assert(b.len() == a.len());
        assert(a.contains(a[0]));
        assert(b.to_multiset().count(a[0]) > 0);
        assert(b.contains(a[0]));
        let q = choose|q: int| 0 <= q < b.len() && b[q] == a[0];
        assert(b.contains(b[0]));
        assert(a.to_multiset().count(b[0]) > 0);
        assert(a.contains(b[0]));
        let p = choose|p: int| 0 <= p < a.len() && a[p] == b[0];
        lemma_sorted_rows_pairwise(a, 0, p);
        lemma_sorted_rows_pairwise(b, 0, q);
        // the heads order each other both ways, so they share instant and id,
        // and distinct ids force them to be the same row
        assert(a[0].le_spec(b[0]) && b[0].le_spec(a[0]));
        if p != 0 {
            assert(a[0].id != a[p].id);
            assert(false);
        }
        assert(a[0] == b[0]);
        let a2 = a.drop_first();
        let b2 = b.drop_first();
        assert(a.remove(0) =~= a2);
        assert(b.remove(0) =~= b2);
        to_multiset_remove(a, 0);
        to_multiset_remove(b, 0);
        assert(a2.to_multiset() == b2.to_multiset());
        assert forall|k: int| 0 <= k < a2.len() - 1 implies #[trigger] a2[k].le_spec(
            a2[k + 1],
        ) by {
            assert(a2[k] == a[k + 1] && a2[k + 1] == a[k + 2]);
            assert(a[k + 1].le_spec(a[k + 1 + 1]));
        }
        assert forall|k: int| 0 <= k < b2.len() - 1 implies #[trigger] b2[k].le_spec(
            b2[k + 1],
        ) by {
            assert(b2[k] == b[k + 1] && b2[k + 1] == b[k + 2]);
            assert(b[k + 1].le_spec(b[k + 1 + 1]));
        }
        assert forall|i: int, j: int| 0 <= i < j < a2.len() implies a2[i].id != a2[j].id by {
            assert(a2[i] == a[i + 1] && a2[j] == a[j + 1]);
        }
        lemma_listing_matches_summary(a2, b2);
        assert forall|k: int| 0 <= k < a.len() implies a[k] == b[k] by {
            if k > 0 {
                assert(a2[k - 1] == a[k]);
                assert(b2[k - 1] == b[k]);
            }
        }
        assert(a =~= b);
    }
}

/// A group with no logged activities yields the empty summary: zero total,
/// no activity rows, no ranking rows.
pub proof fn lemma_empty_group_summary(s: Store, r: GroupActivitiesSummary)
    requires
        acts_matching(s.activities@, r.group_id).len() == 0,
        r.total_activities == acts_matching(s.activities@, r.group_id).len(),
        r.activities@.len() == acts_matching(s.activities@, r.group_id).len(),
        r.per_user@.len() == first_user_ids(acts_matching(s.activities@, r.group_id)).len(),
    ensures
        r.total_activities == 0,
        r.activities@.len() == 0,
        r.per_user@.len() == 0,
{
    assert(acts_matching(s.activities@, r.group_id) =~= Seq::<crate::model::Activity>::empty());
}

} // verus!
