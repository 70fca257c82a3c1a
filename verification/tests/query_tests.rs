use ranking_estudos_backend::store::Store;

fn fixture() -> Store {
    // Amy and Bob share a group; Cara owns a second one.
    let mut s = Store::new();
    s.insert_user(1, "amy@example.com".to_owned(), "Amy".to_owned(), 100).unwrap();
    s.insert_user(2, "bob@example.com".to_owned(), "Bob".to_owned(), 200).unwrap();
    s.insert_user(3, "cara@example.com".to_owned(), "Cara".to_owned(), 300).unwrap();
    s.create_group(10, 20, "Morning".to_owned(), 1, 30, 400).unwrap();
    s.create_group(11, 21, "Evening".to_owned(), 3, 60, 500).unwrap();
    s.insert_membership(22, 2, 10, 600).unwrap();
    s
}

#[test]
fn list_users_is_newest_first() {
    let s = fixture();
    let users = s.list_users();
    assert_eq!(users.len(), 3);
    assert_eq!(users[0].name, "Cara");
    assert_eq!(users[1].name, "Bob");
    assert_eq!(users[2].name, "Amy");
}

#[test]
fn created_user_shows_up_in_listing() {
    let mut s = fixture();
    let u = s.insert_user(4, "dan@example.com".to_owned(), "Dan".to_owned(), 50).unwrap();
    let users = s.list_users();
    assert!(users
        .iter()
        .any(|x| x.id == u.id && x.email == "dan@example.com" && x.name == "Dan"));
}

#[test]
fn list_user_groups_is_newest_first() {
    let mut s = fixture();
    s.insert_membership(23, 1, 11, 700).unwrap();
    let groups = s.list_user_groups(1);
    assert_eq!(groups.len(), 2);
    assert_eq!(groups[0].id, 11);
    assert_eq!(groups[1].id, 10);
}

#[test]
fn list_user_groups_of_stranger_is_empty() {
    let s = fixture();
    assert!(s.list_user_groups(99).is_empty());
}

#[test]
fn list_group_members_is_oldest_joined_first() {
    let s = fixture();
    let members = s.list_group_members(10);
    assert_eq!(members.len(), 2);
    assert_eq!(members[0].user_id, 1);
    assert_eq!(members[0].name, "Amy");
    assert_eq!(members[0].email, "amy@example.com");
    assert_eq!(members[0].joined_at, 400);
    assert_eq!(members[1].user_id, 2);
    assert_eq!(members[1].joined_at, 600);
}

#[test]
fn activity_listing_is_newest_first() {
    // three activities inserted with increasing timestamps come back reversed
    let mut s = fixture();
    s.insert_activity(30, 1, 10, "one".to_owned(), 1000).unwrap();
    s.insert_activity(31, 2, 10, "two".to_owned(), 2000).unwrap();
    s.insert_activity(32, 1, 10, "three".to_owned(), 3000).unwrap();
    let listing = s.list_group_activities(10);
    assert_eq!(listing.len(), 3);
    assert_eq!(listing[0].description, "three");
    assert_eq!(listing[1].description, "two");
    assert_eq!(listing[2].description, "one");
    assert_eq!(listing[0].user_name, "Amy");
    assert_eq!(listing[1].user_name, "Bob");
    let summary = s.group_activities_summary(10);
    assert_eq!(summary.activities.len(), 3);
    assert_eq!(summary.activities[0].description, "three");
    assert_eq!(summary.activities[1].description, "two");
    assert_eq!(summary.activities[2].description, "one");
}

#[test]
fn ranking_breaks_count_ties_by_name() {
    // Bob and Amy both log two activities: Amy must come first
    let mut s = fixture();
    s.insert_activity(30, 2, 10, "b1".to_owned(), 1000).unwrap();
    s.insert_activity(31, 2, 10, "b2".to_owned(), 2000).unwrap();
    s.insert_activity(32, 1, 10, "a1".to_owned(), 3000).unwrap();
    s.insert_activity(33, 1, 10, "a2".to_owned(), 4000).unwrap();
    let summary = s.group_activities_summary(10);
    assert_eq!(summary.per_user.len(), 2);
    assert_eq!(summary.per_user[0].user_name, "Amy");
    assert_eq!(summary.per_user[0].activities_count, 2);
    assert_eq!(summary.per_user[1].user_name, "Bob");
    assert_eq!(summary.per_user[1].activities_count, 2);
}

#[test]
fn ranking_orders_by_count_descending() {
    let mut s = fixture();
    s.insert_membership(23, 3, 10, 700).unwrap();
    // Cara 3, Amy 2, Bob 1
    s.insert_activity(30, 3, 10, "c1".to_owned(), 1000).unwrap();
    s.insert_activity(31, 1, 10, "a1".to_owned(), 1100).unwrap();
    s.insert_activity(32, 3, 10, "c2".to_owned(), 1200).unwrap();
    s.insert_activity(33, 2, 10, "b1".to_owned(), 1300).unwrap();
    s.insert_activity(34, 1, 10, "a2".to_owned(), 1400).unwrap();
    s.insert_activity(35, 3, 10, "c3".to_owned(), 1500).unwrap();
    let summary = s.group_activities_summary(10);
    assert_eq!(summary.total_activities, 6);
    assert_eq!(summary.per_user.len(), 3);
    assert_eq!(summary.per_user[0].user_name, "Cara");
    assert_eq!(summary.per_user[0].activities_count, 3);
    assert_eq!(summary.per_user[1].user_name, "Amy");
    assert_eq!(summary.per_user[1].activities_count, 2);
    assert_eq!(summary.per_user[2].user_name, "Bob");
    assert_eq!(summary.per_user[2].activities_count, 1);
    let total: u64 = summary.per_user.iter().map(|r| r.activities_count).sum();
    assert_eq!(total, summary.total_activities);
}

#[test]
fn summary_counts_only_the_requested_group() {
    let mut s = fixture();
    s.insert_activity(30, 1, 10, "here".to_owned(), 1000).unwrap();
    s.insert_activity(31, 3, 11, "elsewhere".to_owned(), 2000).unwrap();
    let summary = s.group_activities_summary(10);
    assert_eq!(summary.total_activities, 1);
    assert_eq!(summary.activities.len(), 1);
    assert_eq!(summary.activities[0].description, "here");
    assert_eq!(summary.per_user.len(), 1);
    assert_eq!(summary.per_user[0].user_id, 1);
}

#[test]
fn summary_of_quiet_group_is_empty() {
    let s = fixture();
    let summary = s.group_activities_summary(10);
    assert_eq!(summary.group_id, 10);
    assert_eq!(summary.total_activities, 0);
    assert!(summary.activities.is_empty());
    assert!(summary.per_user.is_empty());
}

#[test]
fn summary_of_unknown_group_is_empty_not_an_error() {
    let s = fixture();
    let summary = s.group_activities_summary(999);
    assert_eq!(summary.group_id, 999);
    assert_eq!(summary.total_activities, 0);
    assert!(summary.activities.is_empty());
    assert!(summary.per_user.is_empty());
}

#[test]
fn listing_and_summary_feed_are_the_same_list() {
    // two activities share one instant: the id tie-break keeps both lists equal
    let mut s = fixture();
    s.insert_activity(31, 2, 10, "same time b".to_owned(), 2000).unwrap();
    s.insert_activity(30, 1, 10, "same time a".to_owned(), 2000).unwrap();
    s.insert_activity(32, 1, 10, "later".to_owned(), 3000).unwrap();
    let listing = s.list_group_activities(10);
    let summary = s.group_activities_summary(10);
    assert_eq!(listing.len(), summary.activities.len());
    for (x, y) in listing.iter().zip(summary.activities.iter()) {
        assert_eq!(x.id, y.id);
        assert_eq!(x.description, y.description);
        assert_eq!(x.created_at, y.created_at);
    }
    assert_eq!(listing[0].description, "later");
    assert_eq!(listing[1].description, "same time a");
    assert_eq!(listing[2].description, "same time b");
}
