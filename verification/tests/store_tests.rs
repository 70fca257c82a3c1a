use ranking_estudos_backend::store::Store;

fn seeded() -> Store {
    let mut s = Store::new();
    s.insert_user(1, "amy@example.com".to_owned(), "Amy".to_owned(), 100).unwrap();
    s.insert_user(2, "bob@example.com".to_owned(), "Bob".to_owned(), 200).unwrap();
    s
}

#[test]
fn insert_user_returns_the_record() {
    let mut s = Store::new();
    let u = s.insert_user(7, "a@b.c".to_owned(), "Ada".to_owned(), 42).unwrap();
    assert_eq!(u.id, 7);
    assert_eq!(u.email, "a@b.c");
    assert_eq!(u.name, "Ada");
    assert_eq!(u.created_at, 42);
    assert_eq!(s.users.len(), 1);
}

#[test]
fn insert_user_rejects_duplicate_id() {
    let mut s = seeded();
    let r = s.insert_user(1, "new@example.com".to_owned(), "New".to_owned(), 300);
    assert!(r.is_err());
    assert_eq!(s.users.len(), 2);
}

#[test]
fn insert_user_rejects_duplicate_email() {
    let mut s = seeded();
    let r = s.insert_user(3, "amy@example.com".to_owned(), "Other".to_owned(), 300);
    assert!(r.is_err());
    assert_eq!(s.users.len(), 2);
}

#[test]
fn create_group_enrolls_the_owner() {
    let mut s = seeded();
    let g = s.create_group(10, 20, "Study".to_owned(), 1, 30, 500).unwrap();
    assert_eq!(g.id, 10);
    assert_eq!(g.owner_id, 1);
    assert_eq!(g.goal_days, 30);
    assert_eq!(s.groups.len(), 1);
    assert_eq!(s.memberships.len(), 1);
    assert_eq!(s.memberships[0].user_id, 1);
    assert_eq!(s.memberships[0].group_id, 10);
}

#[test]
fn create_group_rejects_unknown_owner() {
    let mut s = seeded();
    let r = s.create_group(10, 20, "Study".to_owned(), 99, 30, 500);
    assert!(r.is_err());
    assert_eq!(s.groups.len(), 0);
    assert_eq!(s.memberships.len(), 0);
}

#[test]
fn create_group_rolls_back_when_membership_insert_fails() {
    // forcing the owner-membership insert to fail must leave no group row
    let mut s = seeded();
    s.create_group(10, 20, "First".to_owned(), 1, 30, 500).unwrap();
    let r = s.create_group(11, 20, "Second".to_owned(), 2, 60, 600);
    assert!(r.is_err());
    assert_eq!(s.groups.len(), 1);
    assert!(!s.groups.iter().any(|g| g.id == 11));
    assert_eq!(s.memberships.len(), 1);
}

#[test]
fn join_group_is_idempotent() {
    let mut s = seeded();
    s.create_group(10, 20, "Study".to_owned(), 1, 30, 500).unwrap();
    assert!(s.insert_membership(21, 2, 10, 600).is_ok());
    assert!(s.insert_membership(22, 2, 10, 700).is_ok());
    let rows = s
        .memberships
        .iter()
        .filter(|m| m.user_id == 2 && m.group_id == 10)
        .count();
    assert_eq!(rows, 1);
    assert_eq!(s.memberships.len(), 2);
}

#[test]
fn join_group_rejects_unknown_user() {
    let mut s = seeded();
    s.create_group(10, 20, "Study".to_owned(), 1, 30, 500).unwrap();
    assert!(s.insert_membership(21, 99, 10, 600).is_err());
    assert_eq!(s.memberships.len(), 1);
}

#[test]
fn join_group_rejects_unknown_group() {
    let mut s = seeded();
    assert!(s.insert_membership(21, 1, 99, 600).is_err());
    assert_eq!(s.memberships.len(), 0);
}

#[test]
fn join_group_rejects_duplicate_membership_id() {
    let mut s = seeded();
    s.create_group(10, 20, "Study".to_owned(), 1, 30, 500).unwrap();
    assert!(s.insert_membership(20, 2, 10, 600).is_err());
    assert_eq!(s.memberships.len(), 1);
}

#[test]
fn insert_activity_records_the_row() {
    let mut s = seeded();
    s.create_group(10, 20, "Study".to_owned(), 1, 30, 500).unwrap();
    let a = s.insert_activity(30, 2, 10, "read a chapter".to_owned(), 600).unwrap();
    assert_eq!(a.id, 30);
    assert_eq!(a.user_id, 2);
    assert_eq!(a.group_id, 10);
    assert_eq!(a.description, "read a chapter");
    assert_eq!(s.activities.len(), 1);
}

#[test]
fn insert_activity_rejects_unknown_user() {
    let mut s = seeded();
    s.create_group(10, 20, "Study".to_owned(), 1, 30, 500).unwrap();
    assert!(s.insert_activity(30, 99, 10, "x".to_owned(), 600).is_err());
    assert_eq!(s.activities.len(), 0);
}

#[test]
fn insert_activity_rejects_unknown_group() {
    let mut s = seeded();
    assert!(s.insert_activity(30, 1, 99, "x".to_owned(), 600).is_err());
    assert_eq!(s.activities.len(), 0);
}

#[test]
fn insert_activity_rejects_duplicate_id() {
    let mut s = seeded();
    s.create_group(10, 20, "Study".to_owned(), 1, 30, 500).unwrap();
    s.insert_activity(30, 2, 10, "x".to_owned(), 600).unwrap();
    assert!(s.insert_activity(30, 1, 10, "y".to_owned(), 700).is_err());
    assert_eq!(s.activities.len(), 1);
}

#[test]
fn activity_by_non_member_is_accepted() {
    // no rule ties the acting user to membership of the group
    let mut s = seeded();
    s.create_group(10, 20, "Study".to_owned(), 1, 30, 500).unwrap();
    assert!(s.insert_activity(30, 2, 10, "from outside".to_owned(), 600).is_ok());
}

#[test]
fn error_carries_a_message() {
    let mut s = seeded();
    let e = s.insert_user(1, "x@y.z".to_owned(), "X".to_owned(), 1).unwrap_err();
    assert!(!e.message_text().is_empty());
}
