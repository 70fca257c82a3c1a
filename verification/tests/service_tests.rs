use ranking_estudos_backend::model::CreateActivityInput;
use ranking_estudos_backend::model::CreateGroupInput;
use ranking_estudos_backend::model::CreateUserInput;
use ranking_estudos_backend::model::JoinGroupInput;
use ranking_estudos_backend::service::create_activity;
use ranking_estudos_backend::service::create_group;
use ranking_estudos_backend::service::create_user;
use ranking_estudos_backend::service::join_group;
use ranking_estudos_backend::store::Store;

fn user_input(email: &str, name: &str) -> CreateUserInput {
    CreateUserInput { email: email.to_owned(), name: name.to_owned() }
}

#[test]
fn created_user_round_trips_through_the_listing() {
    let mut s = Store::new();
    let u = create_user(&mut s, user_input("eve@example.com", "Eve")).unwrap();
    let users = s.list_users();
    assert!(users
        .iter()
        .any(|x| x.id == u.id && x.email == "eve@example.com" && x.name == "Eve"));
}

#[test]
fn duplicate_email_is_rejected() {
    let mut s = Store::new();
    create_user(&mut s, user_input("eve@example.com", "Eve")).unwrap();
    let r = create_user(&mut s, user_input("eve@example.com", "Evil"));
    assert!(r.is_err());
    assert_eq!(s.users.len(), 1);
}

#[test]
fn group_creation_enrolls_owner_and_join_is_idempotent() {
    let mut s = Store::new();
    let owner = create_user(&mut s, user_input("amy@example.com", "Amy")).unwrap();
    let other = create_user(&mut s, user_input("bob@example.com", "Bob")).unwrap();
    let g = create_group(&mut s, CreateGroupInput { name: "Study".to_owned(), owner_id: owner.id, goal_days: 30 }).unwrap();
    assert_eq!(s.memberships.len(), 1);
    assert!(join_group(&mut s, g.id, JoinGroupInput { user_id: other.id }).is_ok());
    assert!(join_group(&mut s, g.id, JoinGroupInput { user_id: other.id }).is_ok());
    let rows = s
        .memberships
        .iter()
        .filter(|m| m.user_id == other.id && m.group_id == g.id)
        .count();
    assert_eq!(rows, 1);
}

#[test]
fn group_creation_fails_for_unknown_owner_without_a_trace() {
    let mut s = Store::new();
    let r = create_group(&mut s, CreateGroupInput { name: "Study".to_owned(), owner_id: 12345, goal_days: 30 });
    assert!(r.is_err());
    assert!(s.groups.is_empty());
    assert!(s.memberships.is_empty());
}

#[test]
fn activity_creation_and_summary_agree() {
    let mut s = Store::new();
    let amy = create_user(&mut s, user_input("amy@example.com", "Amy")).unwrap();
    let g = create_group(&mut s, CreateGroupInput { name: "Study".to_owned(), owner_id: amy.id, goal_days: 30 }).unwrap();
    let a = create_activity(&mut s, g.id, CreateActivityInput { user_id: amy.id, description: "flashcards".to_owned() }).unwrap();
    assert_eq!(a.group_id, g.id);
    let summary = s.group_activities_summary(g.id);
    assert_eq!(summary.total_activities, 1);
    assert_eq!(summary.per_user.len(), 1);
    assert_eq!(summary.per_user[0].user_id, amy.id);
    assert_eq!(summary.per_user[0].activities_count, 1);
    assert_eq!(summary.activities[0].id, a.id);
    assert_eq!(summary.activities[0].user_name, "Amy");
}

#[test]
fn activity_for_unknown_group_is_rejected() {
    let mut s = Store::new();
    let amy = create_user(&mut s, user_input("amy@example.com", "Amy")).unwrap();
    assert!(create_activity(&mut s, 777, CreateActivityInput { user_id: amy.id, description: "x".to_owned() }).is_err());
    assert!(s.activities.is_empty());
}

#[test]
fn join_of_unknown_group_is_rejected() {
    let mut s = Store::new();
    let amy = create_user(&mut s, user_input("amy@example.com", "Amy")).unwrap();
    assert!(join_group(&mut s, 777, JoinGroupInput { user_id: amy.id }).is_err());
    assert!(s.memberships.is_empty());
}
