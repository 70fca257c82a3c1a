//! Record types of the service: the four stored entities, the shapes the
//! read endpoints return, the request payloads, and the flat error type.
//!
//! Identifiers are 128-bit values (the width of a UUID); creation instants
//! are integer timestamps (milliseconds). Every type carrying a `String`
//! implements `Clone` by hand so that verified code knows a clone equals
//! the original.

use vstd::prelude::*;

verus! {

/// A registered user: unique id, unique email, display name, creation instant.
#[derive(Debug)]
pub struct User {
    pub id: u128,
    pub email: String,
    pub name: String,
    pub created_at: i64,
}

impl Clone for User {
    fn clone(&self) -> (r: Self)
        ensures
            r == *self,
    {
        User {
            id: self.id,
            email: self.email.clone(),
            name: self.name.clone(),
            created_at: self.created_at,
        }
    }
}

/// A study group: unique id, name, fixed owner, goal in days, creation instant.
#[derive(Debug)]
pub struct Group {
    pub id: u128,
    pub name: String,
    pub owner_id: u128,
    pub goal_days: i32,
    pub created_at: i64,
}

impl Clone for Group {
    fn clone(&self) -> (r: Self)
        ensures
            r == *self,
    {
        Group {
            id: self.id,
            name: self.name.clone(),
            owner_id: self.owner_id,
            goal_days: self.goal_days,
            created_at: self.created_at,
        }
    }
}

/// A membership row linking a user to a group; `created_at` is the join instant.
#[derive(Debug)]
pub struct GroupMembership {
    pub id: u128,
    pub user_id: u128,
    pub group_id: u128,
    pub created_at: i64,
}

impl Clone for GroupMembership {
    fn clone(&self) -> (r: Self)
        ensures
            r == *self,
    {
        GroupMembership {
            id: self.id,
            user_id: self.user_id,
            group_id: self.group_id,
            created_at: self.created_at,
        }
    }
}

/// A logged study activity: acting user, group, free-text description.
#[derive(Debug)]
pub struct Activity {
    pub id: u128,
    pub user_id: u128,
    pub group_id: u128,
    pub description: String,
    pub created_at: i64,
}

impl Clone for Activity {
    fn clone(&self) -> (r: Self)
        ensures
            r == *self,
    {
        Activity {
            id: self.id,
            user_id: self.user_id,
            group_id: self.group_id,
            description: self.description.clone(),
            created_at: self.created_at,
        }
    }
}

/// An activity annotated with the acting user's display name, as the
/// activity listing and the summary return it.
#[derive(Debug)]
pub struct ActivityWithUser {
    pub id: u128,
    pub user_id: u128,
    pub user_name: String,
    pub group_id: u128,
    pub description: String,
    pub created_at: i64,
}

impl Clone for ActivityWithUser {
    fn clone(&self) -> (r: Self)
        ensures
            r == *self,
    {
        ActivityWithUser {
            id: self.id,
            user_id: self.user_id,
            user_name: self.user_name.clone(),
            group_id: self.group_id,
            description: self.description.clone(),
            created_at: self.created_at,
        }
    }
}

/// One ranking row: a member of the summary's `per_user` list.
#[derive(Debug)]
pub struct UserActivityCount {
    pub user_id: u128,
    pub user_name: String,
    pub activities_count: u64,
}

impl Clone for UserActivityCount {
    fn clone(&self) -> (r: Self)
        ensures
            r == *self,
    {
        UserActivityCount {
            user_id: self.user_id,
            user_name: self.user_name.clone(),
            activities_count: self.activities_count,
        }
    }
}

/// The ranking payload of a group: total count, annotated activity feed
/// (newest first), and per-user counts (count descending, name ascending).
#[derive(Debug)]
pub struct GroupActivitiesSummary {
    pub group_id: u128,
    pub total_activities: u64,
    pub activities: Vec<ActivityWithUser>,
    pub per_user: Vec<UserActivityCount>,
}

/// A group as the per-user group listing returns it.
#[derive(Debug)]
pub struct UserGroup {
    pub id: u128,
    pub name: String,
    pub owner_id: u128,
    pub goal_days: i32,
    pub created_at: i64,
}

impl Clone for UserGroup {
    fn clone(&self) -> (r: Self)
        ensures
            r == *self,
    {
        UserGroup {
            id: self.id,
            name: self.name.clone(),
            owner_id: self.owner_id,
            goal_days: self.goal_days,
            created_at: self.created_at,
        }
    }
}

/// A member of a group as the member listing returns it.
#[derive(Debug)]
pub struct GroupMember {
    pub user_id: u128,
    pub name: String,
    pub email: String,
    pub joined_at: i64,
}

impl Clone for GroupMember {
    fn clone(&self) -> (r: Self)
        ensures
            r == *self,
    {
        GroupMember {
            user_id: self.user_id,
            name: self.name.clone(),
            email: self.email.clone(),
            joined_at: self.joined_at,
        }
    }
}

/// Payload for creating a user.
#[derive(Debug)]
pub struct CreateUserInput {
    pub email: String,
    pub name: String,
}

/// Payload for creating a group.
#[derive(Debug)]
pub struct CreateGroupInput {
    pub name: String,
    pub owner_id: u128,
    pub goal_days: i32,
}

/// Payload for joining a group.
#[derive(Debug)]
pub struct JoinGroupInput {
    pub user_id: u128,
}

/// Payload for logging an activity.
#[derive(Debug)]
pub struct CreateActivityInput {
    pub user_id: u128,
    pub description: String,
}

/// The service's single, flat error kind: every store-level failure is
/// surfaced uniformly with a human-readable message and nothing more.
#[derive(Debug)]
pub struct ServiceError {
    pub message: String,
}

impl ServiceError {
    /// The failure's human-readable message.
    pub fn message_text(&self) -> (r: &String)
        ensures
            r@ == self.message@,
    {
        &self.message
    }
}

impl Clone for ServiceError {
    fn clone(&self) -> (r: Self)
        ensures
            r == *self,
    {
        ServiceError { message: self.message.clone() }
    }
}

} // verus!
