//! Verified core of a collaborative study-tracking service.
//!
//! Users form groups with a shared goal, join groups, log study activities,
//! and view per-group rankings of who has logged the most activities. The
//! store model, the membership transaction rules, and the ranking/aggregation
//! logic live here with machine-checked contracts; HTTP routing and database
//! plumbing stay outside the verified core.

pub mod laws;
pub mod model;
pub mod order;
pub mod queries;
pub mod service;
pub mod store;
