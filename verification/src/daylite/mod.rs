//! Daylite records: projects, contacts and their calendar URLs, categories,
//! deep links, API errors and the token rules of the Daylite API.

pub mod auth_flow;
pub mod categories;
pub mod contacts;
pub mod credentials;
pub mod deep_link;
pub mod project_cache;
pub mod projects;
pub mod queries;
pub mod recording_harness;
pub mod rotation;
pub mod shared;
pub mod test_support;
pub mod token_session;
