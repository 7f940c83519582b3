//! Clients of project management services.

pub mod github_client;
pub mod graphql_client;
pub mod pm_client;
