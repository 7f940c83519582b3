//! Projects, their settings and tasks, and the clients of project management
//! services.

pub mod action_service;
pub mod clients;
pub mod project_config_service;
pub mod project_service;
pub mod task_service;
