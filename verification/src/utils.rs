//! The project's own formats: durations, the timelog file, the HTML export
//! and the project settings read from a GitHub project URL.

pub mod csv;
pub mod export;
pub mod project_config;
pub mod time;
