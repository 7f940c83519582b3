//! Verified core of a project time logger: the timelog file format, time
//! formatting, per-task time accounting, the HTML export, and the decisions
//! taken while synchronising spent time to a GitHub project.

pub mod config;
pub mod json;
pub mod services;
pub mod text;
pub mod utils;
