//! A finished task of a project: the line that records it in the project's
//! timelog, and the timelog without it.

use vstd::prelude::*;

use crate::services::project_service::Project;
use crate::utils::csv::{deleted_content, delete_rows, format_row, row_line};
use crate::utils::time::his_seq;

verus! {

/// A task of a project, by id.
pub struct Task {
    pub id: String,
    pub project: Project,
}

impl Task {
    /// The task `id` of `project`.
    pub fn new(id: &str, project: Project) -> (r: Task)
        ensures
            r.id@ == id@,
            r.project == project,
    {
        Task { id: String::from_str(id), project }
    }

    /// The line that creating the task appends to its project's timelog:
    /// the task's id, the date, the description and the duration as
    /// `HH:MM:SS` (modulo 2^32 seconds), separated by commas.
    pub fn create(&self, task_description: &str, seconds: u64, date: &str) -> (r: String)
        ensures
            r@ == row_line(self.id@, date@, task_description@, his_seq((seconds as u32) as nat)),
    {
        format_row(self.id.as_str(), date, task_description, seconds)
    }

    /// The project's timelog without the task: every row whose first field
    /// is the task's id left out.
    pub fn delete(&self, timelog: &str) -> (r: String)
        ensures
            r@ == deleted_content(timelog@, self.id@),
    {
        delete_rows(timelog, self.id.as_str())
    }
}

} // verus!
