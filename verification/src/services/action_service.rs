//! Saving a finished task: a new random id, and the line that records the
//! task in its project's timelog.

use rand::Rng;
use vstd::prelude::*;

use crate::services::project_service::Project;
use crate::services::task_service::Task;
use crate::text::{string_of, unicode_uppercase};
use crate::utils::csv::row_line;
use crate::utils::time::his_seq;

verus! {

/// Whether a character is an ASCII letter or digit.
pub open spec fn is_ascii_alphanumeric(c: char) -> bool {
    ('a' <= c && c <= 'z') || ('A' <= c && c <= 'Z') || ('0' <= c && c <= '9')
}

/// One sample of `rand::distributions::Alphanumeric` from `rand::thread_rng()`,
/// as a character. The contract states what rand documents: the sample is an
/// ASCII letter or digit. Which one is left open: it is random.
#[verifier::external_body]
fn random_alphanumeric() -> (c: char)
    ensures
        is_ascii_alphanumeric(c),
{
    rand::thread_rng().sample(rand::distributions::Alphanumeric) as char
}

/// A random id of `l` ASCII letters and digits.
pub fn random_id(l: usize) -> (r: String)
    ensures
        r@.len() == l,
        forall|i: int| 0 <= i < l ==> is_ascii_alphanumeric(#[trigger] r@[i]),
{
    let mut cs: Vec<char> = Vec::new();
    for i in 0..l
        invariant
            cs@.len() == i,
            forall|k: int| 0 <= k < i ==> is_ascii_alphanumeric(#[trigger] cs@[k]),
    {
        cs.push(random_alphanumeric());
    }
    string_of(&cs)
}

/// Saves a task of `ms` milliseconds, described by `description` and done
/// on `date`, in the project `project_id`: a task with a new random id of
/// twelve ASCII letters and digits, and the line that records it, with the
/// duration in whole seconds.
pub fn save(project_id: &str, ms: u64, description: &str, date: &str) -> (r: (Task, String))
    ensures
        r.0.id@.len() == 12,
        forall|i: int| 0 <= i < 12 ==> is_ascii_alphanumeric(#[trigger] r.0.id@[i]),
        r.0.project.id@ == unicode_uppercase(project_id@),
        r.0.project.config matches Some(c) && c.project_id@ == unicode_uppercase(r.0.project.id@),
        r.1@ == row_line(r.0.id@, date@, description@, his_seq(((ms / 1000) as u32) as nat)),
{
    let id = random_id(12);
    let task = Task::new(id.as_str(), Project::new(project_id));
    let line = task.create(description, ms / 1000, date);
    (task, line)
}

} // verus!
