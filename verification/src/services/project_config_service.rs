//! The settings file of a project: which project it belongs to, what a new
//! one holds, and what saving GitHub settings writes to it.

use vstd::prelude::*;

use crate::services::project_service::Project;
use crate::text::{to_lowercase, unicode_lowercase, unicode_uppercase, to_uppercase};

verus! {

/// The settings of a project, kept in a file named after the project.
pub struct ProjectConfig {
    pub project_id: String,
}

/// The settings that synchronising spent time reads.
pub struct ProjectSettings {
    pub auth_token: String,
    pub project_url: String,
    pub spent_time_field_name: String,
    pub timelog_ticket_nr: String,
}

/// The entries of a new settings file, in order.
pub open spec fn default_entries() -> Seq<(Seq<char>, Seq<char>)> {
    seq![
        ("auth_token"@, ""@),
        ("project_url"@, ""@),
        ("spent_time_field_name"@, "SPENT TIME"@),
        ("timelog_ticket_nr"@, ""@),
    ]
}

/// The entries that saving GitHub settings writes, in order; the name of the
/// spent time field is written in lower case.
pub open spec fn github_settings_entries(
    auth_token: Seq<char>,
    project_url: Seq<char>,
    spent_time_field_name: Seq<char>,
    timelog_ticket_nr: Seq<char>,
) -> Seq<(Seq<char>, Seq<char>)> {
    seq![
        ("auth_token"@, auth_token),
        ("project_url"@, project_url),
        ("spent_time_field_name"@, unicode_lowercase(spent_time_field_name)),
        ("timelog_ticket_nr"@, timelog_ticket_nr),
    ]
}

fn entry(key: &str, value: &str) -> (r: (String, String))
    ensures
        r.0@ == key@,
        r.1@ == value@,
{
    (String::from_str(key), String::from_str(value))
}

impl ProjectConfig {
    /// The settings of `project`, filed under its id in upper case.
    pub fn new(project: Project) -> (r: ProjectConfig)
        ensures
            r.project_id@ == unicode_uppercase(project.id@),
    {
        ProjectConfig { project_id: to_uppercase(project.id.as_str()) }
    }

    /// The entries of a new settings file: an empty token, URL and time log
    /// ticket, and `SPENT TIME` as the name of the spent time field.
    pub fn default_entries() -> (r: Vec<(String, String)>)
        ensures
            r.deep_view() == default_entries(),
    {
        let mut r: Vec<(String, String)> = Vec::new();
        r.push(entry("auth_token", ""));
        r.push(entry("project_url", ""));
        r.push(entry("spent_time_field_name", "SPENT TIME"));
        r.push(entry("timelog_ticket_nr", ""));
        assert(r.deep_view() =~= default_entries());
        r
    }

    /// The entries that saving GitHub settings writes, in the order written.
    pub fn github_settings_entries(
        auth_token: &str,
        project_url: &str,
        spent_time_field_name: &str,
        timelog_ticket_nr: &str,
    ) -> (r: Vec<(String, String)>)
        ensures
            r.deep_view() == github_settings_entries(
                auth_token@,
                project_url@,
                spent_time_field_name@,
                timelog_ticket_nr@,
            ),
    {
        let lower = to_lowercase(spent_time_field_name);
        let mut r: Vec<(String, String)> = Vec::new();
        r.push(entry("auth_token", auth_token));
        r.push(entry("project_url", project_url));
        r.push(entry("spent_time_field_name", lower.as_str()));
        r.push(entry("timelog_ticket_nr", timelog_ticket_nr));
        assert(r.deep_view() =~= github_settings_entries(
            auth_token@,
            project_url@,
            spent_time_field_name@,
            timelog_ticket_nr@,
        ));
        r
    }
}

} // verus!
