use rusty_time_logger::services::project_config_service::{ProjectConfig, ProjectSettings};
use rusty_time_logger::services::project_service::{
    per_task_of, task_keys, task_seconds, total_of, Project, SyncFinish,
};
use rusty_time_logger::utils::export::export_to_html;
use rusty_time_logger::utils::project_config::{
    get_github_issue_nr_from_task_description, get_github_organization_from_url,
    issue_nr_from_capture,
};

fn rows(v: &[[&str; 4]]) -> Vec<Vec<String>> {
    v.iter().map(|r| r.iter().map(|s| s.to_string()).collect()).collect()
}

fn sample() -> Vec<Vec<String>> {
    rows(&[
        ["a", " 1 May", "#1 setup", "01:00:00"],
        ["b", " 1 May", "#2 design work", "00:30:00"],
        ["c", " 2 May", "#1 more setup", "00:15:30"],
        ["d", " 2 May", "lunch", "bad"],
        ["e", " 3 May", "meeting", "00:00:10"],
    ])
}

#[test]
fn project_ids_are_upper_case() {
    let p = Project::new("demo-Project");
    assert_eq!(p.id, "DEMO-PROJECT");
    assert_eq!(p.config.as_ref().map(|c| c.project_id.clone()), Some("DEMO-PROJECT".to_string()));
    assert_eq!(Project::new("straße").id, "STRASSE");
    assert_eq!(ProjectConfig::new(Project::new("x")).project_id, "X");
}

#[test]
fn tasks_are_the_timelog_rows() {
    let p = Project::new("demo");
    assert_eq!(p.tasks("a,b,c,d\n"), rows(&[["a", "b", "c", "d"]]));
}

#[test]
fn total_time_skips_unreadable_durations() {
    let p = Project::new("demo");
    assert_eq!(p.total_seconds_spent(&sample()), Ok(3600 + 1800 + 930 + 10));
    assert_eq!(p.checked_total_seconds_spent(&sample()), Some(6340));
    assert_eq!(p.total_seconds_spent(&Vec::new()), Ok(0));
}

#[test]
fn time_per_task_in_order_of_first_appearance() {
    let p = Project::new("demo");
    let expected = vec![
        ("#1".to_string(), 3600 + 930),
        ("#2".to_string(), 1800),
        ("meeting".to_string(), 10),
    ];
    assert_eq!(p.seconds_spent_per_task(&sample()), Ok(expected.clone()));
    assert_eq!(p.checked_seconds_spent_per_task(&sample()), Some(expected));
}

#[test]
fn per_task_totals_add_up_to_the_total() {
    let p = Project::new("demo");
    let per_task = p.seconds_spent_per_task(&sample()).unwrap();
    let sum: u32 = per_task.iter().map(|(_, s)| *s).sum();
    assert_eq!(Ok(sum), p.total_seconds_spent(&sample()));
}

#[test]
fn keys_and_durations_of_rows() {
    let t = sample();
    assert_eq!(task_keys(&t), vec!["#1", "#2", "#1", "lunch", "meeting"]);
    assert_eq!(task_seconds(&t), vec![Some(3600), Some(1800), Some(930), None, Some(10)]);
    assert_eq!(task_keys(&rows(&[["a", "b", "", "d"]])), vec![""]);
}

#[test]
fn sums_that_overflow_are_refused() {
    let times = vec![Some(u32::MAX), Some(1)];
    assert_eq!(total_of(&times), None);
    assert_eq!(total_of(&vec![Some(u32::MAX), None]), Some(u32::MAX));
    let keys = vec!["a".to_string(), "b".to_string()];
    assert_eq!(
        per_task_of(&keys, &times),
        Some(vec![("a".to_string(), u32::MAX), ("b".to_string(), 1)])
    );
    let same = vec!["a".to_string(), "a".to_string()];
    assert_eq!(per_task_of(&same, &times), None);
}

#[test]
fn a_huge_timelog_overflows() {
    let p = Project::new("demo");
    let many: Vec<Vec<String>> = (0..49711)
        .map(|i| vec![format!("{}", i), "d".to_string(), "x".to_string(), "23:59:59".to_string()])
        .collect();
    assert_eq!(p.checked_total_seconds_spent(&many), None);
    assert_eq!(p.checked_seconds_spent_per_task(&many), None);
    assert_eq!(p.export("%total_time_spent%", &many), None);
    let fewer = &many[..49710].to_vec();
    assert_eq!(p.checked_total_seconds_spent(fewer), Some(49710 * 86399));
}

#[test]
fn export_fills_the_template() {
    let p = Project::new("demo");
    let template = "<h1>%project_id%</h1><p>%total_time_spent%</p><table>%tbody_time_per_task%</table><table>%tbody_tasks_log%</table>";
    let t = rows(&[["a", " 1 May", "#1 setup", "01:00:00"], ["b", " 2 May", "#1 more", "00:00:05"]]);
    let expected = "<h1>DEMO</h1><p>01:00:05</p><table><tr><td>#1</td><td>01:00:05</td></tr></table><table><tr><td> 2 May</td><td>#1 more</td><td>00:00:05</td></tr><tr><td> 1 May</td><td>#1 setup</td><td>01:00:00</td></tr></table>";
    assert_eq!(export_to_html(template, &p, &t), expected);
    assert_eq!(p.export(template, &t).as_deref(), Some(expected));
    assert_eq!(export_to_html("%project_id% %project_id%", &p, &t), "DEMO DEMO");
    assert_eq!(export_to_html("static", &p, &Vec::new()), "static");
}

#[test]
fn organization_and_number_from_project_urls() {
    let ok = |o: &str, n: &str| Ok((o.to_string(), n.to_string()));
    assert_eq!(get_github_organization_from_url("https://github.com/orgs/acme/projects/3"), ok("acme", "3"));
    assert_eq!(get_github_organization_from_url("https://github.com/orgs/acme/projects/3///"), ok("acme", "3"));
    assert_eq!(get_github_organization_from_url("a/b/c"), ok("a", "c"));
    assert_eq!(get_github_organization_from_url("a/b"), Err("Invalid URL".to_string()));
    assert_eq!(get_github_organization_from_url(""), Err("Invalid URL".to_string()));
    assert_eq!(get_github_organization_from_url("a//"), Err("Invalid URL".to_string()));
}

#[test]
fn issue_numbers_in_descriptions() {
    assert_eq!(get_github_issue_nr_from_task_description("#12 fix"), Ok("12".to_string()));
    assert_eq!(get_github_issue_nr_from_task_description("see # and #34, #5"), Ok("34".to_string()));
    assert_eq!(
        get_github_issue_nr_from_task_description("no number"),
        Err("No issue number found in the task description".to_string())
    );
    assert_eq!(
        get_github_issue_nr_from_task_description("#x"),
        Err("No issue number found in the task description".to_string())
    );
}

#[test]
fn answers_of_the_issue_number_search() {
    assert_eq!(issue_nr_from_capture(Ok(Some("7".to_string()))), Ok("7".to_string()));
    assert_eq!(
        issue_nr_from_capture(Ok(None)),
        Err("No issue number found in the task description".to_string())
    );
    assert_eq!(issue_nr_from_capture(Err("bad".to_string())), Err("bad".to_string()));
}

#[test]
fn new_settings_and_saved_github_settings() {
    let pair = |k: &str, v: &str| (k.to_string(), v.to_string());
    assert_eq!(
        ProjectConfig::default_entries(),
        vec![
            pair("auth_token", ""),
            pair("project_url", ""),
            pair("spent_time_field_name", "SPENT TIME"),
            pair("timelog_ticket_nr", ""),
        ]
    );
    assert_eq!(
        ProjectConfig::github_settings_entries("tok", "https://x/orgs/o/projects/1", "Spent Time", "#9"),
        vec![
            pair("auth_token", "tok"),
            pair("project_url", "https://x/orgs/o/projects/1"),
            pair("spent_time_field_name", "spent time"),
            pair("timelog_ticket_nr", "#9"),
        ]
    );
}

fn settings(url: &str, timelog: &str) -> ProjectSettings {
    ProjectSettings {
        auth_token: "secret".to_string(),
        project_url: url.to_string(),
        spent_time_field_name: "Spent".to_string(),
        timelog_ticket_nr: timelog.to_string(),
    }
}

#[test]
fn sync_records_time_per_issue_then_the_total() {
    let p = Project::new("demo");
    let plan = p
        .sync_spent_time_to_pm(&settings("https://github.com/orgs/acme/projects/4", "#99 timelog"), &sample())
        .ok()
        .unwrap();
    assert_eq!(plan.client.project_number, 4);
    assert_eq!(plan.client.spent_time_field_name, "Spent");
    assert_eq!(plan.client.graphql_client.endpoint, "https://api.github.com/graphql");
    assert_eq!(
        plan.client.graphql_client.headers,
        vec![
            ("user-agent".to_string(), "rustytimelogger".to_string()),
            ("authorization".to_string(), "Bearer secret".to_string()),
        ]
    );
    assert_eq!(
        plan.updates,
        vec![("1".to_string(), "01:15:30".to_string()), ("2".to_string(), "00:30:00".to_string())]
    );
    match plan.finish {
        SyncFinish::Update { ticket_nr, time } => {
            assert_eq!(ticket_nr, "99");
            assert_eq!(time, "01:45:40");
        }
        _ => panic!("expected an update of the timelog ticket"),
    }
}

#[test]
fn sync_without_timelog_ticket_or_with_a_bad_one() {
    let p = Project::new("demo");
    let plan = p.sync_spent_time_to_pm(&settings("o/projects/1", ""), &sample()).ok().unwrap();
    assert!(matches!(plan.finish, SyncFinish::Done));
    let plan = p.sync_spent_time_to_pm(&settings("o/projects/1", "none"), &sample()).ok().unwrap();
    match plan.finish {
        SyncFinish::Fail(e) => assert_eq!(e, "No issue number found in the task description"),
        _ => panic!("expected a failure"),
    }
    assert_eq!(
        p.sync_spent_time_to_pm(&settings("projects/1", ""), &sample()).err(),
        Some("Invalid URL".to_string())
    );
}
