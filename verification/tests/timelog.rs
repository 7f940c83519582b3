use rusty_time_logger::services::action_service::{random_id, save};
use rusty_time_logger::services::project_service::Project;
use rusty_time_logger::services::task_service::Task;
use rusty_time_logger::utils::csv::{delete_rows, format_row, parse_rows};

fn row(v: &[&str]) -> Vec<String> {
    v.iter().map(|s| s.to_string()).collect()
}

#[test]
fn a_row_is_id_date_description_and_duration() {
    assert_eq!(format_row("id1", " 5 March", "#12 fix", 3723), "id1, 5 March,#12 fix,01:02:03\n");
    assert_eq!(format_row("", "", "", 0), ",,,00:00:00\n");
}

#[test]
fn durations_beyond_u32_wrap_around() {
    let secs: u64 = (1u64 << 32) + 61;
    assert_eq!(format_row("a", "d", "x", secs), "a,d,x,00:01:01\n");
}

#[test]
fn rows_are_lines_split_at_commas() {
    assert_eq!(parse_rows(""), Vec::<Vec<String>>::new());
    assert_eq!(parse_rows("a,b\nc\n"), vec![row(&["a", "b"]), row(&["c"])]);
    assert_eq!(parse_rows("a,b\r\nc"), vec![row(&["a", "b"]), row(&["c"])]);
    assert_eq!(parse_rows("\n"), vec![row(&[""])]);
    assert_eq!(parse_rows("a\n\nb\n"), vec![row(&["a"]), row(&[""]), row(&["b"])]);
    assert_eq!(parse_rows("x\r"), vec![row(&["x\r"])]);
}

#[test]
fn reading_after_saving_gives_the_saved_row() {
    let mut content = String::new();
    let mut expected: Vec<Vec<String>> = Vec::new();
    for (id, secs) in [("AAA", 65u64), ("BBB", 3600), ("CCC", 0)] {
        content.push_str(&format_row(id, "12 May", "#3 write tests", secs));
        let time = rusty_time_logger::utils::time::seconds_to_his(secs as u32);
        expected.push(row(&[id, "12 May", "#3 write tests", &time]));
        assert_eq!(parse_rows(&content), expected);
    }
}

#[test]
fn deleting_removes_the_rows_of_the_task() {
    let content = "A,1 May,x,00:00:01\nB,1 May,y,00:00:02\nA,2 May,z,00:00:03\n";
    let after = delete_rows(content, "A");
    assert_eq!(after, "B,1 May,y,00:00:02\n");
    assert_eq!(parse_rows(&after), vec![row(&["B", "1 May", "y", "00:00:02"])]);
    assert_eq!(delete_rows(content, "C"), content);
    assert_eq!(delete_rows("", "A"), "");
}

#[test]
fn deleting_rewrites_line_ends() {
    assert_eq!(delete_rows("A,x\r\nB,y", "A"), "B,y\n");
    assert_eq!(delete_rows("A,x\r\nB,y\r\n", "C"), "A,x\nB,y\n");
}

#[test]
fn a_task_records_and_deletes_itself() {
    let task = Task::new("T1", Project::new("demo"));
    let line = task.create("#7 refactor", 125, " 3 June");
    assert_eq!(line, "T1, 3 June,#7 refactor,00:02:05\n");
    let log = format!("T0,1 June,a,00:00:01\n{}", line);
    assert_eq!(task.delete(&log), "T0,1 June,a,00:00:01\n");
}

#[test]
fn random_ids_are_alphanumeric() {
    for l in [0usize, 1, 12, 40] {
        let id = random_id(l);
        assert_eq!(id.chars().count(), l);
        assert!(id.chars().all(|c| c.is_ascii_alphanumeric()));
    }
}

#[test]
fn saving_a_task_makes_its_line() {
    let (task, line) = save("demo", 3_723_999, "#4 design", "10 July");
    assert_eq!(task.id.len(), 12);
    assert!(task.id.chars().all(|c| c.is_ascii_alphanumeric()));
    assert_eq!(task.project.id, "DEMO");
    assert_eq!(line, format!("{},10 July,#4 design,01:02:03\n", task.id));
    let (other, _) = save("demo", 0, "x", "d");
    assert_ne!(other.id, task.id);
}
