use rusty_time_logger::text::{
    eq_ignore_ascii_case, join_str, parse_u64, parse_u8, replace_str, split_str,
};
use rusty_time_logger::utils::time::{format_task_date, parse_his, seconds_of_hms, seconds_to_his};

fn strings(v: &[&str]) -> Vec<String> {
    v.iter().map(|s| s.to_string()).collect()
}

#[test]
fn split_keeps_empty_pieces() {
    assert_eq!(split_str("a,b,,c", ','), strings(&["a", "b", "", "c"]));
    assert_eq!(split_str("", ','), strings(&[""]));
    assert_eq!(split_str(",", ','), strings(&["", ""]));
    assert_eq!(split_str("abc", ','), strings(&["abc"]));
}

#[test]
fn join_gives_back_what_was_split() {
    for s in ["a,b,,c", "", ",", "x,", ",y", "no separator"] {
        assert_eq!(join_str(&split_str(s, ','), ','), s);
    }
}

#[test]
fn replace_is_left_to_right_and_non_overlapping() {
    assert_eq!(replace_str("aXbXc", "X", "yy"), "ayybyyc");
    assert_eq!(replace_str("aaaa", "aa", "b"), "bb");
    assert_eq!(replace_str("aaa", "aa", "b"), "ba");
    assert_eq!(replace_str("none here", "%x%", "y"), "none here");
    assert_eq!(replace_str("%x%", "%x%", ""), "");
}

#[test]
fn parse_u8_reads_as_std_does() {
    assert_eq!(parse_u8("255"), Some(255));
    assert_eq!(parse_u8("0"), Some(0));
    assert_eq!(parse_u8("007"), Some(7));
    assert_eq!(parse_u8("+7"), Some(7));
    assert_eq!(parse_u8("256"), None);
    assert_eq!(parse_u8("+"), None);
    assert_eq!(parse_u8("-1"), None);
    assert_eq!(parse_u8(""), None);
    assert_eq!(parse_u8("1a"), None);
    assert_eq!(parse_u8(" 1"), None);
    for s in ["255", "0", "+7", "256", "+", "-1", "", "1a", "99999"] {
        assert_eq!(parse_u8(s), s.parse::<u8>().ok(), "input {:?}", s);
    }
}

#[test]
fn parse_u64_reads_as_std_does() {
    assert_eq!(parse_u64("18446744073709551615"), Some(u64::MAX));
    assert_eq!(parse_u64("18446744073709551616"), None);
    assert_eq!(parse_u64("99999999999999999999x"), None);
    assert_eq!(parse_u64("42"), Some(42));
    for s in ["18446744073709551615", "18446744073709551616", "42", "+42", "4 2", "٣"] {
        assert_eq!(parse_u64(s), s.parse::<u64>().ok(), "input {:?}", s);
    }
}

#[test]
fn ascii_case_is_ignored_only_for_ascii() {
    assert!(eq_ignore_ascii_case("SPENT TIME", "spent time"));
    assert!(eq_ignore_ascii_case("Spent Time", "sPENT tIME"));
    assert!(!eq_ignore_ascii_case("spent", "spent time"));
    assert!(!eq_ignore_ascii_case("É", "é"));
}

#[test]
fn seconds_are_written_as_hours_minutes_seconds() {
    assert_eq!(seconds_to_his(0), "00:00:00");
    assert_eq!(seconds_to_his(59), "00:00:59");
    assert_eq!(seconds_to_his(3661), "01:01:01");
    assert_eq!(seconds_to_his(86399), "23:59:59");
    assert_eq!(seconds_to_his(360000), "100:00:00");
    assert_eq!(seconds_to_his(u32::MAX), "1193046:28:15");
}

#[test]
fn durations_are_read_back() {
    assert_eq!(parse_his("01:02:03"), Some(3723));
    assert_eq!(parse_his("00:00:00"), Some(0));
    assert_eq!(parse_his("23:59:59"), Some(86399));
    for s in [0u32, 1, 59, 60, 3599, 3600, 45296, 86399] {
        assert_eq!(parse_his(&seconds_to_his(s)), Some(s));
    }
}

#[test]
fn unreadable_durations_are_none() {
    assert_eq!(parse_his("24:00:00"), None);
    assert_eq!(parse_his("100:00:00"), None);
    assert_eq!(parse_his("12:60:00"), None);
    assert_eq!(parse_his("abc"), None);
    assert_eq!(parse_his(""), None);
}

#[test]
fn time_of_day_in_seconds() {
    assert_eq!(seconds_of_hms(Some((1, 2, 3))), Some(3723));
    assert_eq!(seconds_of_hms(Some((23, 59, 59))), Some(86399));
    assert_eq!(seconds_of_hms(None), None);
}

#[test]
fn task_dates_are_day_and_month() {
    assert_eq!(format_task_date(2024, 3, 5).as_deref(), Some(" 5 March"));
    assert_eq!(format_task_date(2024, 12, 25).as_deref(), Some("25 December"));
    assert_eq!(format_task_date(2024, 2, 29).as_deref(), Some("29 February"));
    assert_eq!(format_task_date(2023, 2, 29), None);
    assert_eq!(format_task_date(2023, 13, 1), None);
    assert_eq!(format_task_date(2023, 1, 0), None);
}
