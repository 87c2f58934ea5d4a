use media_pipeline::logger::{
    date_lt, format_log_line, log_file_name, parse_log_date, should_delete_log, tail_lines,
    tool_log_line_now, write_tool_log, Date,
};

#[test]
fn log_line_format() {
    assert_eq!(
        write_tool_log("ffmpeg", "INFO", "混流命令执行成功", "2024-01-02 03:04:05.678"),
        "[2024-01-02 03:04:05.678] [INFO] [ffmpeg] 混流命令执行成功\n"
    );
    assert_eq!(
        format_log_line("ts", "ERROR", None, "plain"),
        "[ts] [ERROR] plain\n"
    );
}

#[test]
fn stamped_tool_log_line_has_shape() {
    let line = tool_log_line_now("N_m3u8DL-RE", "DEBUG", "msg");
    assert!(line.starts_with('['));
    assert!(line.contains("] [DEBUG] [N_m3u8DL-RE] msg"));
    assert!(line.ends_with('\n'));
}

#[test]
fn dated_file_name_zero_padded() {
    let d = Date { year: 2024, month: 3, day: 5 };
    assert_eq!(log_file_name(d), "gaga-client_2024-03-05.log");
    let d = Date { year: 987, month: 12, day: 31 };
    assert_eq!(log_file_name(d), "gaga-client_0987-12-31.log");
}

#[test]
fn parse_log_date_round_trips() {
    let d = Date { year: 2024, month: 3, day: 5 };
    assert_eq!(parse_log_date(&log_file_name(d)), Some(d));
}

#[test]
fn parse_log_date_rejects_foreign_names() {
    assert_eq!(parse_log_date("other.log"), None);
    assert_eq!(parse_log_date("gaga-client_2024-03-05.txt"), None);
    assert_eq!(parse_log_date("gaga-client_2024-3-5.log"), None);
    assert_eq!(parse_log_date("gaga-client_2024-13-01.log"), None);
    assert_eq!(parse_log_date("gaga-client_2024-00-10.log"), None);
    assert_eq!(parse_log_date("gaga-client_2024-04-31.log"), None);
}

#[test]
fn leap_years_respected() {
    assert!(parse_log_date("gaga-client_2024-02-29.log").is_some());
    assert_eq!(parse_log_date("gaga-client_2023-02-29.log"), None);
    assert_eq!(parse_log_date("gaga-client_1900-02-29.log"), None);
    assert!(parse_log_date("gaga-client_2000-02-29.log").is_some());
}

#[test]
fn date_order() {
    let a = Date { year: 2024, month: 3, day: 5 };
    let b = Date { year: 2024, month: 3, day: 6 };
    let c = Date { year: 2025, month: 1, day: 1 };
    assert!(date_lt(a, b));
    assert!(date_lt(b, c));
    assert!(!date_lt(b, a));
    assert!(!date_lt(a, a));
}

#[test]
fn cleanup_deletes_only_dated_files_before_cutoff() {
    let cutoff = Date { year: 2024, month: 6, day: 1 };
    assert!(should_delete_log("gaga-client_2024-05-31.log", cutoff));
    assert!(!should_delete_log("gaga-client_2024-06-01.log", cutoff));
    assert!(!should_delete_log("gaga-client_2024-06-02.log", cutoff));
    assert!(!should_delete_log("unrelated.log", cutoff));
}

#[test]
fn tail_keeps_last_lines() {
    assert_eq!(tail_lines("a\nb\nc\n", Some(2)), "b\nc");
    assert_eq!(tail_lines("a\nb\nc", Some(5)), "a\nb\nc");
    assert_eq!(tail_lines("a\nb\nc\n", None), "a\nb\nc\n");
    assert_eq!(tail_lines("", Some(3)), "");
}

#[test]
fn tail_strips_carriage_returns_like_line_reading() {
    assert_eq!(tail_lines("a\r\nb\r\nc\r\n", Some(2)), "b\nc");
}
