use media_pipeline::exit_code::{
    append_line, classify_download_exit, classify_merge_exit, download_complete_event,
    runner_failure_message, RunnerFailure,
};
use media_pipeline::event::LogLevel;

#[test]
fn exit_code_zero_is_success() {
    assert_eq!(
        classify_download_exit(Some(0), "all good", "noise"),
        Ok("all good".to_string())
    );
}

#[test]
fn nonzero_exit_code_is_failure_with_code() {
    let e = classify_download_exit(Some(1), "out", "err").unwrap_err();
    assert!(e.contains("退出码: 1"));
    assert_eq!(e, "命令执行失败，退出码: 1\n标准输出: out\n错误输出: err");
}

#[test]
fn negative_exit_code_rendered() {
    let e = classify_download_exit(Some(-9), "", "").unwrap_err();
    assert!(e.contains("退出码: -9"));
}

#[test]
fn signal_termination_with_completion_marker_is_success() {
    assert!(classify_download_exit(None, "...下载完成...", "").is_ok());
    assert!(classify_download_exit(None, "reached 100% then died", "").is_ok());
    assert!(classify_download_exit(None, "Done.", "").is_ok());
}

#[test]
fn signal_termination_without_marker_is_failure() {
    let e = classify_download_exit(None, "partial output", "stderr text").unwrap_err();
    assert_eq!(
        e,
        "命令被中断（可能是超时或被终止）\n标准输出: partial output\n错误输出: stderr text"
    );
}

#[test]
fn merge_classification() {
    assert_eq!(classify_merge_exit(Some(0), "ok", "e"), Ok("ok".to_string()));
    let e = classify_merge_exit(Some(2), "o", "e").unwrap_err();
    assert_eq!(e, "命令执行失败，退出码: Some(2)\n标准输出: o\n错误输出: e");
    // A signal-terminated transcode falls back to the completion marker,
    // as for downloads.
    assert_eq!(
        classify_merge_exit(None, "混流完成", "e"),
        Ok("混流完成".to_string())
    );
    let e = classify_merge_exit(None, "partial", "e").unwrap_err();
    assert!(e.contains("None"));
}

#[test]
fn completion_events() {
    let ok = download_complete_event(true, "t1");
    assert_eq!(ok.level, LogLevel::Info);
    assert_eq!(ok.message, "下载任务完成");
    assert_eq!(ok.progress.unwrap().units, 100);
    assert_eq!(ok.timestamp, "t1");
    let bad = download_complete_event(false, "t2");
    assert_eq!(bad.level, LogLevel::Error);
    assert_eq!(bad.message, "下载任务失败");
    assert!(bad.progress.is_none());
}

#[test]
fn runner_failures_are_distinct() {
    let spawn = runner_failure_message(RunnerFailure::Spawn, "no such file");
    let stream = runner_failure_message(RunnerFailure::StreamUnavailable, "");
    let wait = runner_failure_message(RunnerFailure::Wait, "interrupted");
    let join = runner_failure_message(RunnerFailure::ReaderJoin, "");
    assert_eq!(spawn, "执行命令失败: no such file");
    assert_eq!(stream, "无法获取标准输出");
    assert_eq!(wait, "等待命令完成失败: interrupted");
    assert_eq!(join, "读取标准输出失败");
}

#[test]
fn append_line_accumulates_with_newline() {
    let mut acc = String::new();
    append_line(&mut acc, "first");
    append_line(&mut acc, "second");
    assert_eq!(acc, "first\nsecond\n");
}
