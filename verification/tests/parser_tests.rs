use media_pipeline::parser::{
    extract_progress_from_line, extract_speed_from_line, feed_line, parse_n_m3u8dl_log_line,
    process_line, ProgressState,
};
use media_pipeline::event::LogLevel;

const TS: &str = "2024-01-01T00:00:00+00:00";

#[test]
fn blank_and_cosmetic_lines_yield_nothing() {
    let mut st = ProgressState::new();
    assert!(process_line(&mut st, "", TS).is_none());
    assert!(process_line(&mut st, "   ", TS).is_none());
    assert!(process_line(&mut st, "━━━━━ 42.0% ━━━ 12:34 ", TS).is_none());
}

#[test]
fn per_track_chatter_suppressed() {
    let mut st = ProgressState::new();
    assert!(process_line(&mut st, "Sub chi: 12%", TS).is_none());
    assert!(process_line(&mut st, "Aud 128kbps 50%", TS).is_none());
}

#[test]
fn error_line_yields_error_event() {
    let mut st = ProgressState::new();
    let e = process_line(&mut st, "  boom: Permission denied  ", TS).unwrap();
    assert_eq!(e.level, LogLevel::Error);
    assert_eq!(e.message, "boom: Permission denied");
    assert!(e.progress.is_none());
    assert!(e.speed.is_none());
    assert_eq!(e.timestamp, TS);
}

#[test]
fn localized_error_tokens_detected() {
    let mut st = ProgressState::new();
    assert_eq!(
        process_line(&mut st, "下载失败，请重试", TS).unwrap().level,
        LogLevel::Error
    );
    let mut st2 = ProgressState::new();
    assert_eq!(
        process_line(&mut st2, "发生错误", TS).unwrap().level,
        LogLevel::Error
    );
}

#[test]
fn warnings_suppressed() {
    let mut st = ProgressState::new();
    assert!(process_line(&mut st, "WARN: something odd", TS).is_none());
    assert!(process_line(&mut st, "Warning: fishy", TS).is_none());
}

#[test]
fn progress_sequence_threshold() {
    // 3%, 4%, 6%, 11%, 11%, 100% -> exactly {6%, 11%, 100%}.
    let mut st = ProgressState::new();
    let lines = [
        ("Vid 1920x1080 | 3% | 1.97MBps", None),
        ("Vid 1920x1080 | 4% | 1.97MBps", None),
        ("Vid 1920x1080 | 6% | 2.10MBps", Some(6u64)),
        ("Vid 1920x1080 | 11% | 2.10MBps", Some(11u64)),
        ("Vid 1920x1080 | 11% | 2.10MBps", None),
        ("Vid 1920x1080 | 100% | 2.44MBps", Some(100u64)),
    ];
    for (line, expect) in lines.iter() {
        let got = process_line(&mut st, line, TS);
        match expect {
            None => assert!(got.is_none(), "line {:?} should be suppressed", line),
            Some(units) => {
                let e = got.expect(line);
                assert_eq!(e.level, LogLevel::Info);
                let p = e.progress.expect(line);
                assert_eq!(p.units, *units);
                assert!(p.frac.is_empty());
            },
        }
    }
}

#[test]
fn progress_message_carries_rounded_value() {
    let mut st = ProgressState::new();
    let e = process_line(&mut st, "Vid 1280x720 | 12.5% | 1.97MBps", TS).unwrap();
    // Round half to even: 12.5 displays as 12.
    assert_eq!(e.message, "下载进度: 12%");
    let p = e.progress.unwrap();
    assert_eq!(p.units, 12);
    assert_eq!(p.frac, vec!['5']);
    assert_eq!(e.speed.as_deref(), Some("1.97MBps"));
}

#[test]
fn identical_line_second_pass_suppressed() {
    let mut st = ProgressState::new();
    let first = process_line(&mut st, "Vid 1920x1080 | 42% | 2MBps", TS);
    assert!(first.is_some());
    let second = process_line(&mut st, "Vid 1920x1080 | 42% | 2MBps", TS);
    assert!(second.is_none());
}

#[test]
fn identical_error_line_deduplicated() {
    let mut st = ProgressState::new();
    assert!(process_line(&mut st, "ERROR: x", TS).is_some());
    assert!(process_line(&mut st, "ERROR: x", TS).is_none());
    // A different event in between re-arms the key.
    assert!(process_line(&mut st, "ERROR: y", TS).is_some());
    assert!(process_line(&mut st, "ERROR: x", TS).is_some());
}

#[test]
fn status_messages_mapped() {
    let mut st = ProgressState::new();
    let e = process_line(&mut st, "10:00 INFO Loading URL: https://x", TS).unwrap();
    assert_eq!(e.message, "正在加载视频信息...");
    assert!(e.progress.is_none());
    let e = process_line(&mut st, "10:01 INFO Start downloading...", TS).unwrap();
    assert_eq!(e.message, "开始下载...");
    assert_eq!(e.progress.unwrap().units, 0);
    let e = process_line(&mut st, "10:05 INFO Binary merging...", TS).unwrap();
    assert_eq!(e.message, "正在合并文件...");
    let e = process_line(&mut st, "10:06 INFO Decrypting segments", TS).unwrap();
    assert_eq!(e.message, "正在解密...");
    let e = process_line(&mut st, "10:07 INFO Done", TS).unwrap();
    assert_eq!(e.message, "下载完成！");
    assert_eq!(e.progress.unwrap().units, 100);
}

#[test]
fn unknown_info_line_suppressed() {
    let mut st = ProgressState::new();
    assert!(process_line(&mut st, "INFO something uninteresting", TS).is_none());
}

#[test]
fn vid_line_below_first_boundary_suppressed() {
    let mut st = ProgressState::new();
    assert!(process_line(&mut st, "Vid 1920x1080 | 3% | 1MBps", TS).is_none());
    // The suppressed line does not advance the recorded progress.
    let e = process_line(&mut st, "Vid 1920x1080 | 7% | 1MBps", TS).unwrap();
    assert_eq!(e.progress.unwrap().units, 7);
}

#[test]
fn extract_progress_reads_decimal_token() {
    let p = extract_progress_from_line("Vid 1080p 47.35%").unwrap();
    assert_eq!(p.units, 47);
    assert_eq!(p.frac, vec!['3', '5']);
    let p = extract_progress_from_line("x 99%").unwrap();
    assert_eq!(p.units, 99);
    assert!(p.frac.is_empty());
}

#[test]
fn extract_progress_run_may_reach_line_start() {
    // The backward scan runs to the start of the line when nothing
    // bounds the digit run.
    let p = extract_progress_from_line("50%").unwrap();
    assert_eq!(p.units, 50);
    assert!(p.frac.is_empty());
    assert!(extract_progress_from_line("no percent here").is_none());
    // Two dots do not parse.
    assert!(extract_progress_from_line("v 1.2.3%").is_none());
    // A bare percent sign has no digits.
    assert!(extract_progress_from_line("%").is_none());
}

#[test]
fn error_tokens_fold_case() {
    let mut st = ProgressState::new();
    assert_eq!(
        process_line(&mut st, "fatal error: segment lost", TS).unwrap().level,
        LogLevel::Error
    );
    let mut st2 = ProgressState::new();
    assert_eq!(
        process_line(&mut st2, "EXCEPTION caught in worker", TS).unwrap().level,
        LogLevel::Error
    );
    let mut st3 = ProgressState::new();
    assert_eq!(
        process_line(&mut st3, "mount: PERMISSION DENIED", TS).unwrap().level,
        LogLevel::Error
    );
}

#[test]
fn extract_speed_variants() {
    assert_eq!(extract_speed_from_line("Vid | 45% | 1.97MBps"), "1.97MBps");
    assert_eq!(extract_speed_from_line("rate 19.20KBps now"), "19.20KBps");
    assert_eq!(extract_speed_from_line("speed 3.4MB/s"), "3.4MB/s");
    assert_eq!(extract_speed_from_line("nothing to see"), "");
}

#[test]
fn parse_line_updates_last_progress_only_on_emission() {
    let mut last = None;
    let e = parse_n_m3u8dl_log_line("Vid 1 | 9% | 1MBps", &mut last, TS);
    assert!(e.is_some());
    assert_eq!(last, Some(9));
    let e = parse_n_m3u8dl_log_line("Vid 1 | 9.5% | 1MBps", &mut last, TS);
    assert!(e.is_none());
    assert_eq!(last, Some(9));
}

#[test]
fn feed_line_stamps_with_clock() {
    let mut st = ProgressState::new();
    let e = feed_line(&mut st, "ERROR: clocked").unwrap();
    assert_eq!(e.level, LogLevel::Error);
    assert_eq!(e.message, "ERROR: clocked");
    assert!(!e.timestamp.is_empty());
}
