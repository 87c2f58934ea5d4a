//! Exit-status classification and the runner's error taxonomy.
//!
//! A finished invocation is classified from its exit code and captured
//! output: code 0 is success, a nonzero code is a failure carrying the
//! code and both streams, and a missing code (signal termination) counts
//! as success only when the captured output holds a completion marker.

use vstd::prelude::*;
use crate::text::{
    chars_vec, contains_seq, contains_str, dec_rep_i64, extend_str, push_dec_i64,
    string_from_chars,
};
use crate::event::{LogEvent, LogLevel, Progress};

verus! {

/// The captured output claims the download finished.
pub open spec fn has_completion_marker(out: Seq<char>) -> bool {
    contains_seq(out, "完成"@) || contains_seq(out, "100%"@) || contains_seq(out, "Done"@)
}

/// Outcome of a downloader invocation, from exit code and captured output.
pub open spec fn spec_classify_download(code: Option<int>, out: Seq<char>, err: Seq<char>) -> Result<
    Seq<char>,
    Seq<char>,
> {
    match code {
        Some(c) => {
            if c == 0 {
                Ok(out)
            } else {
                Err(
                    "命令执行失败，退出码: "@ + dec_rep_i64(c) + "\n标准输出: "@ + out + "\n错误输出: "@
                        + err,
                )
            }
        },
        None => {
            if has_completion_marker(out) {
                Ok(out)
            } else {
                Err("命令被中断（可能是超时或被终止）\n标准输出: "@ + out + "\n错误输出: "@ + err)
            }
        },
    }
}

pub open spec fn spec_code(code: Option<i32>) -> Option<int> {
    match code {
        Some(c) => Some(c as int),
        None => None,
    }
}

/// Classifies a finished downloader invocation.
///
/// `code` is `None` when the process ended by signal or termination rather
/// than a normal return; it is then counted a success exactly when the
/// captured output holds a completion marker.
pub fn classify_download_exit(code: Option<i32>, stdout: &str, stderr: &str) -> (r: Result<
    String,
    String,
>)
    ensures
        match (r, spec_classify_download(spec_code(code), stdout@, stderr@)) {
            (Ok(o), Ok(so)) => o@ == so,
            (Err(m), Err(sm)) => m@ == sm,
            _ => false,
        },
{
    match code {
        Some(c) => {
            if c == 0 {
                Ok(String::from_str(stdout))
            } else {
                let mut m: Vec<char> = Vec::new();
                extend_str(&mut m, "命令执行失败，退出码: ");
                push_dec_i64(&mut m, c as i64);
                extend_str(&mut m, "\n标准输出: ");
                extend_str(&mut m, stdout);
                extend_str(&mut m, "\n错误输出: ");
                extend_str(&mut m, stderr);
                assert(m@ =~= spec_classify_download(spec_code(code), stdout@, stderr@)->Err_0);
                Err(string_from_chars(&m))
            }
        },
        None => {
            let out = chars_vec(stdout);
            if contains_str(&out, "完成") || contains_str(&out, "100%") || contains_str(
                &out,
                "Done",
            ) {
                Ok(String::from_str(stdout))
            } else {
                let mut m: Vec<char> = Vec::new();
                extend_str(&mut m, "命令被中断（可能是超时或被终止）\n标准输出: ");
                extend_str(&mut m, stdout);
                extend_str(&mut m, "\n错误输出: ");
                extend_str(&mut m, stderr);
                assert(m@ =~= spec_classify_download(spec_code(code), stdout@, stderr@)->Err_0);
                Err(string_from_chars(&m))
            }
        },
    }
}

/// The debug-style rendering of an optional exit code.
pub open spec fn opt_code_chars(code: Option<int>) -> Seq<char> {
    match code {
        Some(c) => "Some("@ + dec_rep_i64(c) + ")"@,
        None => "None"@,
    }
}

/// Outcome of a transcoder invocation: exit code 0 is success, and a
/// missing code (signal termination) counts as success exactly when the
/// captured output holds a completion marker, as for downloads.
pub open spec fn spec_classify_merge(code: Option<int>, out: Seq<char>, err: Seq<char>) -> Result<
    Seq<char>,
    Seq<char>,
> {
    if code == Some(0int) {
        Ok(out)
    } else if code is None && has_completion_marker(out) {
        Ok(out)
    } else {
        Err("命令执行失败，退出码: "@ + opt_code_chars(code) + "\n标准输出: "@ + out + "\n错误输出: "@ + err)
    }
}

/// Classifies a finished transcoder invocation.
pub fn classify_merge_exit(code: Option<i32>, stdout: &str, stderr: &str) -> (r: Result<
    String,
    String,
>)
    ensures
        match (r, spec_classify_merge(spec_code(code), stdout@, stderr@)) {
            (Ok(o), Ok(so)) => o@ == so,
            (Err(m), Err(sm)) => m@ == sm,
            _ => false,
        },
{
    let success = match code {
        Some(c) => c == 0,
        None => {
            let out = chars_vec(stdout);
            contains_str(&out, "完成") || contains_str(&out, "100%") || contains_str(&out, "Done")
        },
    };
    if success {
        Ok(String::from_str(stdout))
    } else {
        let mut m: Vec<char> = Vec::new();
        extend_str(&mut m, "命令执行失败，退出码: ");
        match code {
            Some(c) => {
                extend_str(&mut m, "Some(");
                push_dec_i64(&mut m, c as i64);
                extend_str(&mut m, ")");
            },
            None => {
                extend_str(&mut m, "None");
            },
        }
        extend_str(&mut m, "\n标准输出: ");
        extend_str(&mut m, stdout);
        extend_str(&mut m, "\n错误输出: ");
        extend_str(&mut m, stderr);
        assert(m@ =~= spec_classify_merge(spec_code(code), stdout@, stderr@)->Err_0);
        Err(string_from_chars(&m))
    }
}

/// The event sent to the sink when a download invocation finishes.
pub fn download_complete_event(success: bool, timestamp: &str) -> (e: LogEvent)
    ensures
        success ==> e.level is Info && e.message@ == "下载任务完成"@ && (match e.progress {
            Some(p) => p.units == 100 && p.frac@.len() == 0,
            None => false,
        }),
        !success ==> e.level is Error && e.message@ == "下载任务失败"@ && e.progress is None,
        e.speed is None,
        e.timestamp@ == timestamp@,
        e.wf(),
{
    if success {
        LogEvent {
            level: LogLevel::Info,
            message: String::from_str("下载任务完成"),
            progress: Some(Progress { units: 100, frac: Vec::new() }),
            speed: None,
            timestamp: String::from_str(timestamp),
        }
    } else {
        LogEvent {
            level: LogLevel::Error,
            message: String::from_str("下载任务失败"),
            progress: None,
            speed: None,
            timestamp: String::from_str(timestamp),
        }
    }
}

/// The distinguishable ways a process invocation itself can fail, apart
/// from a nonzero exit: spawning, acquiring an output stream, waiting for
/// exit, and joining a reader.
pub enum RunnerFailure {
    Spawn,
    StreamUnavailable,
    Wait,
    ReaderJoin,
}

pub open spec fn spec_runner_failure_message(kind: RunnerFailure, detail: Seq<char>) -> Seq<char> {
    match kind {
        RunnerFailure::Spawn => "执行命令失败: "@ + detail,
        RunnerFailure::StreamUnavailable => "无法获取标准输出"@,
        RunnerFailure::Wait => "等待命令完成失败: "@ + detail,
        RunnerFailure::ReaderJoin => "读取标准输出失败"@,
    }
}

/// A distinct, human-readable message for each runner failure mode;
/// `detail` carries the underlying reported reason where there is one.
pub fn runner_failure_message(kind: RunnerFailure, detail: &str) -> (r: String)
    ensures
        r@ == spec_runner_failure_message(kind, detail@),
{
    match kind {
        RunnerFailure::Spawn => {
            let mut m: Vec<char> = Vec::new();
            extend_str(&mut m, "执行命令失败: ");
            extend_str(&mut m, detail);
            string_from_chars(&m)
        },
        RunnerFailure::StreamUnavailable => String::from_str("无法获取标准输出"),
        RunnerFailure::Wait => {
            let mut m: Vec<char> = Vec::new();
            extend_str(&mut m, "等待命令完成失败: ");
            extend_str(&mut m, detail);
            string_from_chars(&m)
        },
        RunnerFailure::ReaderJoin => String::from_str("读取标准输出失败"),
    }
}

/// Appends one captured line and a newline to the accumulated output of a
/// stream reader.
pub fn append_line(acc: &mut String, line: &str)
    ensures
        final(acc)@ == old(acc)@ + line@ + "\n"@,
{
    acc.append(line);
    acc.append("\n");
}

} // verus!
