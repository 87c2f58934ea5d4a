//! The per-line classifier for the downloader's console output.
//!
//! Each raw line is trimmed and run through an ordered list of rules
//! (first match wins): blank and purely cosmetic lines and per-track
//! chatter are dropped, error indicators yield an `ERROR` event, warnings
//! are suppressed, video-track progress lines go through exact decimal
//! progress/speed extraction and a 5-percentage-point emission threshold,
//! and generic info markers map to five canonical status messages.
//!
//! The whole decision is mirrored by the spec function [`spec_parse_line`],
//! and de-duplication on top of it by [`spec_process_line`].

use vstd::prelude::*;
use crate::text::{
    chars_vec, contains_nocase, contains_seq, contains_str, contains_str_nocase, dec_rep,
    digits_val, extend_str, find_char_from, find_str, is_digit_char, is_ws_char, match_at,
    parse_digits_saturating, push_dec_u64, rfind_not_digit_dot, rfind_ws, slice_chars, spec_trim,
    starts_with_seq, starts_with_str, string_from_chars, trim_chars,
};
use crate::event::{
    dedup_key, event_key, round_progress, rounded_units, EventModel, LogEvent, LogLevel,
    Progress, ProgressModel,
};

verus! {

/// First position of `c` in `s` at or after `i`; `-1` when absent.
pub open spec fn find_char_spec(s: Seq<char>, c: char, i: int) -> int
    decreases s.len() - i,
{
    if i < 0 || i >= s.len() {
        -1
    } else if s[i] == c {
        i
    } else {
        find_char_spec(s, c, i + 1)
    }
}

/// First position at or after `i` where `p` occurs in `s`; `-1` when absent.
pub open spec fn find_seq_spec(s: Seq<char>, p: Seq<char>, i: int) -> int
    decreases s.len() - i,
{
    if i < 0 || i > s.len() - p.len() {
        -1
    } else if match_at(s, p, i) {
        i
    } else {
        find_seq_spec(s, p, i + 1)
    }
}

/// Last position before `end` whose character is neither a decimal digit
/// nor `'.'`; `-1` when every one of them is.
pub open spec fn rfind_non_decimal_spec(s: Seq<char>, end: int) -> int
    decreases end,
{
    if end <= 0 || end > s.len() {
        -1
    } else if !(is_digit_char(s[end - 1]) || s[end - 1] == '.') {
        end - 1
    } else {
        rfind_non_decimal_spec(s, end - 1)
    }
}

/// Last whitespace position before `end`; `-1` when there is none.
pub open spec fn rfind_ws_spec(s: Seq<char>, end: int) -> int
    decreases end,
{
    if end <= 0 || end > s.len() {
        -1
    } else if is_ws_char(s[end - 1]) {
        end - 1
    } else {
        rfind_ws_spec(s, end - 1)
    }
}

pub(crate) proof fn lemma_find_char_spec_found(s: Seq<char>, c: char, from: int, i: int)
    requires
        0 <= from <= i < s.len(),
        s[i] == c,
        forall|j: int| from <= j < i ==> s[j] != c,
    ensures
        find_char_spec(s, c, from) == i,
    decreases i - from,
{
    if from < i {
        lemma_find_char_spec_found(s, c, from + 1, i);
    }
}

pub(crate) proof fn lemma_find_char_spec_absent(s: Seq<char>, c: char, from: int)
    requires
        0 <= from <= s.len(),
        forall|j: int| from <= j < s.len() ==> s[j] != c,
    ensures
        find_char_spec(s, c, from) == -1,
    decreases s.len() - from,
{
    if from < s.len() {
        lemma_find_char_spec_absent(s, c, from + 1);
    }
}

pub(crate) proof fn lemma_find_seq_spec_found(s: Seq<char>, p: Seq<char>, from: int, i: int)
    requires
        0 <= from <= i,
        match_at(s, p, i),
        forall|j: int| from <= j < i ==> !match_at(s, p, j),
    ensures
        find_seq_spec(s, p, from) == i,
    decreases i - from,
{
    if from < i {
        lemma_find_seq_spec_found(s, p, from + 1, i);
    }
}

pub(crate) proof fn lemma_find_seq_spec_absent(s: Seq<char>, p: Seq<char>, from: int)
    requires
        0 <= from,
        forall|j: int| !(#[trigger] match_at(s, p, j)),
    ensures
        find_seq_spec(s, p, from) == -1,
    decreases s.len() - p.len() + 1 - from,
{
    if !(from > s.len() - p.len()) {
        lemma_find_seq_spec_absent(s, p, from + 1);
    }
}

proof fn lemma_rfind_non_decimal_spec_found(s: Seq<char>, end: int, i: int)
    requires
        0 <= i < end <= s.len(),
        !(is_digit_char(s[i]) || s[i] == '.'),
        forall|j: int| i < j < end ==> is_digit_char(s[j]) || s[j] == '.',
    ensures
        rfind_non_decimal_spec(s, end) == i,
    decreases end - i,
{
    if i < end - 1 {
        lemma_rfind_non_decimal_spec_found(s, end - 1, i);
    }
}

proof fn lemma_rfind_non_decimal_spec_absent(s: Seq<char>, end: int)
    requires
        0 <= end <= s.len(),
        forall|j: int| 0 <= j < end ==> is_digit_char(s[j]) || s[j] == '.',
    ensures
        rfind_non_decimal_spec(s, end) == -1,
    decreases end,
{
    if end > 0 {
        lemma_rfind_non_decimal_spec_absent(s, end - 1);
    }
}

pub(crate) proof fn lemma_rfind_ws_spec_found(s: Seq<char>, end: int, i: int)
    requires
        0 <= i < end <= s.len(),
        is_ws_char(s[i]),
        forall|j: int| i < j < end ==> !is_ws_char(s[j]),
    ensures
        rfind_ws_spec(s, end) == i,
    decreases end - i,
{
    if i < end - 1 {
        lemma_rfind_ws_spec_found(s, end - 1, i);
    }
}

pub(crate) proof fn lemma_rfind_ws_spec_absent(s: Seq<char>, end: int)
    requires
        0 <= end <= s.len(),
        forall|j: int| 0 <= j < end ==> !is_ws_char(s[j]),
    ensures
        rfind_ws_spec(s, end) == -1,
    decreases end,
{
    if end > 0 {
        lemma_rfind_ws_spec_absent(s, end - 1);
    }
}

/// Characters that make up a cosmetic progress-bar line.
pub open spec fn is_cosmetic_char(c: char) -> bool {
    c == '━' || c == ' ' || c == '-' || c == '%' || is_digit_char(c) || c == '.' || c == ':'
}

pub open spec fn all_cosmetic(t: Seq<char>) -> bool {
    forall|i: int| 0 <= i < t.len() ==> is_cosmetic_char(t[i])
}

/// The line carries one of the error indicator tokens; the Latin tokens
/// match case-insensitively.
pub open spec fn has_error_token(t: Seq<char>) -> bool {
    ||| contains_nocase(t, "error"@)
    ||| contains_seq(t, "错误"@)
    ||| contains_seq(t, "失败"@)
    ||| contains_nocase(t, "permission denied"@)
    ||| contains_nocase(t, "exception"@)
}

/// The line carries a warning indicator.
pub open spec fn has_warn_token(t: Seq<char>) -> bool {
    contains_seq(t, "WARN"@) || contains_seq(t, "Warning"@)
}

/// The decimal token before the first `%`: the maximal run of digits and
/// dots ending there, scanned backward from the percent sign (down to the
/// start of the line when no other character bounds it).
///
/// Yields nothing when there is no `%` or when the run is not a
/// well-formed decimal number (no digits, or more than one dot).
pub open spec fn spec_extract_progress(t: Seq<char>) -> Option<ProgressModel> {
    let p = find_char_spec(t, '%', 0);
    if p < 0 {
        None
    } else {
        let j = rfind_non_decimal_spec(t, p);
        let tok = t.subrange(j + 1, p);
        let d = find_char_spec(tok, '.', 0);
        if d < 0 {
            if tok.len() >= 1 {
                Some(ProgressModel { units: sat_u64(digits_val(tok)), frac: Seq::empty() })
            } else {
                None
            }
        } else {
            if tok.len() >= 2 && find_char_spec(tok, '.', d + 1) < 0 {
                Some(
                    ProgressModel {
                        units: sat_u64(digits_val(tok.subrange(0, d))),
                        frac: tok.subrange(d + 1, tok.len() as int),
                    },
                )
            } else {
                None
            }
        }
    }
}

/// Saturates a mathematical integer at `u64::MAX`.
pub open spec fn sat_u64(v: int) -> u64 {
    if v > u64::MAX {
        u64::MAX
    } else {
        v as u64
    }
}

/// The speed-unit tokens tried, in order, when the generic `Bps` search
/// finds no whitespace-delimited token.
pub open spec fn speed_unit(k: int) -> Seq<char> {
    if k == 0 {
        "MBps"@
    } else if k == 1 {
        "KBps"@
    } else if k == 2 {
        "GBps"@
    } else if k == 3 {
        "MB/s"@
    } else if k == 4 {
        "KB/s"@
    } else {
        "GB/s"@
    }
}

pub open spec fn speed_fallback(t: Seq<char>, k: int) -> Seq<char>
    decreases 6 - k,
{
    if k < 0 || k >= 6 {
        Seq::empty()
    } else {
        let idx = find_seq_spec(t, speed_unit(k), 0);
        if idx >= 0 && rfind_ws_spec(t, idx) >= 0 {
            t.subrange(rfind_ws_spec(t, idx) + 1, idx) + speed_unit(k)
        } else {
            speed_fallback(t, k + 1)
        }
    }
}

/// The transfer-speed token of a line: the text between the last
/// whitespace and the first `Bps`, with `Bps` re-appended; when that
/// fails, the first of the known speed units found with a whitespace
/// boundary before it.  Empty when no speed can be read.
pub open spec fn spec_extract_speed(t: Seq<char>) -> Seq<char> {
    let b = find_seq_spec(t, "Bps"@, 0);
    if b >= 0 && rfind_ws_spec(t, b) >= 0 {
        t.subrange(rfind_ws_spec(t, b) + 1, b) + "Bps"@
    } else {
        speed_fallback(t, 0)
    }
}

/// The message of an emitted progress event: the rounded percentage.
pub open spec fn progress_message(p: ProgressModel) -> Seq<char> {
    "下载进度: "@ + dec_rep(rounded_units(p) as nat) + seq!['%']
}

/// The emission threshold: a new integer progress is reported only when it
/// is strictly greater than the last reported one and either crosses a
/// 5-percentage-point boundary or reaches 100.  `None` stands for "nothing
/// reported yet" and behaves as a last value of -1.
pub open spec fn crossing(units: u64, last: Option<u64>) -> bool {
    let greater = match last {
        Some(l) => units > l,
        None => true,
    };
    let last_bucket = match last {
        Some(l) => l / 5,
        None => 0,
    };
    greater && (units / 5 > last_bucket || units == 100)
}

/// What one line yields, before de-duplication: the event to emit (if any)
/// and the updated last-reported integer progress.
pub open spec fn spec_parse_line(line: Seq<char>, last: Option<u64>) -> (Option<EventModel>, Option<
    u64,
>) {
    let t = spec_trim(line);
    if t.len() == 0 {
        (None, last)
    } else if all_cosmetic(t) {
        (None, last)
    } else if starts_with_seq(t, "Sub "@) || starts_with_seq(t, "Aud "@) {
        (None, last)
    } else if has_error_token(t) {
        (
            Some(
                EventModel {
                    level: LogLevel::Error,
                    message: t,
                    progress: None,
                    speed: None,
                },
            ),
            last,
        )
    } else if has_warn_token(t) {
        (None, last)
    } else if starts_with_seq(t, "Vid "@) && find_char_spec(t, '%', 0) >= 0 {
        match spec_extract_progress(t) {
            Some(p) => {
                if crossing(p.units, last) {
                    let sp = spec_extract_speed(t);
                    (
                        Some(
                            EventModel {
                                level: LogLevel::Info,
                                message: progress_message(p),
                                progress: Some(p),
                                speed: if sp.len() > 0 {
                                    Some(sp)
                                } else {
                                    None
                                },
                            },
                        ),
                        Some(p.units),
                    )
                } else {
                    (None, last)
                }
            },
            None => (None, last),
        }
    } else if contains_seq(t, "INFO"@) {
        if contains_seq(t, "Loading URL"@) {
            (
                Some(
                    EventModel {
                        level: LogLevel::Info,
                        message: "正在加载视频信息..."@,
                        progress: None,
                        speed: None,
                    },
                ),
                last,
            )
        } else if contains_seq(t, "Start downloading"@) {
            (
                Some(
                    EventModel {
                        level: LogLevel::Info,
                        message: "开始下载..."@,
                        progress: Some(ProgressModel { units: 0, frac: Seq::empty() }),
                        speed: None,
                    },
                ),
                last,
            )
        } else if contains_seq(t, "Binary merging"@) {
            (
                Some(
                    EventModel {
                        level: LogLevel::Info,
                        message: "正在合并文件..."@,
                        progress: None,
                        speed: None,
                    },
                ),
                last,
            )
        } else if contains_seq(t, "Decrypting"@) {
            (
                Some(
                    EventModel {
                        level: LogLevel::Info,
                        message: "正在解密..."@,
                        progress: None,
                        speed: None,
                    },
                ),
                last,
            )
        } else if contains_seq(t, "Done"@) || contains_seq(t, "完成"@) {
            (
                Some(
                    EventModel {
                        level: LogLevel::Info,
                        message: "下载完成！"@,
                        progress: Some(ProgressModel { units: 100, frac: Seq::empty() }),
                        speed: None,
                    },
                ),
                last,
            )
        } else {
            (None, last)
        }
    } else {
        (None, last)
    }
}

/// Extracts the decimal progress token of a (trimmed) line.
pub fn extract_progress_chars(t: &Vec<char>) -> (r: Option<Progress>)
    ensures
        match (r, spec_extract_progress(t@)) {
            (Some(p), Some(m)) => p.model() == m && p.wf(),
            (None, None) => true,
            _ => false,
        },
{
    let pct = match find_char_from(t, '%', 0) {
        Some(p) => {
            proof {
                lemma_find_char_spec_found(t@, '%', 0, p as int);
            }
            p
        },
        None => {
            proof {
                lemma_find_char_spec_absent(t@, '%', 0);
            }
            return None;
        },
    };
    let start = match rfind_not_digit_dot(t, pct) {
        Some(j) => {
            proof {
                lemma_rfind_non_decimal_spec_found(t@, pct as int, j as int);
            }
            j + 1
        },
        None => {
            proof {
                lemma_rfind_non_decimal_spec_absent(t@, pct as int);
            }
            0
        },
    };
    let tok = slice_chars(t, start, pct);
    match find_char_from(&tok, '.', 0) {
        None => {
            proof {
                lemma_find_char_spec_absent(tok@, '.', 0);
            }
            if tok.len() >= 1 {
                let units = parse_digits_saturating(&tok, 0, tok.len());
                assert(tok@.subrange(0, tok@.len() as int) =~= tok@);
                let frac: Vec<char> = Vec::new();
                Some(Progress { units, frac })
            } else {
                None
            }
        },
        Some(d) => {
            proof {
                lemma_find_char_spec_found(tok@, '.', 0, d as int);
            }
            let second = match find_char_from(&tok, '.', d + 1) {
                Some(i2) => {
                    proof {
                        lemma_find_char_spec_found(tok@, '.', (d + 1) as int, i2 as int);
                    }
                    true
                },
                None => {
                    proof {
                        lemma_find_char_spec_absent(tok@, '.', (d + 1) as int);
                    }
                    false
                },
            };
            if tok.len() >= 2 && !second {
                let units = parse_digits_saturating(&tok, 0, d);
                let frac = slice_chars(&tok, d + 1, tok.len());
                Some(Progress { units, frac })
            } else {
                None
            }
        },
    }
}

fn try_speed_unit(t: &Vec<char>, unit: &str) -> (r: Option<Vec<char>>)
    ensures
        ({
            let idx = find_seq_spec(t@, unit@, 0);
            match r {
                Some(v) => idx >= 0 && rfind_ws_spec(t@, idx) >= 0 && v@ == t@.subrange(
                    rfind_ws_spec(t@, idx) + 1,
                    idx,
                ) + unit@,
                None => !(idx >= 0 && rfind_ws_spec(t@, idx) >= 0),
            }
        }),
{
    let b = match find_str(t, unit) {
        Some(b) => {
            proof {
                lemma_find_seq_spec_found(t@, unit@, 0, b as int);
            }
            b
        },
        None => {
            proof {
                lemma_find_seq_spec_absent(t@, unit@, 0);
            }
            return None;
        },
    };
    match rfind_ws(t, b) {
        Some(w) => {
            proof {
                lemma_rfind_ws_spec_found(t@, b as int, w as int);
            }
            let mut v = slice_chars(t, w + 1, b);
            extend_str(&mut v, unit);
            Some(v)
        },
        None => {
            proof {
                lemma_rfind_ws_spec_absent(t@, b as int);
            }
            None
        },
    }
}

/// Extracts the transfer-speed token of a (trimmed) line; empty when none.
pub fn extract_speed_chars(t: &Vec<char>) -> (r: Vec<char>)
    ensures
        r@ == spec_extract_speed(t@),
{
    match try_speed_unit(t, "Bps") {
        Some(v) => {
            return v;
        },
        None => {},
    }
    assert(spec_extract_speed(t@) == speed_fallback(t@, 0));
    match try_speed_unit(t, "MBps") {
        Some(v) => {
            assert(speed_unit(0) == "MBps"@);
            assert(v@ == speed_fallback(t@, 0));
            return v;
        },
        None => {},
    }
    assert(speed_fallback(t@, 0) == speed_fallback(t@, 1));
    match try_speed_unit(t, "KBps") {
        Some(v) => {
            assert(speed_unit(1) == "KBps"@);
            assert(v@ == speed_fallback(t@, 1));
            return v;
        },
        None => {},
    }
    assert(speed_fallback(t@, 1) == speed_fallback(t@, 2));
    match try_speed_unit(t, "GBps") {
        Some(v) => {
            assert(speed_unit(2) == "GBps"@);
            assert(v@ == speed_fallback(t@, 2));
            return v;
        },
        None => {},
    }
    assert(speed_fallback(t@, 2) == speed_fallback(t@, 3));
    match try_speed_unit(t, "MB/s") {
        Some(v) => {
            assert(speed_unit(3) == "MB/s"@);
            assert(v@ == speed_fallback(t@, 3));
            return v;
        },
        None => {},
    }
    assert(speed_fallback(t@, 3) == speed_fallback(t@, 4));
    match try_speed_unit(t, "KB/s") {
        Some(v) => {
            assert(speed_unit(4) == "KB/s"@);
            assert(v@ == speed_fallback(t@, 4));
            return v;
        },
        None => {},
    }
    assert(speed_fallback(t@, 4) == speed_fallback(t@, 5));
    match try_speed_unit(t, "GB/s") {
        Some(v) => {
            assert(speed_unit(5) == "GB/s"@);
            assert(v@ == speed_fallback(t@, 5));
            return v;
        },
        None => {},
    }
    assert(speed_fallback(t@, 5) == speed_fallback(t@, 6));
    let r: Vec<char> = Vec::new();
    assert(r@ =~= spec_extract_speed(t@));
    r
}

/// Reads the progress percentage out of one raw log line, if it has one.
pub fn extract_progress_from_line(line: &str) -> (r: Option<Progress>)
    ensures
        match (r, spec_extract_progress(line@)) {
            (Some(p), Some(m)) => p.model() == m && p.wf(),
            (None, None) => true,
            _ => false,
        },
{
    let v = chars_vec(line);
    extract_progress_chars(&v)
}

/// Reads the transfer-speed token out of one raw log line; empty when the
/// line carries none.
pub fn extract_speed_from_line(line: &str) -> (r: String)
    ensures
        r@ == spec_extract_speed(line@),
{
    let v = chars_vec(line);
    let r = extract_speed_chars(&v);
    string_from_chars(&r)
}

fn is_cosmetic(c: char) -> (r: bool)
    ensures
        r == is_cosmetic_char(c),
{
    c == '━' || c == ' ' || c == '-' || c == '%' || ('0' <= c && c <= '9') || c == '.' || c == ':'
}

fn all_cosmetic_exec(t: &Vec<char>) -> (r: bool)
    ensures
        r == all_cosmetic(t@),
{
    let mut i: usize = 0;
    while i < t.len()
        invariant
            i <= t@.len(),
            forall|k: int| 0 <= k < i ==> is_cosmetic_char(t@[k]),
        decreases t@.len() - i,
    {
        if !is_cosmetic(t[i]) {
            return false;
        }
        i = i + 1;
    }
    true
}

fn crossing_exec(units: u64, last: &Option<u64>) -> (r: bool)
    ensures
        r == crossing(units, *last),
{
    match last {
        None => units / 5 > 0 || units == 100,
        Some(l) => units > *l && (units / 5 > *l / 5 || units == 100),
    }
}

/// Classifies one raw downloader log line, updating the last reported
/// integer progress when a progress event passes the emission threshold.
///
/// Returns the event to consider for emission (de-duplication is applied
/// separately, see [`process_line`]).
pub fn parse_n_m3u8dl_log_line(line: &str, last_progress: &mut Option<u64>, timestamp: &str) -> (r:
    Option<LogEvent>)
    ensures
        *final(last_progress) == spec_parse_line(line@, *old(last_progress)).1,
        match (r, spec_parse_line(line@, *old(last_progress)).0) {
            (Some(e), Some(m)) => e.model() == m && e.timestamp@ == timestamp@ && e.wf(),
            (None, None) => true,
            _ => false,
        },
{
    let tvec = chars_vec(line);
    let t = trim_chars(&tvec);
    if t.len() == 0 {
        return None;
    }
    if all_cosmetic_exec(&t) {
        return None;
    }
    if starts_with_str(&t, "Sub ") || starts_with_str(&t, "Aud ") {
        return None;
    }
    if contains_str_nocase(&t, "error") || contains_str(&t, "错误") || contains_str(&t, "失败")
        || contains_str_nocase(&t, "permission denied") || contains_str_nocase(&t, "exception") {
        return Some(
            LogEvent {
                level: LogLevel::Error,
                message: string_from_chars(&t),
                progress: None,
                speed: None,
                timestamp: String::from_str(timestamp),
            },
        );
    }
    if contains_str(&t, "WARN") || contains_str(&t, "Warning") {
        return None;
    }
    let vid = starts_with_str(&t, "Vid ");
    let has_pct = match find_char_from(&t, '%', 0) {
        Some(i) => {
            proof {
                lemma_find_char_spec_found(t@, '%', 0, i as int);
            }
            true
        },
        None => {
            proof {
                lemma_find_char_spec_absent(t@, '%', 0);
            }
            false
        },
    };
    if vid && has_pct {
        match extract_progress_chars(&t) {
            Some(p) => {
                if crossing_exec(p.units, last_progress) {
                    *last_progress = Some(p.units);
                    let rounded = round_progress(&p);
                    let mut msg: Vec<char> = Vec::new();
                    extend_str(&mut msg, "下载进度: ");
                    push_dec_u64(&mut msg, rounded);
                    msg.push('%');
                    assert(msg@ =~= progress_message(p.model()));
                    let spd = extract_speed_chars(&t);
                    let speed = if spd.len() > 0 {
                        Some(string_from_chars(&spd))
                    } else {
                        None
                    };
                    Some(
                        LogEvent {
                            level: LogLevel::Info,
                            message: string_from_chars(&msg),
                            progress: Some(p),
                            speed,
                            timestamp: String::from_str(timestamp),
                        },
                    )
                } else {
                    None
                }
            },
            None => None,
        }
    } else if contains_str(&t, "INFO") {
        if contains_str(&t, "Loading URL") {
            Some(
                LogEvent {
                    level: LogLevel::Info,
                    message: String::from_str("正在加载视频信息..."),
                    progress: None,
                    speed: None,
                    timestamp: String::from_str(timestamp),
                },
            )
        } else if contains_str(&t, "Start downloading") {
            Some(
                LogEvent {
                    level: LogLevel::Info,
                    message: String::from_str("开始下载..."),
                    progress: Some(Progress { units: 0, frac: Vec::new() }),
                    speed: None,
                    timestamp: String::from_str(timestamp),
                },
            )
        } else if contains_str(&t, "Binary merging") {
            Some(
                LogEvent {
                    level: LogLevel::Info,
                    message: String::from_str("正在合并文件..."),
                    progress: None,
                    speed: None,
                    timestamp: String::from_str(timestamp),
                },
            )
        } else if contains_str(&t, "Decrypting") {
            Some(
                LogEvent {
                    level: LogLevel::Info,
                    message: String::from_str("正在解密..."),
                    progress: None,
                    speed: None,
                    timestamp: String::from_str(timestamp),
                },
            )
        } else if contains_str(&t, "Done") || contains_str(&t, "完成") {
            Some(
                LogEvent {
                    level: LogLevel::Info,
                    message: String::from_str("下载完成！"),
                    progress: Some(Progress { units: 100, frac: Vec::new() }),
                    speed: None,
                    timestamp: String::from_str(timestamp),
                },
            )
        } else {
            None
        }
    } else {
        None
    }
}

/// The state shared by the two stream readers of one invocation: the last
/// reported integer progress and the de-duplication key of the last
/// forwarded event.  Fresh for every invocation.
pub struct ProgressState {
    pub last_progress: Option<u64>,
    pub last_key: Option<String>,
}

impl ProgressState {
    /// The key part of the state, as a mathematical value.
    pub open spec fn key_model(&self) -> Option<Seq<char>> {
        match self.last_key {
            Some(k) => Some(k@),
            None => None,
        }
    }

    pub fn new() -> (s: Self)
        ensures
            s.last_progress is None,
            s.last_key is None,
    {
        ProgressState { last_progress: None, last_key: None }
    }
}

/// What one line does to the full per-invocation state: the event actually
/// forwarded (if any), the updated last integer progress, and the updated
/// de-duplication key.
pub open spec fn spec_process_line(
    line: Seq<char>,
    last: Option<u64>,
    lastkey: Option<Seq<char>>,
) -> (Option<EventModel>, Option<u64>, Option<Seq<char>>) {
    let (ev, nl) = spec_parse_line(line, last);
    match ev {
        Some(m) => {
            if lastkey != Some(dedup_key(m)) {
                (Some(m), nl, Some(dedup_key(m)))
            } else {
                (None, nl, lastkey)
            }
        },
        None => (None, nl, lastkey),
    }
}

/// Runs one line through classification, the emission threshold and
/// de-duplication; returns the event to forward, if any.
pub fn process_line(state: &mut ProgressState, line: &str, timestamp: &str) -> (r: Option<
    LogEvent,
>)
    ensures
        ({
            let (ev, nl, nk) = spec_process_line(
                line@,
                old(state).last_progress,
                old(state).key_model(),
            );
            &&& final(state).last_progress == nl
            &&& final(state).key_model() == nk
            &&& match (r, ev) {
                (Some(e), Some(m)) => e.model() == m && e.timestamp@ == timestamp@ && e.wf(),
                (None, None) => true,
                _ => false,
            }
        }),
{
    let mut lp = state.last_progress;
    let parsed = parse_n_m3u8dl_log_line(line, &mut lp, timestamp);
    state.last_progress = lp;
    match parsed {
        Some(e) => {
            let key = event_key(&e);
            let dup = match &state.last_key {
                Some(k) => *k == key,
                None => false,
            };
            if dup {
                None
            } else {
                state.last_key = Some(key);
                Some(e)
            }
        },
        None => None,
    }
}

/// Runs one line through the full pipeline, stamping any event with the
/// clock's current RFC 3339 instant.
pub fn feed_line(state: &mut ProgressState, line: &str) -> (r: Option<LogEvent>)
    ensures
        ({
            let (ev, nl, nk) = spec_process_line(
                line@,
                old(state).last_progress,
                old(state).key_model(),
            );
            &&& final(state).last_progress == nl
            &&& final(state).key_model() == nk
            &&& match (r, ev) {
                (Some(e), Some(m)) => e.model() == m && e.wf(),
                (None, None) => true,
                _ => false,
            }
        }),
{
    let ts = crate::clock::now_rfc3339();
    process_line(state, line, ts.as_str())
}

/// The de-duplication invariant: of two successively forwarded events of
/// one invocation, the second never carries the same `(message, progress)`
/// key as the first, whatever the two lines were.
pub proof fn lemma_no_successive_duplicates(
    l1: Seq<char>,
    l2: Seq<char>,
    last: Option<u64>,
    lastkey: Option<Seq<char>>,
)
    ensures
        ({
            let (e1, p1, k1) = spec_process_line(l1, last, lastkey);
            let (e2, p2, k2) = spec_process_line(l2, p1, k1);
            match (e1, e2) {
                (Some(m1), Some(m2)) => dedup_key(m1) != dedup_key(m2),
                _ => true,
            }
        }),
{
}

/// The recorded integer progress of an invocation never decreases: a line
/// either leaves it alone or raises it past the emission threshold.
pub proof fn lemma_recorded_progress_monotone(
    line: Seq<char>,
    last: Option<u64>,
    lastkey: Option<Seq<char>>,
)
    ensures
        ({
            let (e, nl, nk) = spec_process_line(line, last, lastkey);
            match (last, nl) {
                (Some(l), Some(n)) => n >= l,
                (Some(l), None) => false,
                (None, _) => true,
            }
        }),
{
}

/// Feeding the identical raw line twice through classification, threshold
/// and de-duplication, with the state left by the first pass, never
/// forwards a second event: a repeated progress line no longer exceeds the
/// recorded integer progress, and any other repeated event is suppressed
/// by its unchanged de-duplication key.
pub proof fn lemma_identical_line_emitted_once(
    line: Seq<char>,
    last: Option<u64>,
    lastkey: Option<Seq<char>>,
)
    ensures
        ({
            let (e1, l1, k1) = spec_process_line(line, last, lastkey);
            let (e2, l2, k2) = spec_process_line(line, l1, k1);
            e2 is None
        }),
{
    let (ev1, nl1) = spec_parse_line(line, last);
    let (e1, l1, k1) = spec_process_line(line, last, lastkey);
    match ev1 {
        None => {
            assert(nl1 == last);
            assert(k1 == lastkey);
        },
        Some(m) => {
            if nl1 == last {
                // A repeated error or status line: the de-duplication key of the
                // first pass now matches the event exactly.
                assert(k1 == Some(dedup_key(m)));
            } else {
                // A progress emission: the recorded integer progress now equals
                // the line's own, so the threshold rejects the second pass.
                let t = spec_trim(line);
                let p = spec_extract_progress(t)->Some_0;
                assert(nl1 == Some(p.units));
                assert(!crossing(p.units, Some(p.units)));
            }
        },
    }
}

} // verus!
