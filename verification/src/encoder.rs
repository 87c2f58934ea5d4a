//! Hardware-encoder selection and the subtitle-burn operation's argument
//! building and fallback orchestration.
//!
//! On macOS the VideoToolbox encoder is always chosen; on Windows the
//! transcoder's self-reported encoder list is probed for NVENC, then QSV;
//! everywhere else (and when probing fails) the software encoder is used.
//! When a hardware transcode attempt fails, exactly one retry runs with
//! the software encoder and a reduced argument set.

use vstd::prelude::*;
use crate::platform::Platform;
use crate::text::{
    chars_vec, contains_seq, contains_str, dec_rep, extend_chars, extend_str, join_with,
    join_with_from, push_dec_u64, string_from_chars,
};
use crate::event::{LogEvent, LogLevel};

verus! {

/// The software encoder used when no hardware backend is available.
pub open spec fn software_encoder() -> Seq<char> {
    "libx264"@
}

/// The encoder chosen for the host platform, given the transcoder's
/// self-reported encoder list when the platform needs probing.
pub open spec fn spec_select_encoder(platform: Platform, encoders: Option<Seq<char>>) -> Seq<
    char,
> {
    match platform {
        Platform::MacOs => "h264_videotoolbox"@,
        Platform::Windows => match encoders {
            Some(list) => {
                if contains_seq(list, "h264_nvenc"@) {
                    "h264_nvenc"@
                } else if contains_seq(list, "h264_qsv"@) {
                    "h264_qsv"@
                } else {
                    software_encoder()
                }
            },
            None => software_encoder(),
        },
        Platform::Other => software_encoder(),
    }
}

/// Picks the video encoder for this host.
///
/// `encoders` is the transcoder's own `-encoders` listing, or `None` when
/// it could not be obtained; it is only consulted on Windows.
pub fn detect_hardware_encoder(platform: Platform, encoders: Option<&str>) -> (r: String)
    ensures
        r@ == spec_select_encoder(
            platform,
            match encoders {
                Some(s) => Some(s@),
                None => None,
            },
        ),
{
    match platform {
        Platform::MacOs => String::from_str("h264_videotoolbox"),
        Platform::Windows => match encoders {
            Some(list) => {
                let v = chars_vec(list);
                if contains_str(&v, "h264_nvenc") {
                    String::from_str("h264_nvenc")
                } else if contains_str(&v, "h264_qsv") {
                    String::from_str("h264_qsv")
                } else {
                    String::from_str("libx264")
                }
            },
            None => String::from_str("libx264"),
        },
        Platform::Other => String::from_str("libx264"),
    }
}

/// Styling options for burned-in subtitles; every unset field falls back
/// to a fixed baseline.  Numeric widths are carried as their decimal
/// renderings.
#[derive(Clone, Debug)]
pub struct SubtitleStyle {
    pub fontsize: Option<u32>,
    pub primary_colour: Option<String>,
    pub outline: Option<String>,
    pub outline_colour: Option<String>,
    pub shadow: Option<String>,
    pub back_colour: Option<String>,
}

impl Default for SubtitleStyle {
    /// A style with every option unset: each falls back to its baseline.
    fn default() -> (s: SubtitleStyle)
        ensures
            s.fontsize is None,
            s.primary_colour is None,
            s.outline is None,
            s.outline_colour is None,
            s.shadow is None,
            s.back_colour is None,
    {
        SubtitleStyle {
            fontsize: None,
            primary_colour: None,
            outline: None,
            outline_colour: None,
            shadow: None,
            back_colour: None,
        }
    }
}

impl SubtitleStyle {
    /// The six `Name=value` parts, in their fixed order; a set option
    /// overrides only its own entry, and every unset option carries its
    /// fixed baseline.
    pub open spec fn spec_parts(&self) -> Seq<Seq<char>> {
        seq![
            match self.fontsize {
                Some(v) => "Fontsize="@ + dec_rep(v as nat),
                None => "Fontsize=72"@,
            },
            match self.primary_colour {
                Some(v) => "PrimaryColour="@ + v@,
                None => "PrimaryColour=&H00FFFFFF"@,
            },
            match self.outline {
                Some(v) => "Outline="@ + v@,
                None => "Outline=2"@,
            },
            match self.outline_colour {
                Some(v) => "OutlineColour="@ + v@,
                None => "OutlineColour=&H00000000"@,
            },
            match self.shadow {
                Some(v) => "Shadow="@ + v@,
                None => "Shadow=3"@,
            },
            match self.back_colour {
                Some(v) => "BackColour="@ + v@,
                None => "BackColour=&H60000000"@,
            },
        ]
    }

    /// The merged `force_style` value: the six parts joined by commas.
    pub open spec fn spec_merged(&self) -> Seq<char> {
        join_with_from(self.spec_parts(), ","@, 0)
    }

    /// Merges the style options into the transcoder's `force_style`
    /// value, filling every unset option with its baseline.
    pub fn merged(&self) -> (r: String)
        ensures
            r@ == self.spec_merged(),
    {
        let mut parts: Vec<Vec<char>> = Vec::new();
        let mut p: Vec<char> = Vec::new();
        match &self.fontsize {
            Some(v) => {
                extend_str(&mut p, "Fontsize=");
                push_dec_u64(&mut p, *v as u64);
            },
            None => extend_str(&mut p, "Fontsize=72"),
        }
        parts.push(p);
        let mut p: Vec<char> = Vec::new();
        match &self.primary_colour {
            Some(v) => {
                extend_str(&mut p, "PrimaryColour=");
                extend_str(&mut p, v.as_str());
            },
            None => extend_str(&mut p, "PrimaryColour=&H00FFFFFF"),
        }
        parts.push(p);
        let mut p: Vec<char> = Vec::new();
        match &self.outline {
            Some(v) => {
                extend_str(&mut p, "Outline=");
                extend_str(&mut p, v.as_str());
            },
            None => extend_str(&mut p, "Outline=2"),
        }
        parts.push(p);
        let mut p: Vec<char> = Vec::new();
        match &self.outline_colour {
            Some(v) => {
                extend_str(&mut p, "OutlineColour=");
                extend_str(&mut p, v.as_str());
            },
            None => extend_str(&mut p, "OutlineColour=&H00000000"),
        }
        parts.push(p);
        let mut p: Vec<char> = Vec::new();
        match &self.shadow {
            Some(v) => {
                extend_str(&mut p, "Shadow=");
                extend_str(&mut p, v.as_str());
            },
            None => extend_str(&mut p, "Shadow=3"),
        }
        parts.push(p);
        let mut p: Vec<char> = Vec::new();
        match &self.back_colour {
            Some(v) => {
                extend_str(&mut p, "BackColour=");
                extend_str(&mut p, v.as_str());
            },
            None => extend_str(&mut p, "BackColour=&H60000000"),
        }
        parts.push(p);
        assert(parts.deep_view() =~~= self.spec_parts());
        let joined = join_with(&parts, ",");
        string_from_chars(&joined)
    }
}

/// How one character of a subtitle path is escaped inside the filter
/// value: on Windows backslashes are doubled and colons get a backslash;
/// elsewhere single quotes get a backslash.
pub open spec fn esc_sub_char(c: char, platform: Platform) -> Seq<char> {
    if platform is Windows {
        if c == '\\' {
            seq!['\\', '\\']
        } else if c == ':' {
            seq!['\\', ':']
        } else {
            seq![c]
        }
    } else {
        if c == '\'' {
            seq!['\\', '\'']
        } else {
            seq![c]
        }
    }
}

/// The subtitle path with filter escaping applied.
pub open spec fn esc_sub_path(s: Seq<char>, platform: Platform) -> Seq<char>
    decreases s.len(),
{
    if s.len() == 0 {
        Seq::empty()
    } else {
        esc_sub_path(s.drop_last(), platform) + esc_sub_char(s.last(), platform)
    }
}

/// Escapes a subtitle path for use inside the filter value.
pub fn escape_subtitle_path(path: &Vec<char>, platform: Platform) -> (r: Vec<char>)
    ensures
        r@ == esc_sub_path(path@, platform),
{
    let mut r: Vec<char> = Vec::new();
    let mut i: usize = 0;
    let windows = match platform {
        Platform::Windows => true,
        _ => false,
    };
    while i < path.len()
        invariant
            i <= path@.len(),
            windows == (platform is Windows),
            r@ == esc_sub_path(path@.subrange(0, i as int), platform),
        decreases path@.len() - i,
    {
        let ghost pre = path@.subrange(0, i as int);
        let ghost cur = path@.subrange(0, i as int + 1);
        proof {
            assert(cur.drop_last() =~= pre);
            assert(cur.last() == path@[i as int]);
        }
        let c = path[i];
        if windows {
            if c == '\\' {
                r.push('\\');
                r.push('\\');
            } else if c == ':' {
                r.push('\\');
                r.push(':');
            } else {
                r.push(c);
            }
        } else {
            if c == '\'' {
                r.push('\\');
                r.push('\'');
            } else {
                r.push(c);
            }
        }
        assert(r@ =~= esc_sub_path(cur, platform));
        i = i + 1;
    }
    assert(path@.subrange(0, path@.len() as int) =~= path@);
    r
}

/// The full filter value with forced styling.
pub open spec fn spec_subtitle_filter(
    subtitle: Seq<char>,
    style: Seq<char>,
    platform: Platform,
) -> Seq<char> {
    "subtitles='"@ + esc_sub_path(subtitle, platform) + "':force_style='"@ + style + "'"@
}

/// The reduced filter value used by the software retry: no forced style.
pub open spec fn spec_subtitle_filter_plain(subtitle: Seq<char>, platform: Platform) -> Seq<
    char,
> {
    "subtitles='"@ + esc_sub_path(subtitle, platform) + "'"@
}

/// Builds the filter value with forced styling.
pub fn subtitle_filter(subtitle: &str, style: &str, platform: Platform) -> (r: String)
    ensures
        r@ == spec_subtitle_filter(subtitle@, style@, platform),
{
    let sub = chars_vec(subtitle);
    let esc = escape_subtitle_path(&sub, platform);
    let mut v: Vec<char> = Vec::new();
    extend_str(&mut v, "subtitles='");
    extend_chars(&mut v, &esc);
    extend_str(&mut v, "':force_style='");
    extend_str(&mut v, style);
    extend_str(&mut v, "'");
    assert(v@ =~= spec_subtitle_filter(subtitle@, style@, platform));
    string_from_chars(&v)
}

/// Builds the reduced filter value of the software retry.
pub fn subtitle_filter_plain(subtitle: &str, platform: Platform) -> (r: String)
    ensures
        r@ == spec_subtitle_filter_plain(subtitle@, platform),
{
    let sub = chars_vec(subtitle);
    let esc = escape_subtitle_path(&sub, platform);
    let mut v: Vec<char> = Vec::new();
    extend_str(&mut v, "subtitles='");
    extend_chars(&mut v, &esc);
    extend_str(&mut v, "'");
    assert(v@ =~= spec_subtitle_filter_plain(subtitle@, platform));
    string_from_chars(&v)
}

/// The encoder-specific quality arguments.
pub open spec fn spec_encoder_params(encoder: Seq<char>) -> Seq<Seq<char>> {
    if encoder == "h264_videotoolbox"@ {
        seq!["-b:v"@, "4M"@, "-maxrate"@, "8M"@, "-bufsize"@, "10M"@]
    } else if encoder == "h264_nvenc"@ {
        seq!["-preset"@, "p4"@, "-b:v"@, "4M"@]
    } else if encoder == "h264_qsv"@ {
        seq!["-preset"@, "medium"@, "-b:v"@, "4M"@]
    } else {
        seq!["-preset"@, "medium"@, "-crf"@, "23"@]
    }
}

/// The whole transcoder argument list of a subtitle burn.
pub open spec fn spec_burn_args(
    video: Seq<char>,
    filter: Seq<char>,
    encoder: Seq<char>,
    output: Seq<char>,
) -> Seq<Seq<char>> {
    seq!["-i"@, video, "-vf"@, filter, "-c:v"@, encoder] + spec_encoder_params(encoder) + seq![
        "-c:a"@,
        "copy"@,
        "-y"@,
        output,
    ]
}

fn push_string(args: &mut Vec<String>, s: &str)
    ensures
        final(args)@.len() == old(args)@.len() + 1,
        final(args).deep_view() == old(args).deep_view().push(s@),
{
    args.push(String::from_str(s));
    assert(args.deep_view() =~= old(args).deep_view().push(s@));
}

/// Builds the transcoder argument list for one burn attempt.
pub fn build_burn_args(video: &str, filter: &str, encoder: &str, output: &str) -> (r: Vec<String>)
    ensures
        r.deep_view() == spec_burn_args(video@, filter@, encoder@, output@),
{
    let mut args: Vec<String> = Vec::new();
    push_string(&mut args, "-i");
    push_string(&mut args, video);
    push_string(&mut args, "-vf");
    push_string(&mut args, filter);
    push_string(&mut args, "-c:v");
    push_string(&mut args, encoder);
    let ev = chars_vec(encoder);
    if crate::text::eq_str(&ev, "h264_videotoolbox") {
        push_string(&mut args, "-b:v");
        push_string(&mut args, "4M");
        push_string(&mut args, "-maxrate");
        push_string(&mut args, "8M");
        push_string(&mut args, "-bufsize");
        push_string(&mut args, "10M");
    } else if crate::text::eq_str(&ev, "h264_nvenc") {
        push_string(&mut args, "-preset");
        push_string(&mut args, "p4");
        push_string(&mut args, "-b:v");
        push_string(&mut args, "4M");
    } else if crate::text::eq_str(&ev, "h264_qsv") {
        push_string(&mut args, "-preset");
        push_string(&mut args, "medium");
        push_string(&mut args, "-b:v");
        push_string(&mut args, "4M");
    } else {
        push_string(&mut args, "-preset");
        push_string(&mut args, "medium");
        push_string(&mut args, "-crf");
        push_string(&mut args, "23");
    }
    push_string(&mut args, "-c:a");
    push_string(&mut args, "copy");
    push_string(&mut args, "-y");
    push_string(&mut args, output);
    assert(args.deep_view() =~= spec_burn_args(video@, filter@, encoder@, output@));
    args
}

/// The software-retry argument list: software encoder, default quality,
/// plain subtitle filter.
pub open spec fn spec_burn_fallback_args(
    video: Seq<char>,
    subtitle: Seq<char>,
    output: Seq<char>,
    platform: Platform,
) -> Seq<Seq<char>> {
    spec_burn_args(
        video,
        spec_subtitle_filter_plain(subtitle, platform),
        software_encoder(),
        output,
    )
}

/// Builds the argument list of the software retry.
pub fn build_burn_fallback_args(video: &str, subtitle: &str, output: &str, platform: Platform) -> (r:
    Vec<String>)
    ensures
        r.deep_view() == spec_burn_fallback_args(video@, subtitle@, output@, platform),
{
    let filter = subtitle_filter_plain(subtitle, platform);
    build_burn_args(video, filter.as_str(), "libx264", output)
}

/// Whether a raw transcoder line reports encoding progress: those are the
/// lines carrying a `time=` token, forwarded on the progress channel.
pub fn is_transcode_progress_line(line: &str) -> (r: bool)
    ensures
        r == contains_seq(line@, "time="@),
{
    let v = chars_vec(line);
    contains_str(&v, "time=")
}

/// What the subtitle-burn operation does after its first transcode
/// attempt: report success, retry once with the software encoder, or give
/// up (software encoding failure is terminal).
pub enum BurnNext {
    Done(String),
    RetrySoftware(Vec<String>),
    Fail(String),
}

/// Mathematical image of [`BurnNext`].
pub enum BurnNextModel {
    Done(Seq<char>),
    RetrySoftware(Seq<Seq<char>>),
    Fail(Seq<char>),
}

impl BurnNext {
    pub open spec fn model(&self) -> BurnNextModel {
        match self {
            BurnNext::Done(s) => BurnNextModel::Done(s@),
            BurnNext::RetrySoftware(a) => BurnNextModel::RetrySoftware(a.deep_view()),
            BurnNext::Fail(s) => BurnNextModel::Fail(s@),
        }
    }
}

/// The confirmation text of a successful burn.
pub open spec fn spec_burn_done_text(output: Seq<char>) -> Seq<char> {
    "字幕烧录完成: "@ + output
}

/// The confirmation text when the burn succeeded only after falling back
/// to the software encoder.
pub open spec fn spec_burn_fallback_done_text(output: Seq<char>) -> Seq<char> {
    "字幕烧录完成（已回退到软件编码 libx264）: "@ + output
}

/// The decision after the first attempt: success is done; a failed
/// hardware attempt earns exactly one software retry; a failed software
/// attempt is terminal.
pub open spec fn spec_burn_first_decision(
    encoder: Seq<char>,
    success: bool,
    out: Seq<char>,
    err: Seq<char>,
    video: Seq<char>,
    subtitle: Seq<char>,
    output: Seq<char>,
    platform: Platform,
) -> BurnNextModel {
    if success {
        BurnNextModel::Done(spec_burn_done_text(output))
    } else if encoder != software_encoder() {
        BurnNextModel::RetrySoftware(spec_burn_fallback_args(video, subtitle, output, platform))
    } else {
        BurnNextModel::Fail("字幕烧录失败\n标准输出: "@ + out + "\n错误输出: "@ + err)
    }
}

/// Decides what follows the first burn attempt.
pub fn burn_first_decision(
    encoder: &str,
    success: bool,
    out: &str,
    err: &str,
    video: &str,
    subtitle: &str,
    output: &str,
    platform: Platform,
) -> (r: BurnNext)
    ensures
        r.model() == spec_burn_first_decision(
            encoder@,
            success,
            out@,
            err@,
            video@,
            subtitle@,
            output@,
            platform,
        ),
{
    if success {
        let mut m: Vec<char> = Vec::new();
        extend_str(&mut m, "字幕烧录完成: ");
        extend_str(&mut m, output);
        assert(m@ =~= spec_burn_done_text(output@));
        BurnNext::Done(string_from_chars(&m))
    } else {
        let ev = chars_vec(encoder);
        if !crate::text::eq_str(&ev, "libx264") {
            BurnNext::RetrySoftware(build_burn_fallback_args(video, subtitle, output, platform))
        } else {
            let mut m: Vec<char> = Vec::new();
            extend_str(&mut m, "字幕烧录失败\n标准输出: ");
            extend_str(&mut m, out);
            extend_str(&mut m, "\n错误输出: ");
            extend_str(&mut m, err);
            assert(m@ =~= "字幕烧录失败\n标准输出: "@ + out@ + "\n错误输出: "@ + err@);
            BurnNext::Fail(string_from_chars(&m))
        }
    }
}

/// The outcome after the software retry: its success confirms the burn
/// and names the fallback; its failure aggregates both attempts' output.
pub open spec fn spec_burn_retry_decision(
    retry_success: bool,
    out: Seq<char>,
    err: Seq<char>,
    out_fb: Seq<char>,
    err_fb: Seq<char>,
    output: Seq<char>,
) -> Result<Seq<char>, Seq<char>> {
    if retry_success {
        Ok(spec_burn_fallback_done_text(output))
    } else {
        Err(
            "字幕烧录失败（硬件与回退均失败）\n标准输出: "@ + out + "\n错误输出: "@ + err + "\n回退标准输出: "@
                + out_fb + "\n回退错误输出: "@ + err_fb,
        )
    }
}

/// Decides the final outcome after the software retry.
pub fn burn_retry_decision(
    retry_success: bool,
    out: &str,
    err: &str,
    out_fb: &str,
    err_fb: &str,
    output: &str,
) -> (r: Result<String, String>)
    ensures
        match (r, spec_burn_retry_decision(retry_success, out@, err@, out_fb@, err_fb@, output@)) {
            (Ok(o), Ok(so)) => o@ == so,
            (Err(m), Err(sm)) => m@ == sm,
            _ => false,
        },
{
    if retry_success {
        let mut m: Vec<char> = Vec::new();
        extend_str(&mut m, "字幕烧录完成（已回退到软件编码 libx264）: ");
        extend_str(&mut m, output);
        assert(m@ =~= spec_burn_fallback_done_text(output@));
        Ok(string_from_chars(&m))
    } else {
        let mut m: Vec<char> = Vec::new();
        extend_str(&mut m, "字幕烧录失败（硬件与回退均失败）\n标准输出: ");
        extend_str(&mut m, out);
        extend_str(&mut m, "\n错误输出: ");
        extend_str(&mut m, err);
        extend_str(&mut m, "\n回退标准输出: ");
        extend_str(&mut m, out_fb);
        extend_str(&mut m, "\n回退错误输出: ");
        extend_str(&mut m, err_fb);
        assert(m@ =~= spec_burn_retry_decision(
            retry_success,
            out@,
            err@,
            out_fb@,
            err_fb@,
            output@,
        )->Err_0);
        Err(string_from_chars(&m))
    }
}

/// The status event announcing the chosen encoder at the start of a burn.
pub fn burn_start_event(encoder: &str, timestamp: &str) -> (e: LogEvent)
    ensures
        e.level is Info,
        encoder@ != software_encoder() ==> e.message@ == "字幕烧录开始，编码器: "@ + encoder@ + "（硬件）"@,
        encoder@ == software_encoder() ==> e.message@ == "字幕烧录开始，编码器: "@ + encoder@ + "（软件）"@,
        e.progress is None,
        e.speed is None,
        e.timestamp@ == timestamp@,
        e.wf(),
{
    let ev = chars_vec(encoder);
    let mut m: Vec<char> = Vec::new();
    extend_str(&mut m, "字幕烧录开始，编码器: ");
    extend_str(&mut m, encoder);
    if !crate::text::eq_str(&ev, "libx264") {
        extend_str(&mut m, "（硬件）");
    } else {
        extend_str(&mut m, "（软件）");
    }
    LogEvent {
        level: LogLevel::Info,
        message: string_from_chars(&m),
        progress: None,
        speed: None,
        timestamp: String::from_str(timestamp),
    }
}

/// The status event of a burn that succeeded on its first attempt.
pub fn burn_success_event(encoder: &str, timestamp: &str) -> (e: LogEvent)
    ensures
        e.level is Info,
        e.message@ == "字幕烧录成功（编码器: "@ + encoder@ + "）"@,
        e.progress is None,
        e.speed is None,
        e.timestamp@ == timestamp@,
        e.wf(),
{
    let mut m: Vec<char> = Vec::new();
    extend_str(&mut m, "字幕烧录成功（编码器: ");
    extend_str(&mut m, encoder);
    extend_str(&mut m, "）");
    LogEvent {
        level: LogLevel::Info,
        message: string_from_chars(&m),
        progress: None,
        speed: None,
        timestamp: String::from_str(timestamp),
    }
}

/// The warning event announcing the fall back to software encoding.
pub fn burn_fallback_event(timestamp: &str) -> (e: LogEvent)
    ensures
        e.level is Warn,
        e.message@ == "硬件编码失败，回退到软件编码 libx264"@,
        e.progress is None,
        e.speed is None,
        e.timestamp@ == timestamp@,
        e.wf(),
{
    LogEvent {
        level: LogLevel::Warn,
        message: String::from_str("硬件编码失败，回退到软件编码 libx264"),
        progress: None,
        speed: None,
        timestamp: String::from_str(timestamp),
    }
}

/// The status event of a burn that succeeded on the software retry.
pub fn burn_fallback_success_event(timestamp: &str) -> (e: LogEvent)
    ensures
        e.level is Info,
        e.message@ == "字幕烧录成功（已回退到软件编码 libx264）"@,
        e.progress is None,
        e.speed is None,
        e.timestamp@ == timestamp@,
        e.wf(),
{
    LogEvent {
        level: LogLevel::Info,
        message: String::from_str("字幕烧录成功（已回退到软件编码 libx264）"),
        progress: None,
        speed: None,
        timestamp: String::from_str(timestamp),
    }
}

/// The error event of a failed burn; `both_failed` marks the case where
/// the hardware attempt and the software retry both failed.
pub fn burn_failed_event(both_failed: bool, timestamp: &str) -> (e: LogEvent)
    ensures
        e.level is Error,
        both_failed ==> e.message@ == "字幕烧录失败（硬件与回退均失败）"@,
        !both_failed ==> e.message@ == "字幕烧录失败"@,
        e.progress is None,
        e.speed is None,
        e.timestamp@ == timestamp@,
        e.wf(),
{
    LogEvent {
        level: LogLevel::Error,
        message: if both_failed {
            String::from_str("字幕烧录失败（硬件与回退均失败）")
        } else {
            String::from_str("字幕烧录失败")
        },
        progress: None,
        speed: None,
        timestamp: String::from_str(timestamp),
    }
}

/// The fallback law of the subtitle burn.  When the first attempt ran a
/// hardware encoder and failed, the decision is exactly one retry, whose
/// argument list selects the software encoder; if the retry succeeds the
/// returned text names the fallback, and if it fails the reported error
/// aggregates the output of both attempts.  When the software encoder was
/// chosen first, no retry is attempted: failure is terminal.
pub proof fn lemma_encoder_fallback(
    encoder: Seq<char>,
    out: Seq<char>,
    err: Seq<char>,
    out_fb: Seq<char>,
    err_fb: Seq<char>,
    video: Seq<char>,
    subtitle: Seq<char>,
    output: Seq<char>,
    platform: Platform,
)
    requires
        encoder != software_encoder(),
    ensures
        spec_burn_first_decision(encoder, false, out, err, video, subtitle, output, platform)
            == BurnNextModel::RetrySoftware(
            spec_burn_fallback_args(video, subtitle, output, platform),
        ),
        spec_burn_fallback_args(video, subtitle, output, platform)[5] == software_encoder(),
        spec_burn_retry_decision(true, out, err, out_fb, err_fb, output) == Result::<
            Seq<char>,
            Seq<char>,
        >::Ok(spec_burn_fallback_done_text(output)),
        spec_burn_retry_decision(false, out, err, out_fb, err_fb, output) matches Err(m)
            && contains_seq(m, out) && contains_seq(m, err) && contains_seq(m, out_fb)
            && contains_seq(m, err_fb),
        spec_burn_first_decision(
            software_encoder(),
            false,
            out,
            err,
            video,
            subtitle,
            output,
            platform,
        ) is Fail,
{
    let args = spec_burn_fallback_args(video, subtitle, output, platform);
    assert(args[5] == software_encoder());
    let m = spec_burn_retry_decision(false, out, err, out_fb, err_fb, output)->Err_0;
    let h = "字幕烧录失败（硬件与回退均失败）\n标准输出: "@;
    let s1 = "\n错误输出: "@;
    let s2 = "\n回退标准输出: "@;
    let s3 = "\n回退错误输出: "@;
    lemma_concat_contains_middle(h, out, s1 + err + s2 + out_fb + s3 + err_fb, m);
    lemma_concat_contains_middle(h + out + s1, err, s2 + out_fb + s3 + err_fb, m);
    lemma_concat_contains_middle(h + out + s1 + err + s2, out_fb, s3 + err_fb, m);
    lemma_concat_contains_middle(h + out + s1 + err + s2 + out_fb + s3, err_fb, Seq::empty(), m);
}

/// A sequence that is `before + mid + after` contains `mid`.
proof fn lemma_concat_contains_middle(
    before: Seq<char>,
    mid: Seq<char>,
    after: Seq<char>,
    whole: Seq<char>,
)
    requires
        whole =~= before + mid + after,
    ensures
        contains_seq(whole, mid),
{
    assert(crate::text::match_at(whole, mid, before.len() as int));
}

} // verus!
