use media_pipeline::encoder::{
    build_burn_args, build_burn_fallback_args, burn_failed_event, burn_fallback_event,
    burn_fallback_success_event, burn_first_decision, burn_retry_decision, burn_start_event,
    burn_success_event, detect_hardware_encoder, is_transcode_progress_line, subtitle_filter,
    subtitle_filter_plain, BurnNext, SubtitleStyle,
};
use media_pipeline::event::LogLevel;
use media_pipeline::platform::Platform;

#[test]
fn macos_always_videotoolbox() {
    assert_eq!(detect_hardware_encoder(Platform::MacOs, None), "h264_videotoolbox");
    assert_eq!(
        detect_hardware_encoder(Platform::MacOs, Some("h264_nvenc")),
        "h264_videotoolbox"
    );
}

#[test]
fn windows_probes_encoder_list() {
    let listing = "... h264_nvenc ... h264_qsv ...";
    assert_eq!(detect_hardware_encoder(Platform::Windows, Some(listing)), "h264_nvenc");
    assert_eq!(
        detect_hardware_encoder(Platform::Windows, Some("only h264_qsv here")),
        "h264_qsv"
    );
    assert_eq!(
        detect_hardware_encoder(Platform::Windows, Some("software only")),
        "libx264"
    );
    assert_eq!(detect_hardware_encoder(Platform::Windows, None), "libx264");
}

#[test]
fn other_platforms_use_software() {
    assert_eq!(detect_hardware_encoder(Platform::Other, None), "libx264");
}

#[test]
fn unset_style_merges_to_the_baselines() {
    let s = SubtitleStyle::default();
    assert_eq!(
        s.merged(),
        "Fontsize=72,PrimaryColour=&H00FFFFFF,Outline=2,OutlineColour=&H00000000,Shadow=3,BackColour=&H60000000"
    );
}

#[test]
fn set_options_override_only_their_own_entries() {
    let s = SubtitleStyle {
        fontsize: Some(40),
        primary_colour: None,
        outline: None,
        outline_colour: None,
        shadow: Some("1.5".to_string()),
        back_colour: None,
    };
    assert_eq!(
        s.merged(),
        "Fontsize=40,PrimaryColour=&H00FFFFFF,Outline=2,OutlineColour=&H00000000,Shadow=1.5,BackColour=&H60000000"
    );
}

#[test]
fn transcode_progress_lines_detected() {
    assert!(is_transcode_progress_line("frame= 100 time=00:00:04.00 bitrate=..."));
    assert!(!is_transcode_progress_line("Stream mapping:"));
}

#[test]
fn subtitle_filter_escapes_quotes_on_unix() {
    let f = subtitle_filter("it's.srt", "Fontsize=72", Platform::Other);
    assert_eq!(f, "subtitles='it\\'s.srt':force_style='Fontsize=72'");
}

#[test]
fn subtitle_filter_escapes_windows_paths() {
    let f = subtitle_filter_plain("C:\\subs\\a.srt", Platform::Windows);
    assert_eq!(f, "subtitles='C\\:\\\\subs\\\\a.srt'");
}

#[test]
fn burn_args_for_hardware_encoders() {
    let a = build_burn_args("in.mp4", "F", "h264_videotoolbox", "out.mp4");
    assert_eq!(
        a,
        vec![
            "-i", "in.mp4", "-vf", "F", "-c:v", "h264_videotoolbox", "-b:v", "4M", "-maxrate",
            "8M", "-bufsize", "10M", "-c:a", "copy", "-y", "out.mp4",
        ]
    );
    let a = build_burn_args("v", "F", "h264_nvenc", "o");
    assert_eq!(a[6..10], ["-preset", "p4", "-b:v", "4M"]);
    let a = build_burn_args("v", "F", "h264_qsv", "o");
    assert_eq!(a[6..10], ["-preset", "medium", "-b:v", "4M"]);
    let a = build_burn_args("v", "F", "libx264", "o");
    assert_eq!(a[6..10], ["-preset", "medium", "-crf", "23"]);
}

#[test]
fn hardware_failure_earns_exactly_one_software_retry() {
    let next = burn_first_decision(
        "h264_nvenc",
        false,
        "hw out",
        "hw err",
        "v.mp4",
        "s.srt",
        "o.mp4",
        Platform::Other,
    );
    match next {
        BurnNext::RetrySoftware(args) => {
            assert_eq!(args, build_burn_fallback_args("v.mp4", "s.srt", "o.mp4", Platform::Other));
            assert_eq!(args[5], "libx264");
        },
        _ => panic!("hardware failure must retry with the software encoder"),
    }
}

#[test]
fn retry_success_names_the_fallback() {
    let r = burn_retry_decision(true, "o", "e", "o2", "e2", "out.mp4").unwrap();
    assert_eq!(r, "字幕烧录完成（已回退到软件编码 libx264）: out.mp4");
}

#[test]
fn retry_failure_aggregates_both_attempts() {
    let e = burn_retry_decision(false, "hwout", "hwerr", "swout", "swerr", "o").unwrap_err();
    assert!(e.contains("hwout"));
    assert!(e.contains("hwerr"));
    assert!(e.contains("swout"));
    assert!(e.contains("swerr"));
    assert!(e.contains("硬件与回退均失败"));
}

#[test]
fn software_failure_is_terminal() {
    let next = burn_first_decision(
        "libx264", false, "o", "e", "v", "s", "out", Platform::Other,
    );
    match next {
        BurnNext::Fail(m) => {
            assert_eq!(m, "字幕烧录失败\n标准输出: o\n错误输出: e");
        },
        _ => panic!("software failure must not retry"),
    }
}

#[test]
fn first_attempt_success_is_done() {
    let next = burn_first_decision(
        "h264_qsv", true, "o", "e", "v", "s", "out.mp4", Platform::Other,
    );
    match next {
        BurnNext::Done(m) => assert_eq!(m, "字幕烧录完成: out.mp4"),
        _ => panic!("success must finish"),
    }
}

#[test]
fn burn_status_events() {
    let e = burn_start_event("h264_nvenc", "t");
    assert_eq!(e.message, "字幕烧录开始，编码器: h264_nvenc（硬件）");
    let e = burn_start_event("libx264", "t");
    assert_eq!(e.message, "字幕烧录开始，编码器: libx264（软件）");
    assert_eq!(burn_success_event("h264_qsv", "t").message, "字幕烧录成功（编码器: h264_qsv）");
    let w = burn_fallback_event("t");
    assert_eq!(w.level, LogLevel::Warn);
    assert_eq!(w.message, "硬件编码失败，回退到软件编码 libx264");
    assert_eq!(
        burn_fallback_success_event("t").message,
        "字幕烧录成功（已回退到软件编码 libx264）"
    );
    assert_eq!(burn_failed_event(true, "t").message, "字幕烧录失败（硬件与回退均失败）");
    assert_eq!(burn_failed_event(false, "t").message, "字幕烧录失败");
}
