use media_pipeline::codec::{decode_event, encode_event};
use media_pipeline::event::{LogEvent, LogLevel, Progress};
use media_pipeline::parser::{process_line, ProgressState};

fn assert_same_tuple(a: &LogEvent, b: &LogEvent) {
    assert_eq!(a.level, b.level);
    assert_eq!(a.message, b.message);
    match (&a.progress, &b.progress) {
        (None, None) => {},
        (Some(p), Some(q)) => {
            assert_eq!(p.units, q.units);
            assert_eq!(p.frac, q.frac);
        },
        _ => panic!("progress mismatch"),
    }
    assert_eq!(a.speed, b.speed);
    assert_eq!(a.timestamp, b.timestamp);
}

#[test]
fn parser_event_round_trips_through_the_wire() {
    let mut st = ProgressState::new();
    let e = process_line(
        &mut st,
        "Vid 1920x1080 | 42.75% | 19.20MBps",
        "2024-01-01T10:00:00+00:00",
    )
    .unwrap();
    let wire = encode_event(&e);
    let back = decode_event(&wire).expect("an encoded event must decode");
    assert_same_tuple(&e, &back);
}

#[test]
fn error_event_round_trips() {
    let mut st = ProgressState::new();
    let e = process_line(&mut st, "ERROR: 下载失败 | details", "t|s:with'odd|chars").unwrap();
    let back = decode_event(&encode_event(&e)).unwrap();
    assert_same_tuple(&e, &back);
}

#[test]
fn handmade_event_round_trips() {
    let e = LogEvent {
        level: LogLevel::Warn,
        message: "消息 with | bars : colons 100%".to_string(),
        progress: Some(Progress { units: 99, frac: vec!['0', '5'] }),
        speed: Some("1.97MBps".to_string()),
        timestamp: "2024-06-01T00:00:00Z".to_string(),
    };
    let back = decode_event(&encode_event(&e)).unwrap();
    assert_same_tuple(&e, &back);
}

#[test]
fn empty_fields_round_trip() {
    let e = LogEvent {
        level: LogLevel::Info,
        message: String::new(),
        progress: None,
        speed: Some(String::new()),
        timestamp: String::new(),
    };
    let back = decode_event(&encode_event(&e)).unwrap();
    assert_same_tuple(&e, &back);
}

#[test]
fn wire_shape_is_stable() {
    let e = LogEvent {
        level: LogLevel::Info,
        message: "下载完成！".to_string(),
        progress: Some(Progress { units: 100, frac: vec![] }),
        speed: None,
        timestamp: "T".to_string(),
    };
    assert_eq!(encode_event(&e), "INFO|100|-|1:T|5:下载完成！");
}

#[test]
fn malformed_lines_do_not_decode() {
    assert!(decode_event("").is_none());
    assert!(decode_event("DEBUG|-|-|1:T|1:m").is_none());
    assert!(decode_event("INFO|-|-|1:T|9:short").is_none());
    assert!(decode_event("INFO|-|-|1:T|1:m trailing").is_none());
    assert!(decode_event("INFO|12.|-|1:T|1:m").is_none());
    assert!(decode_event("INFO|x|-|1:T|1:m").is_none());
}
