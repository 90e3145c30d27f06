use moonwatch_rs::config::{BaseConfig, Config, WindowEventMatcher};
use moonwatch_rs::event::ActiveWindowEvent;
use moonwatch_rs::json_value::{JsonNumber, Json};
use moonwatch_rs::rules::classify;
use moonwatch_rs::span::TimeSpan;

fn recorded(title: &str, path: &str, duration: u64, idle: u64) -> ActiveWindowEvent {
    ActiveWindowEvent::captured(
        "2024-03-05T10:20:30.5+00:00".to_string(),
        "box".to_string(),
        "ann".to_string(),
        TimeSpan::from_millis(idle),
        title.to_string(),
        path.to_string(),
        TimeSpan::from_millis(duration),
    )
}

fn text(s: &str) -> Json {
    Json::String(s.to_string())
}

fn whole(n: u64) -> Json {
    Json::Number(JsonNumber { positive: true, mantissa: n, exponent: 0 })
}

#[test]
fn record_has_eight_members_in_order() {
    let mut e = recorded("Editor", "/usr/bin/code", 1000, 2600);
    e.tags.push("work".to_string());
    e.tags.push("dev".to_string());
    let expected = Json::Object(vec![
        ("type".to_string(), text("ActiveWindowEvent")),
        ("time".to_string(), text("2024-03-05T10:20:30.5+00:00")),
        ("duration".to_string(), whole(1)),
        ("hostname".to_string(), text("box")),
        ("username".to_string(), text("ann")),
        ("idle_for".to_string(), whole(3)),
        ("process_path".to_string(), text("/usr/bin/code")),
        ("tags".to_string(), Json::Array(vec![text("work"), text("dev")])),
    ]);
    assert_eq!(e.to_json(), expected);
}

#[test]
fn record_of_an_anonymized_sample_has_no_path() {
    let mut e = recorded("Private Browsing", "/usr/bin/firefox", 1000, 0);
    e.anonymize = true;
    e.tags.push("web".to_string());
    let record = e.to_json();
    assert!(record.get("process_path").unwrap().is_null());
    assert_eq!(record.get("tags"), Some(&Json::Array(vec![text("web")])));
    assert_eq!(record.get_str("hostname"), Some("box"));
    assert!(record.get("window_title").is_none());
}

#[test]
fn title_marked_private_gives_a_record_without_path() {
    let anonymize = WindowEventMatcher::from_json(&Json::Array(vec![Json::Object(vec![(
        "window_title".to_string(),
        text("Private"),
    )])]))
    .unwrap();
    let config = Config::assemble(
        "out".to_string(),
        TimeSpan::from_millis(1000),
        TimeSpan::from_millis(5000),
        BaseConfig { tags: vec![], ignore: vec![], anonymize },
        None,
    );
    let kept = classify(&config, recorded("Private Browsing", "/usr/bin/firefox", 1000, 0)).unwrap();
    let line = kept.to_line();
    let read = json::parse(&line).unwrap();
    assert!(read["process_path"].is_null());
    assert!(read.has_key("process_path"));
    assert_eq!(read["tags"].len(), 0);

    let open = classify(&config, recorded("Public", "/usr/bin/firefox", 1000, 0)).unwrap();
    let read = json::parse(&open.to_line()).unwrap();
    assert_eq!(read["process_path"].as_str(), Some("/usr/bin/firefox"));
}

#[test]
fn lengths_of_time_are_written_in_whole_seconds() {
    let e = recorded("t", "p", 1499, 1500);
    let record = e.to_json();
    assert_eq!(record.get_number("duration"), Some(JsonNumber { positive: true, mantissa: 1, exponent: 0 }));
    assert_eq!(record.get_number("idle_for"), Some(JsonNumber { positive: true, mantissa: 2, exponent: 0 }));
}

#[test]
fn written_record_reads_back_to_the_same_values() {
    let mut e = recorded("Title \"quoted\"", "/opt/my app/b\\in\n", 61_700, 299);
    e.tags.push("tag one".to_string());
    e.tags.push("tag\ttwo".to_string());
    e.hostname = "h\u{f6}st".to_string();
    let line = e.to_line();
    assert!(!line.contains('\n'));
    let read = json::parse(&line).unwrap();
    assert_eq!(read.len(), 8);
    assert_eq!(read["type"].as_str(), Some("ActiveWindowEvent"));
    assert_eq!(read["time"].as_str(), Some("2024-03-05T10:20:30.5+00:00"));
    assert_eq!(read["duration"].as_u64(), Some(62));
    assert_eq!(read["idle_for"].as_u64(), Some(0));
    assert_eq!(read["hostname"].as_str(), Some("h\u{f6}st"));
    assert_eq!(read["username"].as_str(), Some("ann"));
    assert_eq!(read["process_path"].as_str(), Some("/opt/my app/b\\in\n"));
    let tags: Vec<&str> = read["tags"].members().map(|t| t.as_str().unwrap()).collect();
    assert_eq!(tags, vec!["tag one", "tag\ttwo"]);
}

#[test]
fn time_of_a_new_sample_reads_back_as_an_instant() {
    let before = chrono::Utc::now();
    let e = ActiveWindowEvent::new(
        TimeSpan::from_millis(7),
        "t".to_string(),
        "p".to_string(),
        TimeSpan::from_millis(1000),
    );
    let after = chrono::Utc::now();
    let read = chrono::DateTime::parse_from_rfc3339(&e.time).unwrap();
    assert!(before <= read && read <= after);
    let record = e.to_json();
    let written = chrono::DateTime::parse_from_rfc3339(record.get_str("time").unwrap()).unwrap();
    assert_eq!(written, read);
}

#[test]
fn new_sample_holds_what_it_was_given() {
    let e = ActiveWindowEvent::new(
        TimeSpan::from_millis(7),
        "title".to_string(),
        "/path".to_string(),
        TimeSpan::from_millis(1000),
    );
    assert_eq!(e.idle_for, TimeSpan::from_millis(7));
    assert_eq!(e.duration, TimeSpan::from_millis(1000));
    assert_eq!(e.window_title, "title");
    assert_eq!(e.process_path, "/path");
    assert!(e.tags.is_empty());
    assert!(!e.anonymize);
    assert_eq!(e.hostname, e.hostname.to_lowercase());
    assert!(!e.username.is_empty());
}

#[test]
fn line_of_a_record_is_compact_json() {
    let mut e = recorded("Editor", "/usr/bin/code", 1000, 2600);
    e.tags.push("work".to_string());
    assert_eq!(
        e.to_line(),
        r#"{"type":"ActiveWindowEvent","time":"2024-03-05T10:20:30.5+00:00","duration":1,"hostname":"box","username":"ann","idle_for":3,"process_path":"/usr/bin/code","tags":["work"]}"#
    );
    e.anonymize = true;
    e.tags.clear();
    assert_eq!(
        e.to_line(),
        r#"{"type":"ActiveWindowEvent","time":"2024-03-05T10:20:30.5+00:00","duration":1,"hostname":"box","username":"ann","idle_for":3,"process_path":null,"tags":[]}"#
    );
}
