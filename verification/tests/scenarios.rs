use moonwatch_rs::config::{Config, ConfigError};
use moonwatch_rs::control::Moonwatcher;
use moonwatch_rs::event::ActiveWindowEvent;
use moonwatch_rs::probe::{ActiveWindowEventResult, ProbeError};
use moonwatch_rs::span::TimeSpan;

fn load(text: &str) -> Result<Config, ConfigError> {
    Config::from_file(text, "/home/ann/.config/moonwatch", None)
}

fn looked(title: &str, path: &str, second: u32) -> Result<ActiveWindowEventResult, ProbeError> {
    Ok(ActiveWindowEventResult::Window {
        e: ActiveWindowEvent::captured(
            format!("2024-05-06T07:08:{:02}+00:00", second),
            "box".to_string(),
            "ann".to_string(),
            TimeSpan::from_millis(120),
            title.to_string(),
            path.to_string(),
            TimeSpan::from_millis(1000),
        ),
    })
}

#[test]
fn five_ticks_in_the_editor_give_a_file_of_five_work_lines() {
    let config = load(
        r#"{"main": {"output_dir": "data", "sample_every_sec": 1, "write_every_sec": 5},
            "tags": {"work": {"process_path": "code"}}}"#,
    )
    .unwrap();
    assert!(config.is_valid());
    let mut recorder = Moonwatcher::new(config);
    assert_eq!(recorder.sample_interval(), TimeSpan::from_millis(1000));
    assert_eq!(recorder.write_interval(), TimeSpan::from_millis(5000));
    for second in 0..5 {
        assert_eq!(recorder.on_sample(looked("main.rs", "/usr/share/code/code", second)), None);
    }
    let file = recorder.on_write_tick().unwrap();
    let lines = file.lines;
    assert_eq!(lines.len(), 5);
    for line in &lines {
        let read = json::parse(line).unwrap();
        assert_eq!(read["tags"].len(), 1);
        assert_eq!(read["tags"][0].as_str(), Some("work"));
        assert_eq!(read["type"].as_str(), Some("ActiveWindowEvent"));
        assert_eq!(read["duration"].as_u64(), Some(1));
    }
    assert_eq!(
        lines[0],
        r#"{"type":"ActiveWindowEvent","time":"2024-05-06T07:08:04+00:00","duration":1,"hostname":"box","username":"ann","idle_for":0,"process_path":"/usr/share/code/code","tags":["work"]}"#
    );
    recorder.on_write_done(true);
    assert!(recorder.on_write_tick().is_none());
}

#[test]
fn private_title_gives_a_line_with_a_null_path() {
    let config = load(
        r#"{"main": {"output_dir": "data", "sample_every_sec": 1, "write_every_sec": 5},
            "anonymize": [{"window_title": "Private"}]}"#,
    )
    .unwrap();
    let mut recorder = Moonwatcher::new(config);
    recorder.on_sample(looked("Private Browsing", "/usr/bin/firefox", 0));
    let file = recorder.on_write_tick().unwrap();
    assert_eq!(file.lines.len(), 1);
    assert_eq!(
        file.lines[0],
        r#"{"type":"ActiveWindowEvent","time":"2024-05-06T07:08:00+00:00","duration":1,"hostname":"box","username":"ann","idle_for":0,"process_path":null,"tags":[]}"#
    );
    assert!(recorder.writer.events_to_write[0].anonymize);
    assert_eq!(recorder.writer.events_to_write[0].window_title, "Private Browsing");
}

#[test]
fn broken_configuration_is_not_taken_over_and_a_good_one_is() {
    let config = load(
        r#"{"main": {"output_dir": "data", "sample_every_sec": 1, "write_every_sec": 5}}"#,
    )
    .unwrap();
    let mut recorder = Moonwatcher::new(config);

    let broken = load(r#"{"main": {"output_dir": "data", "write_every_sec": 5}, "tags": {}}"#);
    assert_eq!(broken.as_ref().unwrap_err(), &ConfigError::MissingSampleInterval);
    assert_eq!(recorder.on_reload(broken.ok()), None);
    let garbled = load(r#"{"main": {"output_dir": "data", "sample_every_sec": 9, "#);
    assert_eq!(garbled.as_ref().unwrap_err(), &ConfigError::Syntax);
    assert_eq!(recorder.on_reload(garbled.ok()), None);
    assert_eq!(recorder.sample_interval(), TimeSpan::from_millis(1000));
    assert_eq!(recorder.write_interval(), TimeSpan::from_millis(5000));

    let good = load(
        r#"{"main": {"output_dir": "data", "sample_every_sec": 2.5, "write_every_sec": 30}}"#,
    );
    let timers = recorder.on_reload(good.ok()).unwrap();
    assert_eq!(timers.sample_every, TimeSpan::from_millis(2500));
    assert_eq!(timers.write_every, TimeSpan::from_millis(30_000));
    assert_eq!(recorder.sample_interval(), TimeSpan::from_millis(2500));
    assert_eq!(recorder.on_sample(looked("t", "p", 0)), None);
    assert_eq!(
        recorder.on_sample(Ok(ActiveWindowEventResult::DesktopLocked)),
        Some(TimeSpan::from_millis(25_000))
    );
}

#[test]
fn ignored_window_leaves_no_line() {
    let config = load(
        r#"{"main": {"output_dir": "data", "sample_every_sec": 1, "write_every_sec": 5},
            "tags": {"work": {"process_path": "code"}},
            "ignore": [{"window_title": "^Screen Lock$"}, {"process_path": "keepass"}]}"#,
    )
    .unwrap();
    let mut recorder = Moonwatcher::new(config);
    recorder.on_sample(looked("Screen Lock", "/usr/share/code/code", 0));
    recorder.on_sample(looked("Passwords", "/usr/bin/keepassxc", 1));
    assert!(recorder.on_write_tick().is_none());
    recorder.on_sample(looked("Screen Lock settings", "/usr/share/code/code", 2));
    assert_eq!(recorder.on_write_tick().unwrap().lines.len(), 1);
}
