use moonwatch_rs::config::{BaseConfig, Config, ConfigTag, WindowEventMatcher};
use moonwatch_rs::control::{Moonwatcher, MoonwatcherSignal, SignalAction, Timers};
use moonwatch_rs::event::ActiveWindowEvent;
use moonwatch_rs::probe::{ActiveWindowEventResult, ProbeError};
use moonwatch_rs::span::TimeSpan;

fn window(title: &str, path: &str) -> Result<ActiveWindowEventResult, ProbeError> {
    Ok(ActiveWindowEventResult::Window {
        e: ActiveWindowEvent::captured(
            "2024-01-01T00:00:00+00:00".to_string(),
            "host".to_string(),
            "user".to_string(),
            TimeSpan::from_millis(0),
            title.to_string(),
            path.to_string(),
            TimeSpan::from_millis(1000),
        ),
    })
}

fn timed(sample_millis: u64, write_millis: u64) -> Config {
    Config::assemble(
        "out".to_string(),
        TimeSpan::from_millis(sample_millis),
        TimeSpan::from_millis(write_millis),
        BaseConfig {
            tags: vec![ConfigTag {
                tag: "work".to_string(),
                matcher: WindowEventMatcher::new(None, Some("code".to_string())).unwrap(),
            }],
            ignore: vec![WindowEventMatcher::new(Some("^Lock".to_string()), None).unwrap()],
            anonymize: vec![],
        },
        None,
    )
}

#[test]
fn recorder_starts_at_the_usual_pace() {
    let m = Moonwatcher::new(timed(1000, 5000));
    assert!(!m.sample_tick_slow);
    assert_eq!(m.sample_interval(), TimeSpan::from_millis(1000));
    assert_eq!(m.write_interval(), TimeSpan::from_millis(5000));
    assert!(m.writer.is_empty());
}

#[test]
fn locked_desktop_slows_sampling_tenfold() {
    let mut m = Moonwatcher::new(timed(1000, 5000));
    let restart = m.on_sample(Ok(ActiveWindowEventResult::DesktopLocked));
    assert_eq!(restart, Some(TimeSpan::from_millis(10_000)));
    assert!(m.sample_tick_slow);
    assert_eq!(m.sample_interval(), TimeSpan::from_millis(10_000));
    assert_eq!(m.on_sample(Ok(ActiveWindowEventResult::DesktopLocked)), None);
    assert_eq!(m.sample_interval(), TimeSpan::from_millis(10_000));
}

#[test]
fn failing_probe_slows_sampling_tenfold() {
    let mut m = Moonwatcher::new(timed(1500, 5000));
    assert_eq!(m.on_sample(Err(ProbeError::NoActiveWindow)), Some(TimeSpan::from_millis(15_000)));
    assert_eq!(m.on_sample(Err(ProbeError::NoProcessPath)), None);
    assert_eq!(m.sample_interval(), TimeSpan::from_millis(15_000));
    assert!(m.writer.is_empty());
}

#[test]
fn sample_brings_the_usual_pace_back() {
    let mut m = Moonwatcher::new(timed(1000, 5000));
    m.on_sample(Err(ProbeError::NoActiveWindow));
    let restart = m.on_sample(window("Editor", "/usr/bin/code"));
    assert_eq!(restart, Some(TimeSpan::from_millis(1000)));
    assert!(!m.sample_tick_slow);
    assert_eq!(m.sample_interval(), TimeSpan::from_millis(1000));
    assert_eq!(m.on_sample(window("Editor", "/usr/bin/code")), None);
    assert_eq!(m.writer.len(), 2);
}

#[test]
fn ignored_sample_never_reaches_the_writer() {
    let mut m = Moonwatcher::new(timed(1000, 5000));
    m.on_sample(Err(ProbeError::NoActiveWindow));
    let restart = m.on_sample(window("Lock screen", "/usr/bin/code"));
    assert_eq!(restart, Some(TimeSpan::from_millis(1000)));
    assert!(m.writer.is_empty());
    assert!(m.on_write_tick().is_none());
}

#[test]
fn five_samples_of_work_give_five_tagged_records() {
    let mut m = Moonwatcher::new(timed(1000, 5000));
    for _ in 0..5 {
        assert_eq!(m.on_sample(window("Editor", "/usr/bin/code")), None);
    }
    let file = m.on_write_tick().unwrap();
    assert_eq!(file.dir, "out");
    assert_eq!(file.lines.len(), 5);
    for line in &file.lines {
        let read = json::parse(line).unwrap();
        assert_eq!(read["tags"].len(), 1);
        assert_eq!(read["tags"][0].as_str(), Some("work"));
    }
    m.on_write_done(true);
    assert!(m.writer.is_empty());
    assert!(m.on_write_tick().is_none());
}

#[test]
fn failed_write_is_tried_again_with_everything() {
    let mut m = Moonwatcher::new(timed(1000, 5000));
    m.on_sample(window("one", "/bin/a"));
    m.on_sample(window("two", "/bin/b"));
    assert_eq!(m.on_write_tick().unwrap().lines.len(), 2);
    m.on_write_done(false);
    m.on_sample(window("three", "/bin/c"));
    let file = m.on_write_tick().unwrap();
    let paths: Vec<String> = file
        .lines
        .iter()
        .map(|line| json::parse(line).unwrap()["process_path"].as_str().unwrap().to_string())
        .collect();
    assert_eq!(paths, vec!["/bin/c", "/bin/b", "/bin/a"]);
    m.on_write_done(true);
    assert!(m.on_write_tick().is_none());
}

#[test]
fn reload_that_failed_changes_nothing() {
    let mut m = Moonwatcher::new(timed(1000, 5000));
    m.on_sample(window("one", "/bin/a"));
    m.on_sample(Err(ProbeError::NoActiveWindow));
    assert_eq!(m.on_reload(None), None);
    assert!(m.sample_tick_slow);
    assert_eq!(m.sample_interval(), TimeSpan::from_millis(10_000));
    assert_eq!(m.write_interval(), TimeSpan::from_millis(5000));
    assert_eq!(m.writer.len(), 1);
}

#[test]
fn reload_takes_the_new_times_and_the_usual_pace() {
    let mut m = Moonwatcher::new(timed(1000, 5000));
    m.on_sample(window("one", "/bin/a"));
    m.on_sample(Err(ProbeError::NoActiveWindow));
    assert_eq!(m.on_reload(None), None);
    let restart = m.on_reload(Some(timed(2000, 7000)));
    assert_eq!(
        restart,
        Some(Timers {
            sample_every: TimeSpan::from_millis(2000),
            write_every: TimeSpan::from_millis(7000)
        })
    );
    assert!(!m.sample_tick_slow);
    assert_eq!(m.sample_interval(), TimeSpan::from_millis(2000));
    assert_eq!(m.write_interval(), TimeSpan::from_millis(7000));
    assert_eq!(m.writer.len(), 1);
    assert_eq!(m.on_sample(Ok(ActiveWindowEventResult::DesktopLocked)), Some(TimeSpan::from_millis(20_000)));
}

#[test]
fn signals_of_the_system_are_told_apart() {
    assert_eq!(MoonwatcherSignal::from_os_signal(1, 1), MoonwatcherSignal::ReloadConfig);
    assert_eq!(MoonwatcherSignal::from_os_signal(15, 1), MoonwatcherSignal::Terminate);
    assert_eq!(MoonwatcherSignal::from_os_signal(2, 1), MoonwatcherSignal::Terminate);
}

#[test]
fn reload_signal_asks_for_the_configuration() {
    let m = Moonwatcher::new(timed(1000, 5000));
    assert!(matches!(m.on_signal(MoonwatcherSignal::ReloadConfig), SignalAction::ReloadConfig));
}

#[test]
fn terminate_signal_asks_for_a_last_write() {
    let mut m = Moonwatcher::new(timed(1000, 5000));
    match m.on_signal(MoonwatcherSignal::Terminate) {
        SignalAction::WriteAndStop { file } => assert!(file.is_none()),
        SignalAction::ReloadConfig => panic!("a terminate signal stops the recorder"),
    }
    m.on_sample(window("one", "/bin/a"));
    match m.on_signal(MoonwatcherSignal::Terminate) {
        SignalAction::WriteAndStop { file } => assert_eq!(file.unwrap().lines.len(), 1),
        SignalAction::ReloadConfig => panic!("a terminate signal stops the recorder"),
    }
}

#[test]
fn longest_interval_can_still_be_slowed() {
    let mut config = timed(1, 1);
    config.sample_every = TimeSpan { nanos: u64::MAX / 10 };
    assert!(config.is_valid());
    let mut m = Moonwatcher::new(config);
    assert_eq!(
        m.on_sample(Err(ProbeError::NotAvailable)),
        Some(TimeSpan { nanos: u64::MAX / 10 * 10 })
    );
}
