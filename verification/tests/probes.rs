use moonwatch_rs::probe::{
    get_window_event, title_or_empty, ActiveWindowEventResult, Desktop, DesktopAnswer, ProbeError,
    Window,
};
use moonwatch_rs::span::TimeSpan;

struct FakeWindow {
    title: Result<String, ProbeError>,
    path: Result<String, ProbeError>,
}

impl Window for FakeWindow {
    fn get_title(&self) -> Result<String, ProbeError> {
        self.title.clone()
    }

    fn get_process_id(&self) -> Result<u64, ProbeError> {
        Ok(1)
    }

    fn get_process_path(&self) -> Result<String, ProbeError> {
        self.path.clone()
    }
}

struct FakeDesktop {
    locked: bool,
    window: Option<(Result<String, ProbeError>, Result<String, ProbeError>)>,
}

impl Desktop for FakeDesktop {
    fn implementation_name(&self) -> &'static str {
        "FakeDesktop"
    }

    fn is_screen_locked(&self) -> bool {
        self.locked
    }

    fn get_idle_duration(&self) -> TimeSpan {
        TimeSpan::from_millis(1234)
    }

    fn get_active_window(&self) -> Result<Box<dyn Window>, ProbeError> {
        match &self.window {
            Some((title, path)) => Ok(Box::new(FakeWindow { title: title.clone(), path: path.clone() })),
            None => Err(ProbeError::NoActiveWindow),
        }
    }
}

#[test]
fn locked_desktop_is_reported_as_locked() {
    let desktop = FakeDesktop { locked: true, window: None };
    assert!(matches!(
        get_window_event(&desktop, TimeSpan::from_millis(1000)),
        Ok(ActiveWindowEventResult::DesktopLocked)
    ));
}

#[test]
fn desktop_without_a_window_gives_no_sample() {
    let desktop = FakeDesktop { locked: false, window: None };
    assert_eq!(
        get_window_event(&desktop, TimeSpan::from_millis(1000)).unwrap_err(),
        ProbeError::NoActiveWindow
    );
}

#[test]
fn window_without_a_path_gives_no_sample() {
    let desktop = FakeDesktop {
        locked: false,
        window: Some((Ok("title".to_string()), Err(ProbeError::NoProcessPath))),
    };
    assert_eq!(
        get_window_event(&desktop, TimeSpan::from_millis(1000)).unwrap_err(),
        ProbeError::NoProcessPath
    );
}

#[test]
fn window_is_sampled_with_what_the_desktop_answers() {
    let desktop = FakeDesktop {
        locked: false,
        window: Some((Ok("Editor".to_string()), Ok("/usr/bin/code".to_string()))),
    };
    match get_window_event(&desktop, TimeSpan::from_millis(1000)).unwrap() {
        ActiveWindowEventResult::Window { e } => {
            assert_eq!(e.window_title, "Editor");
            assert_eq!(e.process_path, "/usr/bin/code");
            assert_eq!(e.idle_for, TimeSpan::from_millis(1234));
            assert_eq!(e.duration, TimeSpan::from_millis(1000));
            assert!(e.tags.is_empty());
            assert!(!e.anonymize);
        }
        ActiveWindowEventResult::DesktopLocked => panic!("the desktop is not locked"),
    }
}

#[test]
fn window_without_a_title_is_sampled_with_an_empty_one() {
    let desktop = FakeDesktop {
        locked: false,
        window: Some((Err(ProbeError::NoTitle), Ok("/usr/bin/code".to_string()))),
    };
    match get_window_event(&desktop, TimeSpan::from_millis(500)).unwrap() {
        ActiveWindowEventResult::Window { e } => {
            assert_eq!(e.window_title, "");
            assert_eq!(e.process_path, "/usr/bin/code");
        }
        ActiveWindowEventResult::DesktopLocked => panic!("the desktop is not locked"),
    }
    assert_eq!(title_or_empty(Err(ProbeError::NoTitle)), "");
    assert_eq!(title_or_empty(Ok("t".to_string())), "t");
}

#[test]
fn availability_is_taken_for_granted_unless_checked() {
    let desktop = FakeDesktop { locked: false, window: None };
    assert_eq!(desktop.check_implementation_available(), Ok(()));
    assert_eq!(desktop.implementation_name(), "FakeDesktop");
}

#[test]
fn locked_answer_comes_to_a_locked_desktop() {
    assert!(matches!(
        DesktopAnswer::Locked.into_event(TimeSpan::from_millis(1000)),
        Ok(ActiveWindowEventResult::DesktopLocked)
    ));
}

#[test]
fn answer_without_window_or_path_hands_the_error_on() {
    let none = DesktopAnswer::NoWindow { error: ProbeError::NoActiveWindow };
    assert_eq!(none.into_event(TimeSpan::from_millis(1000)).unwrap_err(), ProbeError::NoActiveWindow);
    let gone = DesktopAnswer::NoProcessPath { error: ProbeError::NoProcessId };
    assert_eq!(gone.into_event(TimeSpan::from_millis(1000)).unwrap_err(), ProbeError::NoProcessId);
}

#[test]
fn answer_with_a_window_comes_to_a_sample_of_it() {
    let answer = DesktopAnswer::Window {
        idle_for: TimeSpan::from_millis(250),
        process_path: "/usr/bin/code".to_string(),
        title: Ok("Editor".to_string()),
    };
    match answer.into_event(TimeSpan::from_millis(2000)).unwrap() {
        ActiveWindowEventResult::Window { e } => {
            assert_eq!(e.idle_for, TimeSpan::from_millis(250));
            assert_eq!(e.duration, TimeSpan::from_millis(2000));
            assert_eq!(e.process_path, "/usr/bin/code");
            assert_eq!(e.window_title, "Editor");
            assert!(e.tags.is_empty());
            assert!(!e.anonymize);
        }
        ActiveWindowEventResult::DesktopLocked => panic!("the desktop is not locked"),
    }
    let untitled = DesktopAnswer::Window {
        idle_for: TimeSpan::from_millis(0),
        process_path: "/usr/bin/code".to_string(),
        title: Err(ProbeError::NoTitle),
    };
    match untitled.into_event(TimeSpan::from_millis(2000)).unwrap() {
        ActiveWindowEventResult::Window { e } => assert_eq!(e.window_title, ""),
        ActiveWindowEventResult::DesktopLocked => panic!("the desktop is not locked"),
    }
}
