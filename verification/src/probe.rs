//! What the desktop can be asked, and what one sample of it comes to.

use crate::event::{ActiveWindowEvent, EventModel};
use crate::span::TimeSpan;
use vstd::prelude::*;

verus! {

/// Why the desktop gave no answer.
#[derive(Debug, Clone, Copy, PartialEq, Eq, Structural)]
pub enum ProbeError {
    /// A program or an interface that the desktop is asked through is missing.
    NotAvailable,
    /// No window is in front.
    NoActiveWindow,
    /// The window has no title to give.
    NoTitle,
    /// The process that owns the window is not known.
    NoProcessId,
    /// The path of the program that owns the window is not known.
    NoProcessPath,
}

/// A window of the desktop.
pub trait Window {
    /// The title of the window.
    fn get_title(&self) -> Result<String, ProbeError>;

    /// The process that owns the window.
    fn get_process_id(&self) -> Result<u64, ProbeError>;

    /// The path of the program that the process runs. It may be gone by the
    /// time it is asked for; the window then gives no sample.
    fn get_process_path(&self) -> Result<String, ProbeError>;
}

/// The desktop that is sampled.
pub trait Desktop {
    /// The name that the desktop is reported under.
    fn implementation_name(&self) -> &'static str;

    /// Whether everything is there that the desktop is asked through. This is
    /// looked into once, before sampling starts. A desktop that says nothing
    /// of its own has nothing to look into, and all is well.
    fn check_implementation_available(&self) -> (r: Result<(), ProbeError>)
        default_ensures
            r == Ok::<(), ProbeError>(()),
    {
        Ok(())
    }

    /// Whether the screen is locked. A desktop that cannot tell says that it
    /// is not.
    fn is_screen_locked(&self) -> bool;

    /// For how long the user gave no input. A desktop that cannot tell says
    /// that no time has passed.
    fn get_idle_duration(&self) -> TimeSpan;

    /// The window in front.
    fn get_active_window(&self) -> Result<Box<dyn Window>, ProbeError>;
}

/// What a look at the desktop found.
#[derive(Debug)]
pub enum ActiveWindowEventResult {
    /// The screen is locked.
    DesktopLocked,
    /// A window is in front, and `e` is the sample of it.
    Window { e: ActiveWindowEvent },
}

impl ActiveWindowEventResult {
    /// The sample, where a window was found.
    pub open spec fn event(self) -> Option<EventModel> {
        match self {
            ActiveWindowEventResult::DesktopLocked => None,
            ActiveWindowEventResult::Window { e } => Some(e@),
        }
    }
}

/// The title that a sample is taken with: the one that the window gave, and
/// none where it gave none.
pub open spec fn title_text(title: Result<String, ProbeError>) -> Seq<char> {
    match title {
        Ok(s) => s@,
        Err(_) => Seq::<char>::empty(),
    }
}

/// The title that a sample is taken with: the one that the window gave, and
/// none where it gave none.
pub fn title_or_empty(title: Result<String, ProbeError>) -> (t: String)
    ensures
        t@ == title_text(title),
{
    match title {
        Ok(s) => s,
        Err(_) => String::new(),
    }
}

/// What the desktop answered to one look at it.
#[derive(Debug)]
pub enum DesktopAnswer {
    /// The screen is locked, and nothing more was asked.
    Locked,
    /// No window is in front.
    NoWindow { error: ProbeError },
    /// A window is in front, but the path of its program is not known.
    NoProcessPath { error: ProbeError },
    /// A window is in front. Its title may be missing.
    Window { idle_for: TimeSpan, process_path: String, title: Result<String, ProbeError> },
}

impl DesktopAnswer {
    /// What the answer comes to. A locked desktop is reported as such.
    /// Without a window, or without the path of its program, there is no
    /// sample, and the error is handed on. Else the window is sampled now, on
    /// this host and for this user: the sample is `duration` long, holds the
    /// idle time, the path and the title that were answered, an empty title
    /// where none was, has no tags yet and is not marked for anonymizing.
    pub fn into_event(self, duration: TimeSpan) -> (r: Result<ActiveWindowEventResult, ProbeError>)
        ensures
            match self {
                DesktopAnswer::Locked => r matches Ok(ActiveWindowEventResult::DesktopLocked),
                DesktopAnswer::NoWindow { error } => r matches Err(e) && e == error,
                DesktopAnswer::NoProcessPath { error } => r matches Err(e) && e == error,
                DesktopAnswer::Window { idle_for, process_path, title } => {
                    &&& r matches Ok(ActiveWindowEventResult::Window { e })
                    &&& e@ == EventModel::captured(
                        e@.time,
                        e@.hostname,
                        e@.username,
                        idle_for,
                        title_text(title),
                        process_path@,
                        duration,
                    )
                    &&& e.wf()
                },
            },
    {
        match self {
            DesktopAnswer::Locked => Ok(ActiveWindowEventResult::DesktopLocked),
            DesktopAnswer::NoWindow { error } => Err(error),
            DesktopAnswer::NoProcessPath { error } => Err(error),
            DesktopAnswer::Window { idle_for, process_path, title } => {
                let window_title = title_or_empty(title);
                let e = ActiveWindowEvent::new(idle_for, window_title, process_path, duration);
                Ok(ActiveWindowEventResult::Window { e })
            },
        }
    }
}

/// Takes one look at the desktop. A locked desktop is reported as such and
/// asked nothing more. Else the window in front is asked for the path of its
/// program and for its title; without a window or without the path there is
/// no sample, and a window without a title is sampled with an empty one.
///
/// What the desktop answers is up to the implementation at hand, so this says
/// only what holds of every sample: it is `duration` long, has no tags yet
/// and is not marked for anonymizing. What each answer comes to is said by
/// [`DesktopAnswer::into_event`], which the answers are handed to.
pub fn get_window_event(desktop: &dyn Desktop, duration: TimeSpan) -> (r: Result<
    ActiveWindowEventResult,
    ProbeError,
>)
    ensures
        r matches Ok(ActiveWindowEventResult::Window { e }) ==> {
            &&& e@ == EventModel::captured(
                e@.time,
                e@.hostname,
                e@.username,
                e@.idle_for,
                e@.window_title,
                e@.process_path,
                duration,
            )
            &&& e.wf()
        },
{
    let answer = if desktop.is_screen_locked() {
        DesktopAnswer::Locked
    } else {
        match desktop.get_active_window() {
            Err(error) => DesktopAnswer::NoWindow { error },
            Ok(window) => {
                let idle_for = desktop.get_idle_duration();
                match window.get_process_path() {
                    Err(error) => DesktopAnswer::NoProcessPath { error },
                    Ok(process_path) => DesktopAnswer::Window {
                        idle_for,
                        process_path,
                        title: window.get_title(),
                    },
                }
            },
        }
    };
    answer.into_event(duration)
}

} // verus!
