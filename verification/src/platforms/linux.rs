//! A GNOME desktop under X, asked through `gnome-screensaver-command`,
//! `xprintidle` and `xdotool`.

use crate::probe::ProbeError;
use crate::span::{spec_from_millis, TimeSpan};
use crate::text::{
    contains_bytes, occurs_in, parse_decimal, spec_parse_decimal, spec_trim, trimmed,
};
use vstd::prelude::*;
use vstd::utf8::encode_utf8;

verus! {

/// The desktop.
#[derive(Debug, Clone, Copy, PartialEq, Eq, Structural)]
pub struct GnomeDesktop;

/// A window of the X server.
#[derive(Debug, Clone, Copy, PartialEq, Eq, Structural)]
pub struct LinuxXWindow {
    window_id: u64,
}

impl View for LinuxXWindow {
    type V = u64;

    closed spec fn view(&self) -> u64 {
        self.window_id
    }
}

/// Whether the screen saver says that it is active: the phrase `is active`
/// stands in what it printed. Without an answer the screen counts as open.
pub open spec fn spec_screen_locked(answer: Option<Seq<u8>>) -> bool {
    answer matches Some(printed) && occurs_in(encode_utf8("is active"@), printed)
}

/// The time without input that was printed, in milliseconds. Without an
/// answer, and with one that is no number, no time has passed.
pub open spec fn spec_idle_duration(answer: Option<Seq<u8>>) -> TimeSpan {
    match answer {
        Some(printed) => match spec_parse_decimal(printed) {
            Some(millis) => spec_from_millis(millis),
            None => TimeSpan { nanos: 0 },
        },
        None => TimeSpan { nanos: 0 },
    }
}

/// The bytes of an optional slice.
pub open spec fn optional_bytes(answer: Option<&[u8]>) -> Option<Seq<u8>> {
    match answer {
        Some(printed) => Some(printed@),
        None => None,
    }
}

impl GnomeDesktop {
    /// The name that the desktop is reported under.
    pub fn implementation_name(&self) -> (name: &'static str)
        ensures
            name@ == "GnomeDesktop"@,
    {
        "GnomeDesktop"
    }

    /// The programs that the desktop is asked through; all of them must be
    /// there before sampling starts.
    pub fn required_programs(&self) -> (programs: Vec<&'static str>)
        ensures
            programs@.len() == 3,
            programs@[0]@ == "gnome-screensaver-command"@,
            programs@[1]@ == "xprintidle"@,
            programs@[2]@ == "xdotool"@,
    {
        let mut programs: Vec<&'static str> = Vec::new();
        programs.push("gnome-screensaver-command");
        programs.push("xprintidle");
        programs.push("xdotool");
        programs
    }

    /// Whether the screen is locked, from what `gnome-screensaver-command -q`
    /// printed; `None` stands for a command that could not be run.
    pub fn is_screen_locked(&self, answer: Option<&[u8]>) -> (locked: bool)
        ensures
            locked == spec_screen_locked(optional_bytes(answer)),
    {
        match answer {
            Some(printed) => contains_bytes(printed, "is active".as_bytes()),
            None => false,
        }
    }

    /// For how long the user gave no input, from what `xprintidle` printed;
    /// `None` stands for a command that could not be run.
    pub fn get_idle_duration(&self, answer: Option<&[u8]>) -> (idle: TimeSpan)
        ensures
            idle == spec_idle_duration(optional_bytes(answer)),
    {
        match answer {
            Some(printed) => match parse_decimal(printed) {
                Some(millis) => TimeSpan::from_millis(millis),
                None => TimeSpan { nanos: 0 },
            },
            None => TimeSpan { nanos: 0 },
        }
    }

    /// The window in front, from the number that `xdotool getactivewindow`
    /// printed. Anything but a number means that no window is in front.
    pub fn get_active_window(&self, printed: &[u8]) -> (r: Result<LinuxXWindow, ProbeError>)
        ensures
            r matches Ok(w) ==> spec_parse_decimal(printed@) == Some(w@),
            r matches Err(e) ==> spec_parse_decimal(printed@) is None && e
                == ProbeError::NoActiveWindow,
    {
        match parse_decimal(printed) {
            Some(window_id) => Ok(LinuxXWindow { window_id }),
            None => Err(ProbeError::NoActiveWindow),
        }
    }
}

impl LinuxXWindow {
    /// The number that the X server knows the window by.
    pub fn window_id(&self) -> (id: u64)
        ensures
            id == self@,
    {
        self.window_id
    }

    /// The title of the window in bytes, from what `xdotool getwindowname`
    /// printed: the blanks around it are taken off.
    pub fn get_title(&self, printed: &[u8]) -> (title: Vec<u8>)
        ensures
            title@ == spec_trim(printed@),
    {
        trimmed(printed)
    }

    /// The process that owns the window, from the number that
    /// `xdotool getwindowpid` printed.
    pub fn get_process_id(&self, printed: &[u8]) -> (r: Result<u64, ProbeError>)
        ensures
            r == match spec_parse_decimal(printed@) {
                Some(pid) => Ok::<u64, ProbeError>(pid),
                None => Err(ProbeError::NoProcessId),
            },
    {
        match parse_decimal(printed) {
            Some(pid) => Ok(pid),
            None => Err(ProbeError::NoProcessId),
        }
    }
}

} // verus!
