//! A Windows desktop, asked through the Win32 interface.

use crate::probe::ProbeError;
use crate::span::{spec_from_millis, TimeSpan};
use vstd::prelude::*;

verus! {

/// The desktop.
#[derive(Debug, Clone, Copy, PartialEq, Eq, Structural)]
pub struct WindowsDesktop;

/// A window, known by its handle.
#[derive(Debug, Clone, Copy, PartialEq, Eq, Structural)]
pub struct WindowsWindow {
    window_handle: isize,
}

impl View for WindowsWindow {
    type V = isize;

    closed spec fn view(&self) -> isize {
        self.window_handle
    }
}

/// The ticks from `earlier` to `now` on a counter of 32 bits that starts
/// again at zero once it is full.
pub open spec fn ticks_between(earlier: u32, now: u32) -> int {
    if now >= earlier {
        now - earlier
    } else {
        now - earlier + 0x1_0000_0000
    }
}

/// How many units of the buffer stand before the first zero: all of them
/// where there is no zero.
pub open spec fn spec_text_length(buffer: Seq<u16>) -> int
    decreases buffer.len(),
{
    if buffer.len() == 0 || buffer[0] == 0 {
        0
    } else {
        1 + spec_text_length(buffer.drop_first())
    }
}

proof fn lemma_text_length(buffer: Seq<u16>, n: int)
    requires
        0 <= n <= buffer.len(),
        forall|i: int| 0 <= i < n ==> buffer[i] != 0,
        n == buffer.len() || buffer[n] == 0,
    ensures
        spec_text_length(buffer) == n,
    decreases n,
{
    if n > 0 {
        let rest = buffer.drop_first();
        assert forall|i: int| 0 <= i < n - 1 implies rest[i] != 0 by {
            assert(rest[i] == buffer[i + 1]);
        }
        if n < buffer.len() {
            assert(rest[n - 1] == buffer[n]);
        }
        lemma_text_length(rest, n - 1);
    }
}

impl WindowsDesktop {
    /// The name that the desktop is reported under.
    pub fn implementation_name(&self) -> (name: &'static str)
        ensures
            name@ == "WindowsDesktop"@,
    {
        "WindowsDesktop"
    }

    /// Whether the screen is locked: the desktop of the thread could not be
    /// switched to. `None` stands for a thread whose desktop is not known, and
    /// then the screen counts as open.
    pub fn is_screen_locked(&self, switched: Option<bool>) -> (locked: bool)
        ensures
            locked == (switched == Some(false)),
    {
        match switched {
            Some(done) => !done,
            None => false,
        }
    }

    /// For how long the user gave no input: the ticks, which are
    /// milliseconds, from the last input to now. `None` stands for a time of
    /// the last input that is not known, and then no time has passed.
    pub fn get_idle_duration(&self, now: u32, last_input: Option<u32>) -> (idle: TimeSpan)
        ensures
            idle == match last_input {
                Some(earlier) => spec_from_millis(ticks_between(earlier, now) as u64),
                None => TimeSpan { nanos: 0 },
            },
    {
        match last_input {
            Some(earlier) => {
                if now >= earlier {
                    TimeSpan::from_millis((now - earlier) as u64)
                } else {
                    TimeSpan::from_millis((u32::MAX - earlier) as u64 + now as u64 + 1)
                }
            },
            None => TimeSpan { nanos: 0 },
        }
    }

    /// The window in front, from the handle that the system gave. The null
    /// handle means that no window is in front.
    pub fn get_active_window(&self, window_handle: isize) -> (r: Result<WindowsWindow, ProbeError>)
        ensures
            match r {
                Ok(w) => window_handle != 0 && w@ == window_handle,
                Err(e) => window_handle == 0 && e == ProbeError::NoActiveWindow,
            },
    {
        if window_handle == 0 {
            Err(ProbeError::NoActiveWindow)
        } else {
            Ok(WindowsWindow { window_handle })
        }
    }
}

impl WindowsWindow {
    /// The handle of the window.
    pub fn window_handle(&self) -> (handle: isize)
        ensures
            handle == self@,
    {
        self.window_handle
    }

    /// How many units of a buffer that the system filled make up the text:
    /// those before the first zero.
    pub fn text_length(buffer: &[u16]) -> (n: usize)
        ensures
            n == spec_text_length(buffer@),
            n <= buffer@.len(),
    {
        let mut n: usize = 0;
        while n < buffer.len() && buffer[n] != 0
            invariant
                n <= buffer.len(),
                forall|i: int| 0 <= i < n ==> buffer@[i] != 0,
            decreases buffer.len() - n,
        {
            n += 1;
        }
        proof {
            lemma_text_length(buffer@, n as int);
        }
        n
    }

    /// How many units of the buffer make up the title, where the system
    /// reports to have copied `copied` units: a window without a title, for
    /// which nothing is copied, has none to give.
    pub fn get_title(&self, buffer: &[u16], copied: i32) -> (r: Result<usize, ProbeError>)
        ensures
            r == if copied > 0 {
                Ok::<usize, ProbeError>(spec_text_length(buffer@) as usize)
            } else {
                Err(ProbeError::NoTitle)
            },
    {
        if copied > 0 {
            Ok(WindowsWindow::text_length(buffer))
        } else {
            Err(ProbeError::NoTitle)
        }
    }

    /// The process that owns the window, from the number that the system
    /// gave.
    pub fn get_process_id(&self, process_id: u32) -> (r: Result<u64, ProbeError>)
        ensures
            r == Ok::<u64, ProbeError>(process_id as u64),
    {
        Ok(process_id as u64)
    }
}

} // verus!
