//! The sampling schedule: what each tick and each signal does to the state
//! of the recorder.
//!
//! The recorder samples at the configured pace while samples come in, and ten
//! times slower while the desktop is locked or gives no answer. Waiting for
//! ticks and signals, looking at the desktop, reading the configuration and
//! writing files are the caller's part; every decision is taken here.

use crate::config::{Config, ConfigModel};
use crate::event::EventModel;
use crate::probe::{get_window_event, ActiveWindowEventResult, Desktop, ProbeError};
use crate::rules::{any_matches, classified, classify};
use crate::span::TimeSpan;
use crate::writer::{
    lemma_retry_writes_everything, lines_of, spec_output_file_name, MoonwatcherWriter, OutputFile,
};
use vstd::prelude::*;

verus! {

/// A signal from outside the recorder.
#[derive(Debug, Clone, Copy, PartialEq, Eq, Structural)]
pub enum MoonwatcherSignal {
    ReloadConfig,
    Terminate,
}

impl MoonwatcherSignal {
    /// The signal that a signal of the operating system stands for: the one
    /// numbered `hangup` asks for the configuration to be read anew, and every
    /// other one that is listened for asks the recorder to stop.
    pub fn from_os_signal(signal: i32, hangup: i32) -> (s: MoonwatcherSignal)
        ensures
            s == if signal == hangup {
                MoonwatcherSignal::ReloadConfig
            } else {
                MoonwatcherSignal::Terminate
            },
    {
        if signal == hangup {
            MoonwatcherSignal::ReloadConfig
        } else {
            MoonwatcherSignal::Terminate
        }
    }
}

/// What a signal asks of the caller.
#[derive(Debug)]
pub enum SignalAction {
    /// Read the configuration anew and hand the outcome to
    /// [`Moonwatcher::on_reload`].
    ReloadConfig,
    /// Write the file, where there is one, and stop; a file that cannot be
    /// written does not keep the recorder from stopping.
    WriteAndStop { file: Option<OutputFile> },
}

/// The state of the recorder between two events.
#[derive(Debug)]
pub struct Moonwatcher {
    /// The configuration in force.
    pub config: Config,
    /// Whether samples are taken at the slow pace.
    pub sample_tick_slow: bool,
    /// The samples that wait to be written.
    pub writer: MoonwatcherWriter,
}

/// The mathematical form of a [`Moonwatcher`].
pub struct MoonwatcherModel {
    pub config: ConfigModel,
    pub slow: bool,
    pub pending: Seq<EventModel>,
}

impl View for Moonwatcher {
    type V = MoonwatcherModel;

    open spec fn view(&self) -> MoonwatcherModel {
        MoonwatcherModel { config: self.config@, slow: self.sample_tick_slow, pending: self.writer@ }
    }
}

/// Ten times `span`.
pub open spec fn tenfold(span: TimeSpan) -> TimeSpan {
    TimeSpan { nanos: (10 * span.nanos) as u64 }
}

/// The sample that a look at the desktop gave: none where the desktop was
/// locked or gave no answer.
pub open spec fn sample_of(res: Result<ActiveWindowEventResult, ProbeError>) -> Option<EventModel> {
    match res {
        Ok(found) => found.event(),
        Err(_) => None,
    }
}

/// The view of an optional configuration.
pub open spec fn optional_config(c: Option<Config>) -> Option<ConfigModel> {
    match c {
        Some(c) => Some(c@),
        None => None,
    }
}

impl MoonwatcherModel {
    /// The configuration in force is well formed.
    pub open spec fn wf(self) -> bool {
        self.config.wf()
    }

    /// The state that the recorder starts in: the usual pace, nothing waiting.
    pub open spec fn start(config: ConfigModel) -> MoonwatcherModel {
        MoonwatcherModel { config, slow: false, pending: Seq::empty() }
    }

    /// The time until the next sample.
    pub open spec fn sample_interval(self) -> TimeSpan {
        if self.slow {
            tenfold(self.config.sample_every)
        } else {
            self.config.sample_every
        }
    }

    /// The state after a look at the desktop. Without a sample the pace is
    /// slow. With one the pace is the usual one, and the sample waits to be
    /// written unless the rules drop it.
    pub open spec fn after_sample(self, sample: Option<EventModel>) -> MoonwatcherModel {
        match sample {
            None => MoonwatcherModel { slow: true, ..self },
            Some(e) => MoonwatcherModel {
                slow: false,
                pending: match classified(self.config, e) {
                    Some(kept) => self.pending.push(kept),
                    None => self.pending,
                },
                ..self
            },
        }
    }

    /// The state after an attempt to read the configuration anew: a new
    /// configuration takes the place of the old one and the pace is the usual
    /// one; without one nothing changes. The samples that wait stay.
    pub open spec fn after_reload(self, loaded: Option<ConfigModel>) -> MoonwatcherModel {
        match loaded {
            Some(config) => MoonwatcherModel { config, slow: false, pending: self.pending },
            None => self,
        }
    }

    /// The state after an attempt to write the samples that wait.
    pub open spec fn after_write(self, succeeded: bool) -> MoonwatcherModel {
        if succeeded {
            MoonwatcherModel { pending: Seq::empty(), ..self }
        } else {
            self
        }
    }
}

/// The timers to start anew after the configuration was read.
#[derive(Debug, Clone, Copy, PartialEq, Eq, Structural)]
pub struct Timers {
    /// The time between samples.
    pub sample_every: TimeSpan,
    /// The time between writes.
    pub write_every: TimeSpan,
}

impl Moonwatcher {
    /// The configuration in force is well formed.
    pub open spec fn wf(&self) -> bool {
        self@.wf()
    }

    /// A recorder that starts with `config`.
    pub fn new(config: Config) -> (m: Moonwatcher)
        requires
            config.wf(),
        ensures
            m@ == MoonwatcherModel::start(config@),
            m.wf(),
    {
        Moonwatcher { config, sample_tick_slow: false, writer: MoonwatcherWriter::new() }
    }

    /// The time until the next sample: the configured time at the usual pace,
    /// ten times as long at the slow pace.
    pub fn sample_interval(&self) -> (span: TimeSpan)
        requires
            self.wf(),
        ensures
            span == self@.sample_interval(),
            span.nanos == if self@.slow {
                10 * self@.config.sample_every.nanos
            } else {
                self@.config.sample_every.nanos as int
            },
    {
        if self.sample_tick_slow {
            TimeSpan { nanos: 10 * self.config.sample_every.nanos }
        } else {
            self.config.sample_every
        }
    }

    /// The time until the next write.
    pub fn write_interval(&self) -> (span: TimeSpan)
        ensures
            span == self@.config.write_every,
    {
        self.config.write_every
    }

    /// Takes in what a look at the desktop gave, at a tick of the sample
    /// timer. Returns the time until the next sample where the pace changed,
    /// for the sample timer to be started anew, and nothing where it did not.
    pub fn on_sample(&mut self, res: Result<ActiveWindowEventResult, ProbeError>) -> (restart:
        Option<TimeSpan>)
        requires
            old(self).wf(),
        ensures
            final(self)@ == old(self)@.after_sample(sample_of(res)),
            final(self).wf(),
            restart == if final(self)@.slow != old(self)@.slow {
                Some(final(self)@.sample_interval())
            } else {
                None
            },
    {
        let was_slow = self.sample_tick_slow;
        match res {
            Ok(ActiveWindowEventResult::Window { e }) => {
                self.sample_tick_slow = false;
                match classify(&self.config, e) {
                    Some(kept) => {
                        self.writer.push(kept);
                    },
                    None => {},
                }
            },
            _ => {
                self.sample_tick_slow = true;
            },
        }
        if self.sample_tick_slow != was_slow {
            Some(self.sample_interval())
        } else {
            None
        }
    }

    /// Takes one look at the desktop, at a tick of the sample timer, and takes
    /// in what it gave, as [`Moonwatcher::on_sample`] does. A sample is taken
    /// to be as long as the configured time between samples, at either pace.
    ///
    /// What the desktop answers is up to the implementation at hand, so this
    /// says what holds of every answer.
    pub fn on_sample_tick(&mut self, desktop: &dyn Desktop) -> (restart: Option<TimeSpan>)
        requires
            old(self).wf(),
        ensures
            exists|sample: Option<EventModel>|
                {
                    &&& final(self)@ == #[trigger] old(self)@.after_sample(sample)
                    &&& sample matches Some(e) ==> e.duration == old(self)@.config.sample_every
                        && e.tags.len() == 0 && !e.anonymize
                },
            final(self).wf(),
            restart == if final(self)@.slow != old(self)@.slow {
                Some(final(self)@.sample_interval())
            } else {
                None
            },
    {
        let res = get_window_event(desktop, self.config.sample_every);
        let ghost sample = sample_of(res);
        let restart = self.on_sample(res);
        proof {
            assert(self@ == old(self)@.after_sample(sample));
        }
        restart
    }

    /// The file to write at a tick of the write timer, and at the end: none
    /// where no sample waits. The samples wait on until
    /// [`Moonwatcher::on_write_done`] is told that the file was written.
    pub fn on_write_tick(&self) -> (r: Option<OutputFile>)
        ensures
            r is None <==> self@.pending.len() == 0,
            r matches Some(f) ==> {
                &&& f@.dir == self@.config.output_dir
                &&& f@.lines == lines_of(self@.pending)
                &&& exists|hostname: Seq<char>, username: Seq<char>, unix_seconds: i64|
                    f@.name == #[trigger] spec_output_file_name(hostname, username, unix_seconds)
            },
    {
        self.writer.write(&self.config)
    }

    /// What is to be done about a signal.
    pub fn on_signal(&self, signal: MoonwatcherSignal) -> (action: SignalAction)
        ensures
            signal == MoonwatcherSignal::ReloadConfig <==> action is ReloadConfig,
            action matches SignalAction::WriteAndStop { file } ==> {
                &&& file is None <==> self@.pending.len() == 0
                &&& file matches Some(f) ==> {
                    &&& f@.dir == self@.config.output_dir
                    &&& f@.lines == lines_of(self@.pending)
                    &&& exists|hostname: Seq<char>, username: Seq<char>, unix_seconds: i64|
                        f@.name == #[trigger] spec_output_file_name(
                            hostname,
                            username,
                            unix_seconds,
                        )
                }
            },
    {
        match signal {
            MoonwatcherSignal::ReloadConfig => SignalAction::ReloadConfig,
            MoonwatcherSignal::Terminate => SignalAction::WriteAndStop { file: self.on_write_tick() },
        }
    }

    /// Takes note of how writing the file went. After a failure the samples
    /// wait for the next tick of the write timer.
    pub fn on_write_done(&mut self, succeeded: bool)
        ensures
            final(self)@ == old(self)@.after_write(succeeded),
    {
        self.writer.finish_write(succeeded);
    }

    /// Takes in the outcome of reading the configuration anew, after a signal
    /// to do so: the new configuration, or nothing where it could not be had.
    /// Returns the times for both timers to be started anew with, and nothing
    /// where the old configuration stays in force.
    pub fn on_reload(&mut self, loaded: Option<Config>) -> (restart: Option<Timers>)
        requires
            loaded matches Some(c) ==> c.wf(),
            old(self).wf(),
        ensures
            final(self)@ == old(self)@.after_reload(optional_config(loaded)),
            final(self).wf(),
            restart == match loaded {
                Some(c) => Some(
                    Timers { sample_every: c@.sample_every, write_every: c@.write_every },
                ),
                None => None,
            },
    {
        match loaded {
            Some(config) => {
                let timers = Timers {
                    sample_every: config.sample_every,
                    write_every: config.write_every,
                };
                self.config = config;
                self.sample_tick_slow = false;
                Some(timers)
            },
            None => None,
        }
    }
}

/// After a look at the desktop that gave no sample, the next sample is due
/// after ten times the configured time; after one that gave a sample, after
/// the configured time.
pub proof fn lemma_pace_follows_sample(state: MoonwatcherModel, sample: Option<EventModel>)
    requires
        state.wf(),
    ensures
        sample is None ==> state.after_sample(sample).sample_interval().nanos == 10
            * state.config.sample_every.nanos,
        sample is Some ==> state.after_sample(sample).sample_interval()
            == state.config.sample_every,
{
}

/// A sample that a matcher of `ignore` passes never waits to be written.
pub proof fn lemma_ignored_sample_is_dropped(state: MoonwatcherModel, e: EventModel)
    requires
        any_matches(state.config.ignore, e),
    ensures
        classified(state.config, e) is None,
        state.after_sample(Some(e)).pending == state.pending,
{
}

/// A configuration that could not be read changes nothing: the time until the
/// next sample stays. One that could be read sets the time to its own.
pub proof fn lemma_reload(state: MoonwatcherModel, loaded: Option<ConfigModel>)
    ensures
        loaded is None ==> state.after_reload(loaded) == state,
        loaded matches Some(c) ==> state.after_reload(loaded).sample_interval() == c.sample_every
            && state.after_reload(loaded).pending == state.pending,
{
}

/// A write that failed loses nothing: the samples wait as before, and the
/// next file holds one line for each of them and for each sample taken since,
/// those taken since first.
pub proof fn lemma_failed_write_loses_nothing(
    state: MoonwatcherModel,
    taken_since: Seq<EventModel>,
)
    ensures
        state.after_write(false).pending == state.pending,
        lines_of(state.after_write(false).pending + taken_since) == lines_of(taken_since)
            + lines_of(state.pending),
        lines_of(state.after_write(false).pending + taken_since).len() == state.pending.len()
            + taken_since.len(),
{
    lemma_retry_writes_everything(state.pending, taken_since);
}

} // verus!
