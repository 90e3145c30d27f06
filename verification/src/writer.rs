//! The samples that wait to be written, and the file that takes them.
//!
//! The writer decides what is written and where; writing is left to the
//! caller, who reports back whether it went well. Until then the samples stay,
//! so that a write that failed can be tried again with all of them.

use crate::config::Config;
use crate::digest::{append_bytes, hex_text, sha1, sha1_digest, to_hex};
use crate::event::{texts, ActiveWindowEvent, EventModel};
use crate::host::{current_unix_seconds, host_name, user_name};
use vstd::bytes::{spec_u64_to_le_bytes, u64_to_le_bytes};
use vstd::prelude::*;
use vstd::utf8::encode_utf8;

verus! {

/// The mathematical forms of a sequence of samples.
pub open spec fn event_models(v: Seq<ActiveWindowEvent>) -> Seq<EventModel> {
    Seq::new(v.len(), |i: int| v[i]@)
}

/// The lines for the samples that wait: the record of each, the one taken
/// last first.
pub open spec fn lines_of(pending: Seq<EventModel>) -> Seq<Seq<char>> {
    Seq::new(pending.len(), |i: int| pending[pending.len() - 1 - i].to_line())
}

/// The bytes that the name of a file is drawn from: the host's name, the
/// user's name, the time in seconds as eight bytes with the lowest first, and
/// the word `moonwatcher`.
pub open spec fn file_name_seed(hostname: Seq<char>, username: Seq<char>, unix_seconds: i64) -> Seq<
    u8,
> {
    encode_utf8(hostname) + encode_utf8(username) + spec_u64_to_le_bytes(unix_seconds as u64)
        + encode_utf8("moonwatcher"@)
}

/// The name of the file written at `unix_seconds` for this host and user: the
/// SHA-1 digest of [`file_name_seed`] in hexadecimal, with `.jsonl` behind it.
pub open spec fn spec_output_file_name(
    hostname: Seq<char>,
    username: Seq<char>,
    unix_seconds: i64,
) -> Seq<char> {
    hex_text(sha1_digest(file_name_seed(hostname, username, unix_seconds))) + ".jsonl"@
}

/// The name of the file written at `unix_seconds` for this host and user.
pub fn output_file_name(hostname: &str, username: &str, unix_seconds: i64) -> (name: String)
    ensures
        name@ == spec_output_file_name(hostname@, username@, unix_seconds),
{
    let mut seed: Vec<u8> = Vec::new();
    append_bytes(&mut seed, hostname.as_bytes());
    append_bytes(&mut seed, username.as_bytes());
    let time = u64_to_le_bytes(unix_seconds as u64);
    append_bytes(&mut seed, time.as_slice());
    append_bytes(&mut seed, "moonwatcher".as_bytes());
    assert(seed@ =~= file_name_seed(hostname@, username@, unix_seconds));
    let digest = sha1(seed.as_slice());
    let mut name = to_hex(digest.as_slice());
    name.append(".jsonl");
    name
}

/// A file to be written: one record on each line.
#[derive(Debug)]
pub struct OutputFile {
    /// The directory of the file; it is made where it is missing.
    pub dir: String,
    /// The name of the file in that directory.
    pub name: String,
    /// The lines of the file, each without its line feed.
    pub lines: Vec<String>,
}

/// The mathematical form of an [`OutputFile`].
pub struct OutputFileModel {
    pub dir: Seq<char>,
    pub name: Seq<char>,
    pub lines: Seq<Seq<char>>,
}

impl View for OutputFile {
    type V = OutputFileModel;

    open spec fn view(&self) -> OutputFileModel {
        OutputFileModel { dir: self.dir@, name: self.name@, lines: texts(self.lines@) }
    }
}

/// The file that takes the samples that wait: none where none waits.
pub open spec fn spec_output_file(
    pending: Seq<EventModel>,
    output_dir: Seq<char>,
    hostname: Seq<char>,
    username: Seq<char>,
    unix_seconds: i64,
) -> Option<OutputFileModel> {
    if pending.len() == 0 {
        None
    } else {
        Some(
            OutputFileModel {
                dir: output_dir,
                name: spec_output_file_name(hostname, username, unix_seconds),
                lines: lines_of(pending),
            },
        )
    }
}

/// The view of an optional file.
pub open spec fn optional_file(f: Option<OutputFile>) -> Option<OutputFileModel> {
    match f {
        Some(f) => Some(f@),
        None => None,
    }
}

/// The samples that wait to be written, the one taken first in front.
#[derive(Debug)]
pub struct MoonwatcherWriter {
    pub events_to_write: Vec<ActiveWindowEvent>,
}

impl View for MoonwatcherWriter {
    type V = Seq<EventModel>;

    open spec fn view(&self) -> Seq<EventModel> {
        event_models(self.events_to_write@)
    }
}

impl MoonwatcherWriter {
    /// A writer with nothing to write.
    pub fn new() -> (w: MoonwatcherWriter)
        ensures
            w@ == Seq::<EventModel>::empty(),
    {
        let w = MoonwatcherWriter { events_to_write: Vec::new() };
        assert(w@ =~= Seq::empty());
        w
    }

    /// Takes a sample in, behind those that wait already.
    pub fn push(&mut self, e: ActiveWindowEvent)
        ensures
            final(self)@ == old(self)@.push(e@),
    {
        self.events_to_write.push(e);
        assert(self@ =~= old(self)@.push(e@));
    }

    /// How many samples wait.
    pub fn len(&self) -> (n: usize)
        ensures
            n == self@.len(),
    {
        self.events_to_write.len()
    }

    /// Whether no sample waits.
    pub fn is_empty(&self) -> (b: bool)
        ensures
            b == (self@.len() == 0),
    {
        self.events_to_write.len() == 0
    }

    /// The file that takes the samples that wait, written at `unix_seconds`
    /// on the host `hostname` by the user `username`. The samples stay with
    /// the writer.
    pub fn output_file(
        &self,
        config: &Config,
        hostname: &str,
        username: &str,
        unix_seconds: i64,
    ) -> (r: Option<OutputFile>)
        ensures
            optional_file(r) == spec_output_file(
                self@,
                config@.output_dir,
                hostname@,
                username@,
                unix_seconds,
            ),
    {
        let n = self.events_to_write.len();
        if n == 0 {
            return None;
        }
        let mut lines: Vec<String> = Vec::new();
        let mut i: usize = 0;
        while i < n
            invariant
                i <= n,
                n == self.events_to_write.len(),
                lines.len() == i,
                forall|j: int|
                    0 <= j < i ==> (#[trigger] lines[j])@ == self.events_to_write[n - 1
                        - j]@.to_line(),
            decreases n - i,
        {
            lines.push(self.events_to_write[n - 1 - i].to_line());
            i += 1;
        }
        assert(texts(lines@) =~= lines_of(self@));
        Some(
            OutputFile {
                dir: config.output_dir.clone(),
                name: output_file_name(hostname, username, unix_seconds),
                lines,
            },
        )
    }

    /// The file that takes the samples that wait, for this host and user and
    /// the time it is now; none where none waits. The samples stay with the
    /// writer until [`MoonwatcherWriter::finish_write`] is told that the file
    /// was written.
    pub fn write(&self, config: &Config) -> (r: Option<OutputFile>)
        ensures
            r is None <==> self@.len() == 0,
            r matches Some(f) ==> {
                &&& f@.dir == config@.output_dir
                &&& f@.lines == lines_of(self@)
                &&& exists|hostname: Seq<char>, username: Seq<char>, unix_seconds: i64|
                    f@.name == #[trigger] spec_output_file_name(hostname, username, unix_seconds)
            },
    {
        if self.is_empty() {
            return None;
        }
        let hostname = host_name();
        let username = user_name();
        let unix_seconds = current_unix_seconds();
        self.output_file(config, hostname.as_str(), username.as_str(), unix_seconds)
    }

    /// Takes note of how writing the file went: after a success nothing
    /// waits any more; after a failure everything waits as before.
    pub fn finish_write(&mut self, succeeded: bool)
        ensures
            final(self)@ == if succeeded {
                Seq::<EventModel>::empty()
            } else {
                old(self)@
            },
    {
        if succeeded {
            self.events_to_write.clear();
            assert(self@ =~= Seq::empty());
        }
    }
}

/// After a write that failed, the next file holds one line for each sample
/// that waited then and for each taken since, and none twice: the sample at
/// place `i` of those has its line at place `i` from the end.
pub proof fn lemma_retry_writes_everything(
    waiting: Seq<EventModel>,
    taken_since: Seq<EventModel>,
)
    ensures
        lines_of(waiting + taken_since).len() == waiting.len() + taken_since.len(),
        forall|i: int|
            0 <= i < waiting.len() ==> #[trigger] lines_of(waiting + taken_since)[waiting.len()
                + taken_since.len() - 1 - i] == waiting[i].to_line(),
        forall|i: int|
            0 <= i < taken_since.len() ==> #[trigger] lines_of(waiting + taken_since)[
                taken_since.len() - 1 - i] == taken_since[i].to_line(),
        lines_of(waiting + taken_since) == lines_of(taken_since) + lines_of(waiting),
{
    assert(lines_of(waiting + taken_since) =~= lines_of(taken_since) + lines_of(waiting));
}

} // verus!
