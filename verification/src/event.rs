//! One sample of desktop activity and the record written for it.

use crate::host::{current_time_rfc3339, host_name, user_name};
use crate::json_value::{
    dump_value, json_text, lemma_lookup_at, lemma_lookup_skip, Json, JsonModel, JsonNumber,
};
use crate::span::TimeSpan;
use vstd::prelude::*;

verus! {

/// The texts of a sequence of strings.
pub open spec fn texts(v: Seq<String>) -> Seq<Seq<char>> {
    Seq::new(v.len(), |i: int| v[i]@)
}

/// Whether no text occurs twice in `s`.
pub open spec fn distinct(s: Seq<Seq<char>>) -> bool {
    forall|i: int, j: int| 0 <= i < j < s.len() ==> s[i] != s[j]
}

/// One sample of what the user was doing.
#[derive(Debug, Clone, PartialEq, Eq)]
pub struct ActiveWindowEvent {
    /// When the sample was taken, as RFC 3339 text.
    pub time: String,
    /// How long ago the sample before this one was taken.
    pub duration: TimeSpan,
    pub hostname: String,
    pub username: String,
    /// For how long the user had given no input.
    pub idle_for: TimeSpan,
    pub window_title: String,
    /// The path of the program that owns the window.
    pub process_path: String,
    /// The tags given so far, in the order in which they were given.
    pub tags: Vec<String>,
    /// Whether the record must leave the path of the program out.
    pub anonymize: bool,
}

/// The mathematical form of an [`ActiveWindowEvent`].
pub struct EventModel {
    pub time: Seq<char>,
    pub duration: TimeSpan,
    pub hostname: Seq<char>,
    pub username: Seq<char>,
    pub idle_for: TimeSpan,
    pub window_title: Seq<char>,
    pub process_path: Seq<char>,
    pub tags: Seq<Seq<char>>,
    pub anonymize: bool,
}

impl View for ActiveWindowEvent {
    type V = EventModel;

    open spec fn view(&self) -> EventModel {
        EventModel {
            time: self.time@,
            duration: self.duration,
            hostname: self.hostname@,
            username: self.username@,
            idle_for: self.idle_for,
            window_title: self.window_title@,
            process_path: self.process_path@,
            tags: texts(self.tags@),
            anonymize: self.anonymize,
        }
    }
}

/// A whole number of seconds as a JSON number.
pub open spec fn seconds_number(span: TimeSpan) -> JsonModel {
    JsonModel::Number(
        JsonNumber { positive: true, mantissa: span.spec_whole_seconds() as u64, exponent: 0 },
    )
}

/// The tags as a JSON array of strings.
pub open spec fn tags_array(tags: Seq<Seq<char>>) -> JsonModel {
    JsonModel::Array(Seq::new(tags.len(), |i: int| JsonModel::String(tags[i])))
}

impl EventModel {
    /// Whether the tags are free of repetition.
    pub open spec fn wf(self) -> bool {
        distinct(self.tags)
    }

    /// The sample as taken: no tags yet, and nothing to leave out.
    pub open spec fn captured(
        time: Seq<char>,
        hostname: Seq<char>,
        username: Seq<char>,
        idle_for: TimeSpan,
        window_title: Seq<char>,
        process_path: Seq<char>,
        duration: TimeSpan,
    ) -> EventModel {
        EventModel {
            time,
            duration,
            hostname,
            username,
            idle_for,
            window_title,
            process_path,
            tags: Seq::empty(),
            anonymize: false,
        }
    }

    /// What the record says of the path of the program: nothing where the
    /// sample is to be anonymized.
    pub open spec fn recorded_path(self) -> JsonModel {
        if self.anonymize {
            JsonModel::Null
        } else {
            JsonModel::String(self.process_path)
        }
    }

    /// The record of the sample: an object of eight members, in this order.
    /// Both lengths of time are given in whole seconds. The title of the
    /// window is not part of the record.
    pub open spec fn to_json(self) -> JsonModel {
        JsonModel::Object(
            seq![
                ("type"@, JsonModel::String("ActiveWindowEvent"@)),
                ("time"@, JsonModel::String(self.time)),
                ("duration"@, seconds_number(self.duration)),
                ("hostname"@, JsonModel::String(self.hostname)),
                ("username"@, JsonModel::String(self.username)),
                ("idle_for"@, seconds_number(self.idle_for)),
                ("process_path"@, self.recorded_path()),
                ("tags"@, tags_array(self.tags)),
            ],
        )
    }
}

impl EventModel {
    /// The record of the sample as a line of text.
    pub open spec fn to_line(self) -> Seq<char> {
        json_text(self.to_json())
    }

    /// What the record holds under each of its names, and nothing under the
    /// name of the title. Both lengths of time are whole numbers that are not
    /// negative.
    pub proof fn lemma_record_members(self)
        ensures
            self.to_json().get("type"@) == Some(JsonModel::String("ActiveWindowEvent"@)),
            self.to_json().get("time"@) == Some(JsonModel::String(self.time)),
            self.to_json().get("duration"@) == Some(seconds_number(self.duration)),
            self.to_json().get("hostname"@) == Some(JsonModel::String(self.hostname)),
            self.to_json().get("username"@) == Some(JsonModel::String(self.username)),
            self.to_json().get("idle_for"@) == Some(seconds_number(self.idle_for)),
            self.to_json().get("process_path"@) == Some(self.recorded_path()),
            self.to_json().get("tags"@) == Some(tags_array(self.tags)),
            self.to_json().get("window_title"@) is None,
            seconds_number(self.duration) matches JsonModel::Number(n) && n.positive && n.exponent
                == 0,
            seconds_number(self.idle_for) matches JsonModel::Number(n) && n.positive && n.exponent
                == 0,
    {
        reveal_strlit("type");
        reveal_strlit("time");
        reveal_strlit("duration");
        reveal_strlit("hostname");
        reveal_strlit("username");
        reveal_strlit("idle_for");
        reveal_strlit("process_path");
        reveal_strlit("tags");
        reveal_strlit("window_title");
        assert("type"@[1] == 'y' && "time"@[1] == 'i' && "tags"@[1] == 'a');
        assert("duration"@[0] == 'd' && "hostname"@[0] == 'h' && "username"@[0] == 'u'
            && "idle_for"@[0] == 'i');
        assert("process_path"@[0] == 'p' && "window_title"@[0] == 'w');
        let members = self.to_json()->Object_0;
        assert(members.len() == 8);
        lemma_lookup_at(members, "type"@, 0);
        lemma_lookup_at(members, "time"@, 1);
        lemma_lookup_at(members, "duration"@, 2);
        lemma_lookup_at(members, "hostname"@, 3);
        lemma_lookup_at(members, "username"@, 4);
        lemma_lookup_at(members, "idle_for"@, 5);
        lemma_lookup_at(members, "process_path"@, 6);
        lemma_lookup_at(members, "tags"@, 7);
        lemma_lookup_skip(members, "window_title"@, 8);
        assert(members.skip(8) =~= Seq::empty());
    }
}

fn text_value(s: &str) -> (v: Json)
    ensures
        v@ == JsonModel::String(s@),
{
    Json::String(s.to_owned())
}

fn seconds_value(span: &TimeSpan) -> (v: Json)
    ensures
        v@ == seconds_number(*span),
{
    Json::Number(JsonNumber { positive: true, mantissa: span.whole_seconds(), exponent: 0 })
}

fn member(name: &str, value: Json) -> (m: (String, Json))
    ensures
        m.0@ == name@,
        m.1 == value,
{
    (name.to_owned(), value)
}

impl ActiveWindowEvent {
    /// Whether the tags are free of repetition.
    pub open spec fn wf(&self) -> bool {
        self@.wf()
    }

    /// A sample taken at `time` on `hostname` by `username`.
    pub fn captured(
        time: String,
        hostname: String,
        username: String,
        idle_for: TimeSpan,
        window_title: String,
        process_path: String,
        duration: TimeSpan,
    ) -> (e: ActiveWindowEvent)
        ensures
            e@ == EventModel::captured(
                time@,
                hostname@,
                username@,
                idle_for,
                window_title@,
                process_path@,
                duration,
            ),
            e.wf(),
    {
        let e = ActiveWindowEvent {
            time,
            duration,
            hostname,
            username,
            idle_for,
            window_title,
            process_path,
            tags: Vec::new(),
            anonymize: false,
        };
        assert(texts(e.tags@) =~= Seq::empty());
        e
    }

    /// A sample taken now, on this host, by the user who runs the process.
    /// The time, the host and the user are whatever the machine reports.
    pub fn new(idle_for: TimeSpan, window_title: String, process_path: String, duration: TimeSpan) -> (e:
        ActiveWindowEvent)
        ensures
            e@ == EventModel::captured(
                e.time@,
                e.hostname@,
                e.username@,
                idle_for,
                window_title@,
                process_path@,
                duration,
            ),
            e.wf(),
    {
        ActiveWindowEvent::captured(
            current_time_rfc3339(),
            host_name(),
            user_name(),
            idle_for,
            window_title,
            process_path,
            duration,
        )
    }

    /// Whether `tag` was given to the sample.
    pub fn has_tag(&self, tag: &String) -> (b: bool)
        ensures
            b == self@.tags.contains(tag@),
    {
        let mut i: usize = 0;
        while i < self.tags.len()
            invariant
                i <= self.tags.len(),
                forall|j: int| 0 <= j < i ==> self@.tags[j] != tag@,
            decreases self.tags.len() - i,
        {
            if self.tags[i] == *tag {
                assert(self@.tags[i as int] == tag@);
                return true;
            }
            i += 1;
        }
        false
    }

    /// The record of the sample as a line of text.
    pub fn to_line(&self) -> (line: String)
        ensures
            line@ == self@.to_line(),
    {
        dump_value(&self.to_json())
    }

    /// The record of the sample.
    pub fn to_json(&self) -> (r: Json)
        ensures
            r@ == self@.to_json(),
    {
        let mut tags: Vec<Json> = Vec::new();
        let mut i: usize = 0;
        while i < self.tags.len()
            invariant
                i <= self.tags.len(),
                tags.len() == i,
                forall|j: int| 0 <= j < i ==> (#[trigger] tags[j])@ == JsonModel::String(self.tags[j]@),
            decreases self.tags.len() - i,
        {
            tags.push(text_value(self.tags[i].as_str()));
            i += 1;
        }
        let tags_value = Json::Array(tags);
        proof {
            tags_value.lemma_array_view();
            assert(tags_value@->Array_0 =~= tags_array(self@.tags)->Array_0);
        }
        let path = if self.anonymize {
            Json::Null
        } else {
            text_value(self.process_path.as_str())
        };
        let mut members: Vec<(String, Json)> = Vec::new();
        members.push(member("type", text_value("ActiveWindowEvent")));
        members.push(member("time", text_value(self.time.as_str())));
        members.push(member("duration", seconds_value(&self.duration)));
        members.push(member("hostname", text_value(self.hostname.as_str())));
        members.push(member("username", text_value(self.username.as_str())));
        members.push(member("idle_for", seconds_value(&self.idle_for)));
        members.push(member("process_path", path));
        members.push(member("tags", tags_value));
        let r = Json::Object(members);
        proof {
            r.lemma_object_view();
            assert(r@->Object_0 =~= self@.to_json()->Object_0);
        }
        r
    }
}

} // verus!
