//! The configuration: where records go, how often to sample and to write, and
//! the rules that tag, drop and anonymize samples.

use crate::event::{ActiveWindowEvent, EventModel};
use crate::json_value::{document_of, parse_document, Json, JsonModel, JsonNumber};
use crate::pattern::{compile_check, regex_compiles, regex_is_match, search};
use crate::span::{spec_span_of_seconds, TimeSpan};
use vstd::prelude::*;

verus! {

/// Why a configuration document was refused.
#[derive(Debug, Clone, Copy, PartialEq, Eq, Structural)]
pub enum ConfigError {
    /// The text is no JSON document, or it holds a run of digits too long to
    /// be read.
    Syntax,
    /// A matcher is written as something other than an object.
    MatcherNotObject,
    /// A pattern is no regular expression.
    InvalidPattern,
    /// A matcher names neither a pattern for the title nor one for the path.
    EmptyMatcher,
    /// A list of matchers is neither an object, an array nor null.
    MatchersNotObjectArrayOrNull,
    /// The tags are neither an object nor null.
    TagsNotObject,
    /// No text is given for the output directory.
    MissingOutputDir,
    /// No number is given for the time between samples.
    MissingSampleInterval,
    /// The number of seconds between samples is not above zero, or the time is
    /// too long.
    InvalidSampleInterval,
    /// No number is given for the time between writes.
    MissingWriteInterval,
    /// The number of seconds between writes is not above zero, or the time is
    /// too long.
    InvalidWriteInterval,
}

/// A test on the title of a window, on the path of its program, or on both.
/// A sample passes when one of the patterns that are there matches.
#[derive(Debug)]
pub struct WindowEventMatcher {
    window_title_regex: Option<String>,
    process_path_regex: Option<String>,
}

/// The mathematical form of a [`WindowEventMatcher`]: its patterns.
pub struct MatcherModel {
    pub window_title: Option<Seq<char>>,
    pub process_path: Option<Seq<char>>,
}

/// The text of an optional string.
pub open spec fn optional_text(s: Option<String>) -> Option<Seq<char>> {
    match s {
        Some(t) => Some(t@),
        None => None,
    }
}

impl View for WindowEventMatcher {
    type V = MatcherModel;

    closed spec fn view(&self) -> MatcherModel {
        MatcherModel {
            window_title: optional_text(self.window_title_regex),
            process_path: optional_text(self.process_path_regex),
        }
    }
}

/// Whether `pattern`, where there is one, is a regular expression.
pub open spec fn compiles_if_present(pattern: Option<Seq<char>>) -> bool {
    pattern matches Some(p) ==> regex_compiles(p)
}

/// Whether `pattern` is there and matches somewhere in `text`.
pub open spec fn present_and_matches(pattern: Option<Seq<char>>, text: Seq<char>) -> bool {
    pattern matches Some(p) && regex_is_match(p, text)
}

impl MatcherModel {
    /// At least one pattern is there, and each one that is there is a regular
    /// expression.
    pub open spec fn wf(self) -> bool {
        &&& self.window_title is Some || self.process_path is Some
        &&& compiles_if_present(self.window_title)
        &&& compiles_if_present(self.process_path)
    }

    /// Whether the title matches the pattern for titles or the path matches
    /// the pattern for paths. A pattern that is not there matches nothing.
    pub open spec fn matches_fields(self, window_title: Seq<char>, process_path: Seq<char>) -> bool {
        present_and_matches(self.window_title, window_title) || present_and_matches(
            self.process_path,
            process_path,
        )
    }

    /// Whether the sample passes the test.
    pub open spec fn matches(self, e: EventModel) -> bool {
        self.matches_fields(e.window_title, e.process_path)
    }

    /// What building a matcher from the two optional patterns gives.
    pub open spec fn build(window_title: Option<Seq<char>>, process_path: Option<Seq<char>>) -> Result<
        MatcherModel,
        ConfigError,
    > {
        if !compiles_if_present(window_title) || !compiles_if_present(process_path) {
            Err(ConfigError::InvalidPattern)
        } else if window_title is None && process_path is None {
            Err(ConfigError::EmptyMatcher)
        } else {
            Ok(MatcherModel { window_title, process_path })
        }
    }

    /// What reading a matcher from a JSON value gives: the value must be an
    /// object; its members `window_title` and `process_path` are the patterns
    /// where they hold text.
    pub open spec fn of_json(val: JsonModel) -> Result<MatcherModel, ConfigError> {
        if !(val is Object) {
            Err(ConfigError::MatcherNotObject)
        } else {
            MatcherModel::build(val.get_str("window_title"@), val.get_str("process_path"@))
        }
    }
}

/// A matcher looks only at what it has a pattern for: without a pattern for
/// the path, the path makes no difference, and without one for the title, the
/// title makes none. A matcher without any pattern cannot be built.
pub proof fn lemma_matcher_reads_only_its_fields(
    m: MatcherModel,
    title: Seq<char>,
    other_title: Seq<char>,
    path: Seq<char>,
    other_path: Seq<char>,
)
    ensures
        m.process_path is None ==> m.matches_fields(title, path) == m.matches_fields(
            title,
            other_path,
        ),
        m.window_title is None ==> m.matches_fields(title, path) == m.matches_fields(
            other_title,
            path,
        ),
        MatcherModel::build(None, None) == Err::<MatcherModel, ConfigError>(
            ConfigError::EmptyMatcher,
        ),
{
}

fn pattern_is_valid(pattern: &Option<String>) -> (ok: bool)
    ensures
        ok == compiles_if_present(optional_text(*pattern)),
{
    match pattern {
        Some(p) => compile_check(p.as_str()),
        None => true,
    }
}

fn pattern_matches(pattern: &Option<String>, text: &str) -> (found: bool)
    requires
        compiles_if_present(optional_text(*pattern)),
    ensures
        found == present_and_matches(optional_text(*pattern), text@),
{
    match pattern {
        Some(p) => {
            match search(p.as_str(), text) {
                Some(found) => found,
                None => false,
            }
        },
        None => false,
    }
}

fn copy_of(s: &Option<String>) -> (r: Option<String>)
    ensures
        optional_text(r) == optional_text(*s),
{
    match s {
        Some(t) => Some(t.clone()),
        None => None,
    }
}

fn owned_text(s: Option<&str>) -> (r: Option<String>)
    ensures
        optional_text(r) == match s {
            Some(t) => Some(t@),
            None => None,
        },
{
    match s {
        Some(t) => Some(t.to_owned()),
        None => None,
    }
}

impl Clone for WindowEventMatcher {
    fn clone(&self) -> (r: Self)
        ensures
            r@ == self@,
    {
        proof {
            use_type_invariant(self);
        }
        WindowEventMatcher {
            window_title_regex: copy_of(&self.window_title_regex),
            process_path_regex: copy_of(&self.process_path_regex),
        }
    }
}

impl WindowEventMatcher {
    #[verifier::type_invariant]
    spec fn well_formed(&self) -> bool {
        self@.wf()
    }

    /// Builds a matcher from the patterns that are given. A pattern that is
    /// no regular expression is refused, and so is a matcher without patterns.
    pub fn new(window_title: Option<String>, process_path: Option<String>) -> (r: Result<
        WindowEventMatcher,
        ConfigError,
    >)
        ensures
            match r {
                Ok(m) => MatcherModel::build(
                    optional_text(window_title),
                    optional_text(process_path),
                ) == Ok::<MatcherModel, ConfigError>(m@) && m@.wf(),
                Err(e) => MatcherModel::build(
                    optional_text(window_title),
                    optional_text(process_path),
                ) == Err::<MatcherModel, ConfigError>(e),
            },
    {
        if !pattern_is_valid(&window_title) || !pattern_is_valid(&process_path) {
            return Err(ConfigError::InvalidPattern);
        }
        if window_title.is_none() && process_path.is_none() {
            return Err(ConfigError::EmptyMatcher);
        }
        Ok(WindowEventMatcher { window_title_regex: window_title, process_path_regex: process_path })
    }

    /// The pattern for titles, where there is one.
    pub fn window_title_pattern(&self) -> (p: Option<&str>)
        ensures
            self@.window_title == match p {
                Some(t) => Some(t@),
                None => None,
            },
    {
        match &self.window_title_regex {
            Some(t) => Some(t.as_str()),
            None => None,
        }
    }

    /// The pattern for paths, where there is one.
    pub fn process_path_pattern(&self) -> (p: Option<&str>)
        ensures
            self@.process_path == match p {
                Some(t) => Some(t@),
                None => None,
            },
    {
        match &self.process_path_regex {
            Some(t) => Some(t.as_str()),
            None => None,
        }
    }

    /// Whether the sample passes the test.
    pub fn matches(&self, e: &ActiveWindowEvent) -> (b: bool)
        ensures
            b == self@.matches(e@),
            self@.wf(),
    {
        proof {
            use_type_invariant(self);
        }
        pattern_matches(&self.window_title_regex, e.window_title.as_str()) || pattern_matches(
            &self.process_path_regex,
            e.process_path.as_str(),
        )
    }

    /// Reads one matcher from a JSON value.
    pub fn from_json_single(val: &Json) -> (r: Result<WindowEventMatcher, ConfigError>)
        ensures
            match r {
                Ok(m) => MatcherModel::of_json(val@) == Ok::<MatcherModel, ConfigError>(m@)
                    && m@.wf(),
                Err(e) => MatcherModel::of_json(val@) == Err::<MatcherModel, ConfigError>(e),
            },
    {
        if !val.is_object() {
            return Err(ConfigError::MatcherNotObject);
        }
        let window_title = owned_text(val.get_str("window_title"));
        let process_path = owned_text(val.get_str("process_path"));
        WindowEventMatcher::new(window_title, process_path)
    }
}

/// A tag and the test that gives it.
#[derive(Debug)]
pub struct ConfigTag {
    pub tag: String,
    pub matcher: WindowEventMatcher,
}

/// The mathematical form of a [`ConfigTag`].
pub struct TagModel {
    pub tag: Seq<char>,
    pub matcher: MatcherModel,
}

impl View for ConfigTag {
    type V = TagModel;

    open spec fn view(&self) -> TagModel {
        TagModel { tag: self.tag@, matcher: self.matcher@ }
    }
}

impl Clone for ConfigTag {
    fn clone(&self) -> (r: Self)
        ensures
            r@ == self@,
    {
        ConfigTag { tag: self.tag.clone(), matcher: self.matcher.clone() }
    }
}

/// The mathematical forms of a sequence of matchers.
pub open spec fn matcher_models(v: Seq<WindowEventMatcher>) -> Seq<MatcherModel> {
    Seq::new(v.len(), |i: int| v[i]@)
}

/// The mathematical forms of a sequence of tag rules.
pub open spec fn tag_models(v: Seq<ConfigTag>) -> Seq<TagModel> {
    Seq::new(v.len(), |i: int| v[i]@)
}

/// Whether every matcher in `ms` is well formed.
pub open spec fn all_wf(ms: Seq<MatcherModel>) -> bool {
    forall|i: int| 0 <= i < ms.len() ==> (#[trigger] ms[i]).wf()
}

/// Whether the matcher of every rule in `ts` is well formed.
pub open spec fn all_tags_wf(ts: Seq<TagModel>) -> bool {
    forall|i: int| 0 <= i < ts.len() ==> (#[trigger] ts[i]).matcher.wf()
}

/// The matchers read from the items of an array, in order; the error of the
/// first item that is refused, where one is.
pub open spec fn matchers_of_items(items: Seq<JsonModel>) -> Result<Seq<MatcherModel>, ConfigError>
    decreases items.len(),
{
    if items.len() == 0 {
        Ok(Seq::empty())
    } else {
        match matchers_of_items(items.drop_last()) {
            Err(e) => Err(e),
            Ok(ms) => match MatcherModel::of_json(items.last()) {
                Err(e) => Err(e),
                Ok(m) => Ok(ms.push(m)),
            },
        }
    }
}

/// The matchers that a JSON value lists: those of an array's items, the one
/// that an object is, and none for null.
pub open spec fn matchers_of_json(val: JsonModel) -> Result<Seq<MatcherModel>, ConfigError> {
    match val {
        JsonModel::Array(items) => matchers_of_items(items),
        JsonModel::Object(_) => match MatcherModel::of_json(val) {
            Err(e) => Err(e),
            Ok(m) => Ok(seq![m]),
        },
        JsonModel::Null => Ok(Seq::empty()),
        _ => Err(ConfigError::MatchersNotObjectArrayOrNull),
    }
}

/// One rule for the tag `tag` with each of the matchers, in order.
pub open spec fn tagged(tag: Seq<char>, ms: Seq<MatcherModel>) -> Seq<TagModel> {
    Seq::new(ms.len(), |i: int| TagModel { tag, matcher: ms[i] })
}

/// The rules that the members of an object list: each member names a tag and
/// holds its matchers. The rules keep the order of the members; the error of
/// the first member that is refused, where one is.
pub open spec fn tags_of_members(members: Seq<(Seq<char>, JsonModel)>) -> Result<
    Seq<TagModel>,
    ConfigError,
>
    decreases members.len(),
{
    if members.len() == 0 {
        Ok(Seq::empty())
    } else {
        match tags_of_members(members.drop_last()) {
            Err(e) => Err(e),
            Ok(ts) => match matchers_of_json(members.last().1) {
                Err(e) => Err(e),
                Ok(ms) => Ok(ts + tagged(members.last().0, ms)),
            },
        }
    }
}

/// The rules that a JSON value lists: those of an object's members, and none
/// for null.
pub open spec fn tags_of_json(val: JsonModel) -> Result<Seq<TagModel>, ConfigError> {
    match val {
        JsonModel::Null => Ok(Seq::empty()),
        JsonModel::Object(members) => tags_of_members(members),
        _ => Err(ConfigError::TagsNotObject),
    }
}

impl WindowEventMatcher {
    /// Reads the matchers that a JSON value lists.
    pub fn from_json(val: &Json) -> (r: Result<Vec<WindowEventMatcher>, ConfigError>)
        ensures
            match r {
                Ok(v) => matchers_of_json(val@) == Ok::<Seq<MatcherModel>, ConfigError>(
                    matcher_models(v@),
                ) && all_wf(matcher_models(v@)),
                Err(e) => matchers_of_json(val@) == Err::<Seq<MatcherModel>, ConfigError>(e),
            },
    {
        match val {
            Json::Array(items) => {
                let ghost models = val@->Array_0;
                proof {
                    val.lemma_array_view();
                    assert(models.take(0) =~= Seq::empty());
                }
                let mut matchers: Vec<WindowEventMatcher> = Vec::new();
                let mut i: usize = 0;
                proof {
                    assert(matcher_models(matchers@) =~= Seq::empty());
                }
                while i < items.len()
                    invariant
                        i <= items.len(),
                        val@ == JsonModel::Array(models),
                        models.len() == items.len(),
                        forall|j: int| 0 <= j < items.len() ==> #[trigger] models[j] == items[j]@,
                        matchers_of_items(models.take(i as int)) == Ok::<
                            Seq<MatcherModel>,
                            ConfigError,
                        >(matcher_models(matchers@)),
                        all_wf(matcher_models(matchers@)),
                    decreases items.len() - i,
                {
                    proof {
                        assert(models.take(i + 1).drop_last() =~= models.take(i as int));
                        assert(models.take(i + 1).last() == models[i as int]);
                    }
                    let ghost before = matcher_models(matchers@);
                    match WindowEventMatcher::from_json_single(&items[i]) {
                        Ok(m) => {
                            matchers.push(m);
                            proof {
                                assert(matcher_models(matchers@) =~= before.push(m@));
                            }
                        },
                        Err(e) => {
                            proof {
                                lemma_items_error_stays(models, i + 1, e);
                            }
                            return Err(e);
                        },
                    }
                    i += 1;
                }
                proof {
                    assert(models.take(i as int) =~= models);
                }
                Ok(matchers)
            },
            Json::Object(_) => {
                let m = WindowEventMatcher::from_json_single(val)?;
                let mut matchers: Vec<WindowEventMatcher> = Vec::new();
                matchers.push(m);
                proof {
                    assert(matcher_models(matchers@) =~= seq![m@]);
                }
                Ok(matchers)
            },
            Json::Null => {
                let matchers: Vec<WindowEventMatcher> = Vec::new();
                proof {
                    assert(matcher_models(matchers@) =~= Seq::empty());
                }
                Ok(matchers)
            },
            _ => Err(ConfigError::MatchersNotObjectArrayOrNull),
        }
    }
}

/// Once a prefix of the items is refused, the whole array is refused with the
/// same error.
proof fn lemma_items_error_stays(items: Seq<JsonModel>, n: int, e: ConfigError)
    requires
        0 <= n <= items.len(),
        matchers_of_items(items.take(n)) == Err::<Seq<MatcherModel>, ConfigError>(e),
    ensures
        matchers_of_items(items) == Err::<Seq<MatcherModel>, ConfigError>(e),
    decreases items.len() - n,
{
    if n == items.len() {
        assert(items.take(n) =~= items);
    } else {
        assert(items.take(n + 1).drop_last() =~= items.take(n));
        lemma_items_error_stays(items, n + 1, e);
    }
}

/// Once a prefix of the members is refused, the whole object is refused with
/// the same error.
proof fn lemma_members_error_stays(members: Seq<(Seq<char>, JsonModel)>, n: int, e: ConfigError)
    requires
        0 <= n <= members.len(),
        tags_of_members(members.take(n)) == Err::<Seq<TagModel>, ConfigError>(e),
    ensures
        tags_of_members(members) == Err::<Seq<TagModel>, ConfigError>(e),
    decreases members.len() - n,
{
    if n == members.len() {
        assert(members.take(n) =~= members);
    } else {
        assert(members.take(n + 1).drop_last() =~= members.take(n));
        lemma_members_error_stays(members, n + 1, e);
    }
}


/// The longest time between samples, and between writes, that a configuration
/// may ask for: ten times as long still fits in a `u64` of nanoseconds.
pub const MAX_INTERVAL_NANOS: u64 = 1_844_674_407_370_955_161;

/// Whether `span` may be the time between samples or between writes: more
/// than nothing, and no longer than [`MAX_INTERVAL_NANOS`].
pub open spec fn valid_interval(span: TimeSpan) -> bool {
    0 < span.nanos <= MAX_INTERVAL_NANOS
}

/// The time between samples, or between writes, that a JSON number of seconds
/// asks for. Every number above zero asks for one, unless the time is longer
/// than [`MAX_INTERVAL_NANOS`]; a time above zero that is shorter than a
/// nanosecond counts as one nanosecond. A number that is zero or negative
/// asks for none.
pub open spec fn interval_of(n: JsonNumber) -> Option<TimeSpan> {
    if !n.positive || n.mantissa == 0 {
        None
    } else {
        match spec_span_of_seconds(n) {
            Some(span) => if span.nanos > MAX_INTERVAL_NANOS {
                None
            } else if span.nanos == 0 {
                Some(TimeSpan { nanos: 1 })
            } else {
                Some(span)
            },
            None => None,
        }
    }
}

/// The rules that a configuration can take over from another document.
#[derive(Debug)]
pub struct BaseConfig {
    pub tags: Vec<ConfigTag>,
    pub ignore: Vec<WindowEventMatcher>,
    pub anonymize: Vec<WindowEventMatcher>,
}

/// The mathematical form of a [`BaseConfig`].
pub struct RulesModel {
    pub tags: Seq<TagModel>,
    pub ignore: Seq<MatcherModel>,
    pub anonymize: Seq<MatcherModel>,
}

impl View for BaseConfig {
    type V = RulesModel;

    open spec fn view(&self) -> RulesModel {
        RulesModel {
            tags: tag_models(self.tags@),
            ignore: matcher_models(self.ignore@),
            anonymize: matcher_models(self.anonymize@),
        }
    }
}

impl JsonModel {
    /// The member named `key`, and null where there is none.
    pub open spec fn member(self, key: Seq<char>) -> JsonModel {
        match self.get(key) {
            Some(v) => v,
            None => JsonModel::Null,
        }
    }
}

impl RulesModel {
    /// Whether every matcher among the rules is well formed.
    pub open spec fn wf(self) -> bool {
        &&& all_tags_wf(self.tags)
        &&& all_wf(self.ignore)
        &&& all_wf(self.anonymize)
    }

    /// The rules of a document: its members `tags`, `ignore` and `anonymize`,
    /// read in this order. A member that is missing counts as null.
    pub open spec fn of_json(doc: JsonModel) -> Result<RulesModel, ConfigError> {
        match tags_of_json(doc.member("tags"@)) {
            Err(e) => Err(e),
            Ok(tags) => match matchers_of_json(doc.member("ignore"@)) {
                Err(e) => Err(e),
                Ok(ignore) => match matchers_of_json(doc.member("anonymize"@)) {
                    Err(e) => Err(e),
                    Ok(anonymize) => Ok(RulesModel { tags, ignore, anonymize }),
                },
            },
        }
    }

    /// These rules, each list followed by the rules of `base`.
    pub open spec fn followed_by(self, base: RulesModel) -> RulesModel {
        RulesModel {
            tags: self.tags + base.tags,
            ignore: self.ignore + base.ignore,
            anonymize: self.anonymize + base.anonymize,
        }
    }
}

/// A configuration.
#[derive(Debug)]
pub struct Config {
    /// The directory that records are written to.
    pub output_dir: String,
    /// The time between samples.
    pub sample_every: TimeSpan,
    /// The time between writes.
    pub write_every: TimeSpan,
    pub tags: Vec<ConfigTag>,
    pub ignore: Vec<WindowEventMatcher>,
    pub anonymize: Vec<WindowEventMatcher>,
}

/// The mathematical form of a [`Config`].
pub struct ConfigModel {
    pub output_dir: Seq<char>,
    pub sample_every: TimeSpan,
    pub write_every: TimeSpan,
    pub tags: Seq<TagModel>,
    pub ignore: Seq<MatcherModel>,
    pub anonymize: Seq<MatcherModel>,
}

impl View for Config {
    type V = ConfigModel;

    open spec fn view(&self) -> ConfigModel {
        ConfigModel {
            output_dir: self.output_dir@,
            sample_every: self.sample_every,
            write_every: self.write_every,
            tags: tag_models(self.tags@),
            ignore: matcher_models(self.ignore@),
            anonymize: matcher_models(self.anonymize@),
        }
    }
}

impl ConfigModel {
    /// Both times are valid.
    pub open spec fn wf(self) -> bool {
        &&& valid_interval(self.sample_every)
        &&& valid_interval(self.write_every)
    }

    /// The document's own rules, followed by those of `base` where there are
    /// any.
    pub open spec fn merged_rules(own: RulesModel, base: Option<RulesModel>) -> RulesModel {
        match base {
            Some(b) => own.followed_by(b),
            None => own,
        }
    }

    /// The configuration that a document in the directory `config_dir`
    /// describes, with the rules of `base` behind its own.
    ///
    /// The rules are read first. Then the member `main` must give text as
    /// `output_dir` and valid numbers of seconds as `sample_every_sec` and
    /// `write_every_sec`; they are looked at in this order. The output
    /// directory is the one written, seen from `config_dir`.
    pub open spec fn of_json(
        doc: JsonModel,
        config_dir: Seq<char>,
        base: Option<RulesModel>,
    ) -> Result<ConfigModel, ConfigError> {
        let main = doc.member("main"@);
        match RulesModel::of_json(doc) {
            Err(e) => Err(e),
            Ok(own) => {
                let rules = ConfigModel::merged_rules(own, base);
                match main.get_str("output_dir"@) {
                    None => Err(ConfigError::MissingOutputDir),
                    Some(output_dir) => match main.get_number("sample_every_sec"@) {
                        None => Err(ConfigError::MissingSampleInterval),
                        Some(sample) => match interval_of(sample) {
                            None => Err(ConfigError::InvalidSampleInterval),
                            Some(sample_every) => match main.get_number("write_every_sec"@) {
                                None => Err(ConfigError::MissingWriteInterval),
                                Some(write) => match interval_of(write) {
                                    None => Err(ConfigError::InvalidWriteInterval),
                                    Some(write_every) => Ok(
                                        ConfigModel {
                                            output_dir: joined_path(config_dir, output_dir),
                                            sample_every,
                                            write_every,
                                            tags: rules.tags,
                                            ignore: rules.ignore,
                                            anonymize: rules.anonymize,
                                        },
                                    ),
                                },
                            },
                        },
                    },
                }
            },
        }
    }

    /// The path of the document whose rules are to be taken over by a
    /// document in the directory `config_dir`: the one that the member
    /// `path_to_base_config` of `main` gives, seen from `config_dir`.
    pub open spec fn base_path_of_json(doc: JsonModel, config_dir: Seq<char>) -> Option<Seq<char>> {
        match doc.member("main"@).get_str("path_to_base_config"@) {
            Some(reference) => Some(joined_path(config_dir, reference)),
            None => None,
        }
    }
}

/// The view of an optional set of rules.
pub open spec fn optional_rules(base: Option<BaseConfig>) -> Option<RulesModel> {
    match base {
        Some(b) => Some(b@),
        None => None,
    }
}

/// The path `relative` as seen from the directory `dir`, as
/// `std::path::Path::join` puts it together on the platform that the library
/// is built for: an absolute `relative` stands for itself.
pub uninterp spec fn joined_path(dir: Seq<char>, relative: Seq<char>) -> Seq<char>;

/// Calls `std::path::Path::join` on `dir` with `relative` and hands the
/// joined path back as text. The result is the path named [`joined_path`].
#[verifier::external_body]
pub(crate) fn resolve_path(dir: &str, relative: &str) -> (path: String)
    ensures
        path@ == joined_path(dir@, relative@),
{
    std::path::Path::new(dir).join(relative).to_string_lossy().into_owned()
}

fn member_or_null<'a>(doc: &'a Json, key: &str, null: &'a Json) -> (v: &'a Json)
    requires
        null@ is Null,
    ensures
        v@ == doc@.member(key@),
{
    match doc.get(key) {
        Some(v) => v,
        None => null,
    }
}

fn read_interval(main: &Json, key: &str, missing: ConfigError, invalid: ConfigError) -> (r:
    Result<TimeSpan, ConfigError>)
    ensures
        r == match main@.get_number(key@) {
            None => Err::<TimeSpan, ConfigError>(missing),
            Some(n) => match interval_of(n) {
                None => Err(invalid),
                Some(span) => Ok(span),
            },
        },
{
    match main.get_number(key) {
        None => Err(missing),
        Some(n) => if !n.positive || n.mantissa == 0 {
            Err(invalid)
        } else {
            match TimeSpan::from_decimal_seconds(&n) {
                None => Err(invalid),
                Some(span) => if span.nanos > MAX_INTERVAL_NANOS {
                    Err(invalid)
                } else if span.nanos == 0 {
                    Ok(TimeSpan { nanos: 1 })
                } else {
                    Ok(span)
                },
            }
        },
    }
}

impl Config {
    /// Both times are valid.
    pub open spec fn wf(&self) -> bool {
        self@.wf()
    }

    /// Whether both times are valid.
    pub fn is_valid(&self) -> (b: bool)
        ensures
            b == self.wf(),
    {
        0 < self.sample_every.nanos && self.sample_every.nanos <= MAX_INTERVAL_NANOS && 0
            < self.write_every.nanos && self.write_every.nanos <= MAX_INTERVAL_NANOS
    }

    /// Reads the rules that a JSON value lists under the names of tags.
    pub fn read_tags(obj: &Json) -> (r: Result<Vec<ConfigTag>, ConfigError>)
        ensures
            match r {
                Ok(v) => tags_of_json(obj@) == Ok::<Seq<TagModel>, ConfigError>(tag_models(v@))
                    && all_tags_wf(tag_models(v@)),
                Err(e) => tags_of_json(obj@) == Err::<Seq<TagModel>, ConfigError>(e),
            },
    {
        match obj {
            Json::Null => {
                let tags: Vec<ConfigTag> = Vec::new();
                proof {
                    assert(tag_models(tags@) =~= Seq::empty());
                }
                Ok(tags)
            },
            Json::Object(entries) => {
                let ghost members = obj@->Object_0;
                let mut tags: Vec<ConfigTag> = Vec::new();
                let mut i: usize = 0;
                proof {
                    obj.lemma_object_view();
                    assert(members.take(0) =~= Seq::empty());
                    assert(tag_models(tags@) =~= Seq::empty());
                }
                while i < entries.len()
                    invariant
                        i <= entries.len(),
                        obj@ == JsonModel::Object(members),
                        members.len() == entries.len(),
                        forall|j: int|
                            0 <= j < entries.len() ==> #[trigger] members[j] == (
                                entries[j].0@,
                                entries[j].1@,
                            ),
                        tags_of_members(members.take(i as int)) == Ok::<Seq<TagModel>, ConfigError>(
                            tag_models(tags@),
                        ),
                        all_tags_wf(tag_models(tags@)),
                    decreases entries.len() - i,
                {
                    proof {
                        assert(members.take(i + 1).drop_last() =~= members.take(i as int));
                        assert(members.take(i + 1).last() == members[i as int]);
                    }
                    let ghost before = tag_models(tags@);
                    match WindowEventMatcher::from_json(&entries[i].1) {
                        Err(e) => {
                            proof {
                                lemma_members_error_stays(members, i + 1, e);
                            }
                            return Err(e);
                        },
                        Ok(matchers) => {
                            let ghost rules = tagged(entries[i as int].0@, matcher_models(matchers@));
                            let mut k: usize = 0;
                            while k < matchers.len()
                                invariant
                                    k <= matchers.len(),
                                    i < entries.len(),
                                    rules == tagged(entries[i as int].0@, matcher_models(matchers@)),
                                    tag_models(tags@) == before + rules.take(k as int),
                                    all_wf(matcher_models(matchers@)),
                                    all_tags_wf(before),
                                decreases matchers.len() - k,
                            {
                                let ghost so_far = tag_models(tags@);
                                let tag = ConfigTag {
                                    tag: entries[i].0.clone(),
                                    matcher: matchers[k].clone(),
                                };
                                tags.push(tag);
                                proof {
                                    assert(tag@ == rules[k as int]);
                                    assert(tag_models(tags@) =~= so_far.push(tag@));
                                    assert(rules.take(k + 1) =~= rules.take(k as int).push(
                                        rules[k as int],
                                    ));
                                    assert(before + rules.take(k + 1) =~= (before + rules.take(
                                        k as int,
                                    )).push(rules[k as int]));
                                }
                                k += 1;
                            }
                            proof {
                                assert(rules.take(k as int) =~= rules);
                                assert forall|j: int| 0 <= j < tag_models(tags@).len() implies (
                                #[trigger] tag_models(tags@)[j]).matcher.wf() by {
                                    if j >= before.len() {
                                        assert(tag_models(tags@)[j] == rules[j - before.len()]);
                                        assert(matcher_models(matchers@)[j - before.len()].wf());
                                    } else {
                                        assert(tag_models(tags@)[j] == before[j]);
                                    }
                                }
                            }
                        },
                    }
                    i += 1;
                }
                proof {
                    assert(members.take(i as int) =~= members);
                }
                Ok(tags)
            },
            _ => Err(ConfigError::TagsNotObject),
        }
    }

    /// The reference to another document whose rules are to be taken over, as
    /// the member `path_to_base_config` of `main` gives it.
    pub fn base_config_reference(doc: &Json) -> (r: Option<&str>)
        ensures
            match r {
                Some(s) => doc@.member("main"@).get_str("path_to_base_config"@) == Some(s@),
                None => doc@.member("main"@).get_str("path_to_base_config"@) is None,
            },
    {
        match doc.get("main") {
            Some(main) => main.get_str("path_to_base_config"),
            None => None,
        }
    }

    /// The path of the document whose rules are to be taken over by the
    /// configuration that the file with `text` describes, seen from
    /// `config_dir`, the directory of that file. There is one exactly where
    /// the text holds a document that refers to one.
    pub fn base_config_path(text: &str, config_dir: &str) -> (r: Option<String>)
        ensures
            optional_text(r) == match document_of(text@) {
                Some(doc) => ConfigModel::base_path_of_json(doc, config_dir@),
                None => None,
            },
    {
        match parse_document(text) {
            Some(doc) => match Config::base_config_reference(&doc) {
                Some(reference) => Some(resolve_path(config_dir, reference)),
                None => None,
            },
            None => None,
        }
    }

    /// Builds the configuration that a file describes: `text` is what the
    /// file holds, `config_dir` the directory that the file lies in, and
    /// `base` the rules of the file that it refers to, where it refers to one
    /// that could be read. Text that holds no document is refused; a document
    /// is read as [`Config::from_json`] reads it.
    pub fn from_file(text: &str, config_dir: &str, base: Option<BaseConfig>) -> (r: Result<
        Config,
        ConfigError,
    >)
        ensures
            match document_of(text@) {
                None => r matches Err(e) && e == ConfigError::Syntax,
                Some(doc) => match r {
                    Ok(c) => ConfigModel::of_json(doc, config_dir@, optional_rules(base)) == Ok::<
                        ConfigModel,
                        ConfigError,
                    >(c@) && c.wf(),
                    Err(e) => ConfigModel::of_json(doc, config_dir@, optional_rules(base)) == Err::<
                        ConfigModel,
                        ConfigError,
                    >(e),
                },
            },
    {
        match parse_document(text) {
            Some(doc) => Config::from_json(&doc, config_dir, base),
            None => Err(ConfigError::Syntax),
        }
    }

    /// Puts together a configuration whose parts were read already.
    pub fn assemble(
        output_dir: String,
        sample_every: TimeSpan,
        write_every: TimeSpan,
        own: BaseConfig,
        base: Option<BaseConfig>,
    ) -> (c: Config)
        ensures
            c@ == (ConfigModel {
                output_dir: output_dir@,
                sample_every,
                write_every,
                tags: ConfigModel::merged_rules(own@, optional_rules(base)).tags,
                ignore: ConfigModel::merged_rules(own@, optional_rules(base)).ignore,
                anonymize: ConfigModel::merged_rules(own@, optional_rules(base)).anonymize,
            }),
    {
        let mut tags = own.tags;
        let mut ignore = own.ignore;
        let mut anonymize = own.anonymize;
        match base {
            Some(b) => {
                let mut base_tags = b.tags;
                let mut base_ignore = b.ignore;
                let mut base_anonymize = b.anonymize;
                let ghost own_tags = tag_models(tags@);
                let ghost own_ignore = matcher_models(ignore@);
                let ghost own_anonymize = matcher_models(anonymize@);
                let ghost more_tags = tag_models(base_tags@);
                let ghost more_ignore = matcher_models(base_ignore@);
                let ghost more_anonymize = matcher_models(base_anonymize@);
                tags.append(&mut base_tags);
                ignore.append(&mut base_ignore);
                anonymize.append(&mut base_anonymize);
                proof {
                    assert(tag_models(tags@) =~= own_tags + more_tags);
                    assert(matcher_models(ignore@) =~= own_ignore + more_ignore);
                    assert(matcher_models(anonymize@) =~= own_anonymize + more_anonymize);
                }
            },
            None => {},
        }
        Config { output_dir, sample_every, write_every, tags, ignore, anonymize }
    }

    /// Builds the configuration that a document describes: `config_dir` is
    /// the directory that the document lies in, and `base` holds the rules of
    /// the document that it refers to, where it refers to one that could be
    /// read.
    ///
    /// The result is what [`ConfigModel::of_json`] describes.
    pub fn from_json(doc: &Json, config_dir: &str, base: Option<BaseConfig>) -> (r: Result<
        Config,
        ConfigError,
    >)
        ensures
            match r {
                Ok(c) => ConfigModel::of_json(doc@, config_dir@, optional_rules(base)) == Ok::<
                    ConfigModel,
                    ConfigError,
                >(c@) && c.wf(),
                Err(e) => ConfigModel::of_json(doc@, config_dir@, optional_rules(base)) == Err::<
                    ConfigModel,
                    ConfigError,
                >(e),
            },
    {
        let own = BaseConfig::from_json(doc)?;
        let null = Json::Null;
        let main = member_or_null(doc, "main", &null);
        let output_dir = match main.get_str("output_dir") {
            Some(reference) => resolve_path(config_dir, reference),
            None => {
                return Err(ConfigError::MissingOutputDir);
            },
        };
        let sample_every = read_interval(
            main,
            "sample_every_sec",
            ConfigError::MissingSampleInterval,
            ConfigError::InvalidSampleInterval,
        )?;
        let write_every = read_interval(
            main,
            "write_every_sec",
            ConfigError::MissingWriteInterval,
            ConfigError::InvalidWriteInterval,
        )?;
        Ok(Config::assemble(output_dir, sample_every, write_every, own, base))
    }
}

impl BaseConfig {
    /// Reads the rules that a file describes: `text` is what the file holds.
    /// Text that holds no document is refused; a document is read as
    /// [`BaseConfig::from_json`] reads it.
    pub fn from_file(text: &str) -> (r: Result<BaseConfig, ConfigError>)
        ensures
            match document_of(text@) {
                None => r matches Err(e) && e == ConfigError::Syntax,
                Some(doc) => match r {
                    Ok(b) => RulesModel::of_json(doc) == Ok::<RulesModel, ConfigError>(b@)
                        && b@.wf(),
                    Err(e) => RulesModel::of_json(doc) == Err::<RulesModel, ConfigError>(e),
                },
            },
    {
        match parse_document(text) {
            Some(doc) => BaseConfig::from_json(&doc),
            None => Err(ConfigError::Syntax),
        }
    }

    /// Reads the rules of a document.
    pub fn from_json(doc: &Json) -> (r: Result<BaseConfig, ConfigError>)
        ensures
            match r {
                Ok(b) => RulesModel::of_json(doc@) == Ok::<RulesModel, ConfigError>(b@) && b@.wf(),
                Err(e) => RulesModel::of_json(doc@) == Err::<RulesModel, ConfigError>(e),
            },
    {
        let null = Json::Null;
        let tags = Config::read_tags(member_or_null(doc, "tags", &null))?;
        let ignore = WindowEventMatcher::from_json(member_or_null(doc, "ignore", &null))?;
        let anonymize = WindowEventMatcher::from_json(member_or_null(doc, "anonymize", &null))?;
        Ok(BaseConfig { tags, ignore, anonymize })
    }
}

} // verus!
