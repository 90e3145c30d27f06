//! A JSON document held as plain values.
//!
//! Configuration documents are read from this form and records are produced
//! in it. Text is turned into it, and it into text, by the `json` crate.

use crate::text::is_digit;
use vstd::prelude::*;
use vstd::utf8::encode_utf8;

verus! {

/// A JSON number in decimal form: `mantissa * 10^exponent`, negated where
/// `positive` is false.
#[derive(Debug, Clone, Copy, PartialEq, Eq)]
pub struct JsonNumber {
    pub positive: bool,
    pub mantissa: u64,
    pub exponent: i16,
}

/// A JSON value. An object keeps its members in the order in which they were
/// written.
#[derive(Debug, PartialEq, Eq)]
pub enum Json {
    Null,
    Boolean(bool),
    Number(JsonNumber),
    String(String),
    Array(Vec<Json>),
    Object(Vec<(String, Json)>),
}

/// The mathematical form of a [`Json`]: texts are sequences of
/// characters, and arrays and objects are sequences.
pub enum JsonModel {
    Null,
    Boolean(bool),
    Number(JsonNumber),
    String(Seq<char>),
    Array(Seq<JsonModel>),
    Object(Seq<(Seq<char>, JsonModel)>),
}

impl View for Json {
    type V = JsonModel;

    open spec fn view(&self) -> JsonModel {
        model_of(*self)
    }
}

/// The mathematical form of `value`.
pub open spec fn model_of(value: Json) -> JsonModel
    decreases value, 0nat,
{
    match value {
        Json::Null => JsonModel::Null,
        Json::Boolean(b) => JsonModel::Boolean(b),
        Json::Number(n) => JsonModel::Number(n),
        Json::String(s) => JsonModel::String(s@),
        Json::Array(items) => JsonModel::Array(models_of(items@, items@.len())),
        Json::Object(entries) => JsonModel::Object(
            member_models_of(entries@, entries@.len()),
        ),
    }
}

/// The mathematical forms of the first `n` of `items`, in order.
pub open spec fn models_of(items: Seq<Json>, n: nat) -> Seq<JsonModel>
    decreases items, n,
{
    if n == 0 || n > items.len() {
        Seq::empty()
    } else {
        models_of(items, (n - 1) as nat).push(model_of(items[n - 1]))
    }
}

/// The names and mathematical forms of the first `n` of `entries`, in order.
pub open spec fn member_models_of(entries: Seq<(String, Json)>, n: nat) -> Seq<
    (Seq<char>, JsonModel),
>
    decreases entries, n,
{
    if n == 0 || n > entries.len() {
        Seq::empty()
    } else {
        member_models_of(entries, (n - 1) as nat).push(
            (entries[n - 1].0@, model_of(entries[n - 1].1)),
        )
    }
}

/// `models_of` lists the form of each item at its place.
proof fn lemma_models_of(items: Seq<Json>, n: nat)
    requires
        n <= items.len(),
    ensures
        models_of(items, n).len() == n,
        forall|j: int| 0 <= j < n ==> #[trigger] models_of(items, n)[j] == model_of(items[j]),
    decreases n,
{
    if n > 0 {
        lemma_models_of(items, (n - 1) as nat);
    }
}

/// `member_models_of` lists the name and the form of each member at its
/// place.
proof fn lemma_member_models_of(entries: Seq<(String, Json)>, n: nat)
    requires
        n <= entries.len(),
    ensures
        member_models_of(entries, n).len() == n,
        forall|j: int|
            0 <= j < n ==> #[trigger] member_models_of(entries, n)[j] == (
                entries[j].0@,
                model_of(entries[j].1),
            ),
    decreases n,
{
    if n > 0 {
        lemma_member_models_of(entries, (n - 1) as nat);
    }
}

/// The view of an optional value.
pub open spec fn optional_model(value: Option<Json>) -> Option<JsonModel> {
    match value {
        Some(v) => Some(v@),
        None => None,
    }
}

/// The value that `json::parse` reads from `text`; none where it refuses the
/// text.
pub uninterp spec fn json_parse(text: Seq<char>) -> Option<JsonModel>;

/// The text that `json::JsonValue::dump` writes for `value`.
pub uninterp spec fn json_text(value: JsonModel) -> Seq<char>;

/// `json::JsonValue`, the value that the `json` crate reads and writes. It is
/// handed on as it is, and nothing is said of what it holds.
#[verifier::external_type_specification]
#[verifier::external_body]
pub struct ExOutsideValue(json::JsonValue);

/// Copies a value of the `json` crate into one of this library, part by part:
/// both kinds of string become a string, a number is taken apart by
/// `json::number::Number::as_parts`, and the members of an object keep the
/// order in which `json::object::Object::iter` hands them out.
#[verifier::external_body]
fn copy_in(value: &json::JsonValue) -> Json {
    match value {
        json::JsonValue::Null => Json::Null,
        json::JsonValue::Boolean(b) => Json::Boolean(*b),
        json::JsonValue::Number(n) => {
            let (positive, mantissa, exponent) = n.as_parts();
            Json::Number(JsonNumber { positive, mantissa, exponent })
        },
        json::JsonValue::Short(s) => Json::String(s.as_str().to_owned()),
        json::JsonValue::String(s) => Json::String(s.clone()),
        json::JsonValue::Array(items) => Json::Array(items.iter().map(copy_in).collect()),
        json::JsonValue::Object(o) => Json::Object(
            o.iter().map(|(k, v)| (k.to_owned(), copy_in(v))).collect(),
        ),
    }
}

/// Copies a value of this library into one of the `json` crate, part by part:
/// a number is put together by `json::number::Number::from_parts`, and the
/// members of an object are handed to `json::object::Object::insert` in order.
#[verifier::external_body]
fn copy_out(value: &Json) -> json::JsonValue {
    match value {
        Json::Null => json::JsonValue::Null,
        Json::Boolean(b) => json::JsonValue::Boolean(*b),
        Json::Number(n) => json::JsonValue::Number(
            json::number::Number::from_parts(n.positive, n.mantissa, n.exponent),
        ),
        Json::String(s) => json::JsonValue::String(s.clone()),
        Json::Array(items) => json::JsonValue::Array(items.iter().map(copy_out).collect()),
        Json::Object(members) => {
            let mut o = json::object::Object::new();
            members.iter().for_each(|m| o.insert(m.0.as_str(), copy_out(&m.1)));
            json::JsonValue::Object(o)
        },
    }
}

/// The longest run of digits that a text may hold to be read. The `json`
/// crate counts the digits of a fraction in sixteen bits, and a longer run
/// would take the count past its end.
pub const MAX_DIGIT_RUN: usize = 32767;

/// How many digits stand in a row right before place `n` of `s`.
pub open spec fn digit_run_ending(s: Seq<u8>, n: nat) -> nat
    decreases n,
{
    if n == 0 || n > s.len() || !is_digit(s[n - 1]) {
        0
    } else {
        1 + digit_run_ending(s, (n - 1) as nat)
    }
}

/// Whether no run of digits in `s` is longer than `limit`.
pub open spec fn digit_runs_within(s: Seq<u8>, limit: nat) -> bool {
    forall|n: nat| n <= s.len() ==> #[trigger] digit_run_ending(s, n) <= limit
}

/// Whether the text can be handed to the `json` crate: no run of digits in
/// its bytes is longer than [`MAX_DIGIT_RUN`].
pub open spec fn readable(text: Seq<char>) -> bool {
    digit_runs_within(encode_utf8(text), MAX_DIGIT_RUN as nat)
}

/// The document that a text holds: the value that the `json` crate reads
/// from it. There is none where the text cannot be handed to the crate, and
/// none where the crate refuses it.
pub open spec fn document_of(text: Seq<char>) -> Option<JsonModel> {
    if readable(text) {
        json_parse(text)
    } else {
        None
    }
}

/// Whether no run of digits in `s` is longer than [`MAX_DIGIT_RUN`].
pub fn digit_runs_fit(s: &[u8]) -> (fit: bool)
    ensures
        fit == digit_runs_within(s@, MAX_DIGIT_RUN as nat),
{
    let mut run: usize = 0;
    let mut i: usize = 0;
    while i < s.len()
        invariant
            i <= s.len(),
            run == digit_run_ending(s@, i as nat),
            run <= MAX_DIGIT_RUN,
            forall|n: nat| n <= i ==> #[trigger] digit_run_ending(s@, n) <= MAX_DIGIT_RUN,
        decreases s.len() - i,
    {
        if 48 <= s[i] && s[i] <= 57 {
            if run == MAX_DIGIT_RUN {
                assert(digit_run_ending(s@, (i + 1) as nat) == run + 1);
                return false;
            }
            run += 1;
        } else {
            run = 0;
        }
        i += 1;
    }
    true
}

/// Reads the document that a text holds. A text with a run of digits too
/// long for the `json` crate is not handed to it.
pub fn parse_document(text: &str) -> (r: Option<Json>)
    ensures
        optional_model(r) == document_of(text@),
{
    if digit_runs_fit(text.as_bytes()) {
        parse_text(text)
    } else {
        None
    }
}

/// Calls `json::parse` on `text` and copies what it read. The result is the
/// value named [`json_parse`]: none where the text is refused. Texts with a
/// run of more than [`MAX_DIGIT_RUN`] digits are left out: on a fraction of
/// that many digits the parser's count of them overflows.
#[verifier::external_body]
pub(crate) fn parse_text(text: &str) -> (r: Option<Json>)
    requires
        readable(text@),
    ensures
        optional_model(r) == json_parse(text@),
{
    match json::parse(text) {
        Ok(value) => Some(copy_in(&value)),
        Err(_) => None,
    }
}

/// Copies `value` and calls `json::JsonValue::dump` on the copy. The result
/// is the text named [`json_text`].
#[verifier::external_body]
pub(crate) fn dump_value(value: &Json) -> (text: String)
    ensures
        text@ == json_text(value@),
{
    copy_out(value).dump()
}

/// The value of the first member named `key` among `entries`.
pub open spec fn spec_lookup(entries: Seq<(Seq<char>, JsonModel)>, key: Seq<char>) -> Option<
    JsonModel,
>
    decreases entries.len(),
{
    if entries.len() == 0 {
        None
    } else if entries[0].0 == key {
        Some(entries[0].1)
    } else {
        spec_lookup(entries.drop_first(), key)
    }
}

/// `spec_lookup` passes over a prefix of members with other names.
pub proof fn lemma_lookup_skip(entries: Seq<(Seq<char>, JsonModel)>, key: Seq<char>, n: int)
    requires
        0 <= n <= entries.len(),
        forall|j: int| 0 <= j < n ==> (#[trigger] entries[j]).0 != key,
    ensures
        spec_lookup(entries, key) == spec_lookup(entries.skip(n), key),
    decreases n,
{
    if n == 0 {
        assert(entries.skip(0) =~= entries);
    } else {
        let rest = entries.drop_first();
        assert forall|j: int| 0 <= j < n - 1 implies (#[trigger] rest[j]).0 != key by {
            assert(rest[j] == entries[j + 1]);
        }
        lemma_lookup_skip(rest, key, n - 1);
        assert(rest.skip(n - 1) =~= entries.skip(n));
    }
}

/// `spec_lookup` finds the first member named `key`.
pub proof fn lemma_lookup_at(entries: Seq<(Seq<char>, JsonModel)>, key: Seq<char>, n: int)
    requires
        0 <= n < entries.len(),
        forall|j: int| 0 <= j < n ==> (#[trigger] entries[j]).0 != key,
        entries[n].0 == key,
    ensures
        spec_lookup(entries, key) == Some(entries[n].1),
{
    lemma_lookup_skip(entries, key, n);
    assert(entries.skip(n)[0] == entries[n]);
}

impl JsonModel {
    /// The member named `key` of an object; `None` for a missing member and
    /// for a value that is no object.
    pub open spec fn get(self, key: Seq<char>) -> Option<JsonModel> {
        match self {
            JsonModel::Object(entries) => spec_lookup(entries, key),
            _ => None,
        }
    }

    /// The text of a string value.
    pub open spec fn as_str(self) -> Option<Seq<char>> {
        match self {
            JsonModel::String(s) => Some(s),
            _ => None,
        }
    }

    /// The text of the string member named `key`; `None` where the member is
    /// missing or holds anything but a string.
    pub open spec fn get_str(self, key: Seq<char>) -> Option<Seq<char>> {
        match self.get(key) {
            Some(v) => v.as_str(),
            None => None,
        }
    }

    /// The number member named `key`; `None` where the member is missing or
    /// holds anything but a number.
    pub open spec fn get_number(self, key: Seq<char>) -> Option<JsonNumber> {
        match self.get(key) {
            Some(JsonModel::Number(n)) => Some(n),
            _ => None,
        }
    }
}

impl Json {
    /// The view of an object lists the views of its members, in order.
    pub proof fn lemma_object_view(&self)
        requires
            self is Object,
        ensures
            self@ is Object,
            self@->Object_0.len() == self->Object_0.len(),
            forall|j: int|
                0 <= j < self->Object_0.len() ==> #[trigger] self@->Object_0[j] == (
                    self->Object_0[j].0@,
                    self->Object_0[j].1@,
                ),
    {
        lemma_member_models_of(self->Object_0@, self->Object_0@.len());
    }

    /// The view of an array lists the views of its items, in order.
    pub proof fn lemma_array_view(&self)
        requires
            self is Array,
        ensures
            self@ is Array,
            self@->Array_0.len() == self->Array_0.len(),
            forall|j: int|
                0 <= j < self->Array_0.len() ==> #[trigger] self@->Array_0[j]
                    == self->Array_0[j]@,
    {
        lemma_models_of(self->Array_0@, self->Array_0@.len());
    }

    /// Whether the value is null.
    pub fn is_null(&self) -> (b: bool)
        ensures
            b == (self@ is Null),
    {
        match self {
            Json::Null => true,
            _ => false,
        }
    }

    /// Whether the value is an object.
    pub fn is_object(&self) -> (b: bool)
        ensures
            b == (self@ is Object),
    {
        match self {
            Json::Object(_) => true,
            _ => false,
        }
    }

    /// Whether the value is an array.
    pub fn is_array(&self) -> (b: bool)
        ensures
            b == (self@ is Array),
    {
        match self {
            Json::Array(_) => true,
            _ => false,
        }
    }

    /// The text of a string value.
    pub fn as_str(&self) -> (r: Option<&str>)
        ensures
            match r {
                Some(s) => self@.as_str() == Some(s@),
                None => self@.as_str() is None,
            },
    {
        match self {
            Json::String(s) => Some(s.as_str()),
            _ => None,
        }
    }

    /// Looks up the member named `key`.
    pub fn get(&self, key: &str) -> (r: Option<&Json>)
        ensures
            match r {
                Some(v) => self@.get(key@) == Some(v@),
                None => self@.get(key@) is None,
            },
    {
        match self {
            Json::Object(entries) => {
                let wanted = key.to_owned();
                let ghost members = self@->Object_0;
                proof {
                    self.lemma_object_view();
                }
                let mut i: usize = 0;
                while i < entries.len()
                    invariant
                        i <= entries.len(),
                        wanted@ == key@,
                        self@.get(key@) == spec_lookup(members, key@),
                        members.len() == entries.len(),
                        forall|j: int|
                            0 <= j < entries.len() ==> #[trigger] members[j] == (
                                entries[j].0@,
                                entries[j].1@,
                            ),
                        forall|j: int| 0 <= j < i ==> (#[trigger] members[j]).0 != key@,
                    decreases entries.len() - i,
                {
                    if entries[i].0 == wanted {
                        proof {
                            lemma_lookup_skip(members, key@, i as int);
                            assert(members.skip(i as int)[0] == members[i as int]);
                        }
                        return Some(&entries[i].1);
                    }
                    i += 1;
                }
                proof {
                    lemma_lookup_skip(members, key@, i as int);
                }
                None
            },
            _ => None,
        }
    }

    /// The text of the string member named `key`.
    pub fn get_str(&self, key: &str) -> (r: Option<&str>)
        ensures
            match r {
                Some(s) => self@.get_str(key@) == Some(s@),
                None => self@.get_str(key@) is None,
            },
    {
        match self.get(key) {
            Some(v) => v.as_str(),
            None => None,
        }
    }

    /// The number member named `key`.
    pub fn get_number(&self, key: &str) -> (r: Option<JsonNumber>)
        ensures
            r == self@.get_number(key@),
    {
        match self.get(key) {
            Some(Json::Number(n)) => Some(*n),
            _ => None,
        }
    }
}

} // verus!
