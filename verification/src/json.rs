//! JSON, as the rest of the library handles it.
//!
//! Where a value comes or goes as text, reading and writing that text is
//! `serde_json`'s work; the four functions marked as external below are
//! the only places where it is asked. A value that was read already is a
//! [`Json`].
use vstd::prelude::*;

use crate::text::{opt_view, text_eq, views};

verus! {

/// Declares `serde_json::Value`, which is carried and never looked into.
#[verifier::external_type_specification]
#[verifier::external_body]
pub struct ExValue(serde_json::Value);

/// A JSON value, as far as the library looks into it: strings and objects are
/// open, any other value is carried as it is.
#[derive(Debug)]
pub enum Json {
    Text(String),
    /// The members, each key once.
    Object(Vec<Member>),
    Other(serde_json::Value),
}

/// One member of a JSON object.
#[derive(Debug)]
pub struct Member {
    pub key: String,
    pub value: Json,
}

/// The value under `key` among these members.
pub open spec fn value_under(members: Seq<Member>, key: Seq<char>) -> Option<Json>
    decreases members.len(),
{
    if members.len() == 0 {
        None
    } else if members[0].key@ == key {
        Some(members[0].value)
    } else {
        value_under(members.skip(1), key)
    }
}

impl Json {
    /// The member `key`. What is no object has no members.
    pub open spec fn member(self, key: Seq<char>) -> Option<Json> {
        match self {
            Json::Object(members) => value_under(members@, key),
            _ => None,
        }
    }

    /// The string, when the value is one.
    pub open spec fn text(self) -> Option<Seq<char>> {
        match self {
            Json::Text(s) => Some(s@),
            _ => None,
        }
    }

    /// The string under `key`, when there is one.
    pub open spec fn text_member(self, key: Seq<char>) -> Option<Seq<char>> {
        match self.member(key) {
            Some(v) => v.text(),
            None => None,
        }
    }

    /// The member `key`. What is no object has no members.
    pub fn get(&self, key: &str) -> (r: Option<&Json>)
        ensures
            match r {
                Some(v) => self.member(key@) == Some(*v),
                None => self.member(key@) is None,
            },
    {
        let members = match self {
            Json::Object(m) => m,
            _ => {
                return None;
            },
        };
        let mut i: usize = 0;
        assert(members@.skip(0) =~= members@);
        while i < members.len()
            invariant
                i <= members.len(),
                *self == Json::Object(*members),
                value_under(members@, key@) == value_under(members@.skip(i as int), key@),
            decreases members.len() - i,
        {
            assert(members@.skip(i as int)[0] == members@[i as int]);
            if text_eq(members[i].key.as_str(), key) {
                return Some(&members[i].value);
            }
            assert(members@.skip(i as int).skip(1) =~= members@.skip(i + 1));
            i = i + 1;
        }
        None
    }

    /// The string under `key`, when there is one.
    pub fn get_text(&self, key: &str) -> (r: Option<&str>)
        ensures
            opt_view(r) == self.text_member(key@),
    {
        match self.get(key) {
            Some(Json::Text(s)) => Some(s.as_str()),
            _ => None,
        }
    }
}

/// A value that can stand as a member of a flat JSON object.
#[derive(Debug)]
pub enum Scalar {
    Null,
    Bool(bool),
    UInt(u64),
    Int(i64),
    Text(String),
}

/// Mathematical form of a [`Scalar`].
pub enum ScalarView {
    Null,
    Bool(bool),
    Int(int),
    Text(Seq<char>),
}

impl View for Scalar {
    type V = ScalarView;

    open spec fn view(&self) -> ScalarView {
        match self {
            Scalar::Null => ScalarView::Null,
            Scalar::Bool(b) => ScalarView::Bool(*b),
            Scalar::UInt(n) => ScalarView::Int(*n as int),
            Scalar::Int(n) => ScalarView::Int(*n as int),
            Scalar::Text(s) => ScalarView::Text(s@),
        }
    }
}

/// One member of a flat JSON object.
#[derive(Debug)]
pub struct Field {
    pub key: String,
    pub value: Scalar,
}

/// Mathematical form of a [`Field`].
pub struct FieldView {
    pub key: Seq<char>,
    pub value: ScalarView,
}

impl View for Field {
    type V = FieldView;

    open spec fn view(&self) -> FieldView {
        FieldView { key: self.key@, value: self.value@ }
    }
}

/// What `serde_json` reports when it parses `text`: nothing when it is a
/// JSON value, the error's message otherwise.
pub uninterp spec fn json_error(text: Seq<char>) -> Option<Seq<char>>;

/// The text of the member `key` of the JSON object written in `text`.
pub uninterp spec fn json_member(text: Seq<char>, key: Seq<char>) -> Option<Seq<char>>;

/// The string that `text` denotes, when it is a JSON string.
pub uninterp spec fn json_string(text: Seq<char>) -> Option<Seq<char>>;

/// The text of the flat JSON object with these members.
pub uninterp spec fn json_object(fields: Seq<FieldView>) -> Seq<char>;

/// The string held by the member `key` of the object written in `text`.
pub open spec fn string_member(text: Seq<char>, key: Seq<char>) -> Option<Seq<char>> {
    match json_member(text, key) {
        Some(member) => json_string(member),
        None => None,
    }
}

/// Whether no member after the `i`-th has its key, so that the `i`-th is
/// the one that an object keeps under that key.
pub open spec fn is_last_of_key(fields: Seq<FieldView>, i: int) -> bool {
    forall|j: int| i < j < fields.len() ==> (#[trigger] fields[j]).key != fields[i].key
}

/// Calls `serde_json::from_str::<serde_json::Value>`. Claims only that the
/// outcome is a function of the text; the message is the error's `Display`.
#[verifier::external_body]
pub(crate) fn syntax_error(text: &str) -> (r: Option<String>)
    ensures
        opt_view(r) == json_error(text@),
{
    match serde_json::from_str::<serde_json::Value>(text) {
        Ok(_) => None,
        Err(e) => Some(e.to_string()),
    }
}

/// Calls `serde_json::from_str`, `Value::get` and the `Display` of
/// `serde_json::Value`. Claims that the outcome is a function of the text
/// and the key. Text that is no JSON object has no members.
#[verifier::external_body]
pub(crate) fn member(text: &str, key: &str) -> (r: Option<String>)
    ensures
        opt_view(r) == json_member(text@, key@),
{
    let value = serde_json::from_str::<serde_json::Value>(text).ok()?;
    value.get(key).map(|m| m.to_string())
}

/// Calls `serde_json::from_str` and `Value::as_str`. Claims that the outcome
/// is a function of the text.
#[verifier::external_body]
pub(crate) fn string_value(text: &str) -> (r: Option<String>)
    ensures
        opt_view(r) == json_string(text@),
{
    let value = serde_json::from_str::<serde_json::Value>(text).ok()?;
    value.as_str().map(|s| s.to_string())
}

/// Builds a `serde_json::Value` object member by member and calls its
/// `Display`. Claims that the text is a function of the members, that it
/// parses again, that a string written under a key is read back from it
/// unless a later member replaced it, and that no other key has a member.
#[verifier::external_body]
pub(crate) fn object_text(fields: &Vec<Field>) -> (r: String)
    ensures
        r@ == json_object(views(fields@)),
        json_error(r@) is None,
        forall|i: int|
            0 <= i < fields@.len() && is_last_of_key(views(fields@), i) ==> ((
            #[trigger] fields@[i]).value matches Scalar::Text(s) ==> string_member(
                r@,
                fields@[i].key@,
            ) == Some(s@)),
        forall|key: Seq<char>|
            (forall|i: int| 0 <= i < fields@.len() ==> (#[trigger] fields@[i]).key@ != key)
                ==> #[trigger] json_member(r@, key) is None,
{
    let mut map = serde_json::Map::new();
    for f in fields.iter() {
        let value = match &f.value {
            Scalar::Null => serde_json::Value::Null,
            Scalar::Bool(b) => serde_json::Value::Bool(*b),
            Scalar::UInt(n) => serde_json::Value::from(*n),
            Scalar::Int(n) => serde_json::Value::from(*n),
            Scalar::Text(s) => serde_json::Value::String(s.clone()),
        };
        map.insert(f.key.clone(), value);
    }
    serde_json::Value::Object(map).to_string()
}

/// Reads the string held by the member `key` of the object written in `text`:
/// the tools' results and the bodies of tool messages are such text.
pub fn read_string_member(text: &str, key: &str) -> (r: Option<String>)
    ensures
        opt_view(r) == string_member(text@, key@),
{
    match member(text, key) {
        Some(m) => string_value(m.as_str()),
        None => None,
    }
}

/// The members of `{"error": message}`.
pub open spec fn error_fields(message: Seq<char>) -> Seq<FieldView> {
    seq![FieldView { key: "error"@, value: ScalarView::Text(message) }]
}

/// The body that reports a failure to the model: `{"error": message}`.
pub fn error_body(message: &str) -> (r: String)
    ensures
        r@ == json_object(error_fields(message@)),
        json_error(r@) is None,
        string_member(r@, "error"@) == Some(message@),
{
    let mut fields: Vec<Field> = Vec::new();
    fields.push(text_field("error", message));
    assert(views(fields@) =~= error_fields(message@));
    let r = object_text(&fields);
    assert(is_last_of_key(views(fields@), 0));
    assert(fields@[0].value matches Scalar::Text(_));
    r
}

/// A member that holds a string.
pub fn text_field(key: &str, value: &str) -> (r: Field)
    ensures
        r@ == (FieldView { key: key@, value: ScalarView::Text(value@) }),
        r.value is Text,
{
    Field { key: key.to_owned(), value: Scalar::Text(value.to_owned()) }
}

/// A member that holds a truth value.
pub fn bool_field(key: &str, value: bool) -> (r: Field)
    ensures
        r@ == (FieldView { key: key@, value: ScalarView::Bool(value) }),
{
    Field { key: key.to_owned(), value: Scalar::Bool(value) }
}

/// A member that holds a natural number.
pub fn uint_field(key: &str, value: u64) -> (r: Field)
    ensures
        r@ == (FieldView { key: key@, value: ScalarView::Int(value as int) }),
{
    Field { key: key.to_owned(), value: Scalar::UInt(value) }
}

} // verus!
