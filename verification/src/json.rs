use vstd::prelude::*;
use vstd::string::*;
use crate::errors::AppError;
use crate::text::same_text;

verus! {

/// The JSON value of the `serde_json` crate; nothing of its inside is used here.
#[verifier::external_type_specification]
#[verifier::external_body]
pub struct ExValue(serde_json::Value);

/// A JSON document as a tree of plain values.
///
/// A number keeps the text of its literal; `crate::fixed` turns that text
/// into a fixed-point integer. An object keeps its members in a list, and a
/// lookup answers with the first member that carries the key.
#[derive(Debug, PartialEq, Eq)]
pub enum Json {
    Null,
    Bool(bool),
    Number(String),
    Text(String),
    Array(Vec<Json>),
    Object(Vec<(String, Json)>),
}

/// The value of the first member of `entries` whose key is `key`.
pub open spec fn first_with_key(entries: Seq<(String, Json)>, key: Seq<char>) -> Option<Json>
    decreases entries.len(),
{
    if entries.len() == 0 {
        None
    } else if entries[0].0@ == key {
        Some(entries[0].1)
    } else {
        first_with_key(entries.drop_first(), key)
    }
}

/// The value behind an optional reference.
pub open spec fn owned(value: Option<&Json>) -> Option<Json> {
    match value {
        Some(v) => Some(*v),
        None => None,
    }
}

/// The member `key` of a value that may be absent.
pub open spec fn spec_member_of(value: Option<Json>, key: Seq<char>) -> Option<Json> {
    match value {
        Some(v) => v.spec_member(key),
        None => None,
    }
}

/// The item at `index` of a value that may be absent.
pub open spec fn spec_item_of(value: Option<Json>, index: int) -> Option<Json> {
    match value {
        Some(v) => v.spec_item(index),
        None => None,
    }
}

/// The characters of a value that may be absent.
pub open spec fn spec_text_of(value: Option<Json>) -> Option<Seq<char>> {
    match value {
        Some(v) => v.spec_text(),
        None => None,
    }
}

/// The characters of a string value; the empty text for anything else.
pub open spec fn spec_text_or_empty(value: Option<Json>) -> Seq<char> {
    match spec_text_of(value) {
        Some(text) => text,
        None => Seq::<char>::empty(),
    }
}

/// The truth value of a value that may be absent.
pub open spec fn spec_truth_of(value: Option<Json>) -> Option<bool> {
    match value {
        Some(v) => v.spec_truth(),
        None => None,
    }
}

impl Json {
    /// The member `key` of an object; `None` for a missing member and for
    /// anything that is not an object.
    pub open spec fn spec_member(self, key: Seq<char>) -> Option<Json> {
        match self {
            Json::Object(entries) => first_with_key(entries@, key),
            _ => None,
        }
    }

    /// The items of an array; `None` for anything else.
    pub open spec fn spec_items(self) -> Option<Seq<Json>> {
        match self {
            Json::Array(items) => Some(items@),
            _ => None,
        }
    }

    /// The item at `index` of an array; `None` out of range and for anything
    /// that is not an array.
    pub open spec fn spec_item(self, index: int) -> Option<Json> {
        match self {
            Json::Array(items) => if 0 <= index < items@.len() {
                Some(items@[index])
            } else {
                None
            },
            _ => None,
        }
    }

    /// The characters of a string value; `None` for anything else.
    pub open spec fn spec_text(self) -> Option<Seq<char>> {
        match self {
            Json::Text(s) => Some(s@),
            _ => None,
        }
    }

    /// The literal of a number; `None` for anything else.
    pub open spec fn spec_number(self) -> Option<Seq<char>> {
        match self {
            Json::Number(s) => Some(s@),
            _ => None,
        }
    }

    /// The truth value of a boolean; `None` for anything else.
    pub open spec fn spec_truth(self) -> Option<bool> {
        match self {
            Json::Bool(b) => Some(b),
            _ => None,
        }
    }

    /// The member `key` of an object.
    pub fn member(&self, key: &str) -> (found: Option<&Json>)
        ensures
            owned(found) == self.spec_member(key@),
    {
        match self {
            Json::Object(entries) => {
                let mut i: usize = 0;
                assert(entries@.skip(0) =~= entries@);
                while i < entries.len()
                    invariant
                        i <= entries.len(),
                        self.spec_member(key@) == first_with_key(entries@.skip(i as int), key@),
                    decreases entries.len() - i,
                {
                    let ghost rest = entries@.skip(i as int);
                    assert(rest[0] == entries@[i as int]);
                    assert(rest.drop_first() =~= entries@.skip(i + 1));
                    if same_text(entries[i].0.as_str(), key) {
                        return Some(&entries[i].1);
                    }
                    i += 1;
                }
                None
            },
            _ => None,
        }
    }

    /// The item at `index` of an array.
    pub fn item(&self, index: usize) -> (found: Option<&Json>)
        ensures
            owned(found) == self.spec_item(index as int),
    {
        match self {
            Json::Array(items) => if index < items.len() {
                Some(&items[index])
            } else {
                None
            },
            _ => None,
        }
    }

    /// The items of an array.
    pub fn items(&self) -> (found: Option<&Vec<Json>>)
        ensures
            match found {
                Some(list) => self.spec_items() == Some(list@),
                None => self.spec_items() is None,
            },
    {
        match self {
            Json::Array(items) => Some(items),
            _ => None,
        }
    }

    /// The characters of a string value.
    pub fn text(&self) -> (found: Option<&str>)
        ensures
            match found {
                Some(s) => self.spec_text() == Some(s@),
                None => self.spec_text() is None,
            },
    {
        match self {
            Json::Text(s) => Some(s.as_str()),
            _ => None,
        }
    }

    /// The literal of a number.
    pub fn number(&self) -> (found: Option<&str>)
        ensures
            match found {
                Some(s) => self.spec_number() == Some(s@),
                None => self.spec_number() is None,
            },
    {
        match self {
            Json::Number(s) => Some(s.as_str()),
            _ => None,
        }
    }

    /// The truth value of a boolean.
    pub fn truth(&self) -> (found: Option<bool>)
        ensures
            found == self.spec_truth(),
    {
        match self {
            Json::Bool(b) => Some(*b),
            _ => None,
        }
    }
}

/// The member `key` of a value that may be absent.
pub fn member_of<'a>(value: Option<&'a Json>, key: &str) -> (found: Option<&'a Json>)
    ensures
        owned(found) == spec_member_of(owned(value), key@),
{
    match value {
        Some(v) => v.member(key),
        None => None,
    }
}

/// The item at `index` of a value that may be absent.
pub fn item_of<'a>(value: Option<&'a Json>, index: usize) -> (found: Option<&'a Json>)
    ensures
        owned(found) == spec_item_of(owned(value), index as int),
{
    match value {
        Some(v) => v.item(index),
        None => None,
    }
}

/// The characters of a value that may be absent.
pub fn text_of<'a>(value: Option<&'a Json>) -> (found: Option<&'a str>)
    ensures
        match found {
            Some(s) => spec_text_of(owned(value)) == Some(s@),
            None => spec_text_of(owned(value)) is None,
        },
{
    match value {
        Some(v) => v.text(),
        None => None,
    }
}

/// The characters of a string value as an owned text; the empty text for
/// anything else.
pub fn text_or_empty(value: Option<&Json>) -> (text: String)
    ensures
        text@ == spec_text_or_empty(owned(value)),
{
    match text_of(value) {
        Some(s) => String::from_str(s),
        None => String::new(),
    }
}

/// The truth value of a value that may be absent.
pub fn truth_of(value: Option<&Json>) -> (found: Option<bool>)
    ensures
        found == spec_truth_of(owned(value)),
{
    match value {
        Some(v) => v.truth(),
        None => None,
    }
}

/// The tree that `serde_json` reads from a JSON text; `None` where it
/// reports an error.
pub uninterp spec fn json_of_text(text: Seq<char>) -> Option<Json>;

/// Copies a `serde_json::Value` into a `Json`, node by node: a number as the
/// text that `serde_json::Number` displays, an object's members in the order
/// in which `serde_json::Map` walks them.
#[verifier::external_body]
fn json_from_value(value: &serde_json::Value) -> Json {
    match value {
        serde_json::Value::Null => Json::Null,
        serde_json::Value::Bool(b) => Json::Bool(*b),
        serde_json::Value::Number(n) => Json::Number(n.to_string()),
        serde_json::Value::String(s) => Json::Text(s.clone()),
        serde_json::Value::Array(items) => Json::Array(items.iter().map(json_from_value).collect()),
        serde_json::Value::Object(members) => Json::Object(
            members.iter().map(|(key, value)| (key.clone(), json_from_value(value))).collect(),
        ),
    }
}

/// Calls `serde_json::from_str` for a `serde_json::Value`. The result is a
/// function of the text alone, so it has the name `json_of_text`; nothing
/// else is claimed of it.
#[verifier::external_body]
fn read_json(text: &str) -> (parsed: Option<Json>)
    ensures
        parsed == json_of_text(text@),
{
    serde_json::from_str::<serde_json::Value>(text).ok().map(|value| json_from_value(&value))
}

/// Reads a JSON text that an upstream service sent.
pub fn parse_json(text: &str) -> (parsed: Result<Json, AppError>)
    ensures
        match json_of_text(text@) {
            Some(tree) => parsed == Ok::<Json, AppError>(tree),
            None => parsed == Err::<Json, AppError>(AppError::Upstream),
        },
{
    match read_json(text) {
        Some(tree) => Ok(tree),
        None => Err(AppError::Upstream),
    }
}

} // verus!
