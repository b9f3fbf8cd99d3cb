//! JSON documents as plain trees, and the lookups in them that find the text
//! of a provider's reply.

use crate::provider::Provider;
use crate::text::{first_match, lemma_first_match, same_text};
use vstd::prelude::*;

verus! {

/// A JSON value of `serde_json`, carried through unopened.
#[verifier::external_type_specification]
#[verifier::external_body]
pub struct ExValue(serde_json::Value);

/// The error with which `serde_json` refuses a text, carried through unopened.
#[verifier::external_type_specification]
#[verifier::external_body]
pub struct ExError(serde_json::Error);

/// A JSON document as a tree of plain values. A number is kept as a leaf
/// without its value, which no lookup reads.
#[derive(Debug, PartialEq, Eq)]
pub enum Json {
    Null,
    Bool(bool),
    Number,
    Text(String),
    Array(Vec<Json>),
    /// The fields of an object, each name once.
    Object(Vec<(String, Json)>),
}

/// Why the body of a reply could not be read.
#[derive(Debug, Clone, PartialEq, Eq)]
pub enum ReplyError {
    /// The body is not JSON; the message says where and why.
    Malformed(String),
}

/// The tree that `serde_json::from_str` reads from a text, or nothing where
/// it refuses the text.
pub uninterp spec fn json_reading(body: Seq<char>) -> Option<Json>;

/// Whether a field has the given name.
pub open spec fn is_named(key: Seq<char>) -> spec_fn((String, Json)) -> bool {
    |field: (String, Json)| field.0@ == key
}

impl Json {
    /// The value of the first field named `key`, where this is an object
    /// that has one.
    pub open spec fn spec_member(self, key: Seq<char>) -> Option<Json> {
        match self {
            Json::Object(fields) => {
                let position = first_match(fields@, is_named(key));
                if 0 <= position < fields@.len() {
                    Some(fields@[position].1)
                } else {
                    None
                }
            },
            _ => None,
        }
    }

    /// The item at `position`, where this is an array that has one.
    pub open spec fn spec_element(self, position: nat) -> Option<Json> {
        match self {
            Json::Array(items) => if position < items@.len() {
                Some(items@[position as int])
            } else {
                None
            },
            _ => None,
        }
    }

    /// The text, where this is a string.
    pub open spec fn spec_text(self) -> Option<Seq<char>> {
        match self {
            Json::Text(text) => Some(text@),
            _ => None,
        }
    }

    /// The value of the first field named `key`, where this is an object
    /// that has one.
    pub fn member(&self, key: &str) -> (value: Option<&Json>)
        ensures
            match self.spec_member(key@) {
                Some(found) => value == Some(&found),
                None => value is None,
            },
    {
        match self {
            Json::Object(fields) => {
                let mut i: usize = 0;
                while i < fields.len()
                    invariant
                        i <= fields.len(),
                        *self == Json::Object(*fields),
                        forall|k: int| 0 <= k < i ==> !is_named(key@)(fields@[k]),
                    decreases fields.len() - i,
                {
                    if same_text(fields[i].0.as_str(), key) {
                        proof {
                            lemma_first_match(fields@, is_named(key@), i as int);
                        }
                        return Some(&fields[i].1);
                    }
                    i += 1;
                }
                proof {
                    lemma_first_match(fields@, is_named(key@), i as int);
                }
                None
            },
            _ => None,
        }
    }

    /// The item at `position`, where this is an array that has one.
    pub fn element(&self, position: usize) -> (value: Option<&Json>)
        ensures
            match self.spec_element(position as nat) {
                Some(found) => value == Some(&found),
                None => value is None,
            },
    {
        match self {
            Json::Array(items) => {
                if position < items.len() {
                    Some(&items[position])
                } else {
                    None
                }
            },
            _ => None,
        }
    }

    /// The text, where this is a string.
    pub fn as_text(&self) -> (text: Option<&str>)
        ensures
            match self.spec_text() {
                Some(found) => text matches Some(held) && held@ == found,
                None => text is None,
            },
    {
        match self {
            Json::Text(text) => Some(text.as_str()),
            _ => None,
        }
    }
}

/// The text of the reply in the tree that a provider answers with: for
/// Hyperbolic the string `text` of the first of the `choices`, for
/// OpenRouter the string `content` of the `message` of the first of the
/// `choices`. There is no text where any of these is missing or of another
/// kind.
pub open spec fn spec_reply_text(provider: Provider, reply: Json) -> Option<Seq<char>> {
    match reply.spec_member("choices"@) {
        Some(choices) => match choices.spec_element(0) {
            Some(first) => match provider {
                Provider::Hyperbolic => match first.spec_member("text"@) {
                    Some(text) => text.spec_text(),
                    None => None,
                },
                Provider::OpenRouter => match first.spec_member("message"@) {
                    Some(message) => match message.spec_member("content"@) {
                        Some(content) => content.spec_text(),
                        None => None,
                    },
                    None => None,
                },
            },
            None => None,
        },
        None => None,
    }
}

/// The text of the reply in the tree that a provider answers with.
pub fn reply_text_in(provider: Provider, reply: &Json) -> (text: Option<String>)
    ensures
        match spec_reply_text(provider, *reply) {
            Some(found) => text matches Some(held) && held@ == found,
            None => text is None,
        },
{
    let first = match reply.member("choices") {
        Some(choices) => match choices.element(0) {
            Some(first) => first,
            None => {
                return None;
            },
        },
        None => {
            return None;
        },
    };
    let holder = match provider {
        Provider::Hyperbolic => first.member("text"),
        Provider::OpenRouter => match first.member("message") {
            Some(message) => message.member("content"),
            None => None,
        },
    };
    match holder {
        Some(value) => match value.as_text() {
            Some(text) => Some(text.to_owned()),
            None => None,
        },
        None => None,
    }
}

/// The tree for a value of `serde_json`, variant by variant: the items of an
/// array in their order, the fields of an object in the order in which its map
/// walks them.
#[verifier::external_body]
fn json_of(value: serde_json::Value) -> (json: Json) {
    match value {
        serde_json::Value::Null => Json::Null,
        serde_json::Value::Bool(b) => Json::Bool(b),
        serde_json::Value::Number(_) => Json::Number,
        serde_json::Value::String(s) => Json::Text(s),
        serde_json::Value::Array(items) => Json::Array(items.into_iter().map(json_of).collect()),
        serde_json::Value::Object(fields) => Json::Object(
            fields.into_iter().map(|(name, value)| (name, json_of(value))).collect(),
        ),
    }
}

/// `serde_json::from_str`, which reads the whole text as one JSON value or
/// refuses it. The tree that comes back is the reading of the text; an error
/// comes back exactly where the text has no reading.
#[verifier::external_body]
fn read_json(body: &str) -> (reading: Result<Json, serde_json::Error>)
    ensures
        match reading {
            Ok(json) => json_reading(body@) == Some(json),
            Err(_) => json_reading(body@) is None,
        },
{
    serde_json::from_str::<serde_json::Value>(body).map(json_of)
}

/// The message of an error of `serde_json`, as its `Display` writes it.
#[verifier::external_body]
fn error_message(error: &serde_json::Error) -> (message: String) {
    error.to_string()
}

/// The text of the reply in the body that a provider answers with. An empty
/// body holds no text, and is no error; any other body is read as JSON.
pub fn reply_text(provider: Provider, body: &str) -> (text: Result<Option<String>, ReplyError>)
    ensures
        body@.len() == 0 ==> text == Ok::<Option<String>, ReplyError>(None),
        body@.len() > 0 ==> match json_reading(body@) {
            Some(reply) => match spec_reply_text(provider, reply) {
                Some(found) => text matches Ok(Some(held)) && held@ == found,
                None => text == Ok::<Option<String>, ReplyError>(None),
            },
            None => text is Err,
        },
{
    if body.is_empty() {
        return Ok(None);
    }
    match read_json(body) {
        Ok(reply) => Ok(reply_text_in(provider, &reply)),
        Err(error) => Err(ReplyError::Malformed(error_message(&error))),
    }
}

} // verus!
