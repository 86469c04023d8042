//! The body of a request that carries a note: JSON text with a title and a
//! content.

use vstd::prelude::*;

verus! {

/// A JSON value of `serde_json`, opaque to the proofs.
#[verifier::external_type_specification]
#[verifier::external_body]
pub struct ExJsonValue(serde_json::Value);

/// The error of `serde_json`, opaque to the proofs.
#[verifier::external_type_specification]
#[verifier::external_body]
pub struct ExJsonError(serde_json::Error);

/// The members of a JSON value that are strings, by key. A value that is no
/// object has none.
pub uninterp spec fn text_members(value: serde_json::Value) -> Map<Seq<char>, Seq<char>>;

/// The string members of the value that a text stands for in JSON; `None`
/// for a text that is no JSON.
pub uninterp spec fn json_text_members(text: Seq<char>) -> Option<Map<Seq<char>, Seq<char>>>;

/// Calls `serde_json::from_str` for a `serde_json::Value`.
///
/// Trusted: the outcome depends on the text alone. A text that parses gives
/// the value whose string members `json_text_members` names; any other text
/// gives an error.
#[verifier::external_body]
fn parse_json(text: &str) -> (parsed: Result<serde_json::Value, serde_json::Error>)
    ensures
        match parsed {
            Ok(value) => json_text_members(text@) == Some(text_members(value)),
            Err(_) => json_text_members(text@) is None,
        },
{
    serde_json::from_str::<serde_json::Value>(text)
}

/// Indexes a `serde_json::Value` by a string key and asks the member for its
/// string with `Value::as_str`.
///
/// Trusted: the result is the member's text exactly when the value is an
/// object that holds a string under the key; indexing by a key that is
/// absent, or a value that is no object, gives null, which is no string.
#[verifier::external_body]
fn text_member(value: &serde_json::Value, key: &str) -> (member: Option<String>)
    ensures
        match member {
            Some(text) => text_members(*value).contains_key(key@) && text_members(*value)[key@]
                == text@,
            None => !text_members(*value).contains_key(key@),
        },
{
    match value[key].as_str() {
        Some(text) => Some(text.to_owned()),
        None => None,
    }
}

/// Why a body gives no note.
#[derive(Clone, Copy, Debug, PartialEq, Eq, Structural)]
pub enum BodyError {
    /// The body is no JSON text.
    NotJson,
    /// There is no string under `title`.
    NoTitle,
    /// There is no string under `content`.
    NoContent,
}

/// The mathematical content of a draft.
pub struct NoteDraftView {
    pub title: Seq<char>,
    pub content: Seq<char>,
}

/// A note that has no key yet: what a client sends to have it stored.
#[derive(Debug)]
pub struct NoteDraft {
    title: String,
    content: String,
}

impl View for NoteDraft {
    type V = NoteDraftView;

    closed spec fn view(&self) -> NoteDraftView {
        NoteDraftView { title: self.title@, content: self.content@ }
    }
}

/// The draft that a set of string members gives. The title is asked for
/// first.
pub open spec fn draft_of(members: Map<Seq<char>, Seq<char>>) -> Result<NoteDraftView, BodyError> {
    if !members.contains_key("title"@) {
        Err(BodyError::NoTitle)
    } else if !members.contains_key("content"@) {
        Err(BodyError::NoContent)
    } else {
        Ok(NoteDraftView { title: members["title"@], content: members["content"@] })
    }
}

/// Whether `got` is what `expected` says, a draft being taken by its view.
pub open spec fn draft_matches(
    got: Result<NoteDraft, BodyError>,
    expected: Result<NoteDraftView, BodyError>,
) -> bool {
    match got {
        Ok(draft) => expected == Ok::<NoteDraftView, BodyError>(draft@),
        Err(e) => expected == Err::<NoteDraftView, BodyError>(e),
    }
}

impl NoteDraft {
    /// The draft that a JSON value holds: the strings under `title` and
    /// `content`.
    pub fn from_value(value: &serde_json::Value) -> (draft: Result<NoteDraft, BodyError>)
        ensures
            draft_matches(draft, draft_of(text_members(*value))),
    {
        let title = match text_member(value, "title") {
            Some(title) => title,
            None => {
                return Err(BodyError::NoTitle);
            },
        };
        let content = match text_member(value, "content") {
            Some(content) => content,
            None => {
                return Err(BodyError::NoContent);
            },
        };
        Ok(NoteDraft { title, content })
    }

    /// Reads a draft from the body of a request.
    pub fn parse(body: &str) -> (draft: Result<NoteDraft, BodyError>)
        ensures
            match json_text_members(body@) {
                Some(members) => draft_matches(draft, draft_of(members)),
                None => draft == Err::<NoteDraft, BodyError>(BodyError::NotJson),
            },
    {
        match parse_json(body) {
            Ok(value) => NoteDraft::from_value(&value),
            Err(_) => Err(BodyError::NotJson),
        }
    }

    /// The title of the draft.
    pub fn title(&self) -> (title: &str)
        ensures
            title@ == self@.title,
    {
        self.title.as_str()
    }

    /// The text of the draft.
    pub fn content(&self) -> (content: &str)
        ensures
            content@ == self@.content,
    {
        self.content.as_str()
    }
}

} // verus!
