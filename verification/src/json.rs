//! JSON documents.

use vstd::prelude::*;

verus! {

/// Trusted: the type of a parsed JSON document, kept opaque. What it holds is
/// given by [`json_view`].
#[verifier::external_type_specification]
#[verifier::external_body]
pub struct ExJsonValue(serde_json::Value);

/// Trusted: the error of a failed parse, kept opaque. Its text is given by
/// [`json_error_text`].
#[verifier::external_type_specification]
#[verifier::external_body]
pub struct ExJsonError(serde_json::Error);

/// A JSON document. A number is given by its digits as printed.
pub enum Json {
    Null,
    Bool(bool),
    Number(Seq<char>),
    Text(Seq<char>),
    Array(Seq<Json>),
    Object(Map<Seq<char>, Json>),
}

impl Json {
    /// The text of the member `key`, where the document is an object that has
    /// such a member and the member is a string.
    pub open spec fn text_member(self, key: Seq<char>) -> Option<Seq<char>> {
        match self {
            Json::Object(members) => if members.contains_key(key) {
                match members[key] {
                    Json::Text(t) => Some(t),
                    _ => None,
                }
            } else {
                None
            },
            _ => None,
        }
    }
}

/// The document that a parsed value holds.
pub uninterp spec fn json_view(value: serde_json::Value) -> Json;

/// The text that a parse error prints.
pub uninterp spec fn json_error_text(error: serde_json::Error) -> Seq<char>;

/// What parsing a text as JSON gives: the document, or the text of the error.
pub uninterp spec fn json_parse(text: Seq<char>) -> Result<Json, Seq<char>>;

/// Trusted: `serde_json::from_str` into a `serde_json::Value`. Whether a text is
/// a JSON document, which document it is, and which error it gives otherwise are
/// a function of the text, named by [`json_parse`].
#[verifier::external_body]
fn from_str(text: &str) -> (parsed: Result<serde_json::Value, serde_json::Error>)
    ensures
        match parsed {
            Ok(v) => json_parse(text@) == Ok::<Json, Seq<char>>(json_view(v)),
            Err(e) => json_parse(text@) == Err::<Json, Seq<char>>(json_error_text(e)),
        },
{
    serde_json::from_str(text)
}

/// Trusted: the `Display` text of a `serde_json::Error`, named by
/// [`json_error_text`].
#[verifier::external_body]
fn error_text(error: &serde_json::Error) -> (text: String)
    ensures
        text@ == json_error_text(*error),
{
    error.to_string()
}

/// Trusted: `serde_json::Value::get` with a string key gives the member of that
/// name of an object, and nothing where there is none or the value is no object.
#[verifier::external_body]
fn get<'a>(value: &'a serde_json::Value, key: &str) -> (member: Option<&'a serde_json::Value>)
    ensures
        match member {
            Some(m) => json_view(*value) matches Json::Object(o) && o.contains_key(key@)
                && o[key@] == json_view(*m),
            None => !(json_view(*value) matches Json::Object(o) && o.contains_key(key@)),
        },
{
    value.get(key)
}

/// Trusted: `serde_json::Value::as_str` gives the text of a JSON string, and
/// nothing for any other value.
#[verifier::external_body]
fn as_str(value: &serde_json::Value) -> (text: Option<&str>)
    ensures
        match text {
            Some(t) => json_view(*value) == Json::Text(t@),
            None => !(json_view(*value) is Text),
        },
{
    value.as_str()
}

/// Parses a text as JSON; the error is given by its text.
pub fn parse(text: &str) -> (parsed: Result<serde_json::Value, String>)
    ensures
        match parsed {
            Ok(v) => json_parse(text@) == Ok::<Json, Seq<char>>(json_view(v)),
            Err(e) => json_parse(text@) == Err::<Json, Seq<char>>(e@),
        },
{
    match from_str(text) {
        Ok(v) => Ok(v),
        Err(e) => Err(error_text(&e)),
    }
}

/// The text of the member `key` of a JSON object.
pub fn text_member<'a>(value: &'a serde_json::Value, key: &str) -> (text: Option<&'a str>)
    ensures
        text is Some <==> json_view(*value).text_member(key@) is Some,
        text matches Some(t) ==> json_view(*value).text_member(key@) == Some(t@),
{
    match get(value, key) {
        Some(m) => as_str(m),
        None => None,
    }
}

/// A member has a text if and only if the document is an object that has the member
/// and the member is that text.
pub proof fn law_text_member_is_a_text_of_an_object(doc: Json, key: Seq<char>, text: Seq<char>)
    ensures
        doc.text_member(key) == Some(text) <==> (doc is Object && doc->Object_0.contains_key(key)
            && doc->Object_0[key] == Json::Text(text)),
{
}

} // verus!
