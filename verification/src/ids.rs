//! Instance identifiers.

use vstd::prelude::*;

verus! {

/// Trusted: the error of a failed UUID parse, kept opaque. Its text is given by
/// [`uuid_error_text`].
#[verifier::external_type_specification]
#[verifier::external_body]
pub struct ExUuidError(uuid::Error);

/// The text that a UUID parse error prints.
pub uninterp spec fn uuid_error_text(error: uuid::Error) -> Seq<char>;

/// What parsing a text as a UUID gives: its value, or the text of the error.
pub uninterp spec fn uuid_parse(text: Seq<char>) -> Result<u128, Seq<char>>;

/// Trusted: `uuid::Uuid::parse_str`, the UUID taken as its 128-bit value. Whether
/// a text is a UUID, which one it is, and which error it gives otherwise are a
/// function of the text, named by [`uuid_parse`].
#[verifier::external_body]
fn parse_str(text: &str) -> (parsed: Result<u128, uuid::Error>)
    ensures
        match parsed {
            Ok(v) => uuid_parse(text@) == Ok::<u128, Seq<char>>(v),
            Err(e) => uuid_parse(text@) == Err::<u128, Seq<char>>(uuid_error_text(e)),
        },
{
    uuid::Uuid::parse_str(text).map(|id| id.as_u128())
}

/// Trusted: the `Display` text of a `uuid::Error`, named by [`uuid_error_text`].
#[verifier::external_body]
fn error_text(error: &uuid::Error) -> (text: String)
    ensures
        text@ == uuid_error_text(*error),
{
    error.to_string()
}

/// The outcome of a parse.
pub open spec fn id_view(parsed: Result<u128, String>) -> Result<u128, Seq<char>> {
    match parsed {
        Ok(v) => Ok(v),
        Err(e) => Err(e@),
    }
}

/// Parses a text as a UUID; the error is given by its text.
pub fn parse_id(text: &str) -> (parsed: Result<u128, String>)
    ensures
        id_view(parsed) == uuid_parse(text@),
        parsed matches Ok(v) ==> uuid_parse(text@) == Ok::<u128, Seq<char>>(v),
        parsed matches Err(e) ==> uuid_parse(text@) == Err::<u128, Seq<char>>(e@),
{
    match parse_str(text) {
        Ok(v) => Ok(v),
        Err(e) => Err(error_text(&e)),
    }
}

} // verus!
