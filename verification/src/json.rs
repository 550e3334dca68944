//! Reading JSON documents and quoting texts for them.

use vstd::prelude::*;

verus! {

/// A value in a JSON document. What a list or an object holds is reached by its
/// own pointer.
#[derive(Debug, PartialEq, Eq)]
pub enum Json {
    /// There is no value at the pointer.
    Missing,
    Null,
    Bool(bool),
    /// An integer that fits.
    Integer(i64),
    /// Any other number.
    OtherNumber,
    Text(String),
    List,
    Object,
}

/// A value in a JSON document, with its text as characters.
pub enum JsonView {
    Missing,
    Null,
    Bool(bool),
    Integer(i64),
    OtherNumber,
    Text(Seq<char>),
    List,
    Object,
}

impl View for Json {
    type V = JsonView;

    open spec fn view(&self) -> JsonView {
        match self {
            Json::Missing => JsonView::Missing,
            Json::Null => JsonView::Null,
            Json::Bool(value) => JsonView::Bool(*value),
            Json::Integer(value) => JsonView::Integer(*value),
            Json::OtherNumber => JsonView::OtherNumber,
            Json::Text(text) => JsonView::Text(text@),
            Json::List => JsonView::List,
            Json::Object => JsonView::Object,
        }
    }
}

/// A read value or the message of the error.
pub open spec fn json_result(result: Result<Json, String>) -> Result<JsonView, Seq<char>> {
    match result {
        Ok(value) => Ok(value@),
        Err(error) => Err(error@),
    }
}

/// What `serde_json` finds at a pointer of a document, or what it says of a text
/// that is no document.
pub uninterp spec fn json_at(document: Seq<char>, pointer: Seq<char>) -> Result<
    JsonView,
    Seq<char>,
>;

/// `serde_json::from_str` of a document as a `serde_json::Value`, and
/// `Value::pointer` on it. What a document holds is not said here.
#[verifier::external_body]
pub(crate) fn read_json(document: &str, pointer: &str) -> (result: Result<Json, String>)
    ensures
        json_result(result) == json_at(document@, pointer@),
{
    let value: serde_json::Value = serde_json::from_str(document).map_err(|e| e.to_string())?;
    Ok(match value.pointer(pointer) {
        None => Json::Missing,
        Some(serde_json::Value::Null) => Json::Null,
        Some(serde_json::Value::Bool(value)) => Json::Bool(*value),
        Some(serde_json::Value::Number(value)) => {
            value.as_i64().map_or(Json::OtherNumber, Json::Integer)
        },
        Some(serde_json::Value::String(value)) => Json::Text(value.clone()),
        Some(serde_json::Value::Array(_)) => Json::List,
        Some(serde_json::Value::Object(_)) => Json::Object,
    })
}

/// The JSON string that `serde_json` writes for a text.
pub uninterp spec fn json_quoted(text: Seq<char>) -> Seq<char>;

/// `serde_json::Value::String(..).to_string()`: the JSON string for a text. How
/// characters are escaped is not said here.
#[verifier::external_body]
pub(crate) fn quote_json(text: &str) -> (quoted: String)
    ensures
        quoted@ == json_quoted(text@),
{
    serde_json::Value::String(text.to_owned()).to_string()
}

} // verus!
