//! The rules of the note and navigation tools.

pub mod navigation;
pub mod notes;
pub mod output;

use crate::json::{json_at, read_json, Json, JsonView};
use crate::text::{has_text, opt_str, texts};
use vstd::prelude::*;

verus! {

/// Where semantic searches are answered.
#[derive(Debug, Clone, Copy, PartialEq, Eq, Structural)]
pub enum SemanticMode {
    /// In this process.
    Local,
    /// By the shared daemon.
    Daemon,
}

/// How semantic searches are answered.
#[derive(Debug, Clone, PartialEq, Eq)]
pub struct SemanticRuntime {
    pub mode: SemanticMode,
    /// Whether there is a client of the daemon.
    pub daemon_client: bool,
    pub daemon_unavailable_reason: Option<String>,
    /// How many lexical hits a combined search starts from.
    pub prefetch_count: usize,
    /// Whether the daemon has the vault open.
    pub vault_ensured: bool,
}

/// The value of an optional field: a field that is there with the value `null` is
/// not one that is missing.
pub open spec fn optional_value(field: Option<Seq<char>>) -> Result<Option<JsonView>, Seq<char>> {
    match field {
        None => Ok(None),
        Some(document) => match json_at(document, ""@) {
            Ok(value) => Ok(Some(value)),
            Err(error) => Err(error),
        },
    }
}

/// The value of an optional field, given as the text of its JSON value.
pub fn deserialize_optional_json_value(field: Option<&str>) -> (result: Result<Option<Json>, String>)
    ensures
        match optional_value(opt_str(field)) {
            Ok(Some(value)) => result matches Ok(Some(found)) && found@ == value,
            Ok(None) => result matches Ok(None),
            Err(error) => result matches Err(failure) && failure@ == error,
        },
{
    match field {
        None => Ok(None),
        Some(document) => match read_json(document, "") {
            Ok(value) => Ok(Some(value)),
            Err(error) => Err(error),
        },
    }
}

/// Whether a value is an object; `null` counts as no object, and anything else is
/// refused.
pub open spec fn object_given(value: JsonView) -> Result<bool, Seq<char>> {
    match value {
        JsonView::Object => Ok(true),
        JsonView::Null => Ok(false),
        _ => Err("expected a JSON object or null"@),
    }
}

/// Whether a value is an object; `null` counts as no object.
pub fn accept_object(value: &Json) -> (result: Result<bool, String>)
    ensures
        match object_given(value@) {
            Ok(given) => result matches Ok(found) && found == given,
            Err(error) => result matches Err(failure) && failure@ == error,
        },
{
    match value {
        Json::Object => Ok(true),
        Json::Null => Ok(false),
        _ => Err("expected a JSON object or null".to_owned()),
    }
}

/// Whether an optional field holds an object: a missing one does not.
pub open spec fn optional_object(field: Option<Seq<char>>) -> Result<bool, Seq<char>> {
    match field {
        None => Ok(false),
        Some(document) => match json_at(document, ""@) {
            Ok(value) => object_given(value),
            Err(error) => Err(error),
        },
    }
}

/// Whether an optional field, given as the text of its JSON value, holds an
/// object.
pub fn deserialize_optional_json_object(field: Option<&str>) -> (result: Result<bool, String>)
    ensures
        match optional_object(opt_str(field)) {
            Ok(given) => result matches Ok(found) && found == given,
            Err(error) => result matches Err(failure) && failure@ == error,
        },
{
    match field {
        None => Ok(false),
        Some(document) => match read_json(document, "") {
            Ok(value) => accept_object(&value),
            Err(error) => Err(error),
        },
    }
}

/// The names of the tools.
pub open spec fn tool_names() -> Seq<Seq<char>> {
    seq![
        "vault_list"@,
        "note_read"@,
        "note_read_many"@,
        "note_create"@,
        "note_write"@,
        "note_insert"@,
        "note_patch"@,
        "note_delete"@,
        "note_move"@,
        "search_text"@,
        "search_regex"@,
        "search_metadata"@,
        "search_semantic"@,
        "note_inspect"@,
        "frontmatter"@,
        "wikilinks"@,
        "periodic"@,
        "vault_info"@,
        "open_in_obsidian"@,
    ]
}

/// The names of the tools.
pub fn all_tool_names() -> (names: Vec<String>)
    ensures
        texts(names@) == tool_names(),
{
    let mut names: Vec<String> = Vec::new();
    names.push("vault_list".to_owned());
    names.push("note_read".to_owned());
    names.push("note_read_many".to_owned());
    names.push("note_create".to_owned());
    names.push("note_write".to_owned());
    names.push("note_insert".to_owned());
    names.push("note_patch".to_owned());
    names.push("note_delete".to_owned());
    names.push("note_move".to_owned());
    names.push("search_text".to_owned());
    names.push("search_regex".to_owned());
    names.push("search_metadata".to_owned());
    names.push("search_semantic".to_owned());
    names.push("note_inspect".to_owned());
    names.push("frontmatter".to_owned());
    names.push("wikilinks".to_owned());
    names.push("periodic".to_owned());
    names.push("vault_info".to_owned());
    names.push("open_in_obsidian".to_owned());
    assert(texts(names@) =~= tool_names());
    names
}

/// The tools that a server offers.
pub struct ToolRoutes {
    names: Vec<String>,
    disabled: Vec<String>,
}

impl View for ToolRoutes {
    type V = Set<Seq<char>>;

    closed spec fn view(&self) -> Set<Seq<char>> {
        texts(self.names@).to_set().difference(texts(self.disabled@).to_set())
    }
}

impl ToolRoutes {
    /// All tools but the disabled ones.
    pub fn new(disabled: Vec<String>) -> (routes: ToolRoutes)
        ensures
            routes@ == tool_names().to_set().difference(texts(disabled@).to_set()),
    {
        ToolRoutes { names: all_tool_names(), disabled }
    }

    /// Whether a tool is offered.
    pub fn has_route(&self, name: &str) -> (offered: bool)
        ensures
            offered == self@.contains(name@),
    {
        has_text(self.names.as_slice(), name) && !has_text(self.disabled.as_slice(), name)
    }
}

} // verus!
