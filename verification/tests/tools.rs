//! The note and navigation tools.

use obsidian_mcp::error::VaultError;
use obsidian_mcp::json::Json;
use obsidian_mcp::tools::navigation::{
    list_entries, list_entry, list_format, listed_paths, tree_listing, wants_metadata, ListFormat,
    NoteSummary, VaultListParams,
};
use obsidian_mcp::tools::notes::{
    check_deletion, confirmation, directory_candidates, has_note_extension, initial_content,
    insert_position, patch_request, plan_read, validated_limit, InsertPosition, ListedFile,
    NoteChange, NoteCreateParams, NoteDeleteParams, NotePatchParams, NoteReadManyOutput,
    NoteReadManyParams, NoteReadManySkipReason, NoteReadManySkipped, PatchOperation,
    PatchTargetType, ReadAction, ReadSelector, ReadSession, MAX_FILES_CAP, MAX_SKIPPED_DETAILS,
};
use obsidian_mcp::tools::output::{
    content, failure_error, message, results, NoteFailure, ToolError, INTERNAL_ERROR, INVALID_PARAMS,
    RESOURCE_NOT_FOUND,
};
use obsidian_mcp::tools::{
    accept_object, all_tool_names, deserialize_optional_json_object,
    deserialize_optional_json_value, ToolRoutes,
};
use unicode_normalization::UnicodeNormalization;

/// A vault in memory: paths with the bytes of their files.
struct Files(Vec<(String, Vec<u8>)>);

impl Files {
    fn new(files: &[(&str, &[u8])]) -> Files {
        Files(files.iter().map(|(path, bytes)| (path.to_string(), bytes.to_vec())).collect())
    }

    fn find(&self, path: &str) -> Result<&(String, Vec<u8>), VaultError> {
        let wanted: String = path.nfc().collect();
        self.0
            .iter()
            .find(|(name, _)| name.nfc().collect::<String>() == wanted)
            .ok_or(VaultError::NoteNotFound(path.to_string()))
    }

    fn read(&self, params: NoteReadManyParams) -> Result<NoteReadManyOutput, NoteFailure> {
        let plan = plan_read(params, false)?;
        let candidates = match plan.selector {
            ReadSelector::Paths(paths) => paths,
            ReadSelector::Dir { dir: _, recursive, glob } => {
                let listed = self
                    .0
                    .iter()
                    .filter(|(path, _)| recursive || !path.contains('/'))
                    .filter(|(path, _)| glob.is_none() || path.starts_with("nested/"))
                    .map(|(path, _)| ListedFile { path: path.clone(), is_file: !path.ends_with("fake.md") })
                    .collect();
                directory_candidates(&listed, false)
            }
        };
        let mut session = ReadSession::start(candidates, plan.max_files, plan.max_bytes);
        loop {
            let outcome = match session.action() {
                ReadAction::Finish => return Ok(session.finish()),
                ReadAction::Resolve(path) => {
                    session.resolved(self.find(&path).map(|(name, _)| name.clone()))
                }
                ReadAction::Size(path) => session.sized(self.find(&path).map(|(_, b)| b.len() as u64)),
                ReadAction::Read(path) => {
                    let bytes = self.find(&path).unwrap().1.clone();
                    session.read(String::from_utf8(bytes).map_err(|e| VaultError::Io(e.to_string())))
                }
            };
            outcome.map_err(NoteFailure::Vault)?;
        }
    }
}

fn paths(list: &[&str]) -> NoteReadManyParams {
    NoteReadManyParams {
        paths: Some(list.iter().map(|path| path.to_string()).collect()),
        ..Default::default()
    }
}

fn names(output: &NoteReadManyOutput) -> Vec<&str> {
    output.notes.iter().map(|note| note.path.as_str()).collect()
}

fn refusal(params: NoteReadManyParams, windows: bool) -> ToolError {
    match plan_read(params, windows) {
        Err(failure) => failure_error(failure),
        Ok(_) => panic!("the request was accepted"),
    }
}

#[test]
fn read_many_validates_selectors_limits_and_paths() {
    let root = || NoteReadManyParams { dir: Some(String::new()), ..Default::default() };
    for params in [
        NoteReadManyParams::default(),
        NoteReadManyParams { dir: Some(String::new()), ..paths(&["a.md"]) },
        paths(&[]),
        NoteReadManyParams { recursive: Some(false), ..paths(&["a.md"]) },
        NoteReadManyParams { max_files: Some(0), ..root() },
        NoteReadManyParams { max_bytes: Some(0), ..root() },
        paths(&["../outside.md"]),
    ] {
        assert_eq!(refusal(params, false).code, INVALID_PARAMS);
    }
    let too_many: Vec<String> = (0..=MAX_FILES_CAP).map(|index| format!("{index}.md")).collect();
    let params = NoteReadManyParams { paths: Some(too_many), ..Default::default() };
    assert_eq!(refusal(params, false).code, INVALID_PARAMS);
    for (outside, windows) in [
        ("/outside.md", false),
        (r"C:\outside.md", true),
        (r"\outside.md", true),
        ("C:outside.md", true),
        (r"..\outside.md", true),
    ] {
        let error = refusal(paths(&["a.md", outside]), windows);
        assert_eq!(error.code, INVALID_PARAMS, "{outside}");
        assert!(error.message.contains(outside), "{}", error.message);
    }
    assert!(plan_read(paths(&[r"C:\outside.md"]), false).is_ok());
    assert!(plan_read(paths(&[r"a\b.md"]), true).is_ok());
}

#[test]
fn failures_are_answered_with_their_codes() {
    let params = ToolError { code: 7, message: "seven".into() };
    let answer = failure_error(NoteFailure::Params(params));
    assert_eq!((answer.code, answer.message.as_str()), (7, "seven"));
    for (error, code) in [
        (VaultError::InvalidPath("text".into()), INVALID_PARAMS),
        (VaultError::NoteNotFound("text".into()), RESOURCE_NOT_FOUND),
        (VaultError::Io("text".into()), INTERNAL_ERROR),
        (VaultError::DaemonRpc { code: 3, message: "text".into() }, INTERNAL_ERROR),
    ] {
        let answer = failure_error(NoteFailure::Vault(error));
        assert_eq!((answer.code, answer.message.as_str()), (code, "text"));
    }
}

#[test]
fn read_many_explicit_paths_preserve_order_and_partial_success() {
    let files = Files::new(&[("a.md", b"A"), ("b.md", b"BB")]);
    let output = files.read(paths(&["b.md", "missing.md", "a.md"])).unwrap();
    assert_eq!(names(&output), vec!["b.md", "a.md"]);
    assert_eq!(output.content_bytes, 3);
    assert_eq!(output.skipped_count, 1);
    assert_eq!(
        output.skipped,
        vec![NoteReadManySkipped {
            path: "missing.md".into(),
            reason: NoteReadManySkipReason::NotFound,
        }]
    );
}

#[test]
fn read_many_directory_defaults_non_recursive_and_filters_non_notes() {
    let files = Files::new(&[
        ("a.md", b"A"),
        ("b.MD", b"B"),
        ("ignore.txt", b"text"),
        ("nested/c.md", b"C"),
        ("nested/fake.md", b""),
    ]);
    let root = NoteReadManyParams { dir: Some(String::new()), ..Default::default() };
    assert_eq!(names(&files.read(root).unwrap()), vec!["a.md", "b.MD"]);
    let recursive = NoteReadManyParams {
        dir: Some(String::new()),
        recursive: Some(true),
        glob: Some("nested/**".into()),
        ..Default::default()
    };
    assert_eq!(names(&files.read(recursive).unwrap()), vec!["nested/c.md"]);
}

#[test]
fn read_many_never_reads_or_returns_an_oversized_first_file() {
    let files = Files::new(&[("large.md", &[0xff; 32]), ("small.md", b"ok")]);
    let params = NoteReadManyParams { max_bytes: Some(2), ..paths(&["large.md", "small.md"]) };
    let output = files.read(params).unwrap();
    assert_eq!(names(&output), vec!["small.md"]);
    assert_eq!(output.notes[0].content, "ok");
    assert_eq!(output.content_bytes, 2);
    assert_eq!(output.skipped_count, 1);
    assert_eq!(output.skipped[0].reason, NoteReadManySkipReason::ByteLimit);
}

#[test]
fn read_many_classifies_invalid_utf8_within_budget_as_unreadable() {
    let files = Files::new(&[("invalid.md", &[0xff, 0xfe])]);
    let params = NoteReadManyParams { max_bytes: Some(2), ..paths(&["invalid.md"]) };
    let output = files.read(params).unwrap();
    assert!(output.notes.is_empty());
    assert_eq!(output.skipped_count, 1);
    assert_eq!(output.skipped[0].reason, NoteReadManySkipReason::Unreadable);
}

#[test]
fn read_many_clamps_file_limit_and_bounds_skipped_details() {
    let files = Files((0..205).map(|index| (format!("{index:03}.md"), Vec::new())).collect());
    let params = NoteReadManyParams {
        dir: Some(String::new()),
        max_files: Some(usize::MAX),
        max_bytes: Some(usize::MAX),
        ..Default::default()
    };
    let output = files.read(params).unwrap();
    assert_eq!(output.notes.len(), MAX_FILES_CAP);
    assert_eq!(output.skipped_count, 105);
    assert_eq!(output.skipped.len(), MAX_SKIPPED_DETAILS);
    assert!(output.skipped.iter().all(|entry| entry.reason == NoteReadManySkipReason::FileLimit));
}

#[test]
fn read_many_returns_actual_unicode_spelling() {
    let composed = "Knowledge/\u{e9}.md";
    let decomposed: String = composed.nfd().collect();
    let files = Files(vec![(decomposed.clone(), b"unicode".to_vec())]);
    let output = files.read(paths(&[composed])).unwrap();
    assert_eq!(names(&output), vec![decomposed.as_str()]);
}

#[test]
fn read_many_passes_other_failures_on() {
    let mut session = ReadSession::start(vec!["a.md".into()], 20, 100);
    let failure = session.resolved(Err(VaultError::InvalidPath("bad".into())));
    assert_eq!(failure, Err(VaultError::InvalidPath("bad".into())));
}

#[test]
fn a_reading_ignores_what_it_did_not_ask_for() {
    let mut session = ReadSession::start(vec!["a.md".into(), "b.md".into()], 20, 100);
    assert!(session.sized(Ok(1)).is_ok() && session.read(Ok("text".into())).is_ok());
    assert!(matches!(session.action(), ReadAction::Resolve(path) if path == "a.md"));
    session.resolved(Ok("A.md".into())).unwrap();
    assert!(session.resolved(Err(VaultError::Other("late".into()))).is_ok());
    assert!(matches!(session.action(), ReadAction::Size(path) if path == "A.md"));
    session.sized(Ok(1)).unwrap();
    session.read(Ok("x".into())).unwrap();
    let output = session.finish();
    assert_eq!((output.notes.len(), output.skipped_count), (1, 1));
    assert_eq!(output.skipped[0].path, "b.md");
}

#[test]
fn limits_are_capped() {
    assert_eq!(validated_limit(None, 20, 100, "max_files"), Ok(20));
    assert_eq!(validated_limit(Some(500), 20, 100, "max_files"), Ok(100));
    assert_eq!(
        validated_limit(Some(0), 20, 100, "max_files").unwrap_err().message,
        "`max_files` must be greater than zero"
    );
    assert!(has_note_extension("a/B.MD", false));
    assert!(!has_note_extension("a/md", false));
}

#[test]
fn create_params_reject_non_object_frontmatter() {
    for frontmatter in
        ["[\"rust\",\"mcp\"]", "\"{\\\"tags\\\":[\\\"rust\\\",\\\"mcp\\\"]}\"", "\"[\\\"rust\\\",\\\"mcp\\\"]\""]
    {
        assert_eq!(
            deserialize_optional_json_object(Some(frontmatter)),
            Err("expected a JSON object or null".to_string())
        );
    }
    assert_eq!(deserialize_optional_json_object(Some("null")), Ok(false));
    assert_eq!(deserialize_optional_json_object(None), Ok(false));
    assert_eq!(deserialize_optional_json_object(Some("{\"tags\":[]}")), Ok(true));
    assert!(deserialize_optional_json_object(Some("{")).is_err());
    assert_eq!(accept_object(&Json::Bool(true)), Err("expected a JSON object or null".to_string()));
}

#[test]
fn explicit_null_is_not_a_missing_value() {
    assert_eq!(deserialize_optional_json_value(None), Ok(None));
    assert_eq!(deserialize_optional_json_value(Some("null")), Ok(Some(Json::Null)));
    assert_eq!(deserialize_optional_json_value(Some("12")), Ok(Some(Json::Integer(12))));
    assert_eq!(deserialize_optional_json_value(Some("\"a\"")), Ok(Some(Json::Text("a".into()))));
}

#[test]
fn insert_default_position_appends() {
    assert_eq!(insert_position(None), Ok(InsertPosition::End));
    assert_eq!(insert_position(Some("end")), Ok(InsertPosition::End));
    assert_eq!(insert_position(Some("beginning")), Ok(InsertPosition::Beginning));
}

#[test]
fn insert_invalid_position_errors() {
    let error = insert_position(Some("middle")).unwrap_err();
    assert_eq!(error.code, INVALID_PARAMS);
    assert_eq!(error.message, "Unknown position 'middle'. Valid values: \"end\", \"beginning\"");
}

#[test]
fn insert_position_is_case_insensitive() {
    assert_eq!(insert_position(Some("END")), Ok(InsertPosition::End));
    assert_eq!(insert_position(Some("Beginning")), Ok(InsertPosition::Beginning));
}

#[test]
fn delete_requires_confirm() {
    let error = check_deletion(&NoteDeleteParams { path: "a.md".into(), confirm: false }).unwrap_err();
    assert_eq!(error.code, INVALID_PARAMS);
    assert!(check_deletion(&NoteDeleteParams { path: "a.md".into(), confirm: true }).is_ok());
}

#[test]
fn changes_are_confirmed_with_the_path() {
    for (change, expected) in [
        (NoteChange::Created, "Created note: a.md"),
        (NoteChange::Written, "Written to: a.md"),
        (NoteChange::Inserted, "Inserted into: a.md"),
        (NoteChange::Patched, "Patched: a.md"),
        (NoteChange::Deleted, "Deleted: a.md"),
        (NoteChange::Moved, "Moved to: a.md"),
    ] {
        assert_eq!(confirmation(change, "a.md"), expected);
    }
    let request = patch_request(NotePatchParams { target: "Log".into(), ..Default::default() });
    assert_eq!(request.operation, PatchOperation::Append);
    assert_eq!(request.target_type, PatchTargetType::Heading);
    assert_eq!(request.target, "Log");
    assert_eq!(initial_content(&NoteCreateParams::default()), "");
    assert_eq!(content("text".into()).value.content, "text");
    assert_eq!(message("done".into()).text, "done");
    assert_eq!(results(vec![1, 2], "[1,2]".into()).value.results, vec![1, 2]);
}

// Listings.

fn vault() -> Vec<String> {
    ["journal/2024-01-01.md", "journal/2024-01-02.md", "notes.md", "projects/alpha/plan.md", "readme.md"]
        .iter()
        .map(|path| path.to_string())
        .collect()
}

#[test]
fn list_tree_format() {
    let text = tree_listing(&vault(), "", None, false);
    assert_eq!(
        text,
        ".\n\
         ├── journal\n\
         │   ├── 2024-01-01.md\n\
         │   └── 2024-01-02.md\n\
         ├── notes.md\n\
         ├── projects\n\
         │   └── alpha\n\
         │       └── plan.md\n\
         └── readme.md"
    );
}

#[test]
fn list_tree_max_depth_1() {
    let mut files = vault();
    files.push("journal".into());
    let text = tree_listing(&files, "", Some(1), false);
    assert!(text.contains("journal"));
    assert!(text.contains("readme.md"));
    assert!(!text.contains("2024-01-01.md"));
    assert!(!text.contains("plan.md"));
}

#[test]
fn list_tree_subdirectory() {
    let text = tree_listing(&vec!["projects/alpha/plan.md".into()], "projects", None, false);
    assert!(text.starts_with("projects"));
    assert!(text.contains("alpha"));
    assert!(text.contains("plan.md"));
    assert!(!text.contains("journal"));
}

#[test]
fn list_tree_subdirectory_strips_canonical_unicode_dir() {
    let decomposed: String = "02_База-знаний".nfd().collect();
    let text = tree_listing(&vec![format!("{decomposed}/lic1c.md")], &decomposed, None, false);
    assert!(text.starts_with(&decomposed));
    assert!(text.contains("lic1c.md"));
    assert!(!text.contains(&format!("{decomposed}/lic1c.md")));
}

#[test]
fn list_tree_rejects_metadata() {
    let params = VaultListParams {
        format: Some("tree".into()),
        include_metadata: Some(true),
        ..Default::default()
    };
    assert_eq!(list_format(&params).unwrap_err().code, INVALID_PARAMS);
    let params = VaultListParams { format: Some("TREE".into()), ..Default::default() };
    assert_eq!(list_format(&params), Ok(ListFormat::Tree));
    assert_eq!(list_format(&VaultListParams::default()), Ok(ListFormat::List));
}

#[test]
fn list_invalid_format_errors() {
    let params = VaultListParams { format: Some("invalid".into()), ..Default::default() };
    assert_eq!(
        list_format(&params).unwrap_err().message,
        "Unknown format 'invalid'. Valid values: \"list\", \"tree\""
    );
}

/// The listed paths of a request; those of its entries where it asks for metadata.
fn listing(files: &Vec<String>, params: VaultListParams) -> Vec<String> {
    let paths = listed_paths(files, params.max_depth, false);
    if !wants_metadata(&params) {
        return paths;
    }
    let lookups = paths.iter().map(|_| Ok(summary())).collect();
    let entries = list_entries(&paths, lookups, false).unwrap();
    entries.into_iter().map(|entry| entry.path).collect()
}

#[test]
fn list_metadata_preserves_recursive_glob_and_max_depth_membership() {
    let files: Vec<String> = vec![
        "journal/2024-01-01.md".into(),
        "journal/deep".into(),
        "journal/deep/hidden.md".into(),
    ];
    let params = || VaultListParams {
        recursive: Some(true),
        glob: Some("journal/**".into()),
        max_depth: Some(2),
        ..Default::default()
    };
    let expected = listing(&files, params());
    let actual = listing(&files, VaultListParams { include_metadata: Some(true), ..params() });
    assert_eq!(actual, expected);
    assert!(actual.contains(&"journal/deep".to_string()));
    assert!(!actual.contains(&"journal/deep/hidden.md".to_string()));
    assert_eq!(listed_paths(&files, None, false), files);
}

#[test]
fn list_metadata_false_preserves_default_output_exactly() {
    let disabled = VaultListParams { include_metadata: Some(false), ..Default::default() };
    assert!(!wants_metadata(&VaultListParams::default()));
    assert!(!wants_metadata(&disabled));
    assert_eq!(listing(&vault(), VaultListParams::default()), listing(&vault(), disabled));
}

#[test]
fn list_metadata_preserves_actual_unicode_path_spelling() {
    let decomposed: String = "é.md".nfd().collect();
    let params = VaultListParams { include_metadata: Some(true), ..Default::default() };
    let entries = listing(&vec!["a.md".into(), decomposed.clone()], params);
    assert!(entries.contains(&decomposed));
}

#[test]
fn a_listing_ends_at_the_first_note_that_cannot_be_looked_up() {
    let paths: Vec<String> = vec!["a.md".into(), "late.md".into(), "b.txt".into(), "c.md".into()];
    let missing = || Err(VaultError::NoteNotFound("late.md".into()));
    let broken = |text: &str| Err(VaultError::Io(text.into()));
    let lookups = vec![Ok(summary()), missing(), broken("no note"), Ok(summary())];
    let entries = list_entries(&paths, lookups, false).unwrap();
    let titles: Vec<Option<&str>> = entries.iter().map(|entry| entry.title.as_deref()).collect();
    assert_eq!(titles, [Some("readme"), None, None, Some("readme")]);
    let listed: Vec<String> = entries.into_iter().map(|entry| entry.path).collect();
    assert_eq!(listed, paths);
    let lookups = vec![Ok(summary()), broken("first"), missing(), broken("second")];
    assert_eq!(list_entries(&paths, lookups, false).unwrap_err(), VaultError::Io("first".into()));
}

fn summary() -> NoteSummary {
    NoteSummary {
        title: "readme".into(),
        tags: vec!["alpha".into(), "beta".into()],
        size: 12,
        created: None,
        modified: Some("2024-01-01T00:00:00Z".into()),
    }
}

#[test]
fn list_metadata_enriches_indexed_notes_and_keeps_other_entries_path_only() {
    let entry = list_entry("readme.md", Ok(summary()), false).unwrap();
    assert_eq!(entry.title.as_deref(), Some("readme"));
    assert_eq!(entry.tags, Some(vec!["alpha".to_string(), "beta".to_string()]));
    assert_eq!(entry.size, Some(12));
    let plain = list_entry("loose.txt", Ok(summary()), false).unwrap();
    assert_eq!(plain.path, "loose.txt");
    assert_eq!(plain.title, None);
}

#[test]
fn list_metadata_keeps_excluded_and_newly_unindexed_notes_path_only() {
    let entry = list_entry("late.md", Err(VaultError::NoteNotFound("late.md".into())), false).unwrap();
    assert_eq!(entry.path, "late.md");
    assert_eq!(entry.title, None);
    assert!(list_entry("late.md", Err(VaultError::Io("x".into())), false).is_err());
}

// The offered tools.

#[test]
fn no_disabled_tools_exposes_all() {
    let routes = ToolRoutes::new(Vec::new());
    for name in all_tool_names() {
        assert!(routes.has_route(&name), "expected tool '{name}' to be enabled");
    }
    assert!(!routes.has_route("unknown"));
}

#[test]
fn disabled_tools_are_hidden() {
    let disabled = ["open_in_obsidian", "wikilinks", "periodic"].iter().map(|s| s.to_string()).collect();
    let routes = ToolRoutes::new(disabled);

    assert!(!routes.has_route("open_in_obsidian"));
    assert!(!routes.has_route("wikilinks"));
    assert!(!routes.has_route("periodic"));

    assert!(routes.has_route("note_read"));
    assert!(routes.has_route("vault_list"));
    assert!(routes.has_route("search_text"));
}

#[test]
fn disable_all_tools_hides_everything() {
    let routes = ToolRoutes::new(all_tool_names());
    for name in all_tool_names() {
        assert!(!routes.has_route(&name), "expected tool '{name}' to be disabled");
    }
}
