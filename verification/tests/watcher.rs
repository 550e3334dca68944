//! Which file system events concern the notes of a vault.

use obsidian_mcp::error::VaultError;
use obsidian_mcp::vault::watcher::{
    event_paths, is_dropped_event, normalized_relative_path, plan_event, process_event,
    should_process_path, walks_into, AccessEvent, EventPlan, WalkEntry,
};
use unicode_normalization::UnicodeNormalization;

const ROOT: &str = "/tmp/test-vault";

fn inside(path: &str) -> String {
    format!("{ROOT}/{path}")
}

#[test]
fn filters_obsidian_directory() {
    assert!(!should_process_path(ROOT, &inside(".obsidian/plugins/foo.json"), false));
    assert!(!should_process_path(ROOT, &inside(".obsidian/workspace.json"), false));
}

#[test]
fn filters_obsidian_mcp_directory() {
    assert!(!should_process_path(ROOT, &inside(".obsidian-mcp/config.json"), false));
    assert!(!should_process_path(ROOT, &inside(".obsidian-mcp/ignore"), false));
}

#[test]
fn filters_non_markdown_files() {
    assert!(!should_process_path(ROOT, &inside("image.png"), false));
    assert!(!should_process_path(ROOT, &inside("data.json"), false));
    assert!(!should_process_path(ROOT, &inside("subfolder/script.js"), false));
}

#[test]
fn accepts_markdown_files() {
    assert!(should_process_path(ROOT, &inside("note.md"), false));
    assert!(should_process_path(ROOT, &inside("subfolder/deep/note.md"), false));
}

#[test]
fn accepts_uppercase_markdown_extension() {
    assert!(should_process_path(ROOT, &inside("NOTE.MD"), false));
    assert!(should_process_path(ROOT, &inside("Mixed.Md"), false));
    assert!(should_process_path(ROOT, &inside("subfolder/CAPS.MD"), false));
}

#[test]
fn filters_paths_outside_vault() {
    assert!(!should_process_path(ROOT, "/other/place/note.md", false));
}

#[test]
fn filters_hidden_components_at_any_depth() {
    for path in [".secret/note.md", "notes/.trash/deleted.md", "notes/.hidden.md"] {
        assert!(!should_process_path(ROOT, &inside(path), false));
    }
}

#[test]
fn normalized_relative_path_preserves_actual_unicode_event_spelling() {
    let composed = "02_База-знаний/Сущности/lic1c.md";
    let decomposed: String = composed.nfd().collect();
    let relative = normalized_relative_path(ROOT, &inside(&decomposed), false).unwrap();
    assert_eq!(relative, decomposed);
}

#[test]
fn should_process_unicode_markdown_path() {
    let composed = "02_База-знаний/Сущности/lic1c.md";
    let decomposed: String = composed.nfd().collect();
    assert!(should_process_path(ROOT, &inside(&decomposed), false));
}

#[test]
fn reads_are_dropped_and_writes_are_kept() {
    assert!(is_dropped_event(AccessEvent::Other, false));
    assert!(!is_dropped_event(AccessEvent::Other, true));
    assert!(!is_dropped_event(AccessEvent::CloseWrite, false));
    assert!(!is_dropped_event(AccessEvent::NoAccess, false));
}

#[test]
fn a_changed_note_is_refreshed_alone() {
    let plan = plan_event(ROOT, &inside("a/note.md"), true, false, false, false);
    let paths = event_paths(ROOT, plan, &vec!["a/other.md".to_string()], None, &vec![], false).unwrap();
    assert_eq!(paths, vec!["a/note.md"]);
}

#[test]
fn a_directory_event_covers_known_and_current_notes() {
    let plan = plan_event(ROOT, &inside("Old"), false, true, false, false);
    let known = vec!["Old/nested/gone.md".to_string(), "Other/kept.md".to_string()];
    let walk = vec![
        WalkEntry::Other,
        WalkEntry::File(inside("Old/nested/note.md")),
        WalkEntry::File(inside("Old/picture.png")),
        WalkEntry::File(inside("Old/.hidden.md")),
        WalkEntry::File(inside("Old/nested/gone.md")),
    ];
    let paths = event_paths(ROOT, plan, &known, None, &walk, false).unwrap();
    assert_eq!(paths, vec!["Old/nested/gone.md", "Old/nested/note.md"]);
    assert!(process_event(true, &paths));
    assert!(!process_event(false, &paths));
    assert!(!process_event(true, &vec![]));
}

#[test]
fn a_vanished_directory_covers_its_known_notes() {
    let plan = plan_event(ROOT, &inside("Old"), false, false, false, false);
    let known = vec!["Old/b.md".to_string(), "Old/a/z.md".to_string(), "Older/c.md".to_string()];
    let paths = event_paths(ROOT, plan, &known, None, &vec![], false).unwrap();
    assert_eq!(paths, vec!["Old/a/z.md", "Old/b.md"]);
}

#[test]
fn a_vanished_unknown_note_is_refreshed() {
    let plan = plan_event(ROOT, &inside("new.md"), false, false, false, false);
    let paths = event_paths(ROOT, plan, &vec![], None, &vec![], false).unwrap();
    assert_eq!(paths, vec!["new.md"]);
}

#[test]
fn event_errors_are_reported() {
    let outside = plan_event(ROOT, "/elsewhere/note.md", true, false, false, false);
    assert!(matches!(outside, EventPlan::Invalid(VaultError::InvalidPath(_))));

    let plan = plan_event(ROOT, &inside("Old"), false, true, false, false);
    let walk = vec![WalkEntry::Failed("denied".into())];
    let error = event_paths(ROOT, plan, &vec![], None, &walk, false).unwrap_err();
    assert_eq!(error, VaultError::Watcher("cannot reconcile Old: denied".into()));

    let plan = plan_event(ROOT, &inside("Old"), false, true, false, false);
    let broken = Some(VaultError::InvalidPath("outside".into()));
    let error = event_paths(ROOT, plan, &vec![], broken, &vec![], false).unwrap_err();
    assert_eq!(error, VaultError::InvalidPath("outside".into()));

    assert!(matches!(
        plan_event(ROOT, &inside(".git"), false, true, false, false),
        EventPlan::Nothing
    ));
}

#[test]
fn walks_skip_hidden_directories() {
    assert!(walks_into(true, ".vault", false));
    assert!(walks_into(false, "notes", false));
    assert!(!walks_into(false, ".git", false));
}

#[test]
fn windows_events_are_told_apart_by_their_components() {
    let root = r"C:\Vault";
    assert!(should_process_path(root, r"C:\Vault\a\note.md", true));
    assert!(should_process_path(root, r"c:\Vault/a/note.md", true));
    assert!(!should_process_path(root, r"C:\Vault\.trash\note.md", true));
    assert!(!should_process_path(root, r"D:\Vault\note.md", true));
    let plan = plan_event(root, r"C:\Vault\Old", false, false, false, true);
    let known = vec!["Old/b.md".to_string(), r"Old\a.md".to_string(), "Older/c.md".to_string()];
    let paths = event_paths(root, plan, &known, None, &vec![], true).unwrap();
    assert_eq!(paths, vec![r"Old\a.md", "Old/b.md"]);
    assert!(!walks_into(false, ".git", true));
}
