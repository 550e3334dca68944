//! Texts, numbers, paths and the ordered containers.

use obsidian_mcp::keyed::Keyed;
use obsidian_mcp::number::{number_complaint, parse_number, to_decimal, to_hex, to_signed_decimal};
use obsidian_mcp::order::{insert_sorted, is_before, TextSet};
use obsidian_mcp::path::{
    components_of, file_name, is_absolute_path, is_inside, is_path_before, is_visible_path,
    join_path, key_of_path, normalize_relative, parent, same_path, strip_base,
};
use obsidian_mcp::text::{
    contains, eq_ignoring_case, split_lines, split_once, split_words, strip_suffix, trim,
};

#[test]
fn texts_are_ordered_by_their_characters() {
    let list = ["", "Z", "a", "ab", "b", "é", "日本", "😀"];
    for (i, left) in list.iter().enumerate() {
        for (j, right) in list.iter().enumerate() {
            assert_eq!(is_before(left, right), i < j, "{left:?} and {right:?}");
            assert_eq!(is_before(left, right), left < right);
        }
    }
}

#[test]
fn paths_are_ordered_by_their_components() {
    let list = ["a", "a/b", "a/c", "a-b", "b"];
    for (i, left) in list.iter().enumerate() {
        for (j, right) in list.iter().enumerate() {
            assert_eq!(is_path_before(left, right, false), i < j, "{left:?} and {right:?}");
        }
    }
    // Not the order of the texts: a hyphen is before a slash.
    assert!(is_before("a-b", "a/b"));
    assert!(!is_path_before("a/b", "a//b", false));
    assert!(!is_path_before("a//b", "a/b", false));
}

#[test]
fn a_text_is_a_number_or_says_why_not() {
    let cases = [
        ("", None, Some("cannot parse integer from empty string")),
        ("+", None, Some("invalid digit found in string")),
        ("-1", None, Some("invalid digit found in string")),
        (" 1", None, Some("invalid digit found in string")),
        ("65536", None, Some("number too large to fit in target type")),
        ("65535", Some(65535), None),
        ("+8080", Some(8080), None),
        ("007", Some(7), None),
    ];
    for (text, number, complaint) in cases {
        assert_eq!(parse_number(text, 65535), number, "{text:?}");
        assert_eq!(number_complaint(text, 65535).as_deref(), complaint, "{text:?}");
    }
    assert_eq!(parse_number("18446744073709551615", u64::MAX), Some(u64::MAX));
    assert_eq!(parse_number("18446744073709551616", u64::MAX), None);
}

#[test]
fn numbers_are_written_in_decimal_and_hexadecimal() {
    assert_eq!(to_decimal(0), "0");
    assert_eq!(to_decimal(u64::MAX), "18446744073709551615");
    assert_eq!(to_signed_decimal(i32::MIN), "-2147483648");
    assert_eq!(to_signed_decimal(101), "101");
    assert_eq!(to_hex(&vec![0, 15, 160, 255]), "000fa0ff");
}

#[test]
fn a_set_has_one_ascending_list() {
    let mut set = TextSet::new();
    for item in ["b", "a", "c", "a"] {
        set.insert(item.into());
    }
    assert_eq!(set.items(), &["a", "b", "c"]);
    let mut list: Vec<String> = Vec::new();
    for item in ["c", "b", "a", "b"] {
        insert_sorted(&mut list, item.into());
    }
    assert_eq!(&list, set.items());
}

#[test]
fn a_map_keeps_the_last_value_of_a_key() {
    let mut map: Keyed<u64> = Keyed::new();
    map.insert("b".into(), 1);
    map.insert("a".into(), 2);
    map.insert("b".into(), 3);
    assert_eq!(map.len(), 2);
    assert_eq!((map.key_at(0).as_str(), map.value_at(0)), ("a", &2));
    assert_eq!(map.get("b"), Some(&3));
    assert_eq!(map.remove("b"), Some(3));
    assert_eq!(map.remove("b"), None);
    assert!(!map.contains_key("b"));
}

#[test]
fn paths_are_taken_apart_and_put_together() {
    assert_eq!(join_path("/home", "notes", false), "/home/notes");
    assert_eq!(join_path("/home", "/etc", false), "/etc");
    assert_eq!(file_name("a/b.md", false).as_deref(), Some("b.md"));
    assert_eq!(file_name("a/..", false).as_deref(), None);
    for (path, up) in [
        ("a/b", Some("a")),
        ("a//b/./c/.", Some("a//b")),
        ("//a/", Some("/")),
        ("./a", Some(".")),
        ("a", Some("")),
        (".", Some("")),
        ("/", None),
        ("", None),
    ] {
        assert_eq!(parent(path, false).as_deref(), up, "{path}");
        assert_eq!(std::path::Path::new(path).parent().and_then(|up| up.to_str()), up, "{path}");
    }
    assert!(is_absolute_path("/a", false) && !is_absolute_path("a", false));
    assert!(is_inside("a/b", "a", false) && !is_inside("ab", "a", false));
    assert_eq!(strip_base("a/b/c", "a", false).as_deref(), Some("b/c"));
    assert!(is_visible_path("a/b.md", false) && !is_visible_path("a/.b/c.md", false));
    assert_eq!(normalize_relative("./a//b", false).as_deref().ok(), Some("a/b"));
    assert!(normalize_relative("../a", false).is_err() && normalize_relative("/a", false).is_err());
}

#[test]
fn windows_paths_have_two_separators_and_prefixes() {
    for path in [
        r"C:\notes",
        "C:/notes",
        r"\\server\share",
        r"\\server\share\a",
        r"\\?\C:\notes",
        r"\\?\UNC\server\share\a",
        r"\\.\COM1",
    ] {
        assert!(is_absolute_path(path, true), "{path}");
        assert!(!is_absolute_path(path, false), "{path}");
    }
    for path in [r"\notes", "/notes", "C:notes", "C:", r"notes\a", r".\a", ""] {
        assert!(!is_absolute_path(path, true), "{path}");
    }
    assert_eq!(components_of(r"C:\a/b\.\c", true), [r"c:", r"\", "a", "b", "c"]);
    assert_eq!(components_of(r"\\?\C:\a/b\.", true), [r"\\?\c:", r"\", "a/b", "."]);
    assert_eq!(components_of(r"\\server\share", true), [r"\\server\share", r"\"]);
    assert_eq!(components_of(r"C:\a", false), [r"C:\a"]);
    assert_eq!(file_name(r"C:\bin\obsidian-mcp.exe", true).as_deref(), Some("obsidian-mcp.exe"));
    assert_eq!(file_name("C:", true), None);
    assert_eq!(parent(r"C:\bin\x.exe", true).as_deref(), Some(r"C:\bin"));
    assert_eq!(parent(r"C:\bin", true).as_deref(), Some(r"C:\"));
    assert_eq!(parent(r"C:\", true), None);
    assert_eq!(parent(r"\\?\C:\bin\x.exe", true).as_deref(), Some(r"\\?\C:\bin"));
    assert!(is_inside(r"c:\Notes/a.md", r"C:\Notes", true));
    assert!(!is_inside(r"D:\Notes\a.md", r"C:\Notes", true));
    assert_eq!(strip_base(r"C:\Notes\a\b.md", "C:/Notes", true).as_deref(), Some(r"a\b.md"));
    assert!(!is_visible_path(r"a\.b\c.md", true) && is_visible_path(r"a\.b\c.md", false));
}

#[test]
fn windows_paths_are_joined_by_their_prefixes() {
    for (base, rest, expected) in [
        (r"C:\notes", "a", r"C:\notes\a"),
        (r"C:\notes\", "a", r"C:\notes\a"),
        ("C:/notes/", "a", "C:/notes/a"),
        ("C:", "a", "C:a"),
        (r"C:\notes", r"\a", r"C:\a"),
        (r"C:\notes", r"D:\a", r"D:\a"),
        (r"C:\notes", "D:a", "D:a"),
        (r"\\server\share", "a", r"\\server\share\a"),
        (r"\\?\C:\notes", "a", r"\\?\C:\notes\a"),
        (r"\\?\C:\notes", "a/../b", r"\\?\C:\notes\b"),
        (r"\\?\C:\notes", "/b", r"\\?\C:\b"),
        (r"\\?\C:", "b", r"\\?\C:\b"),
        ("notes", "a", r"notes\a"),
        ("", "a", "a"),
    ] {
        assert_eq!(join_path(base, rest, true), expected, "{base} and {rest}");
    }
}

#[test]
fn windows_paths_inside_a_vault_have_no_prefix_and_no_root() {
    assert_eq!(normalize_relative(r"a\b/c.md", true).as_deref().ok(), Some("a/b/c.md"));
    assert_eq!(normalize_relative(r".\a\\b", true).as_deref().ok(), Some("a/b"));
    for path in [
        r"C:\outside.md",
        "C:outside.md",
        r"\outside.md",
        r"a\..\..\outside.md",
        r"\\?\C:\outside.md",
        r"\\server\share\outside.md",
    ] {
        assert!(normalize_relative(path, true).is_err(), "{path}");
    }
}

#[test]
fn a_path_is_kept_under_one_text_however_it_is_spelled() {
    for spelling in ["a/b.md", "a//b.md", "a/./b.md", "a/b.md/"] {
        assert_eq!(key_of_path(spelling, false), "a/b.md");
        assert_eq!(key_of_path(spelling, true), "a/b.md");
    }
    assert_eq!(key_of_path(r"a\b.md", true), "a/b.md");
    assert_eq!(key_of_path(r"a\b.md", false), r"a\b.md");
    assert_eq!(key_of_path("/a", false), "/a");
    assert_ne!(key_of_path("./a", false), key_of_path("a", false));
    assert_ne!(key_of_path("/a", true), key_of_path("a", true));
    assert!(same_path(r"C:\a", "c:/a", true) && !same_path(r"C:\a", "C:a", true));
}

#[test]
fn texts_are_cut_as_the_standard_library_cuts_them() {
    let text = " one\u{a0}two\u{3000}three \r\nfour\n";
    assert_eq!(split_words(text), text.split_whitespace().collect::<Vec<_>>());
    assert_eq!(split_lines(text), text.lines().collect::<Vec<_>>());
    assert_eq!(trim(text), text.trim());
    assert_eq!(split_once("a=b=c", "="), Some(("a".into(), "b=c".into())));
    assert_eq!(strip_suffix("x (deleted)", " (deleted)").as_deref(), Some("x"));
    assert!(contains("abc", "bc") && contains("abc", "") && !contains("abc", "cb"));
    assert!(eq_ignoring_case("TrEe", "tree") && !eq_ignoring_case("É", "é"));
}
