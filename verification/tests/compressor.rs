use autocommiter::changes_summarizer::compress_to_json;
use autocommiter::changes_summarizer::descriptor_from_numstat;
use autocommiter::changes_summarizer::descriptor_from_unified;
use autocommiter::changes_summarizer::file_names_list;
use autocommiter::changes_summarizer::FileChange;

fn fc(file: &str, change: &str) -> FileChange {
    FileChange { file: file.to_string(), change: change.to_string() }
}

#[test]
fn test_compress_to_json_empty() {
    let result = compress_to_json(&[], 400);
    assert_eq!(result, r#"{"files":[]}"#);
}

#[test]
fn test_compress_to_json_single_file() {
    let changes = vec![fc("src/main.rs", "5+/2\u{2212}")];
    let result = compress_to_json(&changes, 400);
    assert!(result.contains("main.rs"));
    assert!(result.contains("5+/2\u{2212}"));
}

#[test]
fn compress_single_file_exact() {
    let changes = vec![fc("src/main.rs", "5+/2\u{2212}")];
    let result = compress_to_json(&changes, 400);
    assert_eq!(result, "{\"files\":[{\"f\":\"src/main.rs\",\"c\":\"5+/2\u{2212}\"}]}");
}

#[test]
fn compress_is_deterministic() {
    let changes = vec![fc("a.rs", "1+/0\u{2212}"), fc("b/c.txt", "first changed line here")];
    let once = compress_to_json(&changes, 60);
    let twice = compress_to_json(&changes, 60);
    assert_eq!(once, twice);
}

#[test]
fn compress_respects_budget() {
    let changes = vec![
        fc("src/very/long/path/one.rs", "a descriptor of some length"),
        fc("src/very/long/path/two.rs", "another descriptor of some length"),
        fc("src/very/long/path/three.rs", "yet another descriptor"),
    ];
    for budget in [400usize, 200, 120, 80, 60, 45] {
        let result = compress_to_json(&changes, budget);
        assert!(result.len() <= budget, "budget {} got {} bytes", budget, result.len());
        assert!(result.starts_with("{\"files\":["));
        assert!(result.ends_with("]}"));
    }
}

#[test]
fn compress_escapes_specials() {
    let changes = vec![fc("a\"b\\c.txt", "line\none\rtwo")];
    let result = compress_to_json(&changes, 400);
    assert_eq!(result, "{\"files\":[{\"f\":\"a\\\"b\\\\c.txt\",\"c\":\"line\\none\\rtwo\"}]}");
    // the emitted payload stays on one line
    assert!(!result.contains('\n'));
    assert!(!result.contains('\r'));
}

#[test]
fn compress_drops_files_before_giving_up() {
    let changes = vec![fc("aaaa.rs", "x"), fc("bbbb.rs", "y")];
    // both entries need 47 bytes; one entry fits in 30
    let both = compress_to_json(&changes, 400);
    assert_eq!(both, "{\"files\":[{\"f\":\"aaaa.rs\",\"c\":\"x\"},{\"f\":\"bbbb.rs\",\"c\":\"y\"}]}");
    let one = compress_to_json(&changes, 35);
    assert_eq!(one, "{\"files\":[{\"f\":\"aaaa.rs\",\"c\":\"x\"}]}");
}

#[test]
fn compress_degrades_fidelity_monotonically() {
    let changes = vec![fc("f.rs", "abcdefghijklmnop")];
    let full = compress_to_json(&changes, 400);
    assert!(full.contains("abcdefghijklmnop"));
    let twelve = compress_to_json(&changes, 45);
    assert!(twelve.contains("abcdefghijkl"));
    assert!(!twelve.contains("abcdefghijklm"));
    let six = compress_to_json(&changes, 40);
    assert!(six.contains("abcdef"));
    assert!(!six.contains("abcdefg"));
    let three = compress_to_json(&changes, 35);
    assert!(three.contains("abc"));
    assert!(!three.contains("abcd"));
    let one = compress_to_json(&changes, 32);
    assert!(one.contains("\"c\":\"a\""));
}

#[test]
fn compress_minimal_fallback_uses_basename_and_mod() {
    let changes = vec![fc("deep/path/to/main.rs", "a very long descriptor indeed")];
    let result = compress_to_json(&changes, 10);
    assert_eq!(result, "{\"files\":[{\"f\":\"main.rs\",\"c\":\"mod\"}]}");
}

#[test]
fn numstat_triple_becomes_counts() {
    assert_eq!(descriptor_from_numstat("3\t1\tREADME.md"), "3+/1\u{2212}");
}

#[test]
fn numstat_binary_markers_count_as_zero() {
    assert_eq!(descriptor_from_numstat("-\t-\tbin.png"), "0+/0\u{2212}");
}

#[test]
fn numstat_empty_diff_is_unchanged() {
    assert_eq!(descriptor_from_numstat(""), "unchanged");
}

#[test]
fn numstat_without_triple_is_mod() {
    assert_eq!(descriptor_from_numstat("something without tabs"), "mod");
    assert_eq!(descriptor_from_numstat("one\tfield"), "mod");
}

#[test]
fn numstat_takes_first_line_only() {
    assert_eq!(descriptor_from_numstat("12\t7\tsrc/lib.rs\n3\t1\tother.rs"), "12+/7\u{2212}");
    assert_eq!(descriptor_from_numstat("2\t4\tfile\r\nrest"), "2+/4\u{2212}");
}

#[test]
fn numstat_garbage_counts_are_zero() {
    assert_eq!(descriptor_from_numstat("x\t9\tfile"), "0+/9\u{2212}");
    assert_eq!(descriptor_from_numstat("99999999999999999999999999\t1\tfile"), "0+/1\u{2212}");
}

#[test]
fn unified_takes_first_nonblank_line() {
    assert_eq!(descriptor_from_unified("\n   \n  +added a line  \nrest"), "+added a line");
}

#[test]
fn unified_collapses_whitespace_runs() {
    assert_eq!(descriptor_from_unified("@@ -1 +1 @@\t\t fn   main()"), "@@ -1 +1 @@ fn main()");
}

#[test]
fn unified_truncates_to_forty_characters() {
    let line = "abcdefghij".repeat(5);
    let result = descriptor_from_unified(&line);
    assert_eq!(result, "abcdefghij".repeat(4));
}

#[test]
fn unified_all_blank_is_mod() {
    assert_eq!(descriptor_from_unified(""), "mod");
    assert_eq!(descriptor_from_unified(" \n\t\n"), "mod");
}

#[test]
fn file_names_list_joins_with_newlines() {
    let changes = vec![fc("a.rs", "x"), fc("b.rs", "y"), fc("c.rs", "z")];
    assert_eq!(file_names_list(&changes), "a.rs\nb.rs\nc.rs");
}

#[test]
fn file_names_list_caps_at_fifty() {
    let changes: Vec<FileChange> =
        (0..60).map(|i| fc(&format!("f{}.rs", i), "x")).collect();
    let list = file_names_list(&changes);
    assert_eq!(list.lines().count(), 50);
    assert!(list.ends_with("f49.rs"));
}
