use todo_ci::date::UtcOffset;
use todo_ci::scan::search;
use todo_ci::walk::{FileEntry, WalkPolicy};

fn file(path: &str, contents: &str) -> FileEntry {
    FileEntry { path: path.to_string(), is_file: true, contents: Some(contents.to_string()) }
}

fn directory(path: &str) -> FileEntry {
    FileEntry { path: path.to_string(), is_file: false, contents: None }
}

const VALID: &str = "// @todo(2221-07-10): I am a valid marker\n";

/// What a walk of a tree with one plain file, one file that an `.ignore` file
/// excludes and that `.ignore` file hands over under `policy`.
fn default_tree(root: &str, policy: WalkPolicy) -> Vec<FileEntry> {
    assert!(policy.honour_ignore_file);
    let mut entries = vec![directory(root)];
    if !policy.standard_filters {
        entries.push(file(&format!("{}/.ignore", root), "ignored_file.rs\n"));
        entries.push(file(&format!("{}/ignored_file.rs", root), VALID));
    }
    entries.push(file(&format!("{}/not_ignored_file.rs", root), VALID));
    entries
}

/// What a walk of a tree with one plain file, one file that the `.tdignore`
/// file excludes and that `.tdignore` file hands over under `policy`. The
/// file it excludes never shows; the `.tdignore` file is hidden, so it shows
/// where the standard rules are off.
fn tdignore_tree(root: &str, policy: WalkPolicy) -> Vec<FileEntry> {
    assert!(policy.honour_ignore_file);
    let mut entries = vec![directory(root)];
    if !policy.standard_filters {
        entries.push(file(
            &format!("{}/.tdignore", root),
            "ignored_file.rs\n// @todo(2221-07-10): a marker in the ignore file\n",
        ));
    }
    entries.push(file(&format!("{}/not_ignored_file.rs", root), VALID));
    entries
}

#[test]
fn default_ignores() {
    let entries = default_tree("./tests/resources/ignored_default", WalkPolicy::new(false));
    let search_results = search(&entries, "*", &UtcOffset::west(0).unwrap()).unwrap();

    assert_eq!(search_results.statistics.files_searched, 1);
    assert_eq!(search_results.statistics.valid_todo_count, 1);
}

#[test]
fn default_ignores_disabled() {
    let entries = default_tree("./tests/resources/ignored_default", WalkPolicy::new(true));
    let search_results = search(&entries, "*", &UtcOffset::west(0).unwrap()).unwrap();

    // 3 is the includes the actual .ignore file too
    assert_eq!(search_results.statistics.files_searched, 3);
    assert_eq!(search_results.statistics.valid_todo_count, 2);
}

#[test]
fn tdignore_always() {
    let entries = tdignore_tree("./tests/resources/ignored_tdignore", WalkPolicy::new(false));
    let search_results = search(&entries, "*", &UtcOffset::west(0).unwrap()).unwrap();

    assert_eq!(search_results.statistics.files_searched, 1);
    assert_eq!(search_results.statistics.valid_todo_count, 1);

    let entries = tdignore_tree("./tests/resources/ignored_tdignore", WalkPolicy::new(true));
    let search_results = search(&entries, "*", &UtcOffset::west(0).unwrap()).unwrap();

    assert_eq!(search_results.statistics.files_searched, 1);
    assert_eq!(search_results.statistics.valid_todo_count, 1);
}

#[test]
fn find_todos_with_default_ignore_files() {
    let entries = default_tree("./tests/ignores/fixtures/default", WalkPolicy::new(false));
    let search_results = search(&entries, "*", &UtcOffset::west(0).unwrap()).unwrap();

    assert_eq!(search_results.statistics.files_searched, 1);
    assert_eq!(search_results.statistics.valid_todo_count, 1);
}

#[test]
fn find_todos_without_default_ignore_files() {
    let entries = default_tree("./tests/ignores/fixtures/default", WalkPolicy::new(true));
    let search_results = search(&entries, "*", &UtcOffset::west(0).unwrap()).unwrap();

    // 3 is the includes the actual .ignore file too
    assert_eq!(search_results.statistics.files_searched, 3);
    assert_eq!(search_results.statistics.valid_todo_count, 2);
}

#[test]
/// Test is not too comprehensive as by doing so, we would just be testing the glob matcher.
/// We just want to see that it works
fn find_todos_using_a_filename_pattern() {
    let root = "./tests/ignores/fixtures/patterns";
    let entries = vec![
        directory(root),
        file(&format!("{}/should_be_scanned.rs", root), VALID),
        file(&format!("{}/should_be_scanned_too.txt", root), VALID),
        file(&format!("{}/should_not_scan.rs", root), VALID),
    ];
    let search_results =
        search(&entries, "*be_scanned*", &UtcOffset::west(0).unwrap()).unwrap();

    assert_eq!(search_results.statistics.files_searched, 2);
    assert_eq!(search_results.statistics.valid_todo_count, 2);
}

#[test]
fn test_that_tdignore_cannot_be_disabled() {
    let entries = tdignore_tree("./tests/ignores/fixtures/tdignore", WalkPolicy::new(false));
    let search_results = search(&entries, "*", &UtcOffset::west(0).unwrap()).unwrap();

    assert_eq!(search_results.statistics.files_searched, 1);
    assert_eq!(search_results.statistics.valid_todo_count, 1);

    let entries = tdignore_tree("./tests/ignores/fixtures/tdignore", WalkPolicy::new(true));
    let search_results = search(&entries, "*", &UtcOffset::west(0).unwrap()).unwrap();

    assert_eq!(search_results.statistics.files_searched, 1);
    assert_eq!(search_results.statistics.valid_todo_count, 1);
}
