//! Component-wise prefix matching of entry paths against requested paths.

use git_commit_staged::path_matches;

#[test]
fn lib_exact_file_match() {
    let requested = vec![String::from("src/main.rs")];
    assert!(path_matches("src/main.rs", &requested));
}

#[test]
fn lib_directory_contains_file() {
    let requested = vec![String::from("src")];
    assert!(path_matches("src/main.rs", &requested));
}

#[test]
fn lib_nested_directory_contains_file() {
    let requested = vec![String::from("src/foo")];
    assert!(path_matches("src/foo/bar/baz.rs", &requested));
}

#[test]
fn lib_no_match_different_file() {
    let requested = vec![String::from("src/lib.rs")];
    assert!(!path_matches("src/main.rs", &requested));
}

#[test]
fn lib_no_match_sibling_directory() {
    let requested = vec![String::from("tests")];
    assert!(!path_matches("src/main.rs", &requested));
}

#[test]
fn lib_no_false_prefix_match() {
    // "src/foo" should NOT match "src/foobar/baz.rs"
    let requested = vec![String::from("src/foo")];
    assert!(!path_matches("src/foobar/baz.rs", &requested));
}

#[test]
fn lib_multiple_requested_paths() {
    let requested = vec![String::from("src"), String::from("tests")];
    assert!(path_matches("tests/test_foo.rs", &requested));
}

#[test]
fn lib_root_matches_everything() {
    let requested = vec![String::from("")];
    assert!(path_matches("src/deeply/nested/file.rs", &requested));
}

#[test]
fn path_matching_exact_file_match() {
    let requested = vec![String::from("src/main.rs")];
    assert!(path_matches("src/main.rs", &requested));
}

#[test]
fn path_matching_directory_contains_file() {
    let requested = vec![String::from("src")];
    assert!(path_matches("src/main.rs", &requested));
}

#[test]
fn path_matching_nested_directory_contains_file() {
    let requested = vec![String::from("src/foo")];
    assert!(path_matches("src/foo/bar/baz.rs", &requested));
}

#[test]
fn path_matching_no_match_different_file() {
    let requested = vec![String::from("src/lib.rs")];
    assert!(!path_matches("src/main.rs", &requested));
}

#[test]
fn path_matching_no_match_sibling_directory() {
    let requested = vec![String::from("tests")];
    assert!(!path_matches("src/main.rs", &requested));
}

#[test]
fn path_matching_no_false_prefix_match() {
    // "src/foo" should NOT match "src/foobar/baz.rs"
    let requested = vec![String::from("src/foo")];
    assert!(!path_matches("src/foobar/baz.rs", &requested));
}

#[test]
fn path_matching_multiple_requested_paths() {
    let requested = vec![String::from("src"), String::from("tests")];
    assert!(path_matches("tests/test_foo.rs", &requested));
}

#[test]
fn path_matching_root_matches_everything() {
    let requested = vec![String::from("")];
    assert!(path_matches("src/deeply/nested/file.rs", &requested));
}

#[test]
fn trailing_separator_on_filter_still_matches() {
    let requested = vec![String::from("src/")];
    assert!(path_matches("src/main.rs", &requested));
    assert!(path_matches("src", &requested));
    assert!(!path_matches("srcfoo", &requested));
}

#[test]
fn no_requested_paths_matches_nothing() {
    let requested: Vec<String> = vec![];
    assert!(!path_matches("src/main.rs", &requested));
    assert!(!path_matches("", &requested));
}

#[test]
fn dot_segments_are_ignored_in_matching() {
    let requested = vec![String::from("./src")];
    assert!(path_matches("src/main.rs", &requested));
}
