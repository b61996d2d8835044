use mdblog::entry_name::{entry_file_path, name_leaves_entries_dir, ENTRIES_DIR, ENTRIES_PREFIX};
use mdblog::error::BlogError;

#[test]
fn entry_path_is_the_name_inside_the_entries_directory() {
    assert_eq!(entry_file_path("first-post.md"), Ok("entries/first-post.md".to_string()));
    assert_eq!(entry_file_path("a b.md"), Ok("entries/a b.md".to_string()));
    assert_eq!(entry_file_path("sub/post.md"), Ok("entries/sub/post.md".to_string()));
    assert_eq!(entry_file_path(""), Ok("entries/".to_string()));
}

#[test]
fn entries_prefix_is_the_directory_and_a_slash() {
    assert_eq!(ENTRIES_DIR, "entries");
    assert_eq!(ENTRIES_PREFIX, format!("{}/", ENTRIES_DIR));
}

#[test]
fn climbing_out_of_the_entries_directory_is_refused() {
    assert_eq!(entry_file_path("../../etc/passwd"), Err(BlogError::PathTraversal));
    assert_eq!(entry_file_path(".."), Err(BlogError::PathTraversal));
    assert_eq!(entry_file_path("../secret.md"), Err(BlogError::PathTraversal));
    assert_eq!(entry_file_path("a/../../b"), Err(BlogError::PathTraversal));
    assert_eq!(entry_file_path("a/.."), Err(BlogError::PathTraversal));
    assert_eq!(entry_file_path("..\\..\\windows\\win.ini"), Err(BlogError::PathTraversal));
    assert_eq!(entry_file_path("a\\..\\b"), Err(BlogError::PathTraversal));
    assert_eq!(entry_file_path("a/..\\b"), Err(BlogError::PathTraversal));
}

#[test]
fn absolute_names_are_refused() {
    assert_eq!(entry_file_path("/etc/passwd"), Err(BlogError::PathTraversal));
    assert_eq!(entry_file_path("/"), Err(BlogError::PathTraversal));
    assert_eq!(entry_file_path("\\\\server\\share"), Err(BlogError::PathTraversal));
    assert_eq!(entry_file_path("C:\\Windows\\win.ini"), Err(BlogError::PathTraversal));
    assert_eq!(entry_file_path("c:post.md"), Err(BlogError::PathTraversal));
    assert_eq!(entry_file_path("Z:"), Err(BlogError::PathTraversal));
}

#[test]
fn dots_that_are_no_parent_segment_are_accepted() {
    for name in ["..hidden", "hidden..", "a..b", "...", "....", ".", "./post.md", "a/.b/c", "x/...", ".../x", "1:post", ":", "\u{e9}:x"] {
        assert!(!name_leaves_entries_dir(name), "{}", name);
        assert_eq!(entry_file_path(name), Ok(format!("entries/{}", name)));
    }
}

#[test]
fn a_drive_needs_a_letter_before_the_colon() {
    assert!(name_leaves_entries_dir("a:x"));
    assert!(name_leaves_entries_dir("z:"));
    assert!(name_leaves_entries_dir("A:"));
    assert!(name_leaves_entries_dir("Z:\\"));
    assert!(!name_leaves_entries_dir("@:"));
    assert!(!name_leaves_entries_dir("[:"));
    assert!(!name_leaves_entries_dir("`:"));
    assert!(!name_leaves_entries_dir("{:"));
    assert!(!name_leaves_entries_dir("ab:"));
}
