use diff_review::header::get_file_name_from_diff;

#[test]
fn extract_path_simple() {
    let seg = "diff --git a/lib/index.js b/lib/index.js\nindex aadf691..bfef603 100644\n--- a/lib/index.js\n+++ b/lib/index.js\n+x";
    assert_eq!(get_file_name_from_diff(seg), Some("lib/index.js".to_string()));
}

#[test]
fn extract_path_with_leading_newline() {
    let seg = "\ndiff --git a/src/main.rs b/src/main.rs\n+y";
    assert_eq!(get_file_name_from_diff(seg), Some("src/main.rs".to_string()));
}

#[test]
fn extract_path_of_rename_takes_new_side() {
    let seg = "diff --git a/old.txt b/new.txt\n+z";
    assert_eq!(get_file_name_from_diff(seg), Some("new.txt".to_string()));
}

#[test]
fn extract_path_header_without_marker_is_absent() {
    assert_eq!(get_file_name_from_diff("hello world"), None);
    assert_eq!(get_file_name_from_diff(""), None);
}

#[test]
fn extract_path_header_without_b_side_is_absent() {
    assert_eq!(get_file_name_from_diff("diff --git a/x.txt\n+1"), None);
}

#[test]
fn extract_path_ends_at_line_end() {
    let seg = "diff --git a/x.txt b/x.txt\n b/not-this\n";
    assert_eq!(get_file_name_from_diff(seg), Some("x.txt".to_string()));
}
