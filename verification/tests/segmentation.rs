use diff_review::pipeline::segment_diff;
use diff_review::segment::{join_segments, split_prefix_inclusive};

const DELIM: &str = "\ndiff --git ";

#[test]
fn split_two_files() {
    let diff = "diff --git a/a.txt b/a.txt\n--- a/a.txt\n+++ b/a.txt\n+x\ndiff --git a/b.txt b/b.txt\n--- a/b.txt\n+++ b/b.txt\n+y\n";
    let pieces = split_prefix_inclusive(diff, DELIM);
    assert_eq!(pieces.len(), 2);
    assert_eq!(pieces[0], "diff --git a/a.txt b/a.txt\n--- a/a.txt\n+++ b/a.txt\n+x");
    assert_eq!(pieces[1], "\ndiff --git a/b.txt b/b.txt\n--- a/b.txt\n+++ b/b.txt\n+y\n");
}

#[test]
fn split_round_trip() {
    let diff = "diff --git a/a.txt b/a.txt\n+x\ndiff --git a/b.txt b/b.txt\n+y\ndiff --git a/c.txt b/c.txt\n+z\n";
    let pieces = split_prefix_inclusive(diff, DELIM);
    assert_eq!(pieces.len(), 3);
    assert_eq!(join_segments(&pieces), diff);
}

#[test]
fn split_empty_input_has_no_pieces() {
    let pieces = split_prefix_inclusive("", DELIM);
    assert_eq!(pieces.len(), 0);
}

#[test]
fn split_without_marker_is_one_piece() {
    let pieces = split_prefix_inclusive("no marker here", DELIM);
    assert_eq!(pieces, vec!["no marker here".to_string()]);
}

#[test]
fn split_marker_at_start_opens_first_piece() {
    let diff = "\ndiff --git a/a.txt b/a.txt\n+x";
    let pieces = split_prefix_inclusive(diff, DELIM);
    assert_eq!(pieces, vec![diff.to_string()]);
}

#[test]
fn segment_diff_keeps_parseable_pieces_only() {
    let diff = "junk prologue\ndiff --git a/a.txt b/a.txt\n+x\ndiff --git malformed\n+y";
    let segs = segment_diff(diff);
    assert_eq!(segs.len(), 1);
    assert_eq!(segs[0].path, "a.txt");
    assert_eq!(segs[0].content, "\ndiff --git a/a.txt b/a.txt\n+x");
}

#[test]
fn segment_diff_round_trip_content() {
    let diff = "diff --git a/a.txt b/a.txt\n+x\ndiff --git a/b.txt b/b.txt\n+y";
    let segs = segment_diff(diff);
    let contents: Vec<String> = segs.iter().map(|s| s.content.clone()).collect();
    assert_eq!(join_segments(&contents), diff);
}
