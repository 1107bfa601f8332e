use diff_review::aggregate::{
    assemble_report, commit_summary_prompt, commit_title_prompt, summary_points,
};
use diff_review::pipeline::collect_reviews;
use diff_review::review::{ReviewResult, UpstreamError};
use diff_review::review_map::ReviewMap;

#[test]
fn map_insert_and_get() {
    let mut m = ReviewMap::new();
    m.insert("a.txt".to_string(), "- one".to_string());
    m.insert("b.txt".to_string(), "- two".to_string());
    assert_eq!(m.len(), 2);
    assert_eq!(m.get("a.txt"), Some(&"- one".to_string()));
    assert_eq!(m.get("b.txt"), Some(&"- two".to_string()));
    assert_eq!(m.get("c.txt"), None);
}

#[test]
fn map_duplicate_path_collapses_to_one_entry() {
    let mut m = ReviewMap::new();
    m.insert("a.txt".to_string(), "- first".to_string());
    m.insert("a.txt".to_string(), "- second".to_string());
    assert_eq!(m.len(), 1);
    assert_eq!(m.get("a.txt"), Some(&"- second".to_string()));
}

#[test]
fn collect_merges_in_arrival_order() {
    let results = vec![
        Some(ReviewResult { path: "a.txt".to_string(), review_text: "- a".to_string() }),
        None,
        Some(ReviewResult { path: "b.txt".to_string(), review_text: "- b".to_string() }),
        Some(ReviewResult { path: "a.txt".to_string(), review_text: "- later".to_string() }),
    ];
    let m = collect_reviews(&results);
    assert_eq!(m.len(), 2);
    assert_eq!(m.get("a.txt"), Some(&"- later".to_string()));
    assert_eq!(m.get("b.txt"), Some(&"- b".to_string()));
}

#[test]
fn summary_points_joins_blocks() {
    let mut m = ReviewMap::new();
    m.insert("a.txt".to_string(), "- looks fine".to_string());
    m.insert("b.txt".to_string(), "".to_string());
    assert_eq!(summary_points(&m), "[a.txt]\n- looks fine\n[b.txt]\n");
}

#[test]
fn summary_points_of_empty_map_is_empty() {
    let m = ReviewMap::new();
    assert_eq!(summary_points(&m), "");
}

#[test]
fn aggregation_prompts_quote_the_points() {
    let points = "[a.txt]\n- looks fine";
    let tp = commit_title_prompt(points);
    assert!(tp.contains(points));
    assert!(tp.ends_with("PULL REQUEST GRADE IS:\n"));
    let sp = commit_summary_prompt(points);
    assert!(sp.contains(points));
    assert!(sp.ends_with("THE pull request REVIEW:\n"));
}

#[test]
fn assemble_report_needs_both_calls() {
    let m = ReviewMap::new();
    let report =
        assemble_report(Ok("Good".to_string()), Ok("- fine".to_string()), m).expect("both ok");
    assert_eq!(report.title, "Good");
    assert_eq!(report.summary, "- fine");

    let m = ReviewMap::new();
    let e = assemble_report(
        Err(UpstreamError { detail: "title failed".to_string() }),
        Ok("- fine".to_string()),
        m,
    );
    assert_eq!(e.err().map(|e| e.detail), Some("title failed".to_string()));

    let m = ReviewMap::new();
    let e = assemble_report(
        Ok("Good".to_string()),
        Err(UpstreamError { detail: "summary failed".to_string() }),
        m,
    );
    assert_eq!(e.err().map(|e| e.detail), Some("summary failed".to_string()));

    let m = ReviewMap::new();
    let e = assemble_report(
        Err(UpstreamError { detail: "title failed".to_string() }),
        Err(UpstreamError { detail: "summary failed".to_string() }),
        m,
    );
    assert_eq!(e.err().map(|e| e.detail), Some("title failed".to_string()));
}
