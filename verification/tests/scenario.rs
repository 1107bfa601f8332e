use diff_review::aggregate::{
    assemble_report, commit_summary_prompt, commit_title_prompt, summary_points,
};
use diff_review::pipeline::run_all;
use diff_review::review::{UpstreamError, MAX_SUMMARY_LENGTH};
use diff_review::segment::split_prefix_inclusive;

/// The two calls a mocked analysis service answers in the two-file scenario.
fn mock_answer(prompt: &str) -> Result<String, UpstreamError> {
    if prompt.contains("PULL REQUEST GRADE IS:") {
        Ok("Good change".to_string())
    } else if prompt.contains("THE pull request REVIEW:") {
        Ok("- ship it".to_string())
    } else {
        Ok("- looks fine".to_string())
    }
}

#[test]
fn two_file_scenario() {
    let small = "diff --git a/a.txt b/a.txt\n+tiny change";
    let mut big = "\ndiff --git a/b.txt b/b.txt\n".to_string();
    while big.len() < MAX_SUMMARY_LENGTH {
        big.push('x');
    }
    let diff = format!("{}{}", small, big);

    let segments = split_prefix_inclusive(&diff, "\ndiff --git ");
    assert_eq!(segments.len(), 2);

    // one analysis outcome per segment; only a.txt's prompt is really issued
    let completions = vec![mock_answer("per-file"), Ok("never asked".to_string())];
    let map = run_all(&segments, completions);

    assert_eq!(map.len(), 2);
    assert_eq!(map.get("a.txt"), Some(&"- looks fine".to_string()));
    assert_eq!(map.get("b.txt"), Some(&"".to_string()));

    let points = summary_points(&map);
    assert!(points.contains("[a.txt]"));
    assert!(points.contains("[b.txt]"));

    let title_prompt = commit_title_prompt(&points);
    let summary_prompt = commit_summary_prompt(&points);
    let report = assemble_report(
        mock_answer(&title_prompt),
        mock_answer(&summary_prompt),
        map,
    )
    .expect("both aggregation calls succeed");
    assert_eq!(report.title, "Good change");
    assert_eq!(report.summary, "- ship it");
    assert_eq!(report.per_file.get("a.txt"), Some(&"- looks fine".to_string()));
}

#[test]
fn one_failure_keeps_the_rest() {
    let diff = "diff --git a/a.txt b/a.txt\n+1\ndiff --git a/b.txt b/b.txt\n+2\ndiff --git a/c.txt b/c.txt\n+3";
    let segments = split_prefix_inclusive(diff, "\ndiff --git ");
    assert_eq!(segments.len(), 3);

    let completions = vec![
        Ok("- a fine".to_string()),
        Err(UpstreamError { detail: "timeout".to_string() }),
        Ok("- c fine".to_string()),
    ];
    let map = run_all(&segments, completions);

    assert_eq!(map.len(), 3);
    assert_eq!(map.get("a.txt"), Some(&"- a fine".to_string()));
    assert_eq!(map.get("b.txt"), Some(&"".to_string()));
    assert_eq!(map.get("c.txt"), Some(&"- c fine".to_string()));
}

#[test]
fn unparseable_segment_yields_no_entry() {
    let diff = "prologue without header\ndiff --git a/a.txt b/a.txt\n+1";
    let segments = split_prefix_inclusive(diff, "\ndiff --git ");
    assert_eq!(segments.len(), 2);
    let completions = vec![Ok("ignored".to_string()), Ok("- fine".to_string())];
    let map = run_all(&segments, completions);
    assert_eq!(map.len(), 1);
    assert_eq!(map.get("a.txt"), Some(&"- fine".to_string()));
    assert_eq!(map.get("prologue without header"), None);
}
