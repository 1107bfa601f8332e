use diff_review::review::{
    diff_summary_prompt, plan_file_review, process_file_diff, settle_review, ReviewPlan,
    ReviewResult, UpstreamError, MAX_SUMMARY_LENGTH,
};

fn oversize_segment(path: &str) -> String {
    let header = format!("diff --git a/{} b/{}\n", path, path);
    let mut seg = header;
    while seg.len() < MAX_SUMMARY_LENGTH {
        seg.push('x');
    }
    seg
}

fn sized_segment(len: usize) -> String {
    let header = "diff --git a/a.txt b/a.txt\n";
    assert!(len >= header.len());
    let mut seg = header.to_string();
    while seg.len() < len {
        seg.push('x');
    }
    seg
}

#[test]
fn gate_sends_just_under_threshold() {
    let seg = sized_segment(MAX_SUMMARY_LENGTH - 1);
    assert_eq!(seg.len(), MAX_SUMMARY_LENGTH - 1);
    let prompt = diff_summary_prompt(&seg);
    assert!(prompt.is_some());
    assert!(prompt.unwrap().contains(seg.as_str()));
}

#[test]
fn gate_skips_at_threshold() {
    let seg = sized_segment(MAX_SUMMARY_LENGTH);
    assert_eq!(seg.len(), MAX_SUMMARY_LENGTH);
    assert!(diff_summary_prompt(&seg).is_none());
}

#[test]
fn gate_skips_over_threshold() {
    let seg = sized_segment(MAX_SUMMARY_LENGTH + 100);
    assert!(diff_summary_prompt(&seg).is_none());
}

#[test]
fn prompt_embeds_diff_in_template() {
    let seg = "diff --git a/a.txt b/a.txt\n+hello";
    let prompt = diff_summary_prompt(seg).unwrap();
    assert!(prompt.contains("THE GIT DIFF TO BE REVIEWED:"));
    assert!(prompt.contains(seg));
    assert!(prompt.ends_with("THE REVIEW:\n"));
}

#[test]
fn plan_unparseable_segment() {
    let plan = plan_file_review("no header at all");
    assert!(matches!(plan, ReviewPlan::Unparseable));
}

#[test]
fn plan_oversized_segment() {
    let seg = oversize_segment("big.txt");
    match plan_file_review(&seg) {
        ReviewPlan::Oversized { path } => assert_eq!(path, "big.txt"),
        _ => panic!("expected the oversized plan"),
    }
}

#[test]
fn plan_requests_review_for_small_segment() {
    let seg = "diff --git a/a.txt b/a.txt\n+hello";
    match plan_file_review(seg) {
        ReviewPlan::Request { path, prompt } => {
            assert_eq!(path, "a.txt");
            assert!(prompt.contains(seg));
        },
        _ => panic!("expected a review request"),
    }
}

#[test]
fn settle_keeps_generated_text() {
    let r = settle_review("a.txt".to_string(), Ok("- looks fine".to_string()));
    assert_eq!(r.path, "a.txt");
    assert_eq!(r.review_text, "- looks fine");
}

#[test]
fn settle_absorbs_failure_into_empty_review() {
    let err = UpstreamError { detail: "rate limit".to_string() };
    let r: ReviewResult = settle_review("a.txt".to_string(), Err(err));
    assert_eq!(r.path, "a.txt");
    assert_eq!(r.review_text, "");
}

#[test]
fn process_file_diff_variants() {
    let ok = Ok("- fine".to_string());
    let r = process_file_diff("diff --git a/a.txt b/a.txt\n+x", ok).unwrap();
    assert_eq!(r.path, "a.txt");
    assert_eq!(r.review_text, "- fine");

    let failed: Result<String, UpstreamError> =
        Err(UpstreamError { detail: "network".to_string() });
    let r = process_file_diff("diff --git a/a.txt b/a.txt\n+x", failed).unwrap();
    assert_eq!(r.review_text, "");

    let big = oversize_segment("big.txt");
    let r = process_file_diff(&big, Ok("ignored".to_string())).unwrap();
    assert_eq!(r.path, "big.txt");
    assert_eq!(r.review_text, "");

    assert!(process_file_diff("garbage", Ok("x".to_string())).is_none());
}
