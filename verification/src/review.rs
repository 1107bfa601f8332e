//! The per-file review stage: decides for one diff segment whether an
//! analysis request is worth issuing (segments at or over `MAX_SUMMARY_LENGTH`
//! characters are skipped and get an empty review), builds the review prompt,
//! and absorbs a failed analysis call into an empty review, so that one
//! unreviewable file never aborts the batch.

use vstd::prelude::*;
use vstd::string::*;

use crate::header::extract_path_spec;

verus! {

/// Segments whose content is at least this many characters long are not sent
/// for review; they keep an empty review instead.
pub const MAX_SUMMARY_LENGTH: usize = 3000;

/// The analysis service failed to produce text for a prompt; the cause is
/// opaque to the pipeline.
#[derive(Debug)]
pub struct UpstreamError {
    pub detail: String,
}

/// The review produced for one file: the file's path and the review text,
/// which is empty when the file was skipped or its analysis failed.
pub struct ReviewResult {
    pub path: String,
    pub review_text: String,
}

/// Mathematical value of a review result: its path and text as character
/// sequences.
pub open spec fn review_view(r: ReviewResult) -> (Seq<char>, Seq<char>) {
    (r.path@, r.review_text@)
}

/// Mathematical value of an analysis outcome: the generated text, or nothing
/// for a failure.
pub open spec fn completion_view(o: Result<String, UpstreamError>) -> Option<Seq<char>> {
    match o {
        Ok(t) => Some(t@),
        Err(_) => None,
    }
}

/// Instructional text placed before the file's diff in a review prompt.
pub open spec fn diff_prompt_prefix() -> Seq<char> {
    "You are an expert programmer, and I'm looking for your assistance.
I have made some changes in the code base that I would like you to look at and tell me what's wrong with it.

Reminders about the git diff format:
For every file, there are a few metadata lines, like (for example):
```
diff --git a/lib/index.js b/lib/index.js
index aadf691..bfef603 100644
--- a/lib/index.js
+++ b/lib/index.js
```
This means that `lib/index.js` was modified in this commit. Note that this is only an example.
Then there is a specifier of the lines that were modified.
A line starting with `+` means it was added.
A line that starting with `-` means that line was deleted.
A line that starts with neither `+` nor `-` is code given for context and better understanding.
It is not part of the diff.
After the git diff of the first file, there will be an empty line, and then the git diff of the next file.

I expect you to go over every file that was changed and make sure that the changes follow good programming practices.
The output should be easily readable. When in doubt, write less comments and not more.
Do not output comments that simply repeat the contents of the file.
Write every review comment in a new line.
Comments should be in a bullet point list, each line starting with a `-`.
The review should not include comments copied from the code.
Readability is top priority. Write only the most important comments about the diff.



THE GIT DIFF TO BE REVIEWED:
```
$"@
}

/// Text placed after the file's diff in a review prompt.
pub open spec fn diff_prompt_suffix() -> Seq<char> {
    "
```

THE REVIEW:
"@
}

/// The full review prompt for one file's diff.
pub open spec fn diff_prompt_spec(file_diff: Seq<char>) -> Seq<char> {
    diff_prompt_prefix() + file_diff + diff_prompt_suffix()
}

/// Builds the review prompt for one file's diff, unless the diff is at least
/// `MAX_SUMMARY_LENGTH` characters long, in which case the file is skipped
/// and no prompt is produced.
pub fn diff_summary_prompt(file_diff: &str) -> (r: Option<String>)
    ensures
        r is Some <==> file_diff@.len() < MAX_SUMMARY_LENGTH,
        r is Some ==> r->Some_0@ == diff_prompt_spec(file_diff@),
{
    if file_diff.unicode_len() < MAX_SUMMARY_LENGTH {
        let mut p = String::from_str(
            "You are an expert programmer, and I'm looking for your assistance.
I have made some changes in the code base that I would like you to look at and tell me what's wrong with it.

Reminders about the git diff format:
For every file, there are a few metadata lines, like (for example):
```
diff --git a/lib/index.js b/lib/index.js
index aadf691..bfef603 100644
--- a/lib/index.js
+++ b/lib/index.js
```
This means that `lib/index.js` was modified in this commit. Note that this is only an example.
Then there is a specifier of the lines that were modified.
A line starting with `+` means it was added.
A line that starting with `-` means that line was deleted.
A line that starts with neither `+` nor `-` is code given for context and better understanding.
It is not part of the diff.
After the git diff of the first file, there will be an empty line, and then the git diff of the next file.

I expect you to go over every file that was changed and make sure that the changes follow good programming practices.
The output should be easily readable. When in doubt, write less comments and not more.
Do not output comments that simply repeat the contents of the file.
Write every review comment in a new line.
Comments should be in a bullet point list, each line starting with a `-`.
The review should not include comments copied from the code.
Readability is top priority. Write only the most important comments about the diff.



THE GIT DIFF TO BE REVIEWED:
```
$",
        );
        p.append(file_diff);
        p.append(
            "
```

THE REVIEW:
",
        );
        Some(p)
    } else {
        None
    }
}

/// What the per-file review stage decides to do with one segment.
pub enum ReviewPlan {
    /// No path could be parsed from the segment's header: the segment yields
    /// no map entry at all.
    Unparseable,
    /// The segment is too large to review economically: its file keeps an
    /// empty review and no request is issued.
    Oversized { path: String },
    /// The segment is worth reviewing: issue `prompt` to the analysis
    /// service on behalf of `path`.
    Request { path: String, prompt: String },
}

/// Decides what to do with one diff segment: skip it when its header names
/// no path, record an empty review when it is oversized, and otherwise ask
/// for a review with the built prompt.
pub fn plan_file_review(file_diff: &str) -> (p: ReviewPlan)
    ensures
        match p {
            ReviewPlan::Unparseable => extract_path_spec(file_diff@) is None,
            ReviewPlan::Oversized { path } => extract_path_spec(file_diff@) == Some(path@)
                && file_diff@.len() >= MAX_SUMMARY_LENGTH,
            ReviewPlan::Request { path, prompt } => extract_path_spec(file_diff@) == Some(path@)
                && file_diff@.len() < MAX_SUMMARY_LENGTH && prompt@ == diff_prompt_spec(
                file_diff@,
            ),
        },
{
    let path = match crate::header::get_file_name_from_diff(file_diff) {
        None => {
            return ReviewPlan::Unparseable;
        },
        Some(path) => path,
    };
    match diff_summary_prompt(file_diff) {
        None => ReviewPlan::Oversized { path },
        Some(prompt) => ReviewPlan::Request { path, prompt },
    }
}

/// Turns the analysis service's answer for one file into that file's review:
/// generated text stands as it is, and a failure degrades to an empty review
/// rather than an error.
pub fn settle_review(path: String, outcome: Result<String, UpstreamError>) -> (r: ReviewResult)
    ensures
        r.path == path,
        r.review_text@ == match completion_view(outcome) {
            Some(t) => t,
            None => Seq::<char>::empty(),
        },
{
    let review_text = match outcome {
        Ok(t) => t,
        Err(_) => String::new(),
    };
    ReviewResult { path, review_text }
}

/// The review that one segment contributes, given the analysis outcome its
/// prompt would draw: nothing for an unparseable segment, and otherwise the
/// extracted path with the generated text, empty when the segment is
/// oversized or the analysis failed.
pub open spec fn review_file_spec(diff: Seq<char>, completion: Option<Seq<char>>) -> Option<
    (Seq<char>, Seq<char>),
> {
    match extract_path_spec(diff) {
        None => None,
        Some(p) => Some(
            (
                p,
                if diff.len() >= MAX_SUMMARY_LENGTH {
                    Seq::<char>::empty()
                } else {
                    match completion {
                        Some(t) => t,
                        None => Seq::<char>::empty(),
                    }
                },
            ),
        ),
    }
}

/// Processes one file's diff segment into its review, taking as an argument
/// the analysis service's answer to this segment's review prompt (ignored
/// when the segment is unparseable or oversized, since no request is issued
/// for those).
pub fn process_file_diff(file_diff: &str, completion: Result<String, UpstreamError>) -> (r: Option<
    ReviewResult,
>)
    ensures
        r is Some <==> review_file_spec(file_diff@, completion_view(completion)) is Some,
        r is Some ==> review_view(r->Some_0) == review_file_spec(
            file_diff@,
            completion_view(completion),
        )->Some_0,
{
    match plan_file_review(file_diff) {
        ReviewPlan::Unparseable => None,
        ReviewPlan::Oversized { path } => Some(
            ReviewResult { path, review_text: String::new() },
        ),
        ReviewPlan::Request { path, prompt: _ } => Some(settle_review(path, completion)),
    }
}

} // verus!
