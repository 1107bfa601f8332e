//! The aggregator: joins every per-file entry into one combined summary
//! text, builds the two aggregation prompts (title and overall summary) over
//! it, and joins the two outcomes into the final report. Unlike the per-file
//! stage, a failure here is not absorbed: a report without a title or
//! without a summary is no report.

use vstd::prelude::*;
use vstd::string::*;

use crate::review::UpstreamError;
use crate::review_map::ReviewMap;

verus! {

/// One entry's block in the combined summary text.
pub open spec fn block_spec(path: Seq<char>, text: Seq<char>) -> Seq<char> {
    "["@ + path + "]\n"@ + text
}

/// The combined summary text: every entry's `[path]` block, in entry order,
/// separated by newlines. Entries with empty review text are included with
/// an empty body.
pub open spec fn summary_points_spec(entries: Seq<(Seq<char>, Seq<char>)>) -> Seq<char>
    decreases entries.len(),
{
    if entries.len() == 0 {
        Seq::empty()
    } else if entries.len() == 1 {
        block_spec(entries[0].0, entries[0].1)
    } else {
        summary_points_spec(entries.drop_last()) + "\n"@ + block_spec(
            entries.last().0,
            entries.last().1,
        )
    }
}

/// Joins every entry of the review map into the combined summary text that
/// both aggregation prompts quote.
pub fn summary_points(map: &ReviewMap) -> (r: String)
    ensures
        r@ == summary_points_spec(map.entries_seq()),
{
    let ghost entries = map.entries_seq();
    let n = map.len();
    let mut acc = String::new();
    let mut i: usize = 0;
    while i < n
        invariant
            i <= n,
            n == entries.len(),
            entries == map.entries_seq(),
            acc@ == summary_points_spec(entries.take(i as int)),
        decreases n - i,
    {
        let ghost pre = acc@;
        if i > 0 {
            acc.append("\n");
        }
        let e = map.entry_at(i);
        acc.append("[");
        acc.append(e.0.as_str());
        acc.append("]\n");
        acc.append(e.1.as_str());
        proof {
            let taken = entries.take(i + 1);
            assert(taken.drop_last() =~= entries.take(i as int));
            assert(taken.last() == entries[i as int]);
            if i == 0 {
                assert(acc@ =~= block_spec(entries[0].0, entries[0].1));
                assert(taken.len() == 1);
                assert(taken[0] == entries[0]);
            } else {
                assert(acc@ =~= summary_points_spec(entries.take(i as int)) + "\n"@ + block_spec(
                    entries[i as int].0,
                    entries[i as int].1,
                ));
            }
        }
        i += 1;
    }
    proof {
        assert(entries.take(entries.len() as int) =~= entries);
    }
    acc
}

/// Instructional text placed before the combined summary text in the title
/// prompt.
pub open spec fn title_prompt_prefix() -> Seq<char> {
    "You are an expert programmer, and I'm looking for your guidance.
I have made some changes in the code base that I would like you to review.
For some of these files changes where too big and were omitted in the files diff presented to you.
Please grade the pull request in one sentence.
The grade will act as a title for your review of the pull request.


THE FILE SUMMARIES:
```
"@
}

/// Text placed after the combined summary text in the title prompt.
pub open spec fn title_prompt_suffix() -> Seq<char> {
    "
```

Remember to write only one line, no more than 50 characters.
PULL REQUEST GRADE IS:
"@
}

/// The full title prompt over a combined summary text.
pub open spec fn title_prompt_spec(points: Seq<char>) -> Seq<char> {
    title_prompt_prefix() + points + title_prompt_suffix()
}

/// Builds the prompt that asks for the one-line title grading the whole
/// change set.
pub fn commit_title_prompt(summary_points: &str) -> (r: String)
    ensures
        r@ == title_prompt_spec(summary_points@),
{
    let mut p = String::from_str(
        "You are an expert programmer, and I'm looking for your guidance.
I have made some changes in the code base that I would like you to review.
For some of these files changes where too big and were omitted in the files diff presented to you.
Please grade the pull request in one sentence.
The grade will act as a title for your review of the pull request.


THE FILE SUMMARIES:
```
",
    );
    p.append(summary_points);
    p.append(
        "
```

Remember to write only one line, no more than 50 characters.
PULL REQUEST GRADE IS:
",
    );
    p
}

/// Instructional text placed before the combined summary text in the
/// overall-summary prompt.
pub open spec fn summary_prompt_prefix() -> Seq<char> {
    "You are an expert programmer, and I'm looking for your assistance.
I have made some changes in the code base that I would like you to look at and tell me what's wrong with it.

Note that some of these files changes where too big and were omitted in the files diff presented to you.

Please review the pull request.
Write your response in bullet points, using the imperative tense following the pull request style guide.
Starting each bullet point with a `-`.
Help me find bad practices introduced in the changes and add suggestions on how this can be addressed otherwise.
Use examples to illustrate your point.
Write the most important bullet points.
The list should not be more than a few bullet points.


THE FILE SUMMARIES:
```
"@
}

/// Text placed after the combined summary text in the overall-summary
/// prompt.
pub open spec fn summary_prompt_suffix() -> Seq<char> {
    "
```

Remember to write only the most important points and do not write more than a few bullet points.
THE pull request REVIEW:
"@
}

/// The full overall-summary prompt over a combined summary text.
pub open spec fn summary_prompt_spec(points: Seq<char>) -> Seq<char> {
    summary_prompt_prefix() + points + summary_prompt_suffix()
}

/// Builds the prompt that asks for the bullet-point summary of the most
/// important issues across all files.
pub fn commit_summary_prompt(summary_points: &str) -> (r: String)
    ensures
        r@ == summary_prompt_spec(summary_points@),
{
    let mut p = String::from_str(
        "You are an expert programmer, and I'm looking for your assistance.
I have made some changes in the code base that I would like you to look at and tell me what's wrong with it.

Note that some of these files changes where too big and were omitted in the files diff presented to you.

Please review the pull request.
Write your response in bullet points, using the imperative tense following the pull request style guide.
Starting each bullet point with a `-`.
Help me find bad practices introduced in the changes and add suggestions on how this can be addressed otherwise.
Use examples to illustrate your point.
Write the most important bullet points.
The list should not be more than a few bullet points.


THE FILE SUMMARIES:
```
",
    );
    p.append(summary_points);
    p.append(
        "
```

Remember to write only the most important points and do not write more than a few bullet points.
THE pull request REVIEW:
",
    );
    p
}

/// The terminal artifact: the one-line title, the overall summary, and the
/// per-file review map it was aggregated from.
pub struct FinalReport {
    pub title: String,
    pub summary: String,
    pub per_file: ReviewMap,
}

/// Joins the outcomes of the two aggregation calls. Aggregation is atomic:
/// the report exists exactly when both the title call and the summary call
/// succeeded; if either failed, that failure (the title's first) propagates
/// and no report is produced.
pub fn assemble_report(
    title: Result<String, UpstreamError>,
    summary: Result<String, UpstreamError>,
    per_file: ReviewMap,
) -> (r: Result<FinalReport, UpstreamError>)
    ensures
        r is Ok <==> (title is Ok && summary is Ok),
        r is Ok ==> r->Ok_0.title == title->Ok_0 && r->Ok_0.summary == summary->Ok_0
            && r->Ok_0.per_file == per_file,
        title is Err ==> r is Err && r->Err_0 == title->Err_0,
        title is Ok && summary is Err ==> r is Err && r->Err_0 == summary->Err_0,
{
    match (title, summary) {
        (Ok(title), Ok(summary)) => Ok(FinalReport { title, summary, per_file }),
        (Err(e), _) => Err(e),
        (_, Err(e)) => Err(e),
    }
}

} // verus!
