//! The fan-out pipeline, seen from its decision side: turning a raw diff
//! into per-file segments, and merging the per-file results — in whatever
//! order they arrive — into the path-keyed review map. The caller runs the
//! per-file analysis calls (concurrently, if it likes) and hands their
//! outcomes back in; every merge decision is made here.

use vstd::prelude::*;

use crate::header::extract_path_spec;
use crate::review::{
    completion_view, review_file_spec, review_view, ReviewResult, UpstreamError,
    MAX_SUMMARY_LENGTH,
};
use crate::review_map::ReviewMap;
use crate::segment::{split_prefix_inclusive, split_spec};

verus! {

/// One changed file's share of the diff: the path its header names and the
/// segment's full text (header line and hunks included).
pub struct FileSegment {
    pub path: String,
    pub content: String,
}

/// Mathematical value of a sequence of file segments.
pub open spec fn segments_view(segs: Seq<FileSegment>) -> Seq<(Seq<char>, Seq<char>)> {
    Seq::new(segs.len(), |i: int| (segs[i].path@, segs[i].content@))
}

/// The file segments among a sequence of split pieces: each piece whose
/// header names a path contributes one segment; a piece with no parseable
/// header contributes nothing.
pub open spec fn segments_spec(pieces: Seq<Seq<char>>) -> Seq<(Seq<char>, Seq<char>)>
    decreases pieces.len(),
{
    if pieces.len() == 0 {
        Seq::empty()
    } else {
        segments_spec(pieces.drop_last()) + match extract_path_spec(pieces.last()) {
            None => Seq::empty(),
            Some(p) => seq![(p, pieces.last())],
        }
    }
}

/// The delimiter that opens each file's part of a multi-file diff.
pub fn diff_delimiter() -> (r: &'static str)
    ensures
        r@ == "\ndiff --git "@,
{
    "\ndiff --git "
}

/// Splits a raw multi-file diff into its per-file segments, dropping (not
/// failing on) any piece from which no path can be parsed.
pub fn segment_diff(diff: &str) -> (r: Vec<FileSegment>)
    ensures
        segments_view(r@) == segments_spec(split_spec(diff@, "\ndiff --git "@)),
{
    let pieces = split_prefix_inclusive(diff, diff_delimiter());
    let ghost pv = pieces.deep_view();
    let mut segs: Vec<FileSegment> = Vec::new();
    let mut i: usize = 0;
    while i < pieces.len()
        invariant
            i <= pieces@.len(),
            pv == pieces.deep_view(),
            segments_view(segs@) == segments_spec(pv.take(i as int)),
        decreases pieces@.len() - i,
    {
        let ghost pre = segments_view(segs@);
        match crate::header::get_file_name_from_diff(pieces[i].as_str()) {
            None => {
                proof {
                    assert(pv.take(i + 1).drop_last() =~= pv.take(i as int));
                    assert(segments_spec(pv.take(i + 1)) =~= pre);
                }
            },
            Some(path) => {
                let content = pieces[i].clone();
                segs.push(FileSegment { path, content });
                proof {
                    assert(pv.take(i + 1).drop_last() =~= pv.take(i as int));
                    assert(segments_view(segs@) =~= pre + seq![(segs@[segs@.len() - 1].path@, segs@[segs@.len() - 1].content@)]);
                    assert(segments_spec(pv.take(i + 1)) =~= pre + seq![(segs@[segs@.len() - 1].path@, segs@[segs@.len() - 1].content@)]);
                }
            },
        }
        i += 1;
    }
    proof {
        assert(pv.take(pv.len() as int) =~= pv);
    }
    segs
}

/// The per-file results as mathematical values: a present result becomes
/// its (path, text) pair.
pub open spec fn results_view(rs: Seq<Option<ReviewResult>>) -> Seq<
    Option<(Seq<char>, Seq<char>)>,
> {
    Seq::new(
        rs.len(),
        |i: int|
            match rs[i] {
                Some(r) => Some(review_view(r)),
                None => None,
            },
    )
}

/// The set of paths carried by the present results.
pub open spec fn paths_of(results: Seq<Option<(Seq<char>, Seq<char>)>>) -> Set<Seq<char>>
    decreases results.len(),
{
    if results.len() == 0 {
        Set::empty()
    } else {
        match results.last() {
            None => paths_of(results.drop_last()),
            Some(e) => paths_of(results.drop_last()).insert(e.0),
        }
    }
}

/// The map the fan-in builds: results merged in arrival order, a later
/// result for a path overwriting an earlier one; absent results contribute
/// nothing.
pub open spec fn collect_spec(results: Seq<Option<(Seq<char>, Seq<char>)>>) -> Map<
    Seq<char>,
    Seq<char>,
>
    decreases results.len(),
{
    if results.len() == 0 {
        Map::empty()
    } else {
        match results.last() {
            None => collect_spec(results.drop_last()),
            Some(e) => collect_spec(results.drop_last()).insert(e.0, e.1),
        }
    }
}

/// Merges per-file results, in the order they arrived, into the path-keyed
/// review map.
pub fn collect_reviews(results: &Vec<Option<ReviewResult>>) -> (m: ReviewMap)
    ensures
        m.wf(),
        m.as_map() == collect_spec(results_view(results@)),
{
    let ghost rv = results_view(results@);
    let mut m = ReviewMap::new();
    let mut i: usize = 0;
    while i < results.len()
        invariant
            i <= results@.len(),
            rv == results_view(results@),
            m.wf(),
            m.as_map() == collect_spec(rv.take(i as int)),
        decreases results@.len() - i,
    {
        let ghost pre = m.as_map();
        match &results[i] {
            Some(r) => {
                m.insert(r.path.clone(), r.review_text.clone());
            },
            None => {},
        }
        proof {
            assert(rv.take(i + 1).drop_last() =~= rv.take(i as int));
            assert(rv.take(i + 1).last() == rv[i as int]);
        }
        i += 1;
    }
    proof {
        assert(rv.take(rv.len() as int) =~= rv);
    }
    m
}

/// Mathematical values of a sequence of analysis outcomes.
pub open spec fn completions_view(cs: Seq<Result<String, UpstreamError>>) -> Seq<
    Option<Seq<char>>,
> {
    Seq::new(cs.len(), |i: int| completion_view(cs[i]))
}

/// Pointwise per-file reviewing: what each segment contributes given the
/// analysis outcome its prompt drew.
pub open spec fn reviews_of(diffs: Seq<Seq<char>>, comps: Seq<Option<Seq<char>>>) -> Seq<
    Option<(Seq<char>, Seq<char>)>,
> {
    Seq::new(diffs.len(), |i: int| review_file_spec(diffs[i], comps[i]))
}

/// The whole fan-out stage: review every segment and merge the results.
pub open spec fn run_all_spec(diffs: Seq<Seq<char>>, comps: Seq<Option<Seq<char>>>) -> Map<
    Seq<char>,
    Seq<char>,
> {
    collect_spec(reviews_of(diffs, comps))
}

/// Reviews every segment and merges the results into the review map, taking
/// as an argument the analysis outcome that each segment's prompt drew
/// (entries for unparseable or oversized segments are ignored, since no
/// request is issued for those).
pub fn run_all(segments: &Vec<String>, completions: Vec<Result<String, UpstreamError>>) -> (m:
    ReviewMap)
    requires
        completions@.len() == segments@.len(),
    ensures
        m.wf(),
        m.as_map() == run_all_spec(segments.deep_view(), completions_view(completions@)),
{
    let ghost dv = segments.deep_view();
    let ghost cv = completions_view(completions@);
    let ghost orig = completions@;
    let mut rest = completions;
    let mut m = ReviewMap::new();
    let mut i: usize = 0;
    while i < segments.len()
        invariant
            i <= segments@.len(),
            dv == segments.deep_view(),
            cv == completions_view(orig),
            orig.len() == segments@.len(),
            rest@ =~= orig.skip(i as int),
            m.wf(),
            m.as_map() == collect_spec(reviews_of(dv, cv).take(i as int)),
        decreases segments@.len() - i,
    {
        let ghost pre = m.as_map();
        let c = rest.remove(0);
        proof {
            assert(c == orig[i as int]);
            assert(rest@ =~= orig.skip(i + 1));
            assert(segments@[i as int]@ == dv[i as int]);
        }
        match crate::review::process_file_diff(segments[i].as_str(), c) {
            Some(r) => {
                m.insert(r.path, r.review_text);
            },
            None => {},
        }
        proof {
            let rs = reviews_of(dv, cv);
            assert(rs.take(i + 1).drop_last() =~= rs.take(i as int));
            assert(rs.take(i + 1).last() == rs[i as int]);
            assert(rs[i as int] == review_file_spec(dv[i as int], cv[i as int]));
        }
        i += 1;
    }
    proof {
        let rs = reviews_of(dv, cv);
        assert(rs.take(rs.len() as int) =~= rs);
    }
    m
}

/// The collected map's domain is exactly the set of paths the present
/// results carry, and that set is finite.
pub proof fn lemma_collect_dom(results: Seq<Option<(Seq<char>, Seq<char>)>>)
    ensures
        collect_spec(results).dom() =~= paths_of(results),
        paths_of(results).finite(),
    decreases results.len(),
{
    broadcast use vstd::set::axiom_set_empty_finite, vstd::set::axiom_set_insert_finite;

    if results.len() > 0 {
        lemma_collect_dom(results.drop_last());
    }
}

/// A path is in the path set exactly when some present result carries it.
pub proof fn lemma_paths_of_contains(results: Seq<Option<(Seq<char>, Seq<char>)>>, p: Seq<char>)
    ensures
        paths_of(results).contains(p) <==> exists|i: int|
            0 <= i < results.len() && (#[trigger] results[i]) is Some && results[i]->Some_0.0 == p,
    decreases results.len(),
{
    if results.len() > 0 {
        let prefix = results.drop_last();
        lemma_paths_of_contains(prefix, p);
        if paths_of(results).contains(p) {
            if results.last() is Some && results.last()->Some_0.0 == p {
                assert(results[results.len() - 1] is Some && results[results.len() - 1]->Some_0.0
                    == p);
            } else {
                let i = choose|i: int|
                    0 <= i < prefix.len() && (#[trigger] prefix[i]) is Some && prefix[i]->Some_0.0
                        == p;
                assert(results[i] is Some && results[i]->Some_0.0 == p);
            }
        } else {
            assert forall|i: int|
                0 <= i < results.len() && (#[trigger] results[i]) is Some implies
                results[i]->Some_0.0 != p by {
                if i < results.len() - 1 {
                    assert(prefix[i] == results[i]);
                }
            }
        }
    }
}

/// Map-key uniqueness: the collected map has exactly one entry per distinct
/// path among the results, and the text recorded for a path is the text of
/// one of the results that carried that path — never a merge of two.
pub proof fn lemma_map_key_uniqueness(results: Seq<Option<(Seq<char>, Seq<char>)>>)
    ensures
        collect_spec(results).dom() =~= paths_of(results),
        forall|p: Seq<char>|
            #[trigger] paths_of(results).contains(p) ==> exists|i: int|
                0 <= i < results.len() && results[i] == Some((p, collect_spec(results)[p])),
    decreases results.len(),
{
    lemma_collect_dom(results);
    if results.len() > 0 {
        let prefix = results.drop_last();
        lemma_map_key_uniqueness(prefix);
        lemma_collect_dom(prefix);
        assert forall|p: Seq<char>| #[trigger] paths_of(results).contains(p) implies exists|i: int|
            0 <= i < results.len() && results[i] == Some((p, collect_spec(results)[p])) by {
            if results.last() is Some && results.last()->Some_0.0 == p {
                let e = results.last()->Some_0;
                assert(collect_spec(results)[p] == e.1);
                assert(results[results.len() - 1] == Some((p, collect_spec(results)[p])));
            } else {
                assert(paths_of(prefix).contains(p));
                let i = choose|i: int|
                    0 <= i < prefix.len() && prefix[i] == Some((p, collect_spec(prefix)[p]));
                assert(collect_spec(results)[p] == collect_spec(prefix)[p]);
                assert(results[i] == Some((p, collect_spec(results)[p])));
            }
        }
    }
}

/// The merged map's domain is exact: a path has an entry exactly when some
/// segment's header names it — never an entry for a path no segment named,
/// and never a parseable segment without its entry.
pub proof fn lemma_run_all_dom(diffs: Seq<Seq<char>>, comps: Seq<Option<Seq<char>>>)
    requires
        diffs.len() == comps.len(),
    ensures
        forall|p: Seq<char>|
            #[trigger] run_all_spec(diffs, comps).dom().contains(p) <==> exists|i: int|
                0 <= i < diffs.len() && extract_path_spec(#[trigger] diffs[i]) == Some(p),
{
    let rs = reviews_of(diffs, comps);
    lemma_collect_dom(rs);
    assert forall|p: Seq<char>| #[trigger] run_all_spec(diffs, comps).dom().contains(p) <==> (
    exists|i: int| 0 <= i < diffs.len() && extract_path_spec(#[trigger] diffs[i]) == Some(p)) by {
        lemma_paths_of_contains(rs, p);
        if exists|i: int|
            0 <= i < rs.len() && (#[trigger] rs[i]) is Some && rs[i]->Some_0.0 == p {
            let i = choose|i: int|
                0 <= i < rs.len() && (#[trigger] rs[i]) is Some && rs[i]->Some_0.0 == p;
            assert(extract_path_spec(diffs[i]) == Some(p));
        }
        if exists|i: int| 0 <= i < diffs.len() && extract_path_spec(#[trigger] diffs[i]) == Some(
            p,
        ) {
            let i = choose|i: int|
                0 <= i < diffs.len() && extract_path_spec(#[trigger] diffs[i]) == Some(p);
            assert(rs[i] is Some && rs[i]->Some_0.0 == p);
        }
    }
}

/// No two present results share a path.
pub open spec fn distinct_result_paths(results: Seq<Option<(Seq<char>, Seq<char>)>>) -> bool {
    forall|a: int, b: int|
        0 <= a < b < results.len() && (#[trigger] results[a]) is Some && (#[trigger] results[b])
            is Some ==> results[a]->Some_0.0 != results[b]->Some_0.0
}

/// With pairwise distinct paths, each present result's text is exactly what
/// the collected map records for its path.
pub proof fn lemma_collect_distinct_index(results: Seq<Option<(Seq<char>, Seq<char>)>>, i: int)
    requires
        distinct_result_paths(results),
        0 <= i < results.len(),
        results[i] is Some,
    ensures
        collect_spec(results).dom().contains(results[i]->Some_0.0),
        collect_spec(results)[results[i]->Some_0.0] == results[i]->Some_0.1,
    decreases results.len(),
{
    let prefix = results.drop_last();
    if i == results.len() - 1 {
    } else {
        assert(distinct_result_paths(prefix)) by {
            assert forall|a: int, b: int|
                0 <= a < b < prefix.len() && (#[trigger] prefix[a]) is Some && (
                #[trigger] prefix[b]) is Some implies prefix[a]->Some_0.0 != prefix[b]->Some_0.0 by {
                assert(results[a] == prefix[a] && results[b] == prefix[b]);
            }
        }
        assert(prefix[i] == results[i]);
        lemma_collect_distinct_index(prefix, i);
        if results.last() is Some {
            assert(results[results.len() - 1] is Some);
            assert(results[i]->Some_0.0 != results[results.len() - 1]->Some_0.0);
        }
    }
}

/// Partial-failure tolerance: when the analysis fails for exactly one of
/// the segments (all paths distinct), the merged map still has one entry per
/// parseable segment — the failed file's entry with an empty review, every
/// other small file's entry with its generated text, and oversized files
/// with empty reviews.
pub proof fn lemma_partial_failure_tolerance(
    diffs: Seq<Seq<char>>,
    comps: Seq<Option<Seq<char>>>,
    j: int,
)
    requires
        diffs.len() == comps.len(),
        0 <= j < diffs.len(),
        comps[j] is None,
        forall|i: int| 0 <= i < diffs.len() && i != j ==> (#[trigger] comps[i]) is Some,
        forall|a: int, b: int|
            0 <= a < b < diffs.len() && (#[trigger] extract_path_spec(diffs[a])) is Some && (
            #[trigger] extract_path_spec(diffs[b])) is Some ==> extract_path_spec(
                diffs[a],
            )->Some_0 != extract_path_spec(diffs[b])->Some_0,
    ensures
        forall|p: Seq<char>|
            #[trigger] run_all_spec(diffs, comps).dom().contains(p) <==> exists|i: int|
                0 <= i < diffs.len() && extract_path_spec(#[trigger] diffs[i]) == Some(p),
        extract_path_spec(diffs[j]) is Some ==> run_all_spec(diffs, comps)[extract_path_spec(
            diffs[j],
        )->Some_0] == Seq::<char>::empty(),
        forall|i: int|
            0 <= i < diffs.len() && i != j && (#[trigger] extract_path_spec(diffs[i])) is Some
                && diffs[i].len() < MAX_SUMMARY_LENGTH ==> run_all_spec(
                diffs,
                comps,
            )[extract_path_spec(diffs[i])->Some_0] == comps[i]->Some_0,
        forall|i: int|
            0 <= i < diffs.len() && (#[trigger] extract_path_spec(diffs[i])) is Some && diffs[i].len()
                >= MAX_SUMMARY_LENGTH ==> run_all_spec(diffs, comps)[extract_path_spec(
                diffs[i],
            )->Some_0] == Seq::<char>::empty(),
{
    let rs = reviews_of(diffs, comps);
    assert(distinct_result_paths(rs)) by {
        assert forall|a: int, b: int|
            0 <= a < b < rs.len() && (#[trigger] rs[a]) is Some && (#[trigger] rs[b])
                is Some implies rs[a]->Some_0.0 != rs[b]->Some_0.0 by {
            assert(extract_path_spec(diffs[a]) is Some && extract_path_spec(diffs[b]) is Some);
        }
    }
    lemma_run_all_dom(diffs, comps);
    if extract_path_spec(diffs[j]) is Some {
        assert(rs[j] is Some);
        lemma_collect_distinct_index(rs, j);
    }
    assert forall|i: int|
        0 <= i < diffs.len() && i != j && (#[trigger] extract_path_spec(diffs[i])) is Some
            && diffs[i].len() < MAX_SUMMARY_LENGTH implies run_all_spec(diffs, comps)[
    extract_path_spec(diffs[i])->Some_0] == comps[i]->Some_0 by {
        assert(rs[i] is Some);
        lemma_collect_distinct_index(rs, i);
    }
    assert forall|i: int|
        0 <= i < diffs.len() && (#[trigger] extract_path_spec(diffs[i])) is Some && diffs[i].len()
            >= MAX_SUMMARY_LENGTH implies run_all_spec(diffs, comps)[extract_path_spec(
        diffs[i],
    )->Some_0] == Seq::<char>::empty() by {
        assert(rs[i] is Some);
        lemma_collect_distinct_index(rs, i);
    }
}

} // verus!
