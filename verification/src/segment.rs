//! The diff segmenter: splits a raw multi-file diff into per-file segments on
//! a marker string, keeping the marker as the head of the segment it opens
//! (a prefix-inclusive split), so that the segments concatenate back to the
//! original blob.

use vstd::prelude::*;
use vstd::string::*;

use crate::text::match_at;

verus! {

/// Remaining pieces of a prefix-inclusive split of `s` on `d`, while the
/// current piece started at `start` and positions below `i` have been
/// scanned: the text is cut at every position `>= i` where `d` occurs, and
/// the tail `s[start..]` is the part still to be emitted.
pub open spec fn split_from(s: Seq<char>, d: Seq<char>, start: int, i: int) -> Seq<Seq<char>>
    decreases s.len() - i,
{
    if i < 0 || i >= s.len() {
        seq![s.subrange(start, s.len() as int)]
    } else if match_at(s, d, i) {
        seq![s.subrange(start, i)] + split_from(s, d, i, i + 1)
    } else {
        split_from(s, d, start, i + 1)
    }
}

/// Prefix-inclusive split of `s` on the delimiter `d`: `s` is cut before
/// every occurrence of `d` except one at the very start, and each cut point
/// begins a new piece. An empty `s` has no pieces.
pub open spec fn split_spec(s: Seq<char>, d: Seq<char>) -> Seq<Seq<char>> {
    if s.len() == 0 {
        Seq::empty()
    } else {
        split_from(s, d, 0, 1)
    }
}

/// Concatenation of a sequence of pieces.
pub open spec fn concat_all(pieces: Seq<Seq<char>>) -> Seq<char>
    decreases pieces.len(),
{
    if pieces.len() == 0 {
        Seq::empty()
    } else {
        concat_all(pieces.drop_last()) + pieces.last()
    }
}

/// Concatenation peels off the head piece.
pub proof fn lemma_concat_all_cons(head: Seq<char>, rest: Seq<Seq<char>>)
    ensures
        concat_all(seq![head] + rest) == head + concat_all(rest),
    decreases rest.len(),
{
    if rest.len() == 0 {
        assert(seq![head] + rest =~= seq![head]);
        assert((seq![head]).drop_last() =~= Seq::<Seq<char>>::empty());
        assert(concat_all(seq![head]) == concat_all(Seq::<Seq<char>>::empty()) + head);
        assert(head + concat_all(rest) =~= head);
        assert(Seq::<char>::empty() + head =~= head);
    } else {
        let whole = seq![head] + rest;
        assert(whole.drop_last() =~= seq![head] + rest.drop_last());
        assert(whole.last() == rest.last());
        lemma_concat_all_cons(head, rest.drop_last());
        assert(concat_all(whole) == (head + concat_all(rest.drop_last())) + rest.last());
        assert((head + concat_all(rest.drop_last())) + rest.last() =~= head + (concat_all(
            rest.drop_last(),
        ) + rest.last()));
    }
}

/// The pieces still to be emitted concatenate to the unscanned tail.
pub proof fn lemma_split_from_concat(s: Seq<char>, d: Seq<char>, start: int, i: int)
    requires
        0 <= start < i <= s.len(),
    ensures
        concat_all(split_from(s, d, start, i)) == s.subrange(start, s.len() as int),
    decreases s.len() - i,
{
    if i >= s.len() {
        let piece = s.subrange(start, s.len() as int);
        assert((seq![piece]).drop_last() =~= Seq::<Seq<char>>::empty());
        assert(concat_all(seq![piece]) == concat_all(Seq::<Seq<char>>::empty()) + piece);
        assert(concat_all(Seq::<Seq<char>>::empty()) + piece =~= piece);
    } else if match_at(s, d, i) {
        lemma_split_from_concat(s, d, i, i + 1);
        lemma_concat_all_cons(s.subrange(start, i), split_from(s, d, i, i + 1));
        assert(s.subrange(start, i) + s.subrange(i, s.len() as int) =~= s.subrange(
            start,
            s.len() as int,
        ));
    } else {
        lemma_split_from_concat(s, d, start, i + 1);
    }
}

/// Segmentation round trip: concatenating the pieces of the prefix-inclusive
/// split reproduces the original text exactly, for every text and every
/// delimiter.
pub proof fn lemma_split_round_trip(s: Seq<char>, d: Seq<char>)
    ensures
        concat_all(split_spec(s, d)) == s,
{
    if s.len() == 0 {
        assert(concat_all(split_spec(s, d)) =~= s);
    } else {
        lemma_split_from_concat(s, d, 0, 1);
        assert(s.subrange(0, s.len() as int) =~= s);
    }
}

/// The piece begins with the delimiter.
pub open spec fn starts_with(piece: Seq<char>, d: Seq<char>) -> bool {
    piece.len() >= d.len() && piece.subrange(0, d.len() as int) == d
}

/// When the current piece opened on an occurrence of `d` (at `start`) and no
/// further occurrence lies in `(start, i)`, every remaining piece begins
/// with `d` — as long as the first character of `d` occurs nowhere else in
/// `d`, so that occurrences of `d` cannot overlap.
proof fn lemma_split_from_all_marked(s: Seq<char>, d: Seq<char>, start: int, i: int)
    requires
        0 <= start < i <= s.len(),
        forall|k: int| 1 <= k < d.len() ==> #[trigger] d[k] != d[0],
        match_at(s, d, start),
        forall|k: int| start < k < i ==> !match_at(s, d, k),
    ensures
        forall|k: int|
            0 <= k < split_from(s, d, start, i).len() ==> starts_with(
                #[trigger] split_from(s, d, start, i)[k],
                d,
            ),
    decreases s.len() - i,
{
    let pieces = split_from(s, d, start, i);
    if i >= s.len() {
        let p0 = s.subrange(start, s.len() as int);
        assert(p0.subrange(0, d.len() as int) =~= d);
    } else if match_at(s, d, i) {
        // occurrences of d cannot overlap: the one at i lies at or past the
        // end of the one at start
        if i < start + d.len() {
            assert(s[i] == d[0]);
            assert(s[start + (i - start)] == d[i - start]);
            assert(false);
        }
        let p0 = s.subrange(start, i);
        assert(p0.subrange(0, d.len() as int) =~= d);
        lemma_split_from_all_marked(s, d, i, i + 1);
        let rest = split_from(s, d, i, i + 1);
        assert forall|k: int| 0 <= k < pieces.len() implies starts_with(#[trigger] pieces[k], d) by {
            if k > 0 {
                assert(pieces[k] == rest[k - 1]);
                assert(starts_with(rest[k - 1], d));
            }
        }
    } else {
        lemma_split_from_all_marked(s, d, start, i + 1);
        let next = split_from(s, d, start, i + 1);
        assert forall|k: int| 0 <= k < pieces.len() implies starts_with(#[trigger] pieces[k], d) by {
            assert(starts_with(next[k], d));
        }
    }
}

/// Every piece after the first begins with the delimiter, while no
/// occurrence lies in the scanned range `(start, i)`.
proof fn lemma_split_from_marked(s: Seq<char>, d: Seq<char>, start: int, i: int)
    requires
        0 <= start < i <= s.len(),
        forall|k: int| 1 <= k < d.len() ==> #[trigger] d[k] != d[0],
    ensures
        forall|k: int|
            1 <= k < split_from(s, d, start, i).len() ==> starts_with(
                #[trigger] split_from(s, d, start, i)[k],
                d,
            ),
    decreases s.len() - i,
{
    let pieces = split_from(s, d, start, i);
    if i >= s.len() {
    } else if match_at(s, d, i) {
        lemma_split_from_all_marked(s, d, i, i + 1);
        let rest = split_from(s, d, i, i + 1);
        assert forall|k: int| 1 <= k < pieces.len() implies starts_with(#[trigger] pieces[k], d) by {
            assert(pieces[k] == rest[k - 1]);
            assert(starts_with(rest[k - 1], d));
        }
    } else {
        lemma_split_from_marked(s, d, start, i + 1);
        let next = split_from(s, d, start, i + 1);
        assert forall|k: int| 1 <= k < pieces.len() implies starts_with(#[trigger] pieces[k], d) by {
            assert(starts_with(next[k], d));
        }
    }
}

/// Marker-boundary law: when the first character of the delimiter occurs
/// nowhere else in it (true of a marker that alone starts on a new line),
/// the split cuts exactly at delimiter boundaries — every piece after the
/// first begins with the delimiter.
pub proof fn lemma_split_marker_boundary(s: Seq<char>, d: Seq<char>)
    requires
        forall|k: int| 1 <= k < d.len() ==> #[trigger] d[k] != d[0],
    ensures
        forall|k: int|
            1 <= k < split_spec(s, d).len() ==> starts_with(#[trigger] split_spec(s, d)[k], d),
{
    if s.len() > 0 {
        lemma_split_from_marked(s, d, 0, 1);
    }
}

/// Splits `s` before every occurrence of `delim` except one at position 0;
/// the delimiter stays at the head of the piece it opens, so the returned
/// pieces concatenate back to `s`.
pub fn split_prefix_inclusive(s: &str, delim: &str) -> (r: Vec<String>)
    ensures
        r.deep_view() == split_spec(s@, delim@),
{
    let n = s.unicode_len();
    let mut pieces: Vec<String> = Vec::new();
    if n == 0 {
        proof {
            assert(pieces.deep_view() =~= split_spec(s@, delim@));
        }
        return pieces;
    }
    let mut start: usize = 0;
    let mut i: usize = 1;
    while i < n
        invariant
            0 <= start < i <= n,
            n == s@.len(),
            pieces.deep_view() + split_from(s@, delim@, start as int, i as int) == split_spec(
                s@,
                delim@,
            ),
        decreases n - i,
    {
        if crate::text::contains_at(s, delim, i) {
            let ghost old_pieces = pieces.deep_view();
            let piece = s.substring_char(start, i).to_owned();
            pieces.push(piece);
            proof {
                assert(pieces.deep_view() =~= old_pieces + seq![s@.subrange(
                    start as int,
                    i as int,
                )]);
                assert(old_pieces + split_from(s@, delim@, start as int, i as int) == old_pieces + (
                seq![s@.subrange(start as int, i as int)] + split_from(
                    s@,
                    delim@,
                    i as int,
                    i + 1,
                )));
                assert(old_pieces + (seq![s@.subrange(start as int, i as int)] + split_from(
                    s@,
                    delim@,
                    i as int,
                    i + 1,
                )) =~= (old_pieces + seq![s@.subrange(start as int, i as int)]) + split_from(
                    s@,
                    delim@,
                    i as int,
                    i + 1,
                ));
            }
            start = i;
        }
        i += 1;
    }
    let ghost old_pieces = pieces.deep_view();
    let piece = s.substring_char(start, n).to_owned();
    pieces.push(piece);
    proof {
        assert(split_from(s@, delim@, start as int, i as int) =~= seq![s@.subrange(
            start as int,
            s@.len() as int,
        )]);
        assert(pieces.deep_view() =~= old_pieces + seq![s@.subrange(start as int, s@.len() as int)]);
    }
    pieces
}

/// Concatenates the segments back into one blob: the executable inverse used
/// by the round-trip law.
pub fn join_segments(segments: &Vec<String>) -> (r: String)
    ensures
        r@ == concat_all(segments.deep_view()),
{
    let mut acc = String::new();
    let mut i: usize = 0;
    while i < segments.len()
        invariant
            i <= segments.len(),
            acc@ == concat_all(segments.deep_view().take(i as int)),
        decreases segments.len() - i,
    {
        acc.append(segments[i].as_str());
        proof {
            let dv = segments.deep_view();
            assert(dv.take(i + 1).drop_last() =~= dv.take(i as int));
            assert(dv.take(i + 1).last() == dv[i as int]);
        }
        i += 1;
    }
    proof {
        assert(segments.deep_view().take(segments.len() as int) =~= segments.deep_view());
    }
    acc
}

} // verus!
