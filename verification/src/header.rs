//! The header parser: pulls the changed file's path out of a per-file diff
//! segment. A segment's header line reads `diff --git a/<path> b/<path>`;
//! the path is the text after the ` b/` token, up to the end of that line.
//! A segment without such a header yields no path (and no map entry), which
//! is an absent value, never an error.

use vstd::prelude::*;
use vstd::string::*;

use crate::text::{find_from, first_match_from, match_at};

verus! {

/// The path named by a segment's header, if one can be parsed: locate the
/// leftmost `diff --git a/` marker, cut the rest of that line, and take what
/// follows the leftmost ` b/` token on it.
pub open spec fn extract_path_spec(s: Seq<char>) -> Option<Seq<char>> {
    match first_match_from(s, "diff --git a/"@, 0) {
        None => None,
        Some(m) => {
            let rest_start = m + "diff --git a/"@.len();
            let line_end = match first_match_from(s, "\n"@, rest_start) {
                None => s.len() as int,
                Some(e) => e,
            };
            let line = s.subrange(rest_start, line_end);
            match first_match_from(line, " b/"@, 0) {
                None => None,
                Some(b) => Some(line.subrange(b + " b/"@.len(), line.len() as int)),
            }
        },
    }
}

/// Path extraction correctness, well-formed side: a segment whose header
/// line names the file `p` (and whose path contains no newline and no
/// ` b/` token of its own) yields exactly `p`.
pub proof fn lemma_extract_path_of_header(p: Seq<char>, body: Seq<char>)
    requires
        !p.contains('\n'),
        forall|i: int| !match_at(p, " b/"@, i),
    ensures
        extract_path_spec("diff --git a/"@ + p + " b/"@ + p + "\n"@ + body) == Some(p),
{
    reveal_strlit("diff --git a/");
    reveal_strlit(" b/");
    reveal_strlit("\n");
    let m = "diff --git a/"@;
    let tok = " b/"@;
    let nl = "\n"@;
    let s = m + p + tok + p + nl + body;
    let l = p.len() as int;
    assert(m.len() == 13);
    assert(tok.len() == 3);
    assert(nl.len() == 1);
    let e = 16 + 2 * l;
    // the marker opens the segment, so its leftmost occurrence is position 0
    assert(match_at(s, m, 0)) by {
        assert forall|j: int| 0 <= j < 13 implies s[j] == m[j] by {}
    }
    assert(first_match_from(s, m, 0) == Some(0int));
    // the header line ends at the newline planted after the b-side path
    assert(match_at(s, nl, e)) by {
        assert(s[e] == '\n');
    }
    assert forall|i: int| 13 <= i < e implies !match_at(s, nl, i) by {
        if match_at(s, nl, i) {
            assert(s[i] == nl[0]);
            if i < 13 + l {
                assert(s[i] == p[i - 13]);
                assert(p.contains('\n'));
            } else if i < 16 + l {
                assert(s[i] == tok[i - 13 - l]);
            } else {
                assert(s[i] == p[i - 16 - l]);
                assert(p.contains('\n'));
            }
        }
    }
    crate::text::lemma_first_match_found(s, nl, 13, e);
    // the header line is the a-side path, the token, and the b-side path
    let line = s.subrange(13, e);
    assert(line =~= p + tok + p);
    // the token's leftmost occurrence on the line is right after the a-side
    // path: it cannot sit inside the path, and a window that straddles the
    // path's end mismatches the token on its last character
    assert(match_at(line, tok, l)) by {
        assert forall|j: int| 0 <= j < 3 implies line[l + j] == tok[j] by {}
    }
    assert forall|i: int| 0 <= i < l implies !match_at(line, tok, i) by {
        if match_at(line, tok, i) {
            if i + 3 <= l {
                assert(match_at(p, tok, i)) by {
                    assert forall|j: int| 0 <= j < 3 implies p[i + j] == tok[j] by {
                        assert(line[i + j] == p[i + j]);
                    }
                }
            } else if i == l - 2 {
                assert(line[i + 2] == tok[0]);
                assert(line[i + 2] == tok[2]);
            } else {
                assert(i == l - 1);
                assert(line[i + 2] == tok[1]);
                assert(line[i + 2] == tok[2]);
            }
        }
    }
    crate::text::lemma_first_match_found(line, tok, 0, l);
    // what follows the token to the end of the line is the path
    assert(line.subrange(l + 3, line.len() as int) =~= p);
}

/// Path extraction correctness, malformed side: a segment in which the
/// header marker occurs nowhere yields no path.
pub proof fn lemma_extract_path_absent(s: Seq<char>)
    requires
        forall|i: int| !match_at(s, "diff --git a/"@, i),
    ensures
        extract_path_spec(s) is None,
{
    crate::text::lemma_first_match_correct(s, "diff --git a/"@, 0);
    if first_match_from(s, "diff --git a/"@, 0) is Some {
        let k = first_match_from(s, "diff --git a/"@, 0)->Some_0;
        assert(match_at(s, "diff --git a/"@, k));
    }
}

/// Returns the path that the segment's header names, or `None` for a
/// malformed or absent header.
pub fn get_file_name_from_diff(file_diff: &str) -> (r: Option<String>)
    ensures
        r is Some <==> extract_path_spec(file_diff@) is Some,
        r is Some ==> r->Some_0@ == extract_path_spec(file_diff@)->Some_0,
{
    let n = file_diff.unicode_len();
    let marker = "diff --git a/";
    let m = match find_from(file_diff, marker, 0) {
        None => {
            return None;
        },
        Some(m) => m,
    };
    proof {
        crate::text::lemma_first_match_correct(file_diff@, marker@, 0);
    }
    let rest_start = m + marker.unicode_len();
    let line_end = match find_from(file_diff, "\n", rest_start) {
        None => n,
        Some(e) => e,
    };
    proof {
        crate::text::lemma_first_match_correct(file_diff@, "\n"@, rest_start as int);
    }
    let line = file_diff.substring_char(rest_start, line_end);
    let b = match find_from(line, " b/", 0) {
        None => {
            return None;
        },
        Some(b) => b,
    };
    proof {
        crate::text::lemma_first_match_correct(line@, " b/"@, 0);
    }
    let tok = " b/";
    let path = line.substring_char(b + tok.unicode_len(), line.unicode_len());
    Some(path.to_owned())
}

} // verus!
