//! The per-file result map: path-keyed reviews with unique keys, where a
//! later result for the same path overwrites the earlier one. The map is
//! modelled as a `Map<Seq<char>, Seq<char>>`, and its entry order (which the
//! combined summary text follows) as a sequence of pairs.

use vstd::prelude::*;

use crate::text::str_eq;

verus! {

/// Path-to-review map built from a sequence of entries, a later entry for a
/// key overwriting an earlier one.
pub open spec fn map_of(entries: Seq<(Seq<char>, Seq<char>)>) -> Map<Seq<char>, Seq<char>>
    decreases entries.len(),
{
    if entries.len() == 0 {
        Map::empty()
    } else {
        map_of(entries.drop_last()).insert(entries.last().0, entries.last().1)
    }
}

/// The set of keys of a sequence of entries.
pub open spec fn key_set(entries: Seq<(Seq<char>, Seq<char>)>) -> Set<Seq<char>>
    decreases entries.len(),
{
    if entries.len() == 0 {
        Set::empty()
    } else {
        key_set(entries.drop_last()).insert(entries.last().0)
    }
}

/// No two entries share a key.
pub open spec fn distinct_keys(entries: Seq<(Seq<char>, Seq<char>)>) -> bool {
    forall|i: int, j: int|
        0 <= i < j < entries.len() ==> (#[trigger] entries[i]).0 != (#[trigger] entries[j]).0
}

/// The domain of the entry map is exactly the entries' key set, which is
/// finite.
pub proof fn lemma_map_of_dom(entries: Seq<(Seq<char>, Seq<char>)>)
    ensures
        map_of(entries).dom() =~= key_set(entries),
        key_set(entries).finite(),
    decreases entries.len(),
{
    broadcast use vstd::set::axiom_set_empty_finite, vstd::set::axiom_set_insert_finite;

    if entries.len() > 0 {
        lemma_map_of_dom(entries.drop_last());
    }
}

/// A key is in the key set exactly when some entry carries it.
pub proof fn lemma_key_set_contains(entries: Seq<(Seq<char>, Seq<char>)>, k: Seq<char>)
    ensures
        key_set(entries).contains(k) <==> exists|i: int|
            0 <= i < entries.len() && (#[trigger] entries[i]).0 == k,
    decreases entries.len(),
{
    if entries.len() > 0 {
        lemma_key_set_contains(entries.drop_last(), k);
        if entries.last().0 == k {
            assert(entries[entries.len() - 1].0 == k);
        } else if key_set(entries).contains(k) {
            let i = choose|i: int| 0 <= i < entries.drop_last().len() && (#[trigger] entries.drop_last()[i]).0 == k;
            assert(entries[i].0 == k);
        } else {
            assert forall|i: int| 0 <= i < entries.len() implies (#[trigger] entries[i]).0 != k by {
                if i < entries.len() - 1 {
                    assert(entries.drop_last()[i].0 != k);
                }
            }
        }
    }
}

/// With distinct keys, the map has exactly one entry per list entry.
pub proof fn lemma_key_set_len(entries: Seq<(Seq<char>, Seq<char>)>)
    requires
        distinct_keys(entries),
    ensures
        key_set(entries).len() == entries.len(),
    decreases entries.len(),
{
    broadcast use vstd::set::axiom_set_empty_finite, vstd::set::axiom_set_insert_finite,
        vstd::set::axiom_set_empty_len, vstd::set::axiom_set_insert_len;

    if entries.len() > 0 {
        let prefix = entries.drop_last();
        assert(distinct_keys(prefix)) by {
            assert forall|i: int, j: int| 0 <= i < j < prefix.len() implies (#[trigger] prefix[i]).0
                != (#[trigger] prefix[j]).0 by {
                assert(entries[i].0 != entries[j].0);
            }
        }
        lemma_key_set_len(prefix);
        lemma_map_of_dom(prefix);
        lemma_key_set_contains(prefix, entries.last().0);
        assert(!key_set(prefix).contains(entries.last().0)) by {
            if key_set(prefix).contains(entries.last().0) {
                let i = choose|i: int| 0 <= i < prefix.len() && (#[trigger] prefix[i]).0
                    == entries.last().0;
                assert(entries[i].0 == entries[entries.len() - 1].0);
            }
        }
    }
}

/// With distinct keys, looking an entry's key up in the map gives that
/// entry's value.
pub proof fn lemma_map_of_index(entries: Seq<(Seq<char>, Seq<char>)>, i: int)
    requires
        distinct_keys(entries),
        0 <= i < entries.len(),
    ensures
        map_of(entries).dom().contains(entries[i].0),
        map_of(entries)[entries[i].0] == entries[i].1,
    decreases entries.len(),
{
    let prefix = entries.drop_last();
    if i == entries.len() - 1 {
    } else {
        assert(distinct_keys(prefix)) by {
            assert forall|a: int, b: int| 0 <= a < b < prefix.len() implies (#[trigger] prefix[a]).0
                != (#[trigger] prefix[b]).0 by {
                assert(entries[a].0 != entries[b].0);
            }
        }
        assert(prefix[i] == entries[i]);
        lemma_map_of_index(prefix, i);
        assert(entries[i].0 != entries.last().0) by {
            assert(entries[i].0 != entries[entries.len() - 1].0);
        }
    }
}

/// The mapping from file path to review text. Keys are unique; a later
/// insert for a path that is already present overwrites its review text.
pub struct ReviewMap {
    entries: Vec<(String, String)>,
}

impl ReviewMap {
    /// The entries in insertion order, as character sequences.
    pub closed spec fn entries_seq(self) -> Seq<(Seq<char>, Seq<char>)> {
        Seq::new(self.entries@.len(), |i: int| (self.entries@[i].0@, self.entries@[i].1@))
    }

    /// The map's mathematical value.
    pub open spec fn as_map(self) -> Map<Seq<char>, Seq<char>> {
        map_of(self.entries_seq())
    }

    /// Well-formedness: no two entries share a path.
    pub open spec fn wf(self) -> bool {
        distinct_keys(self.entries_seq())
    }

    /// An empty map.
    pub fn new() -> (m: ReviewMap)
        ensures
            m.wf(),
            m.entries_seq() == Seq::<(Seq<char>, Seq<char>)>::empty(),
            m.as_map() == Map::<Seq<char>, Seq<char>>::empty(),
    {
        let m = ReviewMap { entries: Vec::new() };
        proof {
            assert(m.entries_seq() =~= Seq::<(Seq<char>, Seq<char>)>::empty());
            assert(m.as_map() =~= Map::<Seq<char>, Seq<char>>::empty());
        }
        m
    }

    /// How many files have an entry: one per distinct path.
    pub fn len(&self) -> (n: usize)
        ensures
            n == self.entries_seq().len(),
            self.wf() ==> n == self.as_map().dom().len(),
    {
        proof {
            if self.wf() {
                lemma_map_of_dom(self.entries_seq());
                lemma_key_set_len(self.entries_seq());
            }
        }
        self.entries.len()
    }

    /// The entry at a position, in insertion order.
    pub fn entry_at(&self, i: usize) -> (e: &(String, String))
        requires
            i < self.entries_seq().len(),
        ensures
            (e.0@, e.1@) == self.entries_seq()[i as int],
    {
        &self.entries[i]
    }

    /// Records the review for a path: a path already present keeps its place
    /// and gets the new text; a new path is appended.
    pub fn insert(&mut self, path: String, review_text: String)
        requires
            old(self).wf(),
        ensures
            final(self).wf(),
            final(self).as_map() == old(self).as_map().insert(path@, review_text@),
            forall|j: int|
                0 <= j < old(self).entries_seq().len() && (#[trigger] old(self).entries_seq()[j]).0
                    == path@ ==> final(self).entries_seq() == old(self).entries_seq().update(
                    j,
                    (path@, review_text@),
                ),
            (forall|j: int|
                0 <= j < old(self).entries_seq().len() ==> (#[trigger] old(
                    self,
                ).entries_seq()[j]).0 != path@) ==> final(self).entries_seq() == old(
                self,
            ).entries_seq().push((path@, review_text@)),
    {
        let ghost old_entries = self.entries_seq();
        let n = self.entries.len();
        let mut j: usize = 0;
        while j < n
            invariant
                j <= n,
                n == old_entries.len(),
                self.entries_seq() == old_entries,
                self == old(self),
                distinct_keys(old_entries),
                forall|k: int| 0 <= k < j ==> (#[trigger] old_entries[k]).0 != path@,
            decreases n - j,
        {
            let hit = str_eq(self.entries[j].0.as_str(), path.as_str());
            if hit {
                self.entries.remove(j);
                self.entries.insert(j, (path, review_text));
                proof {
                    let updated = old_entries.update(j as int, (path@, review_text@));
                    assert(self.entries_seq() =~= updated);
                    assert(distinct_keys(updated)) by {
                        assert forall|a: int, b: int| 0 <= a < b < updated.len() implies (
                        #[trigger] updated[a]).0 != (#[trigger] updated[b]).0 by {
                            assert(updated[a].0 == old_entries[a].0);
                            assert(updated[b].0 == old_entries[b].0);
                            assert(old_entries[a].0 != old_entries[b].0);
                        }
                    }
                    lemma_map_of_update(old_entries, j as int, review_text@);
                }
                return;
            }
            j += 1;
        }
        self.entries.push((path, review_text));
        proof {
            let pushed = old_entries.push((path@, review_text@));
            assert(self.entries_seq() =~= pushed);
            assert(pushed.drop_last() =~= old_entries);
            assert(distinct_keys(pushed)) by {
                assert forall|a: int, b: int| 0 <= a < b < pushed.len() implies (
                #[trigger] pushed[a]).0 != (#[trigger] pushed[b]).0 by {
                    if b < pushed.len() - 1 {
                        assert(old_entries[a].0 != old_entries[b].0);
                    } else {
                        assert(old_entries[a].0 != path@);
                    }
                }
            }
        }
    }

    /// The review recorded for a path, if the path has an entry.
    pub fn get(&self, path: &str) -> (r: Option<&String>)
        requires
            self.wf(),
        ensures
            r is Some <==> self.as_map().dom().contains(path@),
            r is Some ==> r->Some_0@ == self.as_map()[path@],
    {
        let n = self.entries.len();
        let mut j: usize = 0;
        while j < n
            invariant
                j <= n,
                n == self.entries_seq().len(),
                self.wf(),
                forall|k: int| 0 <= k < j ==> (#[trigger] self.entries_seq()[k]).0 != path@,
            decreases n - j,
        {
            let hit = str_eq(self.entries[j].0.as_str(), path);
            if hit {
                proof {
                    lemma_map_of_index(self.entries_seq(), j as int);
                }
                return Some(&self.entries[j].1);
            }
            j += 1;
        }
        proof {
            lemma_map_of_dom(self.entries_seq());
            lemma_key_set_contains(self.entries_seq(), path@);
        }
        None
    }
}

/// Updating the entry that carries a key is, on the map, an overwriting
/// insert of that key.
pub proof fn lemma_map_of_update(entries: Seq<(Seq<char>, Seq<char>)>, j: int, v: Seq<char>)
    requires
        distinct_keys(entries),
        0 <= j < entries.len(),
    ensures
        map_of(entries.update(j, (entries[j].0, v))) == map_of(entries).insert(entries[j].0, v),
    decreases entries.len(),
{
    let k = entries[j].0;
    let updated = entries.update(j, (k, v));
    let prefix = entries.drop_last();
    if j == entries.len() - 1 {
        assert(updated.drop_last() =~= prefix);
        assert(updated.last() == (k, v));
        assert(map_of(prefix).insert(k, entries.last().1).insert(k, v) =~= map_of(prefix).insert(
            k,
            v,
        ));
    } else {
        assert(distinct_keys(prefix)) by {
            assert forall|a: int, b: int| 0 <= a < b < prefix.len() implies (#[trigger] prefix[a]).0
                != (#[trigger] prefix[b]).0 by {
                assert(entries[a].0 != entries[b].0);
            }
        }
        assert(prefix[j] == entries[j]);
        lemma_map_of_update(prefix, j, v);
        assert(updated.drop_last() =~= prefix.update(j, (k, v)));
        assert(updated.last() == entries.last());
        assert(k != entries.last().0) by {
            assert(entries[j].0 != entries[entries.len() - 1].0);
        }
        assert(map_of(prefix).insert(k, v).insert(entries.last().0, entries.last().1) =~= map_of(
            prefix,
        ).insert(entries.last().0, entries.last().1).insert(k, v));
    }
}

} // verus!
