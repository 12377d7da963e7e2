use vstd::prelude::*;

use crate::text::str_eq;

verus! {

/// The map that results from inserting the pairs in order, a later pair for a name
/// replacing an earlier one.
pub open spec fn counts_map(pairs: Seq<(Seq<char>, i32)>) -> Map<Seq<char>, i32>
    decreases pairs.len(),
{
    if pairs.len() == 0 {
        Map::empty()
    } else {
        counts_map(pairs.drop_last()).insert(pairs.last().0, pairs.last().1)
    }
}

/// The texts of the names in a list of `(name, count)` entries.
pub open spec fn pair_views(entries: Seq<(String, i32)>) -> Seq<(Seq<char>, i32)> {
    entries.map_values(|e: (String, i32)| (e.0@, e.1))
}

/// No name occurs twice.
pub open spec fn names_unique(pairs: Seq<(Seq<char>, i32)>) -> bool {
    forall|i: int, j: int| 0 <= i < j < pairs.len() ==> pairs[i].0 != pairs[j].0
}

/// A pair whose name occurs at no later position decides that name's count.
pub proof fn lemma_counts_map_last_wins(pairs: Seq<(Seq<char>, i32)>, i: int)
    requires
        0 <= i < pairs.len(),
        forall|j: int| i < j < pairs.len() ==> pairs[j].0 != pairs[i].0,
    ensures
        counts_map(pairs).contains_key(pairs[i].0),
        counts_map(pairs)[pairs[i].0] == pairs[i].1,
    decreases pairs.len(),
{
    if i < pairs.len() - 1 {
        let rest = pairs.drop_last();
        assert forall|j: int| i < j < rest.len() implies rest[j].0 != rest[i].0 by {
            assert(rest[j] == pairs[j]);
        }
        lemma_counts_map_last_wins(rest, i);
        assert(rest[i] == pairs[i]);
    }
}

/// A name that no pair carries has no count.
pub proof fn lemma_counts_map_absent(pairs: Seq<(Seq<char>, i32)>, name: Seq<char>)
    requires
        forall|j: int| 0 <= j < pairs.len() ==> pairs[j].0 != name,
    ensures
        !counts_map(pairs).contains_key(name),
    decreases pairs.len(),
{
    if pairs.len() > 0 {
        let rest = pairs.drop_last();
        assert forall|j: int| 0 <= j < rest.len() implies rest[j].0 != name by {
            assert(rest[j] == pairs[j]);
        }
        lemma_counts_map_absent(rest, name);
    }
}

/// Replacing the count of a name that occurs once is inserting the new count.
pub proof fn lemma_counts_map_update(pairs: Seq<(Seq<char>, i32)>, i: int, count: i32)
    requires
        0 <= i < pairs.len(),
        names_unique(pairs),
    ensures
        counts_map(pairs.update(i, (pairs[i].0, count))) =~= counts_map(pairs).insert(
            pairs[i].0,
            count,
        ),
    decreases pairs.len(),
{
    let updated = pairs.update(i, (pairs[i].0, count));
    let rest = pairs.drop_last();
    if i == pairs.len() - 1 {
        assert(updated.drop_last() =~= rest);
    } else {
        assert(updated.drop_last() =~= rest.update(i, (rest[i].0, count)));
        assert(names_unique(rest)) by {
            assert forall|a: int, b: int| 0 <= a < b < rest.len() implies rest[a].0 != rest[b].0 by {
                assert(rest[a] == pairs[a]);
                assert(rest[b] == pairs[b]);
            }
        }
        lemma_counts_map_update(rest, i, count);
        assert(pairs.last().0 != pairs[i].0);
        assert(updated.last() == pairs.last());
    }
}

/// Reading a name after recording a count for it gives that count, and recording it
/// leaves every other name's count as it was.
pub proof fn lemma_count_read_after_write(
    before: Map<Seq<char>, i32>,
    name: Seq<char>,
    count: i32,
    other: Seq<char>,
)
    ensures
        before.insert(name, count).contains_key(name),
        before.insert(name, count)[name] == count,
        other != name ==> before.insert(name, count).contains_key(other) == before.contains_key(
            other,
        ),
        other != name && before.contains_key(other) ==> before.insert(name, count)[other]
            == before[other],
{
}

/// Counts per status name: one count for each name, the last one recorded for it.
pub struct StatusCounts {
    entries: Vec<(String, i32)>,
}

impl View for StatusCounts {
    type V = Map<Seq<char>, i32>;

    closed spec fn view(&self) -> Map<Seq<char>, i32> {
        counts_map(pair_views(self.entries@))
    }
}

impl StatusCounts {
    #[verifier::type_invariant]
    closed spec fn names_once(self) -> bool {
        names_unique(pair_views(self.entries@))
    }

    /// No counts at all.
    pub fn new() -> (r: StatusCounts)
        ensures
            r@ == Map::<Seq<char>, i32>::empty(),
    {
        let r = StatusCounts { entries: Vec::new() };
        assert(pair_views(r.entries@) =~= Seq::<(Seq<char>, i32)>::empty());
        r
    }

    /// Records `count` for `name`, replacing the count it had.
    pub fn insert(&mut self, name: String, count: i32)
        ensures
            final(self)@ == old(self)@.insert(name@, count),
    {
        proof {
            use_type_invariant(&*self);
        }
        let ghost before = pair_views(self.entries@);
        let n = self.entries.len();
        let mut i: usize = 0;
        while i < n
            invariant
                n == self.entries@.len(),
                before == pair_views(self.entries@),
                before == pair_views(old(self).entries@),
                names_unique(before),
                i <= n,
                forall|j: int| 0 <= j < i ==> before[j].0 != name@,
            decreases n - i,
        {
            if str_eq(self.entries[i].0.as_str(), name.as_str()) {
                let ghost k = before[i as int].0;
                assert(k == name@);
                let mut entries: Vec<(String, i32)> = Vec::new();
                std::mem::swap(&mut entries, &mut self.entries);
                entries.set(i, (name, count));
                proof {
                    assert(pair_views(entries@) =~= before.update(i as int, (k, count)));
                    lemma_counts_map_update(before, i as int, count);
                    assert(names_unique(pair_views(entries@))) by {
                        assert forall|a: int, b: int|
                            0 <= a < b < entries@.len() implies pair_views(entries@)[a].0
                            != pair_views(entries@)[b].0 by {
                            assert(pair_views(entries@)[a].0 == before[a].0);
                            assert(pair_views(entries@)[b].0 == before[b].0);
                        }
                    }
                }
                self.entries = entries;
                return;
            }
            i = i + 1;
        }
        let ghost key = name@;
        let mut entries: Vec<(String, i32)> = Vec::new();
                std::mem::swap(&mut entries, &mut self.entries);
        entries.push((name, count));
        proof {
            assert(pair_views(entries@) =~= before.push((key, count)));
            assert(pair_views(entries@).drop_last() =~= before);
            assert(names_unique(pair_views(entries@))) by {
                assert forall|a: int, b: int|
                    0 <= a < b < entries@.len() implies pair_views(entries@)[a].0 != pair_views(
                    entries@,
                )[b].0 by {
                    assert(pair_views(entries@)[a].0 == before[a].0);
                }
            }
        }
        self.entries = entries;
    }

    /// The count recorded for `name`, if any.
    pub fn get(&self, name: &str) -> (r: Option<i32>)
        ensures
            r == (if self@.contains_key(name@) {
                Some(self@[name@])
            } else {
                None
            }),
    {
        proof {
            use_type_invariant(self);
        }
        let ghost pairs = pair_views(self.entries@);
        let n = self.entries.len();
        let mut i: usize = 0;
        while i < n
            invariant
                n == self.entries@.len(),
                pairs == pair_views(self.entries@),
                names_unique(pairs),
                i <= n,
                forall|j: int| 0 <= j < i ==> pairs[j].0 != name@,
            decreases n - i,
        {
            if str_eq(self.entries[i].0.as_str(), name) {
                proof {
                    lemma_counts_map_last_wins(pairs, i as int);
                }
                return Some(self.entries[i].1);
            }
            i = i + 1;
        }
        proof {
            lemma_counts_map_absent(pairs, name@);
        }
        None
    }

    /// Whether no count is recorded.
    pub fn is_empty(&self) -> (r: bool)
        ensures
            r == (self@ == Map::<Seq<char>, i32>::empty()),
    {
        proof {
            use_type_invariant(self);
        }
        let r = self.entries.len() == 0;
        proof {
            let pairs = pair_views(self.entries@);
            if r {
                assert(pairs =~= Seq::<(Seq<char>, i32)>::empty());
            } else {
                lemma_counts_map_last_wins(pairs, 0);
                assert(self@.contains_key(pairs[0].0));
            }
        }
        r
    }

    /// The recorded `(name, count)` entries, each name once, in no promised order.
    pub fn entries(&self) -> (r: &Vec<(String, i32)>)
        ensures
            names_unique(pair_views(r@)),
            counts_map(pair_views(r@)) == self@,
    {
        proof {
            use_type_invariant(self);
        }
        &self.entries
    }
}

} // verus!
