use vstd::prelude::*;

use crate::models::counts::{
    counts_map, lemma_counts_map_absent, lemma_counts_map_last_wins, StatusCounts,
};

verus! {

/// One delivery event of a request, as stored in `email_results`.
#[derive(Clone, Debug)]
pub struct EmailResult {
    pub id: Option<i32>,
    pub request_id: i32,
    pub status: String,
    pub raw: Option<String>,
}

/// The `(name, count)` pairs that rows of `(status, count)` stand for.
pub open spec fn result_count_pairs(rows: Seq<(String, i64)>) -> Seq<(Seq<char>, i32)> {
    rows.map_values(|row: (String, i64)| (row.0@, row.1 as i32))
}

/// Each status's count is the count of its last row, narrowed to `i32`; a status without
/// a row has no count.
pub proof fn lemma_result_counts_are_row_counts(rows: Seq<(String, i64)>, j: int, other: Seq<char>)
    requires
        0 <= j < rows.len(),
        forall|k: int| j < k < rows.len() ==> rows[k].0@ != rows[j].0@,
    ensures
        counts_map(result_count_pairs(rows)).contains_key(rows[j].0@),
        counts_map(result_count_pairs(rows))[rows[j].0@] == rows[j].1 as i32,
        (forall|k: int| 0 <= k < rows.len() ==> rows[k].0@ != other) ==> !counts_map(
            result_count_pairs(rows),
        ).contains_key(other),
{
    let pairs = result_count_pairs(rows);
    assert forall|k: int| j < k < pairs.len() implies pairs[k].0 != pairs[j].0 by {
        assert(pairs[k].0 == rows[k].0@);
    }
    assert(pairs[j] == (rows[j].0@, rows[j].1 as i32));
    lemma_counts_map_last_wins(pairs, j);
    if forall|k: int| 0 <= k < rows.len() ==> rows[k].0@ != other {
        assert forall|k: int| 0 <= k < pairs.len() implies pairs[k].0 != other by {
            assert(pairs[k].0 == rows[k].0@);
        }
        lemma_counts_map_absent(pairs, other);
    }
}

impl EmailResult {
    /// The result as stored under the row id `id` (narrowed to `i32` when present).
    pub fn with_id(self, id: Option<i64>) -> (r: EmailResult)
        ensures
            r == (EmailResult {
                id: match id {
                    Some(v) => Some(v as i32),
                    None => None,
                },
                ..self
            }),
    {
        let id: Option<i32> = match id {
            Some(v) => Some(v as i32),
            None => None,
        };
        EmailResult { id, ..self }
    }

    /// Counts per status from rows of `(status, count)`; a later row replaces an
    /// earlier one with the same status.
    pub fn counts_by_status(rows: &Vec<(String, i64)>) -> (r: StatusCounts)
        ensures
            r@ == counts_map(result_count_pairs(rows@)),
    {
        let ghost pairs = result_count_pairs(rows@);
        let mut counts = StatusCounts::new();
        let n = rows.len();
        let mut i: usize = 0;
        assert(pairs.take(0) =~= Seq::<(Seq<char>, i32)>::empty());
        while i < n
            invariant
                n == rows@.len(),
                pairs == result_count_pairs(rows@),
                i <= n,
                counts@ == counts_map(pairs.take(i as int)),
            decreases n - i,
        {
            let status = rows[i].0.clone();
            let count = rows[i].1;
            counts.insert(status, count as i32);
            assert(pairs.take(i + 1).drop_last() =~= pairs.take(i as int));
            i = i + 1;
        }
        assert(pairs.take(n as int) =~= pairs);
        counts
    }
}

} // verus!
