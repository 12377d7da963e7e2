use vstd::prelude::*;

use crate::models::request::{EmailMessageStatus, EmailRequest};
use crate::text::{i32_text, int_text};

verus! {

/// A request that waits for its schedule time, as the scheduler reads it.
pub struct PendingRow {
    pub id: Option<i64>,
    pub topic_id: String,
    pub email: String,
    pub subject: String,
    pub content: String,
}

/// The ids of the rows that have one, in row order, narrowed to `i32`.
pub open spec fn pending_ids(rows: Seq<PendingRow>) -> Seq<i32>
    decreases rows.len(),
{
    if rows.len() == 0 {
        Seq::empty()
    } else {
        let earlier = pending_ids(rows.drop_last());
        match rows.last().id {
            Some(id) => earlier.push(id as i32),
            None => earlier,
        }
    }
}

/// The ids written as a comma-separated list.
pub open spec fn ids_text(ids: Seq<i32>) -> Seq<char>
    decreases ids.len(),
{
    if ids.len() == 0 {
        Seq::empty()
    } else if ids.len() == 1 {
        int_text(ids[0] as int)
    } else {
        ids_text(ids.drop_last()) + ","@ + int_text(ids.last() as int)
    }
}

/// The statement that moves those requests with these ids that still wait (`Created`) to
/// `Processed` and returns the ids it moved.
pub open spec fn mark_processing_statement(ids: Seq<i32>) -> Seq<char> {
    "UPDATE email_requests SET status = 1 WHERE status = 0 AND id IN ("@ + ids_text(ids)
        + ") RETURNING id"@
}

/// Whether a row is sent once the marking ran: a row without an id always (it cannot be
/// marked), a row with one only when the marking statement reported its id as moved.
pub open spec fn is_marked(row: PendingRow, marked: Seq<i64>) -> bool {
    match row.id {
        Some(id) => marked.contains(id),
        None => true,
    }
}

/// The rows to send once the marking ran, in row order.
pub open spec fn marked_rows(rows: Seq<PendingRow>, marked: Seq<i64>) -> Seq<PendingRow>
    decreases rows.len(),
{
    if rows.len() == 0 {
        Seq::empty()
    } else if is_marked(rows.last(), marked) {
        marked_rows(rows.drop_last(), marked).push(rows.last())
    } else {
        marked_rows(rows.drop_last(), marked)
    }
}

/// The request that a pending row is handed to the sender as: its id (0 when the row
/// has none), its text fields, status `Created`, and nothing else.
pub open spec fn is_pending_request(r: EmailRequest, row: PendingRow) -> bool {
    &&& r.id == Some(
        (match row.id {
            Some(id) => id,
            None => 0,
        }) as i32,
    )
    &&& r.topic_id == Some(row.topic_id)
    &&& r.email == row.email
    &&& r.subject == row.subject
    &&& r.content == row.content
    &&& r.scheduled_at is None
    &&& r.status == EmailMessageStatus::Created.code_of()
    &&& r.error is None
    &&& r.message_id is None
}

/// The ids that the scheduler marks are the ids of exactly the rows that carry one,
/// narrowed to `i32`, in row order; every row's id (narrowed) is among them.
pub proof fn lemma_pending_ids_are_row_ids(rows: Seq<PendingRow>)
    ensures
        pending_ids(rows) == rows.filter_map(
            |row: PendingRow|
                match row.id {
                    Some(id) => Some(id as i32),
                    None => None,
                },
        ),
        pending_ids(rows).len() <= rows.len(),
        forall|j: int|
            0 <= j < rows.len() && #[trigger] rows[j].id is Some ==> pending_ids(rows).contains(
                rows[j].id.unwrap() as i32,
            ),
    decreases rows.len(),
{
    if rows.len() > 0 {
        let rest = rows.drop_last();
        lemma_pending_ids_are_row_ids(rest);
        let f = |row: PendingRow|
            match row.id {
                Some(id) => Some(id as i32),
                None => None,
            };
        assert(rows.filter_map(f) == match f(rows.last()) {
            Some(v) => rest.filter_map(f) + seq![v],
            None => rest.filter_map(f),
        });
        match rows.last().id {
            Some(id) => {
                assert(pending_ids(rest).push(id as i32) =~= rest.filter_map(f) + seq![id as i32]);
            },
            None => {},
        }
        assert forall|j: int|
            0 <= j < rows.len() && #[trigger] rows[j].id is Some implies pending_ids(rows).contains(
                rows[j].id.unwrap() as i32,
            ) by {
            if j < rows.len() - 1 {
                assert(rest[j] == rows[j]);
                let k = choose|k: int|
                    0 <= k < pending_ids(rest).len() && pending_ids(rest)[k] == rest[j].id.unwrap() as i32;
                assert(pending_ids(rows)[k] == pending_ids(rest)[k]);
            } else {
                assert(rows[j] == rows.last());
                assert(pending_ids(rows).last() == rows[j].id.unwrap() as i32);
            }
        }
    }
}

/// What the scheduler does with one fetch of due requests.
pub enum BatchPlan {
    /// The fetch failed: report it and fetch again.
    FetchFailed,
    /// Nothing is due: wait a minute and fetch again.
    Idle,
    /// Run `mark_processing` (where some row has an id), which marks the waiting rows as
    /// processing and returns their ids; then plan the dispatch of `rows` with those ids.
    Dispatch { mark_processing: Option<String>, rows: Vec<PendingRow> },
}

/// What the scheduler sends once the marking statement has run.
pub enum DispatchPlan {
    /// The marking failed: send nothing and fetch again.
    Retry,
    /// Hand these requests to the sender.
    Send(Vec<EmailRequest>),
}

/// The ids of the rows that carry one, in row order.
pub fn collect_pending_ids(rows: &Vec<PendingRow>) -> (r: Vec<i32>)
    ensures
        r@ == pending_ids(rows@),
{
    let mut ids: Vec<i32> = Vec::new();
    let n = rows.len();
    let mut i: usize = 0;
    while i < n
        invariant
            n == rows@.len(),
            i <= n,
            ids@ == pending_ids(rows@.take(i as int)),
        decreases n - i,
    {
        assert(rows@.take(i + 1).drop_last() =~= rows@.take(i as int));
        assert(rows@.take(i + 1).last() == rows@[i as int]);
        match rows[i].id {
            Some(id) => ids.push(id as i32),
            None => {},
        }
        i = i + 1;
    }
    assert(rows@.take(n as int) =~= rows@);
    ids
}

/// The statement that marks the requests with `ids` as processing.
pub fn mark_processing_sql(ids: &Vec<i32>) -> (r: String)
    ensures
        r@ == mark_processing_statement(ids@),
{
    let mut sql = String::new();
    sql.append("UPDATE email_requests SET status = 1 WHERE status = 0 AND id IN (");
    let ghost head = sql@;
    let n = ids.len();
    let mut i: usize = 0;
    assert(ids@.take(0) =~= Seq::<i32>::empty());
    while i < n
        invariant
            n == ids@.len(),
            i <= n,
            sql@ == head + ids_text(ids@.take(i as int)),
        decreases n - i,
    {
        if i > 0 {
            sql.append(",");
        }
        let t = i32_text(ids[i]);
        sql.append(t.as_str());
        proof {
            reveal_strlit(",");
            let next = ids@.take(i + 1);
            assert(next.drop_last() =~= ids@.take(i as int));
            assert(next.last() == ids@[i as int]);
            assert(sql@ =~= head + ids_text(next));
        }
        i = i + 1;
    }
    sql.append(") RETURNING id");
    proof {
        reveal_strlit("UPDATE email_requests SET status = 1 WHERE status = 0 AND id IN (");
        reveal_strlit(") RETURNING id");
        assert(ids@.take(n as int) =~= ids@);
        assert(sql@ =~= mark_processing_statement(ids@));
    }
    sql
}

/// The request that a pending row is handed to the sender as.
pub fn pending_request(row: &PendingRow) -> (r: EmailRequest)
    ensures
        is_pending_request(r, *row),
{
    let id: i64 = match row.id {
        Some(id) => id,
        None => 0,
    };
    EmailRequest {
        id: Some(id as i32),
        topic_id: Some(row.topic_id.clone()),
        email: row.email.clone(),
        subject: row.subject.clone(),
        content: row.content.clone(),
        scheduled_at: None,
        status: EmailMessageStatus::Created.code(),
        error: None,
        message_id: None,
    }
}

/// The scheduler's plan for one fetch of due requests (`None` where the fetch failed):
/// an empty fetch waits; otherwise the rows with ids are marked and the rows dispatched.
pub fn plan_batch(fetched: Option<Vec<PendingRow>>) -> (r: BatchPlan)
    ensures
        match fetched {
            None => r is FetchFailed,
            Some(rows) => if rows@.len() == 0 {
                r is Idle
            } else {
                &&& r is Dispatch
                &&& r->rows == rows
                &&& (pending_ids(rows@).len() == 0 ==> r->mark_processing is None)
                &&& (pending_ids(rows@).len() > 0 ==> r->mark_processing is Some
                    && r->mark_processing.unwrap()@ == mark_processing_statement(pending_ids(rows@)))
            },
        },
{
    match fetched {
        None => BatchPlan::FetchFailed,
        Some(rows) => {
            if rows.len() == 0 {
                return BatchPlan::Idle;
            }
            let ids = collect_pending_ids(&rows);
            let mark_processing = if ids.len() > 0 {
                Some(mark_processing_sql(&ids))
            } else {
                None
            };
            BatchPlan::Dispatch { mark_processing, rows }
        },
    }
}

fn contains_id(ids: &Vec<i64>, id: i64) -> (r: bool)
    ensures
        r == ids@.contains(id),
{
    let n = ids.len();
    let mut i: usize = 0;
    while i < n
        invariant
            n == ids@.len(),
            i <= n,
            forall|j: int| 0 <= j < i ==> ids@[j] != id,
        decreases n - i,
    {
        if ids[i] == id {
            assert(ids@[i as int] == id);
            return true;
        }
        i = i + 1;
    }
    false
}

/// What to send once the marking ran (`None` where it failed; an empty list where there was
/// nothing to mark): the rows without an id and the rows whose ids it reported as moved,
/// in row order, each as the request it stands for.
pub fn plan_dispatch(rows: &Vec<PendingRow>, marked: Option<Vec<i64>>) -> (r: DispatchPlan)
    ensures
        match marked {
            None => r is Retry,
            Some(ids) => {
                &&& r is Send
                &&& r->Send_0@.len() == marked_rows(rows@, ids@).len()
                &&& forall|k: int|
                    0 <= k < r->Send_0@.len() ==> is_pending_request(
                        #[trigger] r->Send_0@[k],
                        marked_rows(rows@, ids@)[k],
                    )
            },
        },
{
    match marked {
        None => DispatchPlan::Retry,
        Some(ids) => {
            let mut requests: Vec<EmailRequest> = Vec::new();
            let n = rows.len();
            let mut i: usize = 0;
            while i < n
                invariant
                    n == rows@.len(),
                    i <= n,
                    requests@.len() == marked_rows(rows@.take(i as int), ids@).len(),
                    forall|k: int|
                        0 <= k < requests@.len() ==> is_pending_request(
                            #[trigger] requests@[k],
                            marked_rows(rows@.take(i as int), ids@)[k],
                        ),
                decreases n - i,
            {
                assert(rows@.take(i + 1).drop_last() =~= rows@.take(i as int));
                assert(rows@.take(i + 1).last() == rows@[i as int]);
                let selected = match rows[i].id {
                    Some(id) => contains_id(&ids, id),
                    None => true,
                };
                if selected {
                    requests.push(pending_request(&rows[i]));
                }
                i = i + 1;
            }
            assert(rows@.take(n as int) =~= rows@);
            DispatchPlan::Send(requests)
        },
    }
}

/// The rows sent are exactly the fetched rows, in order, that have no id or whose id the
/// marking reported: nothing else is sent and none of these is left out or repeated.
pub proof fn lemma_sent_rows_are_filtered(rows: Seq<PendingRow>, marked: Seq<i64>)
    ensures
        marked_rows(rows, marked) == rows.filter(|row: PendingRow| is_marked(row, marked)),
    decreases rows.len(),
{
    reveal_with_fuel(Seq::<PendingRow>::filter, 1);
    if rows.len() > 0 {
        lemma_sent_rows_are_filtered(rows.drop_last(), marked);
    }
}

/// No row with an id is sent unless the marking statement reported that id: each
/// dispatched row is one of the fetched rows and has no id or a reported one.
pub proof fn lemma_only_marked_rows_dispatched(rows: Seq<PendingRow>, marked: Seq<i64>, k: int)
    requires
        0 <= k < marked_rows(rows, marked).len(),
    ensures
        is_marked(marked_rows(rows, marked)[k], marked),
        rows.contains(marked_rows(rows, marked)[k]),
    decreases rows.len(),
{
    let rest = rows.drop_last();
    if is_marked(rows.last(), marked) && k == marked_rows(rest, marked).len() {
        assert(rows[rows.len() - 1] == rows.last());
    } else {
        lemma_only_marked_rows_dispatched(rest, marked, k);
        let j = choose|j: int| 0 <= j < rest.len() && rest[j] == marked_rows(rest, marked)[k];
        assert(rows[j] == rest[j]);
    }
}

} // verus!
